//! What a Jira trigger node of a workflow asks for.

use vstd::prelude::*;
use vstd::string::*;
use crate::github::triggers::{event_names, extract_event_names};
use crate::matching::{event_filter_matches, event_filter_takes};
use crate::n8n::models::{Workflow, WorkflowModel, WorkflowNode, WorkflowNodeModel};
use crate::text::str_eq;

verus! {

/// The configuration of one Jira trigger.
#[derive(Debug)]
pub struct JiraTriggerConfig {
    /// The engine's webhook identifier, from which the webhook URLs are built.
    pub webhook_id: String,
    pub workflow_id: String,
    pub workflow_name: String,
    /// Whether the workflow is active. An active workflow gets deliveries on
    /// its production and its test webhook, an inactive one on the test
    /// webhook only.
    pub workflow_active: bool,
    /// The events listened for, such as `jira:issue_created`, or `*` for all.
    pub events: Vec<String>,
}

/// The view of a `JiraTriggerConfig`.
pub struct JiraTriggerModel {
    pub webhook_id: Seq<char>,
    pub workflow_id: Seq<char>,
    pub workflow_name: Seq<char>,
    pub workflow_active: bool,
    pub events: Seq<Seq<char>>,
}

impl View for JiraTriggerConfig {
    type V = JiraTriggerModel;

    open spec fn view(&self) -> JiraTriggerModel {
        JiraTriggerModel {
            webhook_id: self.webhook_id@,
            workflow_id: self.workflow_id@,
            workflow_name: self.workflow_name@,
            workflow_active: self.workflow_active,
            events: self.events.deep_view(),
        }
    }
}

impl DeepView for JiraTriggerConfig {
    type V = JiraTriggerModel;

    open spec fn deep_view(&self) -> JiraTriggerModel {
        self@
    }
}

impl Clone for JiraTriggerConfig {
    fn clone(&self) -> (r: Self)
        ensures
            r@ == self@,
    {
        let events = self.events.clone();
        assert(events.deep_view() =~= self.events.deep_view());
        JiraTriggerConfig {
            webhook_id: self.webhook_id.clone(),
            workflow_id: self.workflow_id.clone(),
            workflow_name: self.workflow_name.clone(),
            workflow_active: self.workflow_active,
            events,
        }
    }
}

impl JiraTriggerConfig {
    /// Whether this trigger takes the event `webhook_event`: it listens for
    /// the wildcard `*` or for that very event.
    pub fn matches_event(&self, webhook_event: &str) -> (r: bool)
        ensures
            r == event_filter_takes(self@.events, webhook_event@),
    {
        event_filter_matches(&self.events, webhook_event)
    }
}

/// The trigger that `node` of `workflow` configures: none unless the node
/// is a Jira trigger and has a webhook identifier.
pub open spec fn jira_trigger_of(workflow: WorkflowModel, node: WorkflowNodeModel) -> Option<
    JiraTriggerModel,
> {
    if node.node_type == "n8n-nodes-base.jiraTrigger"@ && node.webhook_id is Some {
        Some(
            JiraTriggerModel {
                webhook_id: node.webhook_id->0,
                workflow_id: workflow.id,
                workflow_name: workflow.name,
                workflow_active: workflow.active,
                events: event_names(node.parameters),
            },
        )
    } else {
        None
    }
}

/// Reads the Jira trigger that a node of a workflow configures.
pub fn parse_jira_trigger(workflow: &Workflow, node: &WorkflowNode) -> (r: Option<
    JiraTriggerConfig,
>)
    ensures
        r.deep_view() == jira_trigger_of(workflow@, node@),
{
    if !str_eq(node.node_type.as_str(), "n8n-nodes-base.jiraTrigger") {
        return None;
    }
    let events = extract_event_names(&node.parameters);
    let webhook_id = match &node.webhook_id {
        Some(id) => id.clone(),
        None => { return None; },
    };
    Some(
        JiraTriggerConfig {
            webhook_id,
            workflow_id: workflow.id.clone(),
            workflow_name: workflow.name.clone(),
            workflow_active: workflow.active,
            events,
        },
    )
}

} // verus!
