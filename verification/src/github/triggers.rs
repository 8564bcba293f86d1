//! What a GitHub trigger node of a workflow asks for.

use vstd::prelude::*;
use vstd::string::*;
use crate::json::{texts_of, JsonModel, JsonValue};
use crate::n8n::models::{Workflow, WorkflowModel, WorkflowNode, WorkflowNodeModel};
use crate::text::str_eq;

verus! {

/// The configuration of one GitHub trigger.
#[derive(Debug)]
pub struct GitHubTriggerConfig {
    /// The engine's webhook identifier: the key that ties the trigger to
    /// the secret captured for it.
    pub webhook_id: String,
    pub workflow_id: String,
    pub workflow_name: String,
    /// Whether the workflow is active. An active workflow gets deliveries on
    /// its production and its test webhook, an inactive one on the test
    /// webhook only.
    pub workflow_active: bool,
    /// The events listened for, such as `push`, or `*` for all.
    pub events: Vec<String>,
    /// The owner of the repository watched; empty where none is configured.
    pub owner: String,
    /// The repository watched; empty where none is configured.
    pub repository: String,
    /// The signing secret that the engine keeps in the workflow's state.
    pub webhook_secret: Option<String>,
}

/// The view of a `GitHubTriggerConfig`.
pub struct GitHubTriggerModel {
    pub webhook_id: Seq<char>,
    pub workflow_id: Seq<char>,
    pub workflow_name: Seq<char>,
    pub workflow_active: bool,
    pub events: Seq<Seq<char>>,
    pub owner: Seq<char>,
    pub repository: Seq<char>,
    pub webhook_secret: Option<Seq<char>>,
}

impl View for GitHubTriggerConfig {
    type V = GitHubTriggerModel;

    open spec fn view(&self) -> GitHubTriggerModel {
        GitHubTriggerModel {
            webhook_id: self.webhook_id@,
            workflow_id: self.workflow_id@,
            workflow_name: self.workflow_name@,
            workflow_active: self.workflow_active,
            events: self.events.deep_view(),
            owner: self.owner@,
            repository: self.repository@,
            webhook_secret: self.webhook_secret.deep_view(),
        }
    }
}

impl DeepView for GitHubTriggerConfig {
    type V = GitHubTriggerModel;

    open spec fn deep_view(&self) -> GitHubTriggerModel {
        self@
    }
}

impl Clone for GitHubTriggerConfig {
    fn clone(&self) -> (r: Self)
        ensures
            r@ == self@,
    {
        let events = self.events.clone();
        assert(events.deep_view() =~= self.events.deep_view());
        GitHubTriggerConfig {
            webhook_id: self.webhook_id.clone(),
            workflow_id: self.workflow_id.clone(),
            workflow_name: self.workflow_name.clone(),
            workflow_active: self.workflow_active,
            events,
            owner: self.owner.clone(),
            repository: self.repository.clone(),
            webhook_secret: self.webhook_secret.clone(),
        }
    }
}

/// The value of the parameter `field`, which is either a plain text or an
/// object that holds the text under `value`. The object form goes first; an
/// empty text counts as absent.
pub open spec fn resource_locator_value(params: JsonModel, field: Seq<char>) -> Option<Seq<char>> {
    match params.get(field) {
        None => None,
        Some(p) => if p.text_at("value"@) is Some && p.text_at("value"@)->0.len() > 0 {
            p.text_at("value"@)
        } else if p.as_str() is Some && p.as_str()->0.len() > 0 {
            p.as_str()
        } else {
            None
        },
    }
}

/// The secret that the workflow's state holds for the node `node_name`: the
/// text at `webhookSecret` under the key `node:<node_name>`.
pub open spec fn embedded_secret(static_data: Option<JsonModel>, node_name: Seq<char>) -> Option<
    Seq<char>,
> {
    match static_data {
        None => None,
        Some(data) => match data.get("node:"@ + node_name) {
            None => None,
            Some(state) => state.text_at("webhookSecret"@),
        },
    }
}

/// The texts of the array at `events`; none where there is no such array.
pub open spec fn event_names(params: JsonModel) -> Seq<Seq<char>> {
    match params.get("events"@) {
        Some(JsonModel::Array(items)) => texts_of(items),
        _ => Seq::empty(),
    }
}

/// The trigger that `node` of `workflow` configures: none unless the node
/// is a GitHub trigger and has a webhook identifier.
pub open spec fn github_trigger_of(workflow: WorkflowModel, node: WorkflowNodeModel) -> Option<
    GitHubTriggerModel,
> {
    if node.node_type == "n8n-nodes-base.githubTrigger"@ && node.webhook_id is Some {
        Some(
            GitHubTriggerModel {
                webhook_id: node.webhook_id->0,
                workflow_id: workflow.id,
                workflow_name: workflow.name,
                workflow_active: workflow.active,
                events: event_names(node.parameters),
                owner: match resource_locator_value(node.parameters, "owner"@) {
                    Some(v) => v,
                    None => Seq::empty(),
                },
                repository: match resource_locator_value(node.parameters, "repository"@) {
                    Some(v) => v,
                    None => Seq::empty(),
                },
                webhook_secret: embedded_secret(workflow.static_data, node.name),
            },
        )
    } else {
        None
    }
}

/// The texts of the array at `events` in a node's parameters.
pub fn extract_event_names(params: &JsonValue) -> (r: Vec<String>)
    ensures
        r.deep_view() == event_names(params@),
{
    match params.get("events") {
        Some(v) => {
            let names = v.texts();
            proof {
                if !(v@ is Array) {
                    assert(names.deep_view() =~= Seq::<Seq<char>>::empty());
                }
            }
            names
        },
        None => {
            let names: Vec<String> = Vec::new();
            assert(names.deep_view() =~= Seq::<Seq<char>>::empty());
            names
        },
    }
}

/// The value of a parameter that is a plain text or a resource locator.
pub fn extract_resource_locator_value(params: &JsonValue, field: &str) -> (r: Option<String>)
    ensures
        r.deep_view() == resource_locator_value(params@, field@),
{
    let param = match params.get(field) {
        Some(p) => p,
        None => { return None; },
    };
    match param.text_at("value") {
        Some(value) => {
            if !value.is_empty() {
                return Some(String::from_str(value));
            }
        },
        None => {},
    }
    match param.as_str() {
        Some(value) => {
            if !value.is_empty() {
                return Some(String::from_str(value));
            }
        },
        None => {},
    }
    None
}

/// The signing secret that a workflow's state holds for one of its nodes.
pub fn extract_webhook_secret(workflow: &Workflow, node_name: &str) -> (r: Option<String>)
    ensures
        r.deep_view() == embedded_secret(workflow@.static_data, node_name@),
{
    let data = match &workflow.static_data {
        Some(d) => d,
        None => { return None; },
    };
    let mut key = String::from_str("node:");
    key.append(node_name);
    match data.get(key.as_str()) {
        Some(state) => match state.text_at("webhookSecret") {
            Some(secret) => Some(String::from_str(secret)),
            None => None,
        },
        None => None,
    }
}

/// Reads the GitHub trigger that a node of a workflow configures.
pub fn parse_github_trigger(workflow: &Workflow, node: &WorkflowNode) -> (r: Option<
    GitHubTriggerConfig,
>)
    ensures
        r.deep_view() == github_trigger_of(workflow@, node@),
{
    if !str_eq(node.node_type.as_str(), "n8n-nodes-base.githubTrigger") {
        return None;
    }
    let events = extract_event_names(&node.parameters);
    let owner = match extract_resource_locator_value(&node.parameters, "owner") {
        Some(v) => v,
        None => String::new(),
    };
    let repository = match extract_resource_locator_value(&node.parameters, "repository") {
        Some(v) => v,
        None => String::new(),
    };
    let webhook_id = match &node.webhook_id {
        Some(id) => id.clone(),
        None => { return None; },
    };
    let webhook_secret = extract_webhook_secret(workflow, node.name.as_str());
    Some(
        GitHubTriggerConfig {
            webhook_id,
            workflow_id: workflow.id.clone(),
            workflow_name: workflow.name.clone(),
            workflow_active: workflow.active,
            events,
            owner,
            repository,
            webhook_secret,
        },
    )
}

} // verus!
