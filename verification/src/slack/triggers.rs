//! What a Slack trigger node of a workflow asks for.

use vstd::prelude::*;
use vstd::string::*;
use crate::json::{JsonModel, JsonValue};
use crate::matching::{slack_trigger_matches, slack_trigger_takes};
use crate::n8n::models::{Workflow, WorkflowModel, WorkflowNode, WorkflowNodeModel};
use crate::text::str_eq;

verus! {

/// The configuration of one Slack trigger.
#[derive(Debug)]
pub struct SlackTriggerConfig {
    /// The engine's webhook identifier, from which the webhook URLs are built.
    pub webhook_id: String,
    pub workflow_id: String,
    pub workflow_name: String,
    /// Whether the workflow is active. An active workflow gets deliveries on
    /// its production and its test webhook, an inactive one on the test
    /// webhook only.
    pub workflow_active: bool,
    /// The event listened for, such as `message`, or `any_event`.
    pub event_type: String,
    /// The channels watched; empty where the whole workspace is watched.
    pub channels: Vec<String>,
    pub watch_whole_workspace: bool,
}

/// The view of a `SlackTriggerConfig`.
pub struct SlackTriggerModel {
    pub webhook_id: Seq<char>,
    pub workflow_id: Seq<char>,
    pub workflow_name: Seq<char>,
    pub workflow_active: bool,
    pub event_type: Seq<char>,
    pub channels: Seq<Seq<char>>,
    pub watch_whole_workspace: bool,
}

impl View for SlackTriggerConfig {
    type V = SlackTriggerModel;

    open spec fn view(&self) -> SlackTriggerModel {
        SlackTriggerModel {
            webhook_id: self.webhook_id@,
            workflow_id: self.workflow_id@,
            workflow_name: self.workflow_name@,
            workflow_active: self.workflow_active,
            event_type: self.event_type@,
            channels: self.channels.deep_view(),
            watch_whole_workspace: self.watch_whole_workspace,
        }
    }
}

impl DeepView for SlackTriggerConfig {
    type V = SlackTriggerModel;

    open spec fn deep_view(&self) -> SlackTriggerModel {
        self@
    }
}

impl Clone for SlackTriggerConfig {
    fn clone(&self) -> (r: Self)
        ensures
            r@ == self@,
    {
        let channels = self.channels.clone();
        assert(channels.deep_view() =~= self.channels.deep_view());
        SlackTriggerConfig {
            webhook_id: self.webhook_id.clone(),
            workflow_id: self.workflow_id.clone(),
            workflow_name: self.workflow_name.clone(),
            workflow_active: self.workflow_active,
            event_type: self.event_type.clone(),
            channels,
            watch_whole_workspace: self.watch_whole_workspace,
        }
    }
}

impl SlackTriggerConfig {
    /// Whether this trigger takes an event of type `event_type` from
    /// `channel`; see `slack_trigger_takes`.
    pub fn matches_event(&self, event_type: &str, channel: Option<&str>) -> (r: bool)
        ensures
            r == slack_trigger_takes(
                self@.event_type,
                self@.channels,
                self@.watch_whole_workspace,
                event_type@,
                channel.deep_view(),
            ),
    {
        slack_trigger_matches(
            self.event_type.as_str(),
            &self.channels,
            self.watch_whole_workspace,
            event_type,
            channel,
        )
    }
}

/// The event that the parameters name: the first item of the array at
/// `trigger` where that is a text, else `any_event`.
pub open spec fn trigger_event_type(params: JsonModel) -> Seq<char> {
    match params.get("trigger"@) {
        Some(JsonModel::Array(items)) => if items.len() > 0 && items[0] is Text {
            items[0]->Text_0
        } else {
            "any_event"@
        },
        _ => "any_event"@,
    }
}

/// Whether the parameters ask for the whole workspace: the boolean at
/// `watchWorkspace`, false where there is none.
pub open spec fn watches_workspace(params: JsonModel) -> bool {
    match params.get("watchWorkspace"@) {
        Some(JsonModel::Bool(b)) => b,
        _ => false,
    }
}

/// The channels that the parameters name: the one non-empty text at `value`
/// under `channelId`, or none.
pub open spec fn channel_ids(params: JsonModel) -> Seq<Seq<char>> {
    match params.get("channelId"@) {
        Some(locator) => match locator.text_at("value"@) {
            Some(id) => if id.len() > 0 {
                seq![id]
            } else {
                Seq::empty()
            },
            None => Seq::empty(),
        },
        None => Seq::empty(),
    }
}

/// The trigger that `node` of `workflow` configures: none unless the node
/// is a Slack trigger and has a webhook identifier. A trigger for the whole
/// workspace names no channels.
pub open spec fn slack_trigger_of(workflow: WorkflowModel, node: WorkflowNodeModel) -> Option<
    SlackTriggerModel,
> {
    if node.node_type == "n8n-nodes-base.slackTrigger"@ && node.webhook_id is Some {
        Some(
            SlackTriggerModel {
                webhook_id: node.webhook_id->0,
                workflow_id: workflow.id,
                workflow_name: workflow.name,
                workflow_active: workflow.active,
                event_type: trigger_event_type(node.parameters),
                channels: if watches_workspace(node.parameters) {
                    Seq::empty()
                } else {
                    channel_ids(node.parameters)
                },
                watch_whole_workspace: watches_workspace(node.parameters),
            },
        )
    } else {
        None
    }
}

/// The channels that a node's parameters name.
pub fn extract_channels(params: &JsonValue) -> (r: Vec<String>)
    ensures
        r.deep_view() == channel_ids(params@),
{
    let mut channels: Vec<String> = Vec::new();
    assert(channels.deep_view() =~= Seq::<Seq<char>>::empty());
    match params.get("channelId") {
        Some(locator) => match locator.text_at("value") {
            Some(id) => {
                if !id.is_empty() {
                    channels.push(String::from_str(id));
                    assert(channels.deep_view() =~= seq![id@]);
                }
            },
            None => {},
        },
        None => {},
    }
    channels
}

fn extract_event_type(params: &JsonValue) -> (r: String)
    ensures
        r@ == trigger_event_type(params@),
{
    match params.get("trigger") {
        Some(JsonValue::Array(items)) => {
            proof {
                crate::json::lemma_view_array(*items);
            }
            if items.len() > 0 {
                match &items[0] {
                    JsonValue::Text(s) => { return s.clone(); },
                    _ => {},
                }
            }
        },
        _ => {},
    }
    "any_event".to_string()
}

fn extract_watch_workspace(params: &JsonValue) -> (r: bool)
    ensures
        r == watches_workspace(params@),
{
    match params.get("watchWorkspace") {
        Some(JsonValue::Bool(b)) => *b,
        _ => false,
    }
}

/// Reads the Slack trigger that a node of a workflow configures.
pub fn parse_slack_trigger(workflow: &Workflow, node: &WorkflowNode) -> (r: Option<
    SlackTriggerConfig,
>)
    ensures
        r.deep_view() == slack_trigger_of(workflow@, node@),
{
    if !str_eq(node.node_type.as_str(), "n8n-nodes-base.slackTrigger") {
        return None;
    }
    let event_type = extract_event_type(&node.parameters);
    let watch_whole_workspace = extract_watch_workspace(&node.parameters);
    let channels = if watch_whole_workspace {
        let none: Vec<String> = Vec::new();
        assert(none.deep_view() =~= Seq::<Seq<char>>::empty());
        none
    } else {
        extract_channels(&node.parameters)
    };
    let webhook_id = match &node.webhook_id {
        Some(id) => id.clone(),
        None => { return None; },
    };
    Some(
        SlackTriggerConfig {
            webhook_id,
            workflow_id: workflow.id.clone(),
            workflow_name: workflow.name.clone(),
            workflow_active: workflow.active,
            event_type,
            channels,
            watch_whole_workspace,
        },
    )
}

} // verus!
