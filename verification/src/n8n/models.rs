//! Workflows as the engine's management API lists them.

use vstd::prelude::*;
use vstd::string::*;
use crate::config::Config;
use crate::json::{JsonModel, JsonValue};

verus! {

/// A node of a workflow.
#[derive(Debug)]
pub struct WorkflowNode {
    /// The node's type, such as `n8n-nodes-base.slackTrigger`.
    pub node_type: String,
    /// The node's name, unique within its workflow.
    pub name: String,
    /// The node's free-form configuration.
    pub parameters: JsonValue,
    /// The identifier under which the engine serves the node's webhook.
    pub webhook_id: Option<String>,
}

/// The view of a `WorkflowNode`.
pub struct WorkflowNodeModel {
    pub node_type: Seq<char>,
    pub name: Seq<char>,
    pub parameters: JsonModel,
    pub webhook_id: Option<Seq<char>>,
}

impl View for WorkflowNode {
    type V = WorkflowNodeModel;

    open spec fn view(&self) -> WorkflowNodeModel {
        WorkflowNodeModel {
            node_type: self.node_type@,
            name: self.name@,
            parameters: self.parameters@,
            webhook_id: self.webhook_id.deep_view(),
        }
    }
}

impl DeepView for WorkflowNode {
    type V = WorkflowNodeModel;

    open spec fn deep_view(&self) -> WorkflowNodeModel {
        self@
    }
}

/// A workflow with its nodes and its per-node state.
#[derive(Debug)]
pub struct Workflow {
    pub id: String,
    pub name: String,
    /// Whether the engine runs the workflow's production webhooks.
    pub active: bool,
    pub nodes: Vec<WorkflowNode>,
    /// State that nodes keep between runs, keyed by `node:<name>`.
    pub static_data: Option<JsonValue>,
}

/// The view of a `Workflow`.
pub struct WorkflowModel {
    pub id: Seq<char>,
    pub name: Seq<char>,
    pub active: bool,
    pub nodes: Seq<WorkflowNodeModel>,
    pub static_data: Option<JsonModel>,
}

impl View for Workflow {
    type V = WorkflowModel;

    open spec fn view(&self) -> WorkflowModel {
        WorkflowModel {
            id: self.id@,
            name: self.name@,
            active: self.active,
            nodes: self.nodes.deep_view(),
            static_data: self.static_data.deep_view(),
        }
    }
}

impl DeepView for Workflow {
    type V = WorkflowModel;

    open spec fn deep_view(&self) -> WorkflowModel {
        self@
    }
}

/// One page of the engine's workflow list.
#[derive(Debug)]
pub struct WorkflowsResponse {
    pub data: Vec<Workflow>,
    /// Where the next page starts; absent or empty on the last page.
    pub next_cursor: Option<String>,
}

/// The view of a `WorkflowsResponse`.
pub struct WorkflowsResponseModel {
    pub data: Seq<WorkflowModel>,
    pub next_cursor: Option<Seq<char>>,
}

impl View for WorkflowsResponse {
    type V = WorkflowsResponseModel;

    open spec fn view(&self) -> WorkflowsResponseModel {
        WorkflowsResponseModel {
            data: self.data.deep_view(),
            next_cursor: self.next_cursor.deep_view(),
        }
    }
}

impl DeepView for WorkflowsResponse {
    type V = WorkflowsResponseModel;

    open spec fn deep_view(&self) -> WorkflowsResponseModel {
        self@
    }
}

/// The two path segments under which the engine serves webhooks.
#[derive(Debug)]
pub struct WebhookEndpoints {
    /// Segment of production webhooks, such as `webhook`.
    pub production: String,
    /// Segment of test webhooks, such as `webhook-test`.
    pub test: String,
}

impl Default for WebhookEndpoints {
    fn default() -> (r: Self)
        ensures
            r.production@ == "webhook"@,
            r.test@ == "webhook-test"@,
    {
        WebhookEndpoints { production: "webhook".to_string(), test: "webhook-test".to_string() }
    }
}

impl WebhookEndpoints {
    /// The two segments that `config` names.
    pub fn from_config(config: &Config) -> (r: WebhookEndpoints)
        ensures
            r.production@ == config@.n8n_endpoint_webhook,
            r.test@ == config@.n8n_endpoint_webhook_test,
    {
        WebhookEndpoints {
            production: config.n8n_endpoint_webhook.clone(),
            test: config.n8n_endpoint_webhook_test.clone(),
        }
    }
}

impl Clone for WebhookEndpoints {
    fn clone(&self) -> (r: Self)
        ensures
            r.production@ == self.production@,
            r.test@ == self.test@,
    {
        WebhookEndpoints { production: self.production.clone(), test: self.test.clone() }
    }
}

/// The node that a JSON object describes: `type` and `name` are texts,
/// `parameters` is any value and null where left out, `webhookId` is a text
/// where present.
pub open spec fn node_of_json(doc: JsonModel) -> Option<WorkflowNodeModel> {
    if doc.text_at("type"@) is Some && doc.text_at("name"@) is Some && doc.optional_text_at(
        "webhookId"@,
    ) is Some {
        Some(
            WorkflowNodeModel {
                node_type: doc.text_at("type"@)->0,
                name: doc.text_at("name"@)->0,
                parameters: match doc.get("parameters"@) {
                    Some(p) => p,
                    None => JsonModel::Null,
                },
                webhook_id: doc.optional_text_at("webhookId"@)->0,
            },
        )
    } else {
        None
    }
}

/// The nodes that the items describe; `None` where one of them describes none.
pub open spec fn nodes_of_json(items: Seq<JsonModel>) -> Option<Seq<WorkflowNodeModel>> {
    if forall|i: int| 0 <= i < items.len() ==> node_of_json(#[trigger] items[i]) is Some {
        Some(Seq::new(items.len(), |i: int| node_of_json(items[i])->0))
    } else {
        None
    }
}

/// The workflow that a JSON object describes: `id` and `name` are texts,
/// `active` is a boolean, `nodes` is an array of nodes, `staticData` is any
/// value and absent where left out or null.
pub open spec fn workflow_of_json(doc: JsonModel) -> Option<WorkflowModel> {
    if doc.text_at("id"@) is Some && doc.text_at("name"@) is Some && doc.get("active"@) is Some
        && doc.get("active"@)->0 is Bool && doc.get("nodes"@) is Some && doc.get("nodes"@)->0 is Array
        && nodes_of_json(doc.get("nodes"@)->0->Array_0) is Some {
        Some(
            WorkflowModel {
                id: doc.text_at("id"@)->0,
                name: doc.text_at("name"@)->0,
                active: doc.get("active"@)->0->Bool_0,
                nodes: nodes_of_json(doc.get("nodes"@)->0->Array_0)->0,
                static_data: match doc.get("staticData"@) {
                    None => None,
                    Some(JsonModel::Null) => None,
                    Some(d) => Some(d),
                },
            },
        )
    } else {
        None
    }
}

/// The workflows that the items describe; `None` where one of them describes none.
pub open spec fn workflows_of_json(items: Seq<JsonModel>) -> Option<Seq<WorkflowModel>> {
    if forall|i: int| 0 <= i < items.len() ==> workflow_of_json(#[trigger] items[i]) is Some {
        Some(Seq::new(items.len(), |i: int| workflow_of_json(items[i])->0))
    } else {
        None
    }
}

/// The page that a JSON object describes: `data` is an array of workflows,
/// `nextCursor` is a text where present.
pub open spec fn page_of_json(doc: JsonModel) -> Option<WorkflowsResponseModel> {
    if doc.get("data"@) is Some && doc.get("data"@)->0 is Array && workflows_of_json(
        doc.get("data"@)->0->Array_0,
    ) is Some && doc.optional_text_at("nextCursor"@) is Some {
        Some(
            WorkflowsResponseModel {
                data: workflows_of_json(doc.get("data"@)->0->Array_0)->0,
                next_cursor: doc.optional_text_at("nextCursor"@)->0,
            },
        )
    } else {
        None
    }
}

impl WorkflowNode {
    /// Reads a node from its JSON object.
    pub fn from_json(doc: &JsonValue) -> (r: Option<WorkflowNode>)
        ensures
            r.deep_view() == node_of_json(doc@),
    {
        let node_type = match doc.text_at("type") {
            Some(t) => t,
            None => { return None; },
        };
        let name = match doc.text_at("name") {
            Some(t) => t,
            None => { return None; },
        };
        let webhook_id = match doc.optional_text_at("webhookId") {
            Some(w) => w,
            None => { return None; },
        };
        let parameters = match doc.get("parameters") {
            Some(p) => p.duplicate(),
            None => JsonValue::Null,
        };
        Some(
            WorkflowNode {
                node_type: String::from_str(node_type),
                name: String::from_str(name),
                parameters,
                webhook_id,
            },
        )
    }

    /// A copy of this node.
    pub fn duplicate(&self) -> (r: WorkflowNode)
        ensures
            r@ == self@,
    {
        WorkflowNode {
            node_type: self.node_type.clone(),
            name: self.name.clone(),
            parameters: self.parameters.duplicate(),
            webhook_id: self.webhook_id.clone(),
        }
    }
}

/// Reads the nodes of a workflow from the items of its `nodes` array.
fn nodes_from_json(items: &Vec<JsonValue>) -> (r: Option<Vec<WorkflowNode>>)
    ensures
        r.deep_view() == nodes_of_json(items.deep_view()),
{
    let mut out: Vec<WorkflowNode> = Vec::new();
    let mut i: usize = 0;
    while i < items.len()
        invariant
            i <= items.len(),
            out.len() == i,
            forall|k: int|
                0 <= k < i ==> node_of_json(#[trigger] items.deep_view()[k]) == Some(out@[k]@),
        decreases items.len() - i,
    {
        assert(items.deep_view()[i as int] == items@[i as int]@);
        match WorkflowNode::from_json(&items[i]) {
            Some(node) => {
                out.push(node);
            },
            None => {
                return None;
            },
        }
        i += 1;
    }
    assert(out.deep_view() =~= nodes_of_json(items.deep_view())->0);
    Some(out)
}

impl Workflow {
    /// Reads a workflow from its JSON object.
    pub fn from_json(doc: &JsonValue) -> (r: Option<Workflow>)
        ensures
            r.deep_view() == workflow_of_json(doc@),
    {
        let id = match doc.text_at("id") {
            Some(t) => t,
            None => { return None; },
        };
        let name = match doc.text_at("name") {
            Some(t) => t,
            None => { return None; },
        };
        let active = match doc.get("active") {
            Some(JsonValue::Bool(b)) => *b,
            _ => { return None; },
        };
        let node_items = match doc.get("nodes") {
            Some(n) => match n.as_array() {
                Some(items) => items,
                None => { return None; },
            },
            None => { return None; },
        };
        let nodes = match nodes_from_json(node_items) {
            Some(nodes) => nodes,
            None => { return None; },
        };
        let static_data = match doc.get("staticData") {
            None => None,
            Some(JsonValue::Null) => None,
            Some(d) => Some(d.duplicate()),
        };
        Some(Workflow { id: String::from_str(id), name: String::from_str(name), active, nodes, static_data })
    }
}

/// Reads the workflows of a page from the items of its `data` array.
fn workflows_from_json(items: &Vec<JsonValue>) -> (r: Option<Vec<Workflow>>)
    ensures
        r.deep_view() == workflows_of_json(items.deep_view()),
{
    let mut out: Vec<Workflow> = Vec::new();
    let mut i: usize = 0;
    while i < items.len()
        invariant
            i <= items.len(),
            out.len() == i,
            forall|k: int|
                0 <= k < i ==> workflow_of_json(#[trigger] items.deep_view()[k]) == Some(
                    out@[k]@,
                ),
        decreases items.len() - i,
    {
        assert(items.deep_view()[i as int] == items@[i as int]@);
        match Workflow::from_json(&items[i]) {
            Some(workflow) => {
                out.push(workflow);
            },
            None => {
                return None;
            },
        }
        i += 1;
    }
    assert(out.deep_view() =~= workflows_of_json(items.deep_view())->0);
    Some(out)
}

impl WorkflowsResponse {
    /// Reads one page of the workflow list from its JSON object.
    pub fn from_json(doc: &JsonValue) -> (r: Option<WorkflowsResponse>)
        ensures
            r.deep_view() == page_of_json(doc@),
    {
        let items = match doc.get("data") {
            Some(d) => match d.as_array() {
                Some(items) => items,
                None => { return None; },
            },
            None => { return None; },
        };
        let data = match workflows_from_json(items) {
            Some(data) => data,
            None => { return None; },
        };
        let next_cursor = match doc.optional_text_at("nextCursor") {
            Some(c) => c,
            None => { return None; },
        };
        Some(WorkflowsResponse { data, next_cursor })
    }
}

} // verus!
