//! Reading the engine's workflow list, page by page.
//!
//! The caller sends the requests. This module says which URL to ask, reads
//! what came back, gathers the triggers of each page and says whether a
//! further page is to be asked for.

use vstd::prelude::*;
use vstd::string::*;
use crate::config::Config;
use crate::github::triggers::{github_trigger_of, parse_github_trigger, GitHubTriggerConfig, GitHubTriggerModel};
use crate::jira::triggers::{jira_trigger_of, parse_jira_trigger, JiraTriggerConfig, JiraTriggerModel};
use crate::json::{json_document, JsonValue};
use crate::n8n::models::{page_of_json, WorkflowModel, WorkflowNodeModel, WorkflowsResponse, WorkflowsResponseModel};
use crate::slack::triggers::{parse_slack_trigger, slack_trigger_of, SlackTriggerConfig, SlackTriggerModel};
use crate::text::{decimal, push_decimal};

verus! {

/// Why a call of the engine failed.
#[derive(Debug)]
pub enum N8nClientError {
    /// No response was obtained.
    RequestFailed(String),
    /// The engine answered with a status that is no success.
    ApiError { status: u16, body: String },
    /// The engine's answer could not be read.
    ParseError(String),
}

/// The view of an `N8nClientError`.
pub enum N8nClientErrorModel {
    RequestFailed(Seq<char>),
    ApiError { status: u16, body: Seq<char> },
    ParseError(Seq<char>),
}

impl View for N8nClientError {
    type V = N8nClientErrorModel;

    open spec fn view(&self) -> N8nClientErrorModel {
        match self {
            N8nClientError::RequestFailed(m) => N8nClientErrorModel::RequestFailed(m@),
            N8nClientError::ApiError { status, body } => N8nClientErrorModel::ApiError {
                status: *status,
                body: body@,
            },
            N8nClientError::ParseError(m) => N8nClientErrorModel::ParseError(m@),
        }
    }
}

impl DeepView for N8nClientError {
    type V = N8nClientErrorModel;

    open spec fn deep_view(&self) -> N8nClientErrorModel {
        self@
    }
}

/// What an error reads like in a log.
pub open spec fn error_message(e: N8nClientErrorModel) -> Seq<char> {
    match e {
        N8nClientErrorModel::RequestFailed(m) => "Request failed: "@ + m,
        N8nClientErrorModel::ApiError { status, body } => "API error (status "@ + decimal(
            status as nat,
        ) + "): "@ + body,
        N8nClientErrorModel::ParseError(m) => "Failed to parse response: "@ + m,
    }
}

impl N8nClientError {
    /// What this error reads like in a log.
    pub fn message(&self) -> (r: String)
        ensures
            r@ == error_message(self@),
    {
        match self {
            N8nClientError::RequestFailed(m) => {
                let mut r = String::from_str("Request failed: ");
                r.append(m.as_str());
                r
            },
            N8nClientError::ApiError { status, body } => {
                let mut r = String::from_str("API error (status ");
                push_decimal(&mut r, *status as u64);
                r.append("): ");
                r.append(body.as_str());
                r
            },
            N8nClientError::ParseError(m) => {
                let mut r = String::from_str("Failed to parse response: ");
                r.append(m.as_str());
                r
            },
        }
    }
}

/// The GitHub triggers among `nodes` of `workflow`, in their order.
pub open spec fn github_triggers_of_nodes(
    workflow: WorkflowModel,
    nodes: Seq<WorkflowNodeModel>,
) -> Seq<GitHubTriggerModel>
    decreases nodes.len(),
{
    if nodes.len() == 0 {
        Seq::empty()
    } else {
        let rest = github_triggers_of_nodes(workflow, nodes.drop_last());
        match github_trigger_of(workflow, nodes.last()) {
            Some(t) => rest.push(t),
            None => rest,
        }
    }
}

/// The GitHub triggers of `workflows`, active or not, workflow by workflow.
pub open spec fn github_triggers_in(workflows: Seq<WorkflowModel>) -> Seq<GitHubTriggerModel>
    decreases workflows.len(),
{
    if workflows.len() == 0 {
        Seq::empty()
    } else {
        github_triggers_in(workflows.drop_last()) + github_triggers_of_nodes(
            workflows.last(),
            workflows.last().nodes,
        )
    }
}

/// The Jira triggers among `nodes` of `workflow`, in their order.
pub open spec fn jira_triggers_of_nodes(
    workflow: WorkflowModel,
    nodes: Seq<WorkflowNodeModel>,
) -> Seq<JiraTriggerModel>
    decreases nodes.len(),
{
    if nodes.len() == 0 {
        Seq::empty()
    } else {
        let rest = jira_triggers_of_nodes(workflow, nodes.drop_last());
        match jira_trigger_of(workflow, nodes.last()) {
            Some(t) => rest.push(t),
            None => rest,
        }
    }
}

/// The Jira triggers of `workflows`, active or not, workflow by workflow.
pub open spec fn jira_triggers_in(workflows: Seq<WorkflowModel>) -> Seq<JiraTriggerModel>
    decreases workflows.len(),
{
    if workflows.len() == 0 {
        Seq::empty()
    } else {
        jira_triggers_in(workflows.drop_last()) + jira_triggers_of_nodes(
            workflows.last(),
            workflows.last().nodes,
        )
    }
}

/// The Slack triggers among `nodes` of `workflow`, in their order.
pub open spec fn slack_triggers_of_nodes(
    workflow: WorkflowModel,
    nodes: Seq<WorkflowNodeModel>,
) -> Seq<SlackTriggerModel>
    decreases nodes.len(),
{
    if nodes.len() == 0 {
        Seq::empty()
    } else {
        let rest = slack_triggers_of_nodes(workflow, nodes.drop_last());
        match slack_trigger_of(workflow, nodes.last()) {
            Some(t) => rest.push(t),
            None => rest,
        }
    }
}

/// The Slack triggers of `workflows`, active or not, workflow by workflow.
pub open spec fn slack_triggers_in(workflows: Seq<WorkflowModel>) -> Seq<SlackTriggerModel>
    decreases workflows.len(),
{
    if workflows.len() == 0 {
        Seq::empty()
    } else {
        slack_triggers_in(workflows.drop_last()) + slack_triggers_of_nodes(
            workflows.last(),
            workflows.last().nodes,
        )
    }
}

/// Where the list goes on after a page: at its cursor, unless that is
/// absent or empty, which ends the list.
pub open spec fn following_cursor(page: WorkflowsResponseModel) -> Option<Seq<char>> {
    match page.next_cursor {
        Some(c) => if c.len() > 0 {
            Some(c)
        } else {
            None
        },
        None => None,
    }
}

/// The URL of the page of the workflow list that starts at `cursor`.
pub open spec fn workflows_page_url(base: Seq<char>, cursor: Option<Seq<char>>) -> Seq<char> {
    match cursor {
        Some(c) => base + "/api/v1/workflows"@ + "?cursor="@ + c,
        None => base + "/api/v1/workflows"@,
    }
}

/// Whether `status` is an HTTP success, 200 to 299.
pub open spec fn is_success_status(status: u16) -> bool {
    200 <= status <= 299
}

/// What the answer to a page request amounts to: an error of the API where
/// the status is no success, the page where the body describes one, and a
/// parse error where it does not.
pub open spec fn page_outcome(status: u16, body: Seq<u8>, body_text: Seq<char>) -> Result<
    WorkflowsResponseModel,
    N8nClientErrorModel,
> {
    if !is_success_status(status) {
        Err(N8nClientErrorModel::ApiError { status, body: body_text })
    } else {
        match json_document(body) {
            None => Err(N8nClientErrorModel::ParseError("response is not JSON"@)),
            Some(doc) => match page_of_json(doc) {
                Some(page) => Ok(page),
                None => Err(N8nClientErrorModel::ParseError("response is not a workflow list"@)),
            },
        }
    }
}

/// What the document of a page's body amounts to.
pub open spec fn page_of_document(doc: Option<crate::json::JsonModel>) -> Result<
    WorkflowsResponseModel,
    N8nClientErrorModel,
> {
    match doc {
        None => Err(N8nClientErrorModel::ParseError("response is not JSON"@)),
        Some(d) => match page_of_json(d) {
            Some(page) => Ok(page),
            None => Err(N8nClientErrorModel::ParseError("response is not a workflow list"@)),
        },
    }
}

/// The view of the outcome of a page request.
pub open spec fn outcome_view(r: Result<WorkflowsResponse, N8nClientError>) -> Result<
    WorkflowsResponseModel,
    N8nClientErrorModel,
> {
    match r {
        Ok(page) => Ok(page@),
        Err(e) => Err(e@),
    }
}

/// Whether `status` is an HTTP success.
pub fn is_success(status: u16) -> (r: bool)
    ensures
        r == is_success_status(status),
{
    200 <= status && status <= 299
}

/// Reads a page of the workflow list from the document of a response body;
/// `None` stands for a body that is no JSON.
pub fn page_from_document(doc: Option<JsonValue>) -> (r: Result<WorkflowsResponse, N8nClientError>)
    ensures
        outcome_view(r) == page_of_document(doc.deep_view()),
{
    match doc {
        None => Err(N8nClientError::ParseError("response is not JSON".to_string())),
        Some(d) => match WorkflowsResponse::from_json(&d) {
            Some(page) => Ok(page),
            None => Err(N8nClientError::ParseError("response is not a workflow list".to_string())),
        },
    }
}

/// The builder of requests to the engine and reader of its answers.
#[derive(Debug)]
pub struct N8nClient {
    config: Config,
}

impl N8nClient {
    /// A client for the engine that `config` names.
    pub fn new(config: Config) -> (r: N8nClient)
        ensures
            r.config()@ == config@,
    {
        N8nClient { config }
    }

    /// The configuration that this client was made with.
    pub closed spec fn config(&self) -> Config {
        self.config
    }

    /// The key to send with a request for a page.
    pub fn api_key(&self) -> (r: &str)
        ensures
            r@ == self.config()@.n8n_api_key,
    {
        self.config.n8n_api_key.as_str()
    }

    /// The URL of the page of the workflow list that starts at `cursor`;
    /// of the first page without one.
    pub fn workflows_url(&self, cursor: Option<&str>) -> (url: String)
        ensures
            url@ == workflows_page_url(self.config()@.n8n_api_url, cursor.deep_view()),
    {
        let mut url = self.config.n8n_api_url.clone();
        url.append("/api/v1/workflows");
        match cursor {
            Some(c) => {
                url.append("?cursor=");
                url.append(c);
            },
            None => {},
        }
        url
    }

    /// Reads the answer to a page request: `status` and `body` as they
    /// came, and `body_text` as the body's text for the error report.
    pub fn fetch_workflows_page(&self, status: u16, body: &[u8], body_text: &str) -> (r: Result<
        WorkflowsResponse,
        N8nClientError,
    >)
        ensures
            outcome_view(r) == page_outcome(status, body@, body_text@),
    {
        if !is_success(status) {
            return Err(N8nClientError::ApiError { status, body: String::from_str(body_text) });
        }
        page_from_document(JsonValue::parse(body))
    }

    /// Where the list goes on after `page`; `None` at its end.
    pub fn next_cursor(page: &WorkflowsResponse) -> (r: Option<String>)
        ensures
            r.deep_view() == following_cursor(page@),
    {
        match &page.next_cursor {
            Some(c) => if !c.as_str().is_empty() {
                Some(c.clone())
            } else {
                None
            },
            None => None,
        }
    }

    /// Appends the GitHub triggers of `page` to `triggers` and says where
    /// the list goes on.
    pub fn fetch_github_triggers(
        &self,
        page: &WorkflowsResponse,
        triggers: &mut Vec<GitHubTriggerConfig>,
    ) -> (r: Option<String>)
        ensures
            final(triggers).deep_view() == old(triggers).deep_view() + github_triggers_in(
                page@.data,
            ),
            r.deep_view() == following_cursor(page@),
    {
        let ghost start = triggers.deep_view();
        let ghost all = page@.data;
        let mut i: usize = 0;
        assert(triggers.deep_view() =~= start + github_triggers_in(all.take(0)));
        while i < page.data.len()
            invariant
                i <= page.data.len(),
                all == page.data.deep_view(),
                triggers.deep_view() == start + github_triggers_in(all.take(i as int)),
            decreases page.data.len() - i,
        {
            let workflow = &page.data[i];
            let ghost w = workflow@;
            let ghost nodes = w.nodes;
            let ghost before = triggers.deep_view();
            proof {
                let prefix = all.take(i + 1);
                assert(prefix.last() == w);
                assert(prefix.drop_last() =~= all.take(i as int));
            }
            let mut j: usize = 0;
            assert(triggers.deep_view() =~= before + github_triggers_of_nodes(w, nodes.take(0)));
            while j < workflow.nodes.len()
                invariant
                    j <= workflow.nodes.len(),
                    w == workflow@,
                    nodes == workflow.nodes.deep_view(),
                    triggers.deep_view() == before + github_triggers_of_nodes(
                        w,
                        nodes.take(j as int),
                    ),
                decreases workflow.nodes.len() - j,
            {
                proof {
                    let prefix = nodes.take(j + 1);
                    assert(prefix.last() == workflow.nodes@[j as int]@);
                    assert(prefix.drop_last() =~= nodes.take(j as int));
                }
                match parse_github_trigger(workflow, &workflow.nodes[j]) {
                    Some(t) => {
                        let ghost so_far = triggers.deep_view();
                        triggers.push(t);
                        assert(triggers.deep_view() =~= so_far.push(t@));
                    },
                    None => {},
                }
                j += 1;
            }
            assert(nodes.take(j as int) =~= nodes);
            assert(triggers.deep_view() =~= start + github_triggers_in(all.take(i + 1)));
            i += 1;
        }
        assert(all.take(i as int) =~= all);
        N8nClient::next_cursor(page)
    }

    /// Appends the Jira triggers of `page` to `triggers` and says where the
    /// list goes on.
    pub fn fetch_jira_triggers(
        &self,
        page: &WorkflowsResponse,
        triggers: &mut Vec<JiraTriggerConfig>,
    ) -> (r: Option<String>)
        ensures
            final(triggers).deep_view() == old(triggers).deep_view() + jira_triggers_in(
                page@.data,
            ),
            r.deep_view() == following_cursor(page@),
    {
        let ghost start = triggers.deep_view();
        let ghost all = page@.data;
        let mut i: usize = 0;
        assert(triggers.deep_view() =~= start + jira_triggers_in(all.take(0)));
        while i < page.data.len()
            invariant
                i <= page.data.len(),
                all == page.data.deep_view(),
                triggers.deep_view() == start + jira_triggers_in(all.take(i as int)),
            decreases page.data.len() - i,
        {
            let workflow = &page.data[i];
            let ghost w = workflow@;
            let ghost nodes = w.nodes;
            let ghost before = triggers.deep_view();
            proof {
                let prefix = all.take(i + 1);
                assert(prefix.last() == w);
                assert(prefix.drop_last() =~= all.take(i as int));
            }
            let mut j: usize = 0;
            assert(triggers.deep_view() =~= before + jira_triggers_of_nodes(w, nodes.take(0)));
            while j < workflow.nodes.len()
                invariant
                    j <= workflow.nodes.len(),
                    w == workflow@,
                    nodes == workflow.nodes.deep_view(),
                    triggers.deep_view() == before + jira_triggers_of_nodes(
                        w,
                        nodes.take(j as int),
                    ),
                decreases workflow.nodes.len() - j,
            {
                proof {
                    let prefix = nodes.take(j + 1);
                    assert(prefix.last() == workflow.nodes@[j as int]@);
                    assert(prefix.drop_last() =~= nodes.take(j as int));
                }
                match parse_jira_trigger(workflow, &workflow.nodes[j]) {
                    Some(t) => {
                        let ghost so_far = triggers.deep_view();
                        triggers.push(t);
                        assert(triggers.deep_view() =~= so_far.push(t@));
                    },
                    None => {},
                }
                j += 1;
            }
            assert(nodes.take(j as int) =~= nodes);
            assert(triggers.deep_view() =~= start + jira_triggers_in(all.take(i + 1)));
            i += 1;
        }
        assert(all.take(i as int) =~= all);
        N8nClient::next_cursor(page)
    }

    /// Appends the Slack triggers of `page` to `triggers` and says where
    /// the list goes on.
    pub fn fetch_slack_triggers(
        &self,
        page: &WorkflowsResponse,
        triggers: &mut Vec<SlackTriggerConfig>,
    ) -> (r: Option<String>)
        ensures
            final(triggers).deep_view() == old(triggers).deep_view() + slack_triggers_in(
                page@.data,
            ),
            r.deep_view() == following_cursor(page@),
    {
        let ghost start = triggers.deep_view();
        let ghost all = page@.data;
        let mut i: usize = 0;
        assert(triggers.deep_view() =~= start + slack_triggers_in(all.take(0)));
        while i < page.data.len()
            invariant
                i <= page.data.len(),
                all == page.data.deep_view(),
                triggers.deep_view() == start + slack_triggers_in(all.take(i as int)),
            decreases page.data.len() - i,
        {
            let workflow = &page.data[i];
            let ghost w = workflow@;
            let ghost nodes = w.nodes;
            let ghost before = triggers.deep_view();
            proof {
                let prefix = all.take(i + 1);
                assert(prefix.last() == w);
                assert(prefix.drop_last() =~= all.take(i as int));
            }
            let mut j: usize = 0;
            assert(triggers.deep_view() =~= before + slack_triggers_of_nodes(w, nodes.take(0)));
            while j < workflow.nodes.len()
                invariant
                    j <= workflow.nodes.len(),
                    w == workflow@,
                    nodes == workflow.nodes.deep_view(),
                    triggers.deep_view() == before + slack_triggers_of_nodes(
                        w,
                        nodes.take(j as int),
                    ),
                decreases workflow.nodes.len() - j,
            {
                proof {
                    let prefix = nodes.take(j + 1);
                    assert(prefix.last() == workflow.nodes@[j as int]@);
                    assert(prefix.drop_last() =~= nodes.take(j as int));
                }
                match parse_slack_trigger(workflow, &workflow.nodes[j]) {
                    Some(t) => {
                        let ghost so_far = triggers.deep_view();
                        triggers.push(t);
                        assert(triggers.deep_view() =~= so_far.push(t@));
                    },
                    None => {},
                }
                j += 1;
            }
            assert(nodes.take(j as int) =~= nodes);
            assert(triggers.deep_view() =~= start + slack_triggers_in(all.take(i + 1)));
            i += 1;
        }
        assert(all.take(i as int) =~= all);
        N8nClient::next_cursor(page)
    }
}

} // verus!
