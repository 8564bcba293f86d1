//! The endpoint that takes Jira's webhook deliveries.

use vstd::prelude::*;
use vstd::string::*;
use crate::config::ConfigModel;
use crate::db::{Database, DatabaseModel};
use crate::headers::{HeaderModel, HeaderSet};
use crate::jira::models::{jira_payload_of, JiraWebhookPayload};
use crate::json::{json_document, JsonModel, JsonValue};
use crate::router::jira::{jira_plan, JiraRouter};
use crate::router::{ForwardModel, ForwardRequest};
use crate::routes::{extract_forwarded_headers, forwarded_headers};

verus! {

/// What the endpoint does with a delivery.
#[derive(Debug)]
pub enum JiraOutcome<'a> {
    /// The body is no JSON or names no event: answer 400 with the text.
    BadRequest(&'static str),
    /// An event: answer 200 at once, then make the deliveries.
    Accepted(Vec<ForwardRequest<'a>>),
}

/// The view of a `JiraOutcome`.
pub enum JiraOutcomeModel {
    BadRequest(Seq<char>),
    Accepted(Seq<ForwardModel>),
}

impl<'a> View for JiraOutcome<'a> {
    type V = JiraOutcomeModel;

    open spec fn view(&self) -> JiraOutcomeModel {
        match self {
            JiraOutcome::BadRequest(text) => JiraOutcomeModel::BadRequest(text@),
            JiraOutcome::Accepted(plan) => JiraOutcomeModel::Accepted(plan.deep_view()),
        }
    }
}

/// The names of the headers that go on to the engine with a Jira event.
pub open spec fn jira_forwarded_names() -> Seq<Seq<char>> {
    seq!["x-atlassian-"@, "content-type"@]
}

/// What the endpoint does with a delivery whose body stands for `doc`;
/// `None` stands for a body that is no JSON.
pub open spec fn jira_outcome(
    doc: Option<JsonModel>,
    db: DatabaseModel,
    config: ConfigModel,
    headers: Seq<HeaderModel>,
    body: Seq<u8>,
    query_string: Option<Seq<char>>,
) -> JiraOutcomeModel {
    let payload = match doc {
        Some(d) => jira_payload_of(d),
        None => None,
    };
    match payload {
        None => JiraOutcomeModel::BadRequest("Invalid Jira webhook payload"@),
        Some(p) => JiraOutcomeModel::Accepted(
            jira_plan(
                db.jira_rows(),
                config,
                p.webhook_event,
                query_string,
                body,
                forwarded_headers(headers, jira_forwarded_names()),
            ),
        ),
    }
}

impl<'a> JiraOutcome<'a> {
    /// The status to answer with.
    pub fn status(&self) -> (s: u16)
        ensures
            s == if self@ is BadRequest {
                400u16
            } else {
                200u16
            },
    {
        match self {
            JiraOutcome::BadRequest(_) => 400,
            _ => 200,
        }
    }
}

/// Decides on a delivery whose body was read as `doc`: see `jira_outcome`.
pub fn respond_to_jira<'a>(
    doc: Option<JsonValue>,
    router: &JiraRouter,
    db: &Database,
    headers: &HeaderSet,
    body: &'a [u8],
    query_string: Option<String>,
) -> (outcome: JiraOutcome<'a>)
    ensures
        outcome@ == jira_outcome(
            doc.deep_view(),
            db@,
            router.config()@,
            headers@,
            body@,
            query_string.deep_view(),
        ),
{
    let payload = match doc {
        Some(d) => JiraWebhookPayload::from_json(&d),
        None => None,
    };
    match payload {
        None => JiraOutcome::BadRequest("Invalid Jira webhook payload"),
        Some(p) => {
            let names = ["x-atlassian-", "content-type"];
            let allowed = names.as_slice();
            assert(allowed.deep_view() =~= jira_forwarded_names());
            let forwarded = extract_forwarded_headers(headers, allowed);
            JiraOutcome::Accepted(
                router.route_event(db, p.webhook_event.as_str(), body, &forwarded, query_string),
            )
        },
    }
}

/// Decides on a delivery of Jira: the body is read as JSON and handed to
/// `respond_to_jira`.
pub fn handle_jira_event<'a>(
    router: &JiraRouter,
    db: &Database,
    headers: &HeaderSet,
    body: &'a [u8],
    query_string: Option<String>,
) -> (outcome: JiraOutcome<'a>)
    ensures
        outcome@ == jira_outcome(
            json_document(body@),
            db@,
            router.config()@,
            headers@,
            body@,
            query_string.deep_view(),
        ),
{
    respond_to_jira(JsonValue::parse(body), router, db, headers, body, query_string)
}

} // verus!
