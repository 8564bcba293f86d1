//! The endpoint that takes Slack's event deliveries.

use vstd::prelude::*;
use vstd::string::*;
use crate::db::{Database, DatabaseModel};
use crate::config::ConfigModel;
use crate::headers::{HeaderModel, HeaderSet};
use crate::json::{json_document, no_members, push_member, JsonModel, JsonValue};
use crate::router::slack::{slack_plan, SlackRouter};
use crate::router::{ForwardModel, ForwardRequest};
use crate::routes::{extract_forwarded_headers, forwarded_headers};
use crate::slack::models::{engine_event_type, payload_of_json, SlackPayload, SlackPayloadModel, UrlVerificationResponse};

verus! {

/// What the endpoint does with a delivery.
#[derive(Debug)]
pub enum SlackOutcome<'a> {
    /// The body is no JSON or no Slack payload: answer 400 with the text.
    BadRequest(&'static str),
    /// Slack checks the endpoint: answer 200 with the challenge.
    Challenge(UrlVerificationResponse),
    /// An event: answer 200 at once, then make the deliveries.
    Accepted(Vec<ForwardRequest<'a>>),
}

/// The view of a `SlackOutcome`.
pub enum SlackOutcomeModel {
    BadRequest(Seq<char>),
    Challenge(Seq<char>),
    Accepted(Seq<ForwardModel>),
}

impl<'a> View for SlackOutcome<'a> {
    type V = SlackOutcomeModel;

    open spec fn view(&self) -> SlackOutcomeModel {
        match self {
            SlackOutcome::BadRequest(text) => SlackOutcomeModel::BadRequest(text@),
            SlackOutcome::Challenge(response) => SlackOutcomeModel::Challenge(response.challenge@),
            SlackOutcome::Accepted(plan) => SlackOutcomeModel::Accepted(plan.deep_view()),
        }
    }
}

/// The names of the headers that go on to the engine with a Slack event.
pub open spec fn slack_forwarded_names() -> Seq<Seq<char>> {
    seq!["x-slack-"@, "content-type"@]
}

/// What the endpoint does with a delivery whose body stands for `doc`;
/// `None` stands for a body that is no JSON.
pub open spec fn slack_outcome(
    doc: Option<JsonModel>,
    db: DatabaseModel,
    config: ConfigModel,
    headers: Seq<HeaderModel>,
    body: Seq<u8>,
) -> SlackOutcomeModel {
    match doc {
        None => SlackOutcomeModel::BadRequest("Invalid JSON"@),
        Some(d) => match payload_of_json(d) {
            None => SlackOutcomeModel::BadRequest("Invalid Slack payload"@),
            Some(SlackPayloadModel::UrlVerification { challenge }) => SlackOutcomeModel::Challenge(
                challenge,
            ),
            Some(SlackPayloadModel::EventCallback(callback)) => SlackOutcomeModel::Accepted(
                slack_plan(
                    db.slack_rows(),
                    config,
                    engine_event_type(callback.event.event_type, callback.event.subtype),
                    callback.event.channel,
                    body,
                    forwarded_headers(headers, slack_forwarded_names()),
                ),
            ),
        },
    }
}

/// The body that answers a URL verification.
pub open spec fn challenge_body(challenge: Seq<char>) -> JsonModel {
    JsonModel::Object(seq![("challenge"@, JsonModel::Text(challenge))])
}

/// A URL verification is answered with its challenge, whatever the
/// challenge is and whatever else the request and the store hold.
pub proof fn lemma_url_verification_echo(
    doc: JsonModel,
    challenge: Seq<char>,
    db: DatabaseModel,
    config: ConfigModel,
    headers: Seq<HeaderModel>,
    body: Seq<u8>,
)
    requires
        doc.text_at("type"@) == Some("url_verification"@),
        doc.text_at("challenge"@) == Some(challenge),
    ensures
        slack_outcome(Some(doc), db, config, headers, body) == SlackOutcomeModel::Challenge(
            challenge,
        ),
{
}

impl UrlVerificationResponse {
    /// The JSON body of this answer.
    pub fn to_json(&self) -> (r: JsonValue)
        ensures
            r@ == challenge_body(self.challenge@),
    {
        let mut members = no_members();
        push_member(&mut members, "challenge", JsonValue::Text(self.challenge.clone()));
        let r = JsonValue::Object(members);
        assert(r@->Object_0 =~= challenge_body(self.challenge@)->Object_0);
        r
    }
}

impl<'a> SlackOutcome<'a> {
    /// The status to answer with.
    pub fn status(&self) -> (s: u16)
        ensures
            s == if self@ is BadRequest {
                400u16
            } else {
                200u16
            },
    {
        match self {
            SlackOutcome::BadRequest(_) => 400,
            _ => 200,
        }
    }
}

/// Decides on a delivery whose body was read as `doc`: see `slack_outcome`.
pub fn respond_to_slack<'a>(
    doc: Option<JsonValue>,
    router: &SlackRouter,
    db: &Database,
    headers: &HeaderSet,
    body: &'a [u8],
) -> (outcome: SlackOutcome<'a>)
    ensures
        outcome@ == slack_outcome(doc.deep_view(), db@, router.config()@, headers@, body@),
{
    let doc = match doc {
        Some(d) => d,
        None => { return SlackOutcome::BadRequest("Invalid JSON"); },
    };
    match SlackPayload::from_json(&doc) {
        None => SlackOutcome::BadRequest("Invalid Slack payload"),
        Some(SlackPayload::UrlVerification { challenge }) => SlackOutcome::Challenge(
            UrlVerificationResponse { challenge },
        ),
        Some(SlackPayload::EventCallback(callback)) => {
            let names = ["x-slack-", "content-type"];
            let allowed = names.as_slice();
            assert(allowed.deep_view() =~= slack_forwarded_names());
            let forwarded = extract_forwarded_headers(headers, allowed);
            SlackOutcome::Accepted(router.route_event(db, &callback, body, &forwarded))
        },
    }
}

/// Decides on a delivery of Slack: the body is read as JSON and handed to
/// `respond_to_slack`.
pub fn handle_slack_event<'a>(
    router: &SlackRouter,
    db: &Database,
    headers: &HeaderSet,
    body: &'a [u8],
) -> (outcome: SlackOutcome<'a>)
    ensures
        outcome@ == slack_outcome(json_document(body@), db@, router.config()@, headers@, body@),
{
    respond_to_slack(JsonValue::parse(body), router, db, headers, body)
}

} // verus!
