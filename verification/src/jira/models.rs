//! The body of a Jira webhook, as far as routing reads it.

use vstd::prelude::*;
use vstd::string::*;
use crate::json::{JsonModel, JsonValue};

verus! {

/// A Jira webhook delivery.
#[derive(Debug)]
pub struct JiraWebhookPayload {
    /// The event, such as `jira:issue_created`.
    pub webhook_event: String,
    /// An object of whatever else the body holds.
    pub extra: JsonValue,
}

/// The view of a `JiraWebhookPayload`.
pub struct JiraWebhookPayloadModel {
    pub webhook_event: Seq<char>,
    pub extra: JsonModel,
}

impl View for JiraWebhookPayload {
    type V = JiraWebhookPayloadModel;

    open spec fn view(&self) -> JiraWebhookPayloadModel {
        JiraWebhookPayloadModel { webhook_event: self.webhook_event@, extra: self.extra@ }
    }
}

impl DeepView for JiraWebhookPayload {
    type V = JiraWebhookPayloadModel;

    open spec fn deep_view(&self) -> JiraWebhookPayloadModel {
        self@
    }
}

/// The delivery that a JSON document describes: none unless it holds a
/// text at `webhookEvent`.
pub open spec fn jira_payload_of(doc: JsonModel) -> Option<JiraWebhookPayloadModel> {
    match doc.text_at("webhookEvent"@) {
        Some(event) => Some(
            JiraWebhookPayloadModel {
                webhook_event: event,
                extra: doc.without(seq!["webhookEvent"@]),
            },
        ),
        None => None,
    }
}

impl JiraWebhookPayload {
    /// Reads a delivery from the JSON document of its body.
    pub fn from_json(doc: &JsonValue) -> (r: Option<JiraWebhookPayload>)
        ensures
            r.deep_view() == jira_payload_of(doc@),
    {
        match doc.text_at("webhookEvent") {
            Some(event) => {
                let keys = ["webhookEvent"];
                let known = keys.as_slice();
                assert(known.deep_view() =~= seq!["webhookEvent"@]);
                Some(
                    JiraWebhookPayload {
                        webhook_event: String::from_str(event),
                        extra: doc.without(known),
                    },
                )
            },
            None => None,
        }
    }
}

} // verus!
