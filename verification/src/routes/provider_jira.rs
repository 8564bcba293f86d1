//! The part of Jira's REST API that the engine calls when it registers a
//! webhook.
//!
//! Jira deliveries carry no signature, so there is no secret to keep. A
//! registration tells that a workflow was just activated, and asks for a
//! refresh of the Jira triggers so that its events can be routed at once.

use vstd::prelude::*;
use vstd::string::*;
use crate::json::{empty_array, no_members, push_member, JsonModel, JsonValue};
use crate::routes::provider_github::{ProviderResponse, ProviderResponseModel};

verus! {

/// The answer to a registration and whether the Jira triggers are to be
/// refreshed after it.
#[derive(Debug)]
pub struct WebhookCreated {
    pub response: ProviderResponse,
    pub refresh: bool,
}

/// The text at `key` of a registration; `default` where there is none.
pub open spec fn registration_text(body: JsonModel, key: Seq<char>, default: Seq<char>) -> Seq<
    char,
> {
    match body.text_at(key) {
        Some(t) => t,
        None => default,
    }
}

/// The webhook object that answers a registration.
pub open spec fn webhook_object(body: JsonModel) -> JsonModel {
    JsonModel::Object(
        seq![
            ("name"@, JsonModel::Text(registration_text(body, "name"@, "n8n-mock"@))),
            ("url"@, JsonModel::Text(registration_text(body, "url"@, Seq::empty()))),
            (
                "events"@,
                match body.get("events"@) {
                    Some(events) => events,
                    None => JsonModel::Array(Seq::empty()),
                },
            ),
            ("enabled"@, JsonModel::Bool(true)),
            ("self"@, JsonModel::Text("http://localhost/rest/webhooks/1.0/webhook/1"@)),
        ],
    )
}

/// The user that answers a probe of the credentials.
pub open spec fn mock_myself() -> JsonModel {
    JsonModel::Object(
        seq![
            ("accountId"@, JsonModel::Text("unihook-mock"@)),
            ("emailAddress"@, JsonModel::Text("unihook@example.com"@)),
            ("displayName"@, JsonModel::Text("Unihook Mock Jira User"@)),
            ("active"@, JsonModel::Bool(true)),
        ],
    )
}

/// Answers the question for existing webhooks: there are none, so that the
/// engine goes on to create one.
pub fn list_webhooks() -> (r: ProviderResponse)
    ensures
        r@ == (ProviderResponseModel { status: 200, body: Some(JsonModel::Array(Seq::empty())) }),
{
    ProviderResponse { status: 200, body: Some(empty_array()) }
}

/// Registers a webhook: the answer is 201 with a webhook object, and a
/// refresh of the Jira triggers is asked for, whatever the body holds.
pub fn create_webhook(body: &JsonValue) -> (r: WebhookCreated)
    ensures
        r.refresh,
        r.response@ == (ProviderResponseModel { status: 201, body: Some(webhook_object(body@)) }),
{
    proof {
        reveal_strlit("");
    }
    let name = match body.text_at("name") {
        Some(t) => t,
        None => "n8n-mock",
    };
    let url = match body.text_at("url") {
        Some(t) => t,
        None => {
            assert(""@ =~= Seq::<char>::empty());
            ""
        },
    };
    let events = match body.get("events") {
        Some(e) => e.duplicate(),
        None => empty_array(),
    };
    let mut webhook = no_members();
    push_member(&mut webhook, "name", JsonValue::Text(String::from_str(name)));
    push_member(&mut webhook, "url", JsonValue::Text(String::from_str(url)));
    push_member(&mut webhook, "events", events);
    push_member(&mut webhook, "enabled", JsonValue::Bool(true));
    push_member(
        &mut webhook,
        "self",
        JsonValue::Text("http://localhost/rest/webhooks/1.0/webhook/1".to_string()),
    );
    let webhook = JsonValue::Object(webhook);
    assert(webhook@->Object_0 =~= webhook_object(body@)->Object_0);
    WebhookCreated { response: ProviderResponse { status: 201, body: Some(webhook) }, refresh: true }
}

/// Removes a webhook: there is nothing to forget, and the answer is 204.
pub fn delete_webhook(id: &str) -> (r: ProviderResponse)
    ensures
        r@ == (ProviderResponseModel { status: 204, body: None }),
{
    ProviderResponse { status: 204, body: None }
}

/// Answers a probe of the credentials with a made-up user.
pub fn get_myself() -> (r: ProviderResponse)
    ensures
        r@ == (ProviderResponseModel { status: 200, body: Some(mock_myself()) }),
{
    let mut user = no_members();
    push_member(&mut user, "accountId", JsonValue::Text("unihook-mock".to_string()));
    push_member(&mut user, "emailAddress", JsonValue::Text("unihook@example.com".to_string()));
    push_member(&mut user, "displayName", JsonValue::Text("Unihook Mock Jira User".to_string()));
    push_member(&mut user, "active", JsonValue::Bool(true));
    let user = JsonValue::Object(user);
    assert(user@->Object_0 =~= mock_myself()->Object_0);
    ProviderResponse { status: 200, body: Some(user) }
}

} // verus!
