//! The part of GitHub's REST API that the engine calls when it registers a
//! webhook.
//!
//! The engine believes it talks to GitHub. When it creates a hook it hands
//! over the secret by which it will check deliveries; that secret is kept
//! for the webhook it belongs to.

use vstd::prelude::*;
use vstd::string::*;
use crate::db::{Database, DatabaseModel};
use crate::json::{empty_array, no_members, number_of_i64, push_member, JsonModel, JsonNumber, JsonNumberModel, JsonValue};
use crate::text::{after_last, after_last_start, before_first, before_first_len, before_last, chars_of, trim_trailing, trim_trailing_len};

verus! {

/// What an endpoint answers: a status and, where there is one, a JSON body.
#[derive(Debug)]
pub struct ProviderResponse {
    pub status: u16,
    pub body: Option<JsonValue>,
}

/// The view of a `ProviderResponse`.
pub struct ProviderResponseModel {
    pub status: u16,
    pub body: Option<JsonModel>,
}

impl View for ProviderResponse {
    type V = ProviderResponseModel;

    open spec fn view(&self) -> ProviderResponseModel {
        ProviderResponseModel { status: self.status, body: self.body.deep_view() }
    }
}

/// The webhook identifier in a webhook URL of the engine: the segment
/// before the last one of the path, where the query string and trailing
/// slashes do not count. None where the path has a single segment or that
/// segment is empty.
pub open spec fn webhook_id_of_url(url: Seq<char>) -> Option<Seq<char>> {
    let path = trim_trailing(before_first(url, '?'), '/');
    if !path.contains('/') {
        None
    } else {
        let id = after_last(before_last(path, '/'), '/');
        if id.len() == 0 {
            None
        } else {
            Some(id)
        }
    }
}

/// The text at `key` of the object at `config`; empty where there is none.
pub open spec fn hook_config_text(body: JsonModel, key: Seq<char>) -> Seq<char> {
    match body.get("config"@) {
        Some(config) => match config.text_at(key) {
            Some(t) => t,
            None => Seq::empty(),
        },
        None => Seq::empty(),
    }
}

/// The events that a registration names; the empty array where it names none.
pub open spec fn hook_events(body: JsonModel) -> JsonModel {
    match body.get("events"@) {
        Some(events) => events,
        None => JsonModel::Array(Seq::empty()),
    }
}

/// The webhook identifier that a registration is for: that of its URL, or
/// a made-up one from owner and repository where the URL holds none.
pub open spec fn hook_webhook_id(body: JsonModel, owner: Seq<char>, repo: Seq<char>) -> Seq<char> {
    match webhook_id_of_url(hook_config_text(body, "url"@)) {
        Some(id) => id,
        None => "unknown-"@ + owner + "-"@ + repo,
    }
}

/// The hook object that answers a registration.
pub open spec fn hook_object(id: i64, events: JsonModel, url: Seq<char>) -> JsonModel {
    JsonModel::Object(
        seq![
            ("id"@, JsonModel::Number(number_of_i64(id))),
            ("name"@, JsonModel::Text("web"@)),
            ("active"@, JsonModel::Bool(true)),
            ("events"@, events),
            (
                "config"@,
                JsonModel::Object(
                    seq![
                        ("url"@, JsonModel::Text(url)),
                        ("content_type"@, JsonModel::Text("json"@)),
                    ],
                ),
            ),
            ("updated_at"@, JsonModel::Text("2024-01-01T00:00:00Z"@)),
            ("created_at"@, JsonModel::Text("2024-01-01T00:00:00Z"@)),
        ],
    )
}

/// What the registration of a hook does to the store and answers. The
/// secret is kept for the webhook with authority. The answer is 201 in any
/// case; its hook id is the numeric identifier of the kept secret, or 1
/// where the store refused.
pub open spec fn hook_creation(
    db: DatabaseModel,
    owner: Seq<char>,
    repo: Seq<char>,
    body: JsonModel,
) -> (DatabaseModel, ProviderResponseModel) {
    let (next, outcome) = db.upsert_secret(
        hook_webhook_id(body, owner, repo),
        "github"@,
        hook_config_text(body, "secret"@),
    );
    let id = match outcome {
        Ok(id) => id,
        Err(_) => 1i64,
    };
    (
        next,
        ProviderResponseModel {
            status: 201,
            body: Some(hook_object(id, hook_events(body), hook_config_text(body, "url"@))),
        },
    )
}

/// A registration is answered with 201 whatever it holds. One without a
/// URL keeps its secret under the made-up webhook identifier.
pub proof fn lemma_hook_without_url(
    db: DatabaseModel,
    owner: Seq<char>,
    repo: Seq<char>,
    body: JsonModel,
)
    ensures
        hook_creation(db, owner, repo, body).1.status == 201,
        hook_config_text(body, "url"@).len() == 0 ==> hook_webhook_id(body, owner, repo)
            == "unknown-"@ + owner + "-"@ + repo,
{
    if hook_config_text(body, "url"@).len() == 0 {
        let url = hook_config_text(body, "url"@);
        assert(before_first(url, '?') =~= Seq::<char>::empty());
        assert(trim_trailing(Seq::<char>::empty(), '/') =~= Seq::<char>::empty());
    }
}

/// The user that answers a probe of the credentials.
pub open spec fn mock_user() -> JsonModel {
    JsonModel::Object(
        seq![
            ("login"@, JsonModel::Text("unihook-mock"@)),
            ("id"@, JsonModel::Number(JsonNumberModel::PosInt(1))),
            ("type"@, JsonModel::Text("User"@)),
            ("name"@, JsonModel::Text("Unihook Mock GitHub User"@)),
        ],
    )
}

/// The webhook identifier in a webhook URL of the engine; see
/// `webhook_id_of_url`.
pub fn extract_webhook_id_from_url(url: &str) -> (r: Option<String>)
    ensures
        r.deep_view() == webhook_id_of_url(url@),
{
    let v = chars_of(url);
    let query = before_first_len(&v, '?');
    let end = trim_trailing_len(&v, query, '/');
    let ghost path = v@.take(end as int);
    let last = after_last_start(&v, end, '/');
    if last == 0 {
        return None;
    }
    let head_end = last - 1;
    assert(v@.take(head_end as int).take(head_end as int) =~= v@.take(head_end as int));
    let start = after_last_start(&v, head_end, '/');
    if start == head_end {
        assert(v@.subrange(start as int, head_end as int).len() == 0);
        return None;
    }
    Some(String::from_str(url.substring_char(start, head_end)))
}

fn config_text<'a>(body: &'a JsonValue, key: &str) -> (r: &'a str)
    ensures
        r@ == hook_config_text(body@, key@),
{
    proof {
        reveal_strlit("");
    }
    match body.get("config") {
        Some(config) => match config.text_at(key) {
            Some(t) => t,
            None => {
                assert(""@ =~= Seq::<char>::empty());
                ""
            },
        },
        None => {
            assert(""@ =~= Seq::<char>::empty());
            ""
        },
    }
}

/// Answers the question for existing hooks: there are none, so that the
/// engine goes on to create one.
pub fn list_hooks() -> (r: ProviderResponse)
    ensures
        r@ == (ProviderResponseModel { status: 200, body: Some(JsonModel::Array(Seq::empty())) }),
{
    ProviderResponse { status: 200, body: Some(empty_array()) }
}

/// Registers a hook: see `hook_creation`.
pub fn create_hook(db: &mut Database, owner: &str, repo: &str, body: &JsonValue) -> (r:
    ProviderResponse)
    ensures
        (final(db)@, r@) == hook_creation(old(db)@, owner@, repo@, body@),
{
    let url = config_text(body, "url");
    let secret = config_text(body, "secret");
    let events = match body.get("events") {
        Some(e) => e.duplicate(),
        None => empty_array(),
    };
    let webhook_id = match extract_webhook_id_from_url(url) {
        Some(id) => id,
        None => {
            let mut id = String::from_str("unknown-");
            id.append(owner);
            id.append("-");
            id.append(repo);
            id
        },
    };
    let hook_id = match db.upsert_webhook_secret(webhook_id.as_str(), "github", secret) {
        Ok(id) => id,
        Err(_) => 1,
    };
    let mut config = no_members();
    push_member(&mut config, "url", JsonValue::Text(String::from_str(url)));
    push_member(&mut config, "content_type", JsonValue::Text("json".to_string()));
    let config = JsonValue::Object(config);
    let mut hook = no_members();
    push_member(&mut hook, "id", JsonValue::Number(JsonNumber::from_i64(hook_id)));
    push_member(&mut hook, "name", JsonValue::Text("web".to_string()));
    push_member(&mut hook, "active", JsonValue::Bool(true));
    push_member(&mut hook, "events", events);
    push_member(&mut hook, "config", config);
    push_member(&mut hook, "updated_at", JsonValue::Text("2024-01-01T00:00:00Z".to_string()));
    push_member(&mut hook, "created_at", JsonValue::Text("2024-01-01T00:00:00Z".to_string()));
    let hook = JsonValue::Object(hook);
    proof {
        let expected = hook_object(hook_id, hook_events(body@), hook_config_text(body@, "url"@));
        assert(config@->Object_0 =~= expected->Object_0[4].1->Object_0);
        assert(hook@->Object_0 =~= expected->Object_0);
    }
    ProviderResponse { status: 201, body: Some(hook) }
}

/// Removes a hook: the secret with the numeric identifier `hook_id` is
/// forgotten. The answer is 204 whether there was one or not.
pub fn delete_hook(db: &mut Database, hook_id: i64) -> (r: ProviderResponse)
    ensures
        final(db)@ == old(db)@.delete_secret(hook_id).0,
        r@ == (ProviderResponseModel { status: 204, body: None }),
{
    let _ = db.delete_webhook_secret_by_id(hook_id);
    ProviderResponse { status: 204, body: None }
}

/// Answers a probe of the credentials with a made-up user.
pub fn get_user() -> (r: ProviderResponse)
    ensures
        r@ == (ProviderResponseModel { status: 200, body: Some(mock_user()) }),
{
    let mut user = no_members();
    push_member(&mut user, "login", JsonValue::Text("unihook-mock".to_string()));
    push_member(&mut user, "id", JsonValue::Number(JsonNumber::PosInt(1)));
    push_member(&mut user, "type", JsonValue::Text("User".to_string()));
    push_member(&mut user, "name", JsonValue::Text("Unihook Mock GitHub User".to_string()));
    let user = JsonValue::Object(user);
    assert(user@->Object_0 =~= mock_user()->Object_0);
    ProviderResponse { status: 200, body: Some(user) }
}

} // verus!
