use unihook::config::{Config, Settings};
use unihook::db::Database;
use unihook::jira::JiraTriggerConfig;
use unihook::json::{JsonNumber, JsonValue};
use unihook::router::JiraRouter;
use unihook::routes::provider_github::{create_hook, delete_hook, extract_webhook_id_from_url, get_user, list_hooks};
use unihook::routes::provider_jira::{create_webhook, delete_webhook, get_myself, list_webhooks};

fn json(text: &str) -> JsonValue {
    JsonValue::parse(text.as_bytes()).expect("test JSON should parse")
}

fn hook_id(body: &JsonValue) -> i64 {
    match body.get("id") {
        Some(JsonValue::Number(JsonNumber::PosInt(n))) => *n as i64,
        Some(JsonValue::Number(JsonNumber::NegInt(n))) => *n,
        other => panic!("hook id missing: {:?}", other),
    }
}

#[test]
fn test_extract_webhook_id_standard_url() {
    let id = extract_webhook_id_from_url("http://n8n:5678/webhook/abc123-def456/webhook");
    assert_eq!(id.as_deref(), Some("abc123-def456"));
}

#[test]
fn test_extract_webhook_id_test_endpoint() {
    let id = extract_webhook_id_from_url("http://n8n:5678/webhook-test/abc123-def456/webhook");
    assert_eq!(id.as_deref(), Some("abc123-def456"));
}

#[test]
fn test_extract_webhook_id_with_trailing_slash() {
    let id = extract_webhook_id_from_url("http://n8n:5678/webhook/abc123/webhook/");
    assert_eq!(id.as_deref(), Some("abc123"));
}

#[test]
fn test_extract_webhook_id_with_query_string() {
    let id = extract_webhook_id_from_url("http://n8n:5678/webhook/abc123/webhook?token=xyz");
    assert_eq!(id.as_deref(), Some("abc123"));
}

#[test]
fn test_extract_webhook_id_empty_url() {
    let id = extract_webhook_id_from_url("");
    assert!(id.is_none());
}

#[test]
fn test_extract_webhook_id_no_path() {
    let id = extract_webhook_id_from_url("http://n8n:5678");
    assert!(id.is_none());
}

#[test]
fn extract_webhook_id_edge_cases() {
    assert_eq!(extract_webhook_id_from_url("a/b").as_deref(), Some("a"));
    assert_eq!(extract_webhook_id_from_url("a/b///").as_deref(), Some("a"));
    assert_eq!(extract_webhook_id_from_url("/b"), None);
    assert_eq!(extract_webhook_id_from_url("b"), None);
    assert_eq!(extract_webhook_id_from_url("///"), None);
    assert_eq!(extract_webhook_id_from_url("x/\u{e9}t\u{e9}/webhook?a/b/c").as_deref(), Some("\u{e9}t\u{e9}"));
    assert_eq!(extract_webhook_id_from_url("?http://n8n/webhook/id/webhook"), None);
}

#[test]
fn test_create_hook_stores_secret_in_db() {
    let mut db = Database::new();
    let body = json(r#"{
        "name": "web",
        "config": {
            "url": "http://n8n:5678/webhook/test-wh-id/webhook",
            "content_type": "json",
            "secret": "my-test-secret"
        },
        "events": ["push"],
        "active": true
    }"#);
    let response = create_hook(&mut db, "test-owner", "test-repo", &body);
    assert_eq!(response.status, 201);
    let secret = db.get_webhook_secret("test-wh-id").unwrap();
    assert_eq!(secret, Some("my-test-secret".to_string()));
    let hook = response.body.unwrap();
    assert_eq!(hook_id(&hook), 1);
    assert_eq!(hook.text_at("name"), Some("web"));
    assert_eq!(hook.get("active").and_then(|v| v.as_bool()), Some(true));
    assert_eq!(hook.get("events").unwrap().texts(), vec!["push"]);
    assert_eq!(hook.get("config").unwrap().text_at("url"), Some("http://n8n:5678/webhook/test-wh-id/webhook"));
    assert_eq!(hook.get("config").unwrap().text_at("content_type"), Some("json"));
    assert!(hook.get("config").unwrap().get("secret").is_none());
}

#[test]
fn test_create_hook_upsert_preserves_id_and_updates_secret() {
    let mut db = Database::new();
    let body1 = json(r#"{"config": {"url": "http://n8n:5678/webhook/wh-upsert/webhook", "secret": "first-secret"}}"#);
    let first = create_hook(&mut db, "o", "r", &body1);
    let body2 = json(r#"{"config": {"url": "http://n8n:5678/webhook/wh-upsert/webhook", "secret": "updated-secret"}}"#);
    let second = create_hook(&mut db, "o", "r", &body2);
    let secret = db.get_webhook_secret("wh-upsert").unwrap();
    assert_eq!(secret, Some("updated-secret".to_string()));
    assert_eq!(hook_id(&first.body.unwrap()), hook_id(&second.body.unwrap()));
}

#[test]
fn test_create_hook_fallback_id_when_url_missing() {
    let mut db = Database::new();
    let body = json(r#"{"config": {"secret": "fallback-secret"}}"#);
    let response = create_hook(&mut db, "the-owner", "the-repo", &body);
    assert_eq!(response.status, 201);
    let secret = db.get_webhook_secret("unknown-the-owner-the-repo").unwrap();
    assert_eq!(secret, Some("fallback-secret".to_string()));
}

#[test]
fn test_create_hook_empty_secret_still_stored() {
    let mut db = Database::new();
    let body = json(r#"{"config": {"url": "http://n8n:5678/webhook/wh-empty/webhook"}}"#);
    let response = create_hook(&mut db, "o", "r", &body);
    assert_eq!(response.status, 201);
    let secret = db.get_webhook_secret("wh-empty").unwrap();
    assert_eq!(secret, Some("".to_string()));
}

#[test]
fn test_delete_hook_removes_secret_from_db() {
    let mut db = Database::new();
    let hook_id = db.upsert_webhook_secret("wh-del", "github", "the-secret").unwrap();
    assert!(db.get_webhook_secret("wh-del").unwrap().is_some());
    let response = delete_hook(&mut db, hook_id);
    assert_eq!(response.status, 204);
    assert!(response.body.is_none());
    assert!(db.get_webhook_secret("wh-del").unwrap().is_none());
}

#[test]
fn test_delete_hook_nonexistent_returns_204() {
    let mut db = Database::new();
    let response = delete_hook(&mut db, 99999);
    assert_eq!(response.status, 204);
}

#[test]
fn test_list_hooks_returns_200() {
    let response = list_hooks();
    assert_eq!(response.status, 200);
    assert!(matches!(response.body, Some(JsonValue::Array(ref items)) if items.is_empty()));
}

#[test]
fn test_get_user_returns_200() {
    let response = get_user();
    assert_eq!(response.status, 200);
    assert_eq!(response.body.unwrap().text_at("login"), Some("unihook-mock"));
}

#[test]
fn create_hook_without_any_body_still_answers() {
    let mut db = Database::new();
    let response = create_hook(&mut db, "o", "r", &json("{}"));
    assert_eq!(response.status, 201);
    let hook = response.body.unwrap();
    assert_eq!(hook.get("config").unwrap().text_at("url"), Some(""));
    assert!(matches!(hook.get("events"), Some(JsonValue::Array(items)) if items.is_empty()));
    assert_eq!(db.get_webhook_secret("unknown-o-r").unwrap().as_deref(), Some(""));
}

#[test]
fn test_create_webhook_returns_201() {
    let body = json(r#"{
        "name": "n8n: http://n8n:5678/webhook/jira-wh-1/webhook",
        "url": "http://n8n:5678/webhook/jira-wh-1/webhook",
        "events": ["jira:issue_created"],
        "filters": {},
        "excludeBody": false
    }"#);
    let created = create_webhook(&body);
    assert_eq!(created.response.status, 201);
    assert!(created.refresh);
    let webhook = created.response.body.unwrap();
    assert_eq!(webhook.text_at("url"), Some("http://n8n:5678/webhook/jira-wh-1/webhook"));
    assert_eq!(webhook.text_at("self"), Some("http://localhost/rest/webhooks/1.0/webhook/1"));
    assert_eq!(webhook.get("events").unwrap().texts(), vec!["jira:issue_created"]);
}

#[test]
fn test_create_webhook_with_minimal_body() {
    let created = create_webhook(&json("{}"));
    assert_eq!(created.response.status, 201);
    assert!(created.refresh);
    let webhook = created.response.body.unwrap();
    assert_eq!(webhook.text_at("name"), Some("n8n-mock"));
    assert_eq!(webhook.text_at("url"), Some(""));
    assert_eq!(webhook.get("enabled").and_then(|v| v.as_bool()), Some(true));
}

#[test]
fn test_delete_webhook_returns_204() {
    let response = delete_webhook("42");
    assert_eq!(response.status, 204);
}

#[test]
fn test_delete_webhook_nonexistent_returns_204() {
    let response = delete_webhook("nonexistent");
    assert_eq!(response.status, 204);
}

#[test]
fn test_list_webhooks_returns_200() {
    let response = list_webhooks();
    assert_eq!(response.status, 200);
}

#[test]
fn test_get_myself_returns_200() {
    let response = get_myself();
    assert_eq!(response.status, 200);
    assert_eq!(response.body.unwrap().text_at("accountId"), Some("unihook-mock"));
}

#[test]
fn jira_registration_is_followed_by_a_refresh_that_fills_the_table() {
    let config = Config::from_settings(Settings {
        n8n_api_url: None,
        n8n_api_key: Some("k".to_string()),
        listen_addr: None,
        refresh_interval_secs: None,
        n8n_endpoint_webhook: None,
        n8n_endpoint_webhook_test: None,
        github_webhook_secret: None,
        database_path: None,
    })
    .unwrap();
    let router = JiraRouter::new(config);
    let mut db = Database::new();
    assert_eq!(router.trigger_count(&db), 0);
    let created = create_webhook(&json("{}"));
    assert!(created.refresh);
    let fetched = vec![JiraTriggerConfig {
        webhook_id: "new".to_string(),
        workflow_id: "wf".to_string(),
        workflow_name: "New".to_string(),
        workflow_active: true,
        events: vec!["*".to_string()],
    }];
    assert!(router.refresh_triggers(&mut db, Ok(fetched)).is_ok());
    assert_eq!(router.trigger_count(&db), 1);
}
