use unihook::config::{Config, Settings};
use unihook::db::Database;
use unihook::github::GitHubTriggerConfig;
use unihook::headers::HeaderSet;
use unihook::jira::JiraTriggerConfig;
use unihook::json::{JsonNumber, JsonValue};
use unihook::router::github::{DispatchAction, DispatchState};
use unihook::router::{GitHubRouter, JiraRouter, SlackRouter, WebhookKind};
use unihook::routes::github::{check_signature, GitHubOutcome};
use unihook::routes::jira::JiraOutcome;
use unihook::routes::slack::SlackOutcome;
use unihook::routes::{extract_forwarded_headers, handle_github_event, handle_jira_event, handle_slack_event, health_check};
use unihook::crypto::compute_hmac_sha256;
use unihook::slack::SlackTriggerConfig;

const SLACK_FORWARDED_HEADER_PREFIXES: &[&str] = &["x-slack-", "content-type"];
const JIRA_FORWARDED_HEADER_PREFIXES: &[&str] = &["x-atlassian-", "content-type"];

fn config(github_secret: Option<&str>) -> Config {
    Config::from_settings(Settings {
        n8n_api_url: Some("http://engine:5678".to_string()),
        n8n_api_key: Some("test-key".to_string()),
        listen_addr: None,
        refresh_interval_secs: None,
        n8n_endpoint_webhook: None,
        n8n_endpoint_webhook_test: None,
        github_webhook_secret: github_secret.map(|s| s.to_string()),
        database_path: None,
    })
    .unwrap()
}

fn headers(pairs: &[(&str, &str)]) -> HeaderSet {
    let mut set = HeaderSet::new();
    for (name, value) in pairs {
        set.insert(name, value);
    }
    set
}

#[test]
fn test_forwards_slack_signature_header() {
    let headers = headers(&[("x-slack-signature", "v0=abc123")]);
    let forwarded = extract_forwarded_headers(&headers, SLACK_FORWARDED_HEADER_PREFIXES);
    assert_eq!(forwarded.len(), 1);
    assert_eq!(forwarded.get("x-slack-signature").unwrap(), "v0=abc123");
}

#[test]
fn test_forwards_slack_request_timestamp_header() {
    let headers = headers(&[("x-slack-request-timestamp", "1234567890")]);
    let forwarded = extract_forwarded_headers(&headers, SLACK_FORWARDED_HEADER_PREFIXES);
    assert_eq!(forwarded.len(), 1);
    assert_eq!(forwarded.get("x-slack-request-timestamp").unwrap(), "1234567890");
}

#[test]
fn slack_test_forwards_content_type_header() {
    let headers = headers(&[("content-type", "application/json")]);
    let forwarded = extract_forwarded_headers(&headers, SLACK_FORWARDED_HEADER_PREFIXES);
    assert_eq!(forwarded.len(), 1);
    assert_eq!(forwarded.get("content-type").unwrap(), "application/json");
}

#[test]
fn test_forwards_multiple_slack_headers() {
    let headers = headers(&[
        ("x-slack-signature", "v0=abc123"),
        ("x-slack-request-timestamp", "1234567890"),
        ("x-slack-retry-num", "1"),
        ("x-slack-retry-reason", "http_timeout"),
        ("content-type", "application/json"),
    ]);
    let forwarded = extract_forwarded_headers(&headers, SLACK_FORWARDED_HEADER_PREFIXES);
    assert_eq!(forwarded.len(), 5);
    assert!(forwarded.contains_key("x-slack-signature"));
    assert!(forwarded.contains_key("x-slack-request-timestamp"));
    assert!(forwarded.contains_key("x-slack-retry-num"));
    assert!(forwarded.contains_key("x-slack-retry-reason"));
    assert!(forwarded.contains_key("content-type"));
}

#[test]
fn slack_test_does_not_forward_arbitrary_headers() {
    let headers = headers(&[
        ("authorization", "Bearer token123"),
        ("x-custom-header", "custom-value"),
        ("host", "example.com"),
        ("user-agent", "Slackbot"),
    ]);
    let forwarded = extract_forwarded_headers(&headers, SLACK_FORWARDED_HEADER_PREFIXES);
    assert_eq!(forwarded.len(), 0);
    assert!(!forwarded.contains_key("authorization"));
    assert!(!forwarded.contains_key("x-custom-header"));
    assert!(!forwarded.contains_key("host"));
    assert!(!forwarded.contains_key("user-agent"));
}

#[test]
fn slack_test_filters_mixed_headers() {
    let headers = headers(&[
        ("x-slack-signature", "v0=abc123"),
        ("content-type", "application/json"),
        ("authorization", "Bearer token123"),
        ("host", "example.com"),
    ]);
    let forwarded = extract_forwarded_headers(&headers, SLACK_FORWARDED_HEADER_PREFIXES);
    assert_eq!(forwarded.len(), 2);
    assert!(forwarded.contains_key("x-slack-signature"));
    assert!(forwarded.contains_key("content-type"));
    assert!(!forwarded.contains_key("authorization"));
    assert!(!forwarded.contains_key("host"));
}

#[test]
fn slack_test_empty_headers_returns_empty() {
    let headers = HeaderSet::new();
    let forwarded = extract_forwarded_headers(&headers, SLACK_FORWARDED_HEADER_PREFIXES);
    assert_eq!(forwarded.len(), 0);
}

#[test]
fn test_header_matching_is_case_insensitive() {
    let headers = headers(&[("x-slack-signature", "v0=abc123")]);
    let forwarded = extract_forwarded_headers(&headers, SLACK_FORWARDED_HEADER_PREFIXES);
    assert_eq!(forwarded.len(), 1);
    assert!(forwarded.get("x-slack-signature").is_some());
    assert!(forwarded.get("X-Slack-Signature").is_some());
}

#[test]
fn jira_test_forwards_content_type_header() {
    let headers = headers(&[("content-type", "application/json")]);
    let forwarded = extract_forwarded_headers(&headers, JIRA_FORWARDED_HEADER_PREFIXES);
    assert_eq!(forwarded.len(), 1);
    assert_eq!(forwarded.get("content-type").unwrap(), "application/json");
}

#[test]
fn jira_test_forwards_atlassian_headers() {
    let headers = headers(&[("x-atlassian-webhook-identifier", "hook-123"), ("x-atlassian-token", "no-check")]);
    let forwarded = extract_forwarded_headers(&headers, JIRA_FORWARDED_HEADER_PREFIXES);
    assert_eq!(forwarded.len(), 2);
    assert!(forwarded.contains_key("x-atlassian-webhook-identifier"));
    assert!(forwarded.contains_key("x-atlassian-token"));
}

#[test]
fn jira_test_does_not_forward_arbitrary_headers() {
    let headers = headers(&[
        ("authorization", "Bearer token123"),
        ("x-custom-header", "custom-value"),
        ("host", "example.com"),
        ("user-agent", "Jira/1.0"),
    ]);
    let forwarded = extract_forwarded_headers(&headers, JIRA_FORWARDED_HEADER_PREFIXES);
    assert_eq!(forwarded.len(), 0);
}

#[test]
fn jira_test_filters_mixed_headers() {
    let headers = headers(&[
        ("content-type", "application/json"),
        ("x-atlassian-webhook-identifier", "hook-123"),
        ("authorization", "Bearer token123"),
        ("host", "example.com"),
    ]);
    let forwarded = extract_forwarded_headers(&headers, JIRA_FORWARDED_HEADER_PREFIXES);
    assert_eq!(forwarded.len(), 2);
    assert!(forwarded.contains_key("content-type"));
    assert!(forwarded.contains_key("x-atlassian-webhook-identifier"));
    assert!(!forwarded.contains_key("authorization"));
    assert!(!forwarded.contains_key("host"));
}

#[test]
fn jira_test_empty_headers_returns_empty() {
    let headers = HeaderSet::new();
    let forwarded = extract_forwarded_headers(&headers, JIRA_FORWARDED_HEADER_PREFIXES);
    assert_eq!(forwarded.len(), 0);
}

#[test]
fn test_forwards_matching_headers() {
    let headers = headers(&[
        ("x-slack-signature", "v0=abc123"),
        ("content-type", "application/json"),
        ("authorization", "Bearer token123"),
    ]);
    let forwarded = extract_forwarded_headers(&headers, &["x-slack-", "content-type"]);
    assert_eq!(forwarded.len(), 2);
    assert!(forwarded.contains_key("x-slack-signature"));
    assert!(forwarded.contains_key("content-type"));
    assert!(!forwarded.contains_key("authorization"));
}

#[test]
fn mod_test_forwards_atlassian_headers() {
    let headers = headers(&[
        ("x-atlassian-webhook-identifier", "hook-123"),
        ("content-type", "application/json"),
        ("host", "example.com"),
    ]);
    let forwarded = extract_forwarded_headers(&headers, &["x-atlassian-", "content-type"]);
    assert_eq!(forwarded.len(), 2);
    assert!(forwarded.contains_key("x-atlassian-webhook-identifier"));
    assert!(forwarded.contains_key("content-type"));
    assert!(!forwarded.contains_key("host"));
}

#[test]
fn mod_test_empty_headers_returns_empty() {
    let headers = HeaderSet::new();
    let forwarded = extract_forwarded_headers(&headers, &["x-slack-", "content-type"]);
    assert_eq!(forwarded.len(), 0);
}

#[test]
fn test_no_matching_prefixes_returns_empty() {
    let headers = headers(&[("authorization", "Bearer token123"), ("host", "example.com")]);
    let forwarded = extract_forwarded_headers(&headers, &["x-slack-", "content-type"]);
    assert_eq!(forwarded.len(), 0);
}

#[test]
fn content_type_is_matched_as_a_whole_and_the_last_value_of_a_name_wins() {
    let mut set = HeaderSet::new();
    set.append("Content-Type", "text/plain");
    set.append("content-type-options", "nosniff");
    set.append("X-Slack-Retry-Num", "1");
    set.append("content-type", "application/json");
    set.append("x-slack", "too-short");
    let forwarded = extract_forwarded_headers(&set, SLACK_FORWARDED_HEADER_PREFIXES);
    assert_eq!(forwarded.len(), 2);
    assert_eq!(forwarded.get("content-type"), Some("application/json"));
    assert_eq!(forwarded.get("x-slack-retry-num"), Some("1"));
    assert!(!forwarded.contains_key("content-type-options"));
    assert!(!forwarded.contains_key("x-slack"));
    assert_eq!(forwarded.entry(0).name, "X-Slack-Retry-Num");
    assert_eq!(forwarded.entry(1).name, "content-type");
}

#[test]
fn slack_url_verification_echoes_the_challenge() {
    let router = SlackRouter::new(config(None));
    let db = Database::new();
    for challenge in ["abc", "", "3eZbrw1aBm2rZgRNFdxV2595E9CY3gmdALWMmHkvFXO7tYXAYM8P", "\u{e9}\"\\"] {
        let body = format!("{{\"type\":\"url_verification\",\"challenge\":{:?}}}", challenge);
        let body = body.replace("\\u{e9}", "\u{e9}");
        let outcome = handle_slack_event(&router, &db, &HeaderSet::new(), body.as_bytes());
        assert_eq!(outcome.status(), 200);
        match outcome {
            SlackOutcome::Challenge(response) => {
                assert_eq!(response.challenge, challenge);
                let json = response.to_json();
                assert_eq!(json.text_at("challenge"), Some(challenge));
            }
            _ => panic!("expected the challenge"),
        }
    }
}

#[test]
fn slack_happy_path_plans_production_and_test() {
    let router = SlackRouter::new(config(None));
    let mut db = Database::new();
    db.sync_slack_triggers(&vec![SlackTriggerConfig {
        webhook_id: "wh-1".to_string(),
        workflow_id: "wf1".to_string(),
        workflow_name: "Messages".to_string(),
        workflow_active: true,
        event_type: "message".to_string(),
        channels: vec!["C123".to_string()],
        watch_whole_workspace: false,
    }])
    .unwrap();
    let body = br#"{"type":"event_callback","team_id":"T","api_app_id":"A","event_id":"E","event_time":1,
        "event":{"type":"message","channel":"C123","text":"hi"}}"#;
    let inbound = headers(&[("X-Slack-Signature", "v0=1"), ("Authorization", "Bearer x"), ("Content-Type", "application/json")]);
    let outcome = handle_slack_event(&router, &db, &inbound, body);
    assert_eq!(outcome.status(), 200);
    let plan = match outcome {
        SlackOutcome::Accepted(plan) => plan,
        _ => panic!("expected deliveries"),
    };
    assert_eq!(plan.len(), 2);
    assert_eq!(plan[0].url, "http://engine:5678/webhook/wh-1/webhook");
    assert_eq!(plan[1].url, "http://engine:5678/webhook-test/wh-1/webhook");
    for f in &plan {
        assert_eq!(f.body, &body[..]);
        assert_eq!(f.headers.len(), 2);
        assert_eq!(f.headers.get("x-slack-signature"), Some("v0=1"));
        assert!(!f.headers.contains_key("authorization"));
    }
}

#[test]
fn slack_bad_bodies_get_400() {
    let router = SlackRouter::new(config(None));
    let db = Database::new();
    let outcome = handle_slack_event(&router, &db, &HeaderSet::new(), b"not valid json");
    assert_eq!(outcome.status(), 400);
    assert!(matches!(outcome, SlackOutcome::BadRequest("Invalid JSON")));
    let outcome = handle_slack_event(&router, &db, &HeaderSet::new(), br#"{"foo":"bar","not":"slack"}"#);
    assert_eq!(outcome.status(), 400);
    assert!(matches!(outcome, SlackOutcome::BadRequest("Invalid Slack payload")));
}

#[test]
fn slack_event_without_match_is_accepted_and_delivers_nothing() {
    let router = SlackRouter::new(config(None));
    let db = Database::new();
    let body = br#"{"type":"event_callback","team_id":"T","api_app_id":"A","event_id":"E","event_time":1,"event":{"type":"message"}}"#;
    let outcome = handle_slack_event(&router, &db, &HeaderSet::new(), body);
    assert_eq!(outcome.status(), 200);
    match outcome {
        SlackOutcome::Accepted(plan) => assert!(plan.is_empty()),
        _ => panic!("expected acceptance"),
    }
}

#[test]
fn jira_event_is_routed_and_bad_bodies_get_400() {
    let router = JiraRouter::new(config(None));
    let mut db = Database::new();
    db.sync_jira_triggers(&vec![JiraTriggerConfig {
        webhook_id: "j1".to_string(),
        workflow_id: "wf1".to_string(),
        workflow_name: "Issues".to_string(),
        workflow_active: true,
        events: vec!["jira:issue_created".to_string()],
    }])
    .unwrap();
    let inbound = headers(&[("x-atlassian-webhook-identifier", "h"), ("cookie", "c")]);
    let body = br#"{"webhookEvent":"jira:issue_created","issue":{"key":"P-1"}}"#;
    let outcome = handle_jira_event(&router, &db, &inbound, body, None);
    assert_eq!(outcome.status(), 200);
    match outcome {
        JiraOutcome::Accepted(plan) => {
            assert_eq!(plan.len(), 2);
            assert_eq!(plan[0].kind, WebhookKind::Production);
            assert_eq!(plan[0].url, "http://engine:5678/webhook/j1/webhook");
            assert_eq!(plan[0].headers.len(), 1);
            assert_eq!(plan[1].body, &body[..]);
        }
        _ => panic!("expected deliveries"),
    }
    let outcome = handle_jira_event(&router, &db, &inbound, br#"{"webhookEvent":"comment_created"}"#, None);
    match outcome {
        JiraOutcome::Accepted(plan) => assert!(plan.is_empty()),
        _ => panic!("expected acceptance"),
    }
    let outcome = handle_jira_event(&router, &db, &inbound, b"not valid json", None);
    assert_eq!(outcome.status(), 400);
    assert!(matches!(outcome, JiraOutcome::BadRequest(_)));
    let outcome = handle_jira_event(&router, &db, &inbound, br#"{"timestamp":1234567890000,"issue":{"key":"PROJ-123"}}"#, None);
    assert_eq!(outcome.status(), 400);
}

fn github_db() -> Database {
    let mut db = Database::new();
    db.upsert_webhook_secret("gh1", "github", "engine-secret").unwrap();
    db.sync_github_triggers(&vec![GitHubTriggerConfig {
        webhook_id: "gh1".to_string(),
        workflow_id: "wf1".to_string(),
        workflow_name: "Pushes".to_string(),
        workflow_active: true,
        events: vec!["push".to_string()],
        owner: "Test-Owner".to_string(),
        repository: "Test-Repo".to_string(),
        webhook_secret: None,
    }])
    .unwrap();
    db
}

#[test]
fn github_signature_is_checked_first() {
    let router = GitHubRouter::new(config(Some("inbound-secret")));
    let db = github_db();
    let body = br#"{"repository":{"name":"test-repo","owner":{"login":"test-owner"}}}"#;
    let unsigned = headers(&[("x-github-event", "push")]);
    let outcome = handle_github_event(&router, &db, &unsigned, body);
    assert_eq!(outcome.status(), 401);
    assert!(matches!(outcome, GitHubOutcome::Unauthorized));
    let wrong = headers(&[("x-github-event", "push"), ("x-hub-signature-256", compute_hmac_sha256("wrong-secret", body).as_str())]);
    assert!(matches!(handle_github_event(&router, &db, &wrong, body), GitHubOutcome::Unauthorized));
    let signed = headers(&[("x-github-event", "push"), ("X-Hub-Signature-256", compute_hmac_sha256("inbound-secret", body).as_str()), ("content-type", "application/json")]);
    let outcome = handle_github_event(&router, &db, &signed, body);
    assert_eq!(outcome.status(), 200);
    match outcome {
        GitHubOutcome::Accepted(state, DispatchAction::Forward(wave)) => {
            assert!(matches!(state, DispatchState::FirstWave));
            assert_eq!(wave.len(), 2);
            let expected = compute_hmac_sha256("engine-secret", body);
            for d in &wave {
                assert_eq!(d.request.headers.get("x-hub-signature-256"), Some(expected.as_str()));
                assert_eq!(d.request.headers.get("x-github-event"), Some("push"));
                assert_eq!(d.request.headers.get("content-type"), Some("application/json"));
                assert_eq!(d.request.headers.len(), 3);
                assert_eq!(d.request.body, &body[..]);
            }
        }
        _ => panic!("expected deliveries"),
    }
}

#[test]
fn github_missing_header_bad_json_and_ping() {
    let router = GitHubRouter::new(config(None));
    let db = github_db();
    let body = br#"{"repository":{"name":"test-repo","owner":{"login":"test-owner"}}}"#;
    let outcome = handle_github_event(&router, &db, &HeaderSet::new(), body);
    assert_eq!(outcome.status(), 400);
    assert!(matches!(outcome, GitHubOutcome::BadRequest(_)));
    let push = headers(&[("x-github-event", "push")]);
    let outcome = handle_github_event(&router, &db, &push, b"not valid json");
    assert_eq!(outcome.status(), 400);
    let ping = headers(&[("x-github-event", "ping")]);
    let outcome = handle_github_event(&router, &db, &ping, body);
    assert_eq!(outcome.status(), 200);
    assert!(matches!(outcome, GitHubOutcome::Pong));
    let issues = headers(&[("x-github-event", "issues")]);
    let outcome = handle_github_event(&router, &db, &issues, body);
    assert_eq!(outcome.status(), 200);
    assert!(matches!(outcome, GitHubOutcome::Accepted(DispatchState::Finished, DispatchAction::Stop)));
    assert!(check_signature(None, &HeaderSet::new(), body));
    assert!(!check_signature(Some("s"), &HeaderSet::new(), body));
}

#[test]
fn health_report_counts_triggers() {
    let config = config(None);
    let slack = SlackRouter::new(config.clone());
    let jira = JiraRouter::new(config.clone());
    let github = GitHubRouter::new(config.clone());
    let db = github_db();
    let report = health_check(&slack, &jira, &github, &db);
    assert_eq!(report.text_at("status"), Some("healthy"));
    assert!(matches!(report.get("slack_triggers_loaded"), Some(JsonValue::Number(JsonNumber::PosInt(0)))));
    assert!(matches!(report.get("jira_triggers_loaded"), Some(JsonValue::Number(JsonNumber::PosInt(0)))));
    assert!(matches!(report.get("github_triggers_loaded"), Some(JsonValue::Number(JsonNumber::PosInt(1)))));
}
