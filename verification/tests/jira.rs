use unihook::jira::{parse_jira_trigger, JiraTriggerConfig, JiraWebhookPayload};
use unihook::json::{JsonNumber, JsonValue};
use unihook::n8n::{WebhookEndpoints, Workflow, WorkflowNode};
use unihook::router::build_webhook_url;

fn json(text: &str) -> JsonValue {
    JsonValue::parse(text.as_bytes()).expect("test JSON should parse")
}

fn payload(text: &str) -> JiraWebhookPayload {
    JiraWebhookPayload::from_json(&json(text)).unwrap()
}

fn create_workflow(id: &str, name: &str, nodes: Vec<WorkflowNode>) -> Workflow {
    Workflow {
        id: id.to_string(),
        name: name.to_string(),
        active: true,
        nodes,
        static_data: None,
    }
}

fn create_jira_trigger_node(webhook_id: Option<&str>, params: JsonValue) -> WorkflowNode {
    WorkflowNode {
        node_type: "n8n-nodes-base.jiraTrigger".to_string(),
        name: "Jira Trigger".to_string(),
        parameters: params,
        webhook_id: webhook_id.map(|s| s.to_string()),
    }
}

fn create_jira_trigger_config(events: Vec<&str>) -> JiraTriggerConfig {
    JiraTriggerConfig {
        webhook_id: "abc123".to_string(),
        workflow_id: "wf1".to_string(),
        workflow_name: "Test Jira Workflow".to_string(),
        workflow_active: true,
        events: events.iter().map(|s| s.to_string()).collect(),
    }
}

fn default_endpoints() -> WebhookEndpoints {
    WebhookEndpoints::default()
}

fn webhook_url(config: &JiraTriggerConfig, base_url: &str, endpoints: &WebhookEndpoints) -> String {
    build_webhook_url(base_url, &endpoints.production, &config.webhook_id)
}

fn test_webhook_url(config: &JiraTriggerConfig, base_url: &str, endpoints: &WebhookEndpoints) -> String {
    build_webhook_url(base_url, &endpoints.test, &config.webhook_id)
}

#[test]
fn test_parse_issue_created_event() {
    let p = payload(r#"{
        "webhookEvent": "jira:issue_created",
        "timestamp": 1234567890,
        "issue": {"id": "10001", "key": "PROJ-123", "fields": {"summary": "Test issue"}}
    }"#);
    assert_eq!(p.webhook_event, "jira:issue_created");
}

#[test]
fn test_parse_comment_created_event() {
    let p = payload(r#"{
        "webhookEvent": "comment_created",
        "timestamp": 1234567890,
        "comment": {"id": "10042", "body": "This is a comment"}
    }"#);
    assert_eq!(p.webhook_event, "comment_created");
}

#[test]
fn test_parse_board_event() {
    let p = payload(r#"{"webhookEvent": "board_created", "board": {"id": 1, "name": "My Board"}}"#);
    assert_eq!(p.webhook_event, "board_created");
}

#[test]
fn test_parse_sprint_event() {
    let p = payload(r#"{"webhookEvent": "sprint_started", "sprint": {"id": 42, "name": "Sprint 1"}}"#);
    assert_eq!(p.webhook_event, "sprint_started");
}

#[test]
fn test_parse_version_event() {
    let p = payload(r#"{"webhookEvent": "jira:version_released", "version": {"id": "10000", "name": "v1.0"}}"#);
    assert_eq!(p.webhook_event, "jira:version_released");
}

#[test]
fn test_parse_worklog_event() {
    let p = payload(r#"{"webhookEvent": "worklog_created", "worklog": {"id": "100"}}"#);
    assert_eq!(p.webhook_event, "worklog_created");
}

#[test]
fn test_parse_user_event() {
    let p = payload(r#"{"webhookEvent": "user_created", "user": {"accountId": "abc123"}}"#);
    assert_eq!(p.webhook_event, "user_created");
}

#[test]
fn test_parse_minimal_payload() {
    let p = payload(r#"{"webhookEvent": "jira:issue_updated"}"#);
    assert_eq!(p.webhook_event, "jira:issue_updated");
}

#[test]
fn test_extra_fields_captured() {
    let p = payload(r#"{
        "webhookEvent": "jira:issue_created",
        "timestamp": 1234567890,
        "custom_field": "value"
    }"#);
    assert_eq!(p.webhook_event, "jira:issue_created");
    assert!(matches!(
        p.extra.get("timestamp"),
        Some(JsonValue::Number(JsonNumber::PosInt(1234567890)))
    ));
    assert_eq!(p.extra.text_at("custom_field"), Some("value"));
    assert!(p.extra.get("webhookEvent").is_none());
}

#[test]
fn payload_without_event_is_rejected() {
    assert!(JiraWebhookPayload::from_json(&json(r#"{"timestamp": 1234567890000, "issue": {"key": "PROJ-123"}}"#)).is_none());
    assert!(JiraWebhookPayload::from_json(&json(r#"{"webhookEvent": 7}"#)).is_none());
    assert!(JiraWebhookPayload::from_json(&json(r#"["webhookEvent"]"#)).is_none());
}

#[test]
fn test_parse_jira_trigger_basic() {
    let node = create_jira_trigger_node(Some("webhook-j1"), json(r#"{"events": ["jira:issue_created"]}"#));
    let workflow = create_workflow("wf1", "Jira Workflow", vec![node.duplicate()]);
    let endpoints = default_endpoints();
    let config = parse_jira_trigger(&workflow, &node).unwrap();
    assert_eq!(config.workflow_id, "wf1");
    assert_eq!(config.workflow_name, "Jira Workflow");
    assert_eq!(config.webhook_id, "webhook-j1");
    assert_eq!(
        webhook_url(&config, "http://localhost:5678", &endpoints),
        "http://localhost:5678/webhook/webhook-j1/webhook"
    );
    assert_eq!(
        test_webhook_url(&config, "http://localhost:5678", &endpoints),
        "http://localhost:5678/webhook-test/webhook-j1/webhook"
    );
    assert_eq!(config.events, vec!["jira:issue_created"]);
}

#[test]
fn test_parse_jira_trigger_multiple_events() {
    let node = create_jira_trigger_node(
        Some("webhook-j2"),
        json(r#"{"events": ["jira:issue_created", "comment_created", "sprint_started"]}"#),
    );
    let workflow = create_workflow("wf2", "Multi Event Workflow", vec![node.duplicate()]);
    let config = parse_jira_trigger(&workflow, &node).unwrap();
    assert_eq!(config.events, vec!["jira:issue_created", "comment_created", "sprint_started"]);
}

#[test]
fn test_parse_jira_trigger_wildcard() {
    let node = create_jira_trigger_node(Some("webhook-j3"), json(r#"{"events": ["*"]}"#));
    let workflow = create_workflow("wf3", "Wildcard Workflow", vec![node.duplicate()]);
    let config = parse_jira_trigger(&workflow, &node).unwrap();
    assert_eq!(config.events, vec!["*"]);
}

#[test]
fn test_parse_jira_trigger_empty_events() {
    let node = create_jira_trigger_node(Some("webhook-j4"), json(r#"{"events": []}"#));
    let workflow = create_workflow("wf4", "Empty Events Workflow", vec![node.duplicate()]);
    let config = parse_jira_trigger(&workflow, &node).unwrap();
    assert!(config.events.is_empty());
}

#[test]
fn test_parse_jira_trigger_no_events_param() {
    let node = create_jira_trigger_node(Some("webhook-j5"), json("{}"));
    let workflow = create_workflow("wf5", "No Events Workflow", vec![node.duplicate()]);
    let config = parse_jira_trigger(&workflow, &node).unwrap();
    assert!(config.events.is_empty());
}

#[test]
fn test_parse_non_jira_node_returns_none() {
    let node = WorkflowNode {
        node_type: "n8n-nodes-base.httpRequest".to_string(),
        name: "HTTP Request".to_string(),
        parameters: json("{}"),
        webhook_id: Some("webhook-123".to_string()),
    };
    let workflow = create_workflow("wf1", "Workflow", vec![node.duplicate()]);
    let config = parse_jira_trigger(&workflow, &node);
    assert!(config.is_none());
}

#[test]
fn test_parse_jira_trigger_without_webhook_id() {
    let node = create_jira_trigger_node(None, json(r#"{"events": ["jira:issue_created"]}"#));
    let workflow = create_workflow("wf1", "Workflow", vec![node.duplicate()]);
    let config = parse_jira_trigger(&workflow, &node);
    assert!(config.is_none());
}

#[test]
fn test_parse_jira_trigger_webhook_url_trailing_slash() {
    let node = create_jira_trigger_node(Some("jh123"), json(r#"{"events": ["jira:issue_created"]}"#));
    let workflow = create_workflow("wf1", "Workflow", vec![node.duplicate()]);
    let endpoints = default_endpoints();
    let config = parse_jira_trigger(&workflow, &node).unwrap();
    assert_eq!(
        webhook_url(&config, "http://localhost:5678/", &endpoints),
        "http://localhost:5678/webhook/jh123/webhook"
    );
    assert_eq!(
        test_webhook_url(&config, "http://localhost:5678/", &endpoints),
        "http://localhost:5678/webhook-test/jh123/webhook"
    );
}

#[test]
fn test_parse_jira_trigger_custom_endpoints() {
    let node = create_jira_trigger_node(Some("jh123"), json(r#"{"events": ["jira:issue_created"]}"#));
    let workflow = create_workflow("wf1", "Workflow", vec![node.duplicate()]);
    let endpoints = WebhookEndpoints {
        production: "custom-webhook".to_string(),
        test: "custom-test".to_string(),
    };
    let config = parse_jira_trigger(&workflow, &node).unwrap();
    assert_eq!(
        webhook_url(&config, "http://localhost:5678", &endpoints),
        "http://localhost:5678/custom-webhook/jh123/webhook"
    );
    assert_eq!(
        test_webhook_url(&config, "http://localhost:5678", &endpoints),
        "http://localhost:5678/custom-test/jh123/webhook"
    );
}

#[test]
fn test_parse_jira_trigger_workflow_active_flag() {
    let node = create_jira_trigger_node(Some("jh123"), json(r#"{"events": ["jira:issue_created"]}"#));
    let mut workflow = create_workflow("wf1", "Active Workflow", vec![node.duplicate()]);
    let config = parse_jira_trigger(&workflow, &node).unwrap();
    assert!(config.workflow_active);
    workflow.active = false;
    let config = parse_jira_trigger(&workflow, &node).unwrap();
    assert!(!config.workflow_active);
}

#[test]
fn test_jira_matches_exact_event() {
    let trigger = create_jira_trigger_config(vec!["jira:issue_created"]);
    assert!(trigger.matches_event("jira:issue_created"));
}

#[test]
fn test_jira_no_match_wrong_event() {
    let trigger = create_jira_trigger_config(vec!["jira:issue_created"]);
    assert!(!trigger.matches_event("comment_created"));
}

#[test]
fn test_jira_wildcard_matches_any_event() {
    let trigger = create_jira_trigger_config(vec!["*"]);
    assert!(trigger.matches_event("jira:issue_created"));
    assert!(trigger.matches_event("jira:issue_updated"));
    assert!(trigger.matches_event("comment_created"));
    assert!(trigger.matches_event("sprint_started"));
    assert!(trigger.matches_event("board_deleted"));
    assert!(trigger.matches_event("worklog_updated"));
    assert!(trigger.matches_event("user_created"));
}

#[test]
fn test_jira_multiple_events_match() {
    let trigger = create_jira_trigger_config(vec!["jira:issue_created", "comment_created"]);
    assert!(trigger.matches_event("jira:issue_created"));
    assert!(trigger.matches_event("comment_created"));
    assert!(!trigger.matches_event("sprint_started"));
}

#[test]
fn test_jira_empty_events_no_match() {
    let trigger = create_jira_trigger_config(vec![]);
    assert!(!trigger.matches_event("jira:issue_created"));
    assert!(!trigger.matches_event("comment_created"));
}

#[test]
fn test_jira_all_event_types_matchable() {
    let all_events = vec![
        "board_configuration_changed",
        "board_created",
        "board_deleted",
        "board_updated",
        "comment_created",
        "comment_deleted",
        "comment_updated",
        "jira:issue_created",
        "jira:issue_deleted",
        "jira:issue_updated",
        "issuelink_created",
        "issuelink_deleted",
        "option_attachments_changed",
        "option_issuelinks_changed",
        "option_subtasks_changed",
        "option_timetracking_changed",
        "option_unassigned_issues_changed",
        "option_voting_changed",
        "option_watching_changed",
        "project_created",
        "project_deleted",
        "project_updated",
        "sprint_closed",
        "sprint_created",
        "sprint_deleted",
        "sprint_started",
        "sprint_updated",
        "user_created",
        "user_deleted",
        "user_updated",
        "jira:version_created",
        "jira:version_deleted",
        "jira:version_moved",
        "jira:version_released",
        "jira:version_unreleased",
        "jira:version_updated",
        "worklog_created",
        "worklog_deleted",
        "worklog_updated",
    ];
    let trigger = create_jira_trigger_config(all_events.clone());
    for event in &all_events {
        assert!(trigger.matches_event(event), "Expected trigger to match event: {}", event);
    }
}

#[test]
fn wildcard_does_not_match_through_an_empty_filter() {
    let trigger = create_jira_trigger_config(vec![]);
    assert!(!trigger.matches_event("*"));
}
