use unihook::json::JsonValue;
use unihook::slack::{SlackEvent, SlackPayload};

fn json(text: &str) -> JsonValue {
    JsonValue::parse(text.as_bytes()).expect("test JSON should parse")
}

fn event(event_type: &str, channel: Option<&str>, reaction: Option<&str>, subtype: Option<&str>) -> SlackEvent {
    SlackEvent {
        event_type: event_type.to_string(),
        channel: channel.map(|s| s.to_string()),
        user: None,
        ts: None,
        text: None,
        reaction: reaction.map(|s| s.to_string()),
        subtype: subtype.map(|s| s.to_string()),
        file_id: None,
        channel_type: None,
        bot_id: None,
        extra: JsonValue::Null,
    }
}

#[test]
fn test_url_verification_parsing() {
    let doc = json(r#"{"type": "url_verification", "challenge": "test-challenge-token"}"#);
    let payload = SlackPayload::from_json(&doc).unwrap();
    match payload {
        SlackPayload::UrlVerification { challenge } => {
            assert_eq!(challenge, "test-challenge-token");
        }
        _ => panic!("Expected UrlVerification"),
    }
}

#[test]
fn test_event_callback_parsing() {
    let doc = json(r#"{
        "type": "event_callback",
        "team_id": "T123456",
        "api_app_id": "A123456",
        "event_id": "Ev123456",
        "event_time": 1234567890,
        "event": {
            "type": "message",
            "channel": "C123456",
            "user": "U123456",
            "text": "Hello world",
            "ts": "1234567890.123456"
        }
    }"#);
    let payload = SlackPayload::from_json(&doc).unwrap();
    match payload {
        SlackPayload::EventCallback(callback) => {
            assert_eq!(callback.team_id, "T123456");
            assert_eq!(callback.api_app_id, "A123456");
            assert_eq!(callback.event_id, "Ev123456");
            assert_eq!(callback.event_time, 1234567890);
            assert_eq!(callback.event.event_type, "message");
            assert_eq!(callback.event.channel, Some("C123456".to_string()));
            assert!(callback.authorizations.is_empty());
        }
        _ => panic!("Expected EventCallback"),
    }
}

#[test]
fn test_message_event_parsing() {
    let doc = json(r#"{
        "type": "message",
        "channel": "C123456",
        "user": "U123456",
        "text": "Hello world",
        "ts": "1234567890.123456"
    }"#);
    let event = SlackEvent::from_json(&doc).unwrap();
    assert_eq!(event.event_type, "message");
    assert_eq!(event.channel, Some("C123456".to_string()));
    assert_eq!(event.user, Some("U123456".to_string()));
    assert_eq!(event.text, Some("Hello world".to_string()));
    assert_eq!(event.ts, Some("1234567890.123456".to_string()));
}

#[test]
fn test_reaction_event_parsing() {
    let doc = json(r#"{
        "type": "reaction_added",
        "user": "U123456",
        "reaction": "thumbsup",
        "item": {"type": "message", "channel": "C123456", "ts": "1234567890.123456"}
    }"#);
    let event = SlackEvent::from_json(&doc).unwrap();
    assert_eq!(event.event_type, "reaction_added");
    assert_eq!(event.user, Some("U123456".to_string()));
    assert_eq!(event.reaction, Some("thumbsup".to_string()));
    assert_eq!(event.channel, None);
    assert_eq!(event.extra.get("item").unwrap().text_at("channel"), Some("C123456"));
    assert!(event.extra.get("type").is_none());
}

#[test]
fn test_app_mention_parsing() {
    let doc = json(r#"{
        "type": "app_mention",
        "channel": "C123456",
        "user": "U123456",
        "text": "<@U987654> hello bot",
        "ts": "1234567890.123456"
    }"#);
    let event = SlackEvent::from_json(&doc).unwrap();
    assert_eq!(event.event_type, "app_mention");
    assert_eq!(event.channel, Some("C123456".to_string()));
    assert_eq!(event.text, Some("<@U987654> hello bot".to_string()));
}

#[test]
fn test_event_type_mapping_message() {
    let event = event("message", Some("C123"), None, None);
    assert_eq!(event.to_n8n_event_type(), "message");
}

#[test]
fn test_event_type_mapping_file_share() {
    let event = event("message", Some("C123"), None, Some("file_share"));
    assert_eq!(event.to_n8n_event_type(), "file_shared");
}

#[test]
fn test_event_type_mapping_reaction() {
    let event = event("reaction_added", None, Some("thumbsup"), None);
    assert_eq!(event.to_n8n_event_type(), "reaction_added");
}

#[test]
fn test_event_type_mapping_app_mention() {
    let event = event("app_mention", Some("C123"), None, None);
    assert_eq!(event.to_n8n_event_type(), "app_mention");
}

#[test]
fn test_event_type_mapping_channel_created() {
    let event = event("channel_created", None, None, None);
    assert_eq!(event.to_n8n_event_type(), "channel_created");
}

#[test]
fn test_event_type_mapping_team_join() {
    let event = event("team_join", None, None, None);
    assert_eq!(event.to_n8n_event_type(), "user_created");
}

#[test]
fn test_event_type_mapping_unknown_passthrough() {
    let event = event("some_unknown_event", None, None, None);
    assert_eq!(event.to_n8n_event_type(), "some_unknown_event");
}

#[test]
fn file_share_subtype_counts_only_on_messages() {
    let e = event("app_mention", None, None, Some("file_share"));
    assert_eq!(e.to_n8n_event_type(), "app_mention");
    let e = event("message", None, None, Some("bot_message"));
    assert_eq!(e.to_n8n_event_type(), "message");
}

#[test]
fn payloads_that_are_no_slack_payload_are_rejected() {
    assert!(SlackPayload::from_json(&json(r#"{"foo": "bar", "not": "slack"}"#)).is_none());
    assert!(SlackPayload::from_json(&json(r#"{"type": "url_verification"}"#)).is_none());
    assert!(SlackPayload::from_json(&json(r#"{"type": "event_callback", "team_id": "T"}"#)).is_none());
    assert!(SlackPayload::from_json(&json(r#"{"type": "something_else"}"#)).is_none());
    // event_time must fit 64 unsigned bits
    assert!(SlackPayload::from_json(&json(r#"{
        "type": "event_callback", "team_id": "T", "api_app_id": "A", "event_id": "E",
        "event_time": -1, "event": {"type": "message"}
    }"#)).is_none());
    // an optional field of another type than text
    assert!(SlackPayload::from_json(&json(r#"{
        "type": "event_callback", "team_id": "T", "api_app_id": "A", "event_id": "E",
        "event_time": 1, "event": {"type": "message", "channel": 5}
    }"#)).is_none());
}

#[test]
fn authorizations_are_read_when_present() {
    let doc = json(r#"{
        "type": "event_callback", "team_id": "T", "api_app_id": "A", "event_id": "E",
        "event_time": 1, "event": {"type": "message", "channel": null},
        "authorizations": [
            {"enterprise_id": null, "team_id": "T1", "user_id": "U1", "is_bot": true, "is_enterprise_install": false}
        ]
    }"#);
    match SlackPayload::from_json(&doc).unwrap() {
        SlackPayload::EventCallback(callback) => {
            assert_eq!(callback.authorizations.len(), 1);
            assert_eq!(callback.authorizations[0].enterprise_id, None);
            assert_eq!(callback.authorizations[0].team_id.as_deref(), Some("T1"));
            assert!(callback.authorizations[0].is_bot);
            assert!(!callback.authorizations[0].is_enterprise_install);
            assert_eq!(callback.event.channel, None);
        }
        _ => panic!("Expected EventCallback"),
    }
    let bad = json(r#"{
        "type": "event_callback", "team_id": "T", "api_app_id": "A", "event_id": "E",
        "event_time": 1, "event": {"type": "message"},
        "authorizations": [{"team_id": "T1"}]
    }"#);
    assert!(SlackPayload::from_json(&bad).is_none());
}
