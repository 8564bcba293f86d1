use unihook::config::{Config, Settings};
use unihook::crypto::compute_hmac_sha256;
use unihook::db::Database;
use unihook::github::GitHubTriggerConfig;
use unihook::headers::HeaderSet;
use unihook::jira::JiraTriggerConfig;
use unihook::n8n::N8nClientError;
use unihook::router::github::{retry_targets, DispatchAction, DispatchEvent, DispatchState, ForwardResult, GitHubDelivery};
use unihook::router::jira::append_query_string;
use unihook::router::{build_webhook_url, forward_to_webhook, GitHubRouter, JiraRouter, SlackRouter, WebhookKind};
use unihook::slack::{SlackEvent, SlackEventCallback, SlackTriggerConfig};
use unihook::json::JsonValue;

fn config(base: &str) -> Config {
    Config::from_settings(Settings {
        n8n_api_url: Some(base.to_string()),
        n8n_api_key: Some("test-api-key".to_string()),
        listen_addr: None,
        refresh_interval_secs: Some(600),
        n8n_endpoint_webhook: None,
        n8n_endpoint_webhook_test: None,
        github_webhook_secret: None,
        database_path: None,
    })
    .unwrap()
}

fn github_trigger(webhook_id: &str, active: bool, events: Vec<&str>, owner: &str, repo: &str, secret: Option<&str>) -> GitHubTriggerConfig {
    GitHubTriggerConfig {
        webhook_id: webhook_id.to_string(),
        workflow_id: "wf1".to_string(),
        workflow_name: "Test Workflow".to_string(),
        workflow_active: active,
        events: events.iter().map(|s| s.to_string()).collect(),
        owner: owner.to_string(),
        repository: repo.to_string(),
        webhook_secret: secret.map(|s| s.to_string()),
    }
}

fn slack_callback(event_type: &str, channel: Option<&str>) -> SlackEventCallback {
    SlackEventCallback {
        team_id: "T1".to_string(),
        api_app_id: "A1".to_string(),
        event_id: "E1".to_string(),
        event_time: 1,
        event: SlackEvent {
            event_type: event_type.to_string(),
            channel: channel.map(|s| s.to_string()),
            user: None,
            ts: None,
            text: None,
            reaction: None,
            subtype: None,
            file_id: None,
            channel_type: None,
            bot_id: None,
            extra: JsonValue::Null,
        },
        authorizations: vec![],
    }
}

fn results_of(wave: &Vec<GitHubDelivery>, status: Option<u16>) -> Vec<ForwardResult> {
    wave.iter()
        .map(|d| ForwardResult {
            webhook_url: d.request.url.clone(),
            had_secret: d.had_secret,
            status,
        })
        .collect()
}

#[test]
fn test_append_query_string_none() {
    let url = "http://n8n:5678/webhook/abc/webhook";
    assert_eq!(append_query_string(url, &None), url);
}

#[test]
fn test_append_query_string_empty() {
    let url = "http://n8n:5678/webhook/abc/webhook";
    assert_eq!(append_query_string(url, &Some(String::new())), url);
}

#[test]
fn test_append_query_string_to_clean_url() {
    let url = "http://n8n:5678/webhook/abc/webhook";
    assert_eq!(
        append_query_string(url, &Some("secret=abc123".to_string())),
        "http://n8n:5678/webhook/abc/webhook?secret=abc123"
    );
}

#[test]
fn test_append_query_string_to_url_with_existing_params() {
    let url = "http://n8n:5678/webhook/abc/webhook?existing=true";
    assert_eq!(
        append_query_string(url, &Some("secret=abc123".to_string())),
        "http://n8n:5678/webhook/abc/webhook?existing=true&secret=abc123"
    );
}

#[test]
fn webhook_url_drops_every_trailing_slash_of_the_base() {
    assert_eq!(build_webhook_url("http://n8n:5678///", "webhook", "id"), "http://n8n:5678/webhook/id/webhook");
    assert_eq!(build_webhook_url("", "webhook-test", "id"), "/webhook-test/id/webhook");
}

#[test]
fn slack_event_goes_to_production_and_test_of_an_active_workflow() {
    let router = SlackRouter::new(config("http://engine:5678"));
    let mut db = Database::new();
    db.sync_slack_triggers(&vec![SlackTriggerConfig {
        webhook_id: "wh-slack".to_string(),
        workflow_id: "wf1".to_string(),
        workflow_name: "Chat".to_string(),
        workflow_active: true,
        event_type: "message".to_string(),
        channels: vec!["C123".to_string()],
        watch_whole_workspace: false,
    }])
    .unwrap();
    let body = br#"{ "raw":   "bytes" }"#;
    let mut headers = HeaderSet::new();
    headers.insert("x-slack-signature", "v0=abc");
    let plan = router.route_event(&db, &slack_callback("message", Some("C123")), body, &headers);
    assert_eq!(plan.len(), 2);
    assert_eq!(plan[0].url, "http://engine:5678/webhook/wh-slack/webhook");
    assert_eq!(plan[0].kind, WebhookKind::Production);
    assert_eq!(plan[1].url, "http://engine:5678/webhook-test/wh-slack/webhook");
    assert_eq!(plan[1].kind, WebhookKind::Test);
    for f in &plan {
        assert_eq!(f.body, body);
        assert_eq!(f.workflow_name, "Chat");
        assert_eq!(f.headers.get("x-slack-signature"), Some("v0=abc"));
    }
    let other = router.route_event(&db, &slack_callback("message", Some("C999")), body, &headers);
    assert!(other.is_empty());
    let no_channel = router.route_event(&db, &slack_callback("message", None), body, &headers);
    assert!(no_channel.is_empty());
    assert_eq!(router.trigger_count(&db), 1);
}

#[test]
fn slack_team_join_reaches_user_created_triggers() {
    let router = SlackRouter::new(config("http://engine:5678"));
    let mut db = Database::new();
    db.sync_slack_triggers(&vec![SlackTriggerConfig {
        webhook_id: "wh".to_string(),
        workflow_id: "wf1".to_string(),
        workflow_name: "Joiners".to_string(),
        workflow_active: false,
        event_type: "user_created".to_string(),
        channels: vec![],
        watch_whole_workspace: false,
    }])
    .unwrap();
    let plan = router.route_event(&db, &slack_callback("team_join", None), b"{}", &HeaderSet::new());
    assert_eq!(plan.len(), 1);
    assert_eq!(plan[0].kind, WebhookKind::Test);
}

#[test]
fn jira_inactive_workflow_gets_the_test_delivery_only() {
    let router = JiraRouter::new(config("http://engine:5678/"));
    let mut db = Database::new();
    let list = vec![
        JiraTriggerConfig {
            webhook_id: "j1".to_string(),
            workflow_id: "wf1".to_string(),
            workflow_name: "Inactive".to_string(),
            workflow_active: false,
            events: vec!["jira:issue_created".to_string()],
        },
        JiraTriggerConfig {
            webhook_id: "j2".to_string(),
            workflow_id: "wf2".to_string(),
            workflow_name: "All".to_string(),
            workflow_active: true,
            events: vec!["*".to_string()],
        },
        JiraTriggerConfig {
            webhook_id: "j3".to_string(),
            workflow_id: "wf3".to_string(),
            workflow_name: "Nothing".to_string(),
            workflow_active: true,
            events: vec![],
        },
    ];
    assert!(router.refresh_triggers(&mut db, Ok(list)).is_ok());
    let body = b"{\"webhookEvent\":\"jira:issue_created\"}";
    let plan = router.route_event(&db, "jira:issue_created", body, &HeaderSet::new(), Some("token=t".to_string()));
    let urls: Vec<&str> = plan.iter().map(|f| f.url.as_str()).collect();
    assert_eq!(
        urls,
        vec![
            "http://engine:5678/webhook-test/j1/webhook?token=t",
            "http://engine:5678/webhook/j2/webhook?token=t",
            "http://engine:5678/webhook-test/j2/webhook?token=t",
        ]
    );
    assert!(plan.iter().all(|f| f.body == body));
    assert_eq!(router.trigger_count(&db), 3);
}

#[test]
fn failed_fetch_keeps_the_table() {
    let router = JiraRouter::new(config("http://engine:5678"));
    let mut db = Database::new();
    db.sync_jira_triggers(&vec![JiraTriggerConfig {
        webhook_id: "j1".to_string(),
        workflow_id: "wf1".to_string(),
        workflow_name: "One".to_string(),
        workflow_active: true,
        events: vec!["*".to_string()],
    }])
    .unwrap();
    let outcome = router.refresh_triggers(&mut db, Err(N8nClientError::RequestFailed("down".to_string())));
    assert!(matches!(outcome, Err(N8nClientError::RequestFailed(_))));
    assert_eq!(router.trigger_count(&db), 1);
}

#[test]
fn github_match_ignores_case_of_owner_and_repository() {
    let router = GitHubRouter::new(config("http://engine:5678"));
    let mut db = Database::new();
    db.upsert_webhook_secret("wh1", "github", "s").unwrap();
    db.sync_github_triggers(&vec![github_trigger("wh1", true, vec!["push"], "Test-Owner", "Test-Repo", None)]).unwrap();
    let (state, action) = router.route_event(&db, "push", Some("test-owner"), Some("test-repo"), b"{}", &HeaderSet::new());
    assert!(matches!(state, DispatchState::FirstWave));
    match action {
        DispatchAction::Forward(wave) => assert_eq!(wave.len(), 2),
        _ => panic!("expected deliveries"),
    }
    let (state, action) = router.route_event(&db, "issues", Some("test-owner"), Some("test-repo"), b"{}", &HeaderSet::new());
    assert!(matches!(state, DispatchState::Finished));
    assert!(matches!(action, DispatchAction::Stop));
}

#[test]
fn github_delivery_is_signed_with_the_captured_secret() {
    let router = GitHubRouter::new(config("http://engine:5678"));
    let mut db = Database::new();
    db.upsert_webhook_secret("wh1", "github", "It's a Secret to Everybody").unwrap();
    db.sync_github_triggers(&vec![github_trigger("wh1", true, vec!["*"], "o", "r", None)]).unwrap();
    let mut headers = HeaderSet::new();
    headers.insert("X-Hub-Signature-256", "sha256=stale");
    headers.insert("x-github-event", "push");
    let body = b"Hello, World!";
    let (_, action) = router.route_event(&db, "push", Some("o"), Some("r"), body, &headers);
    let wave = match action {
        DispatchAction::Forward(wave) => wave,
        _ => panic!("expected deliveries"),
    };
    assert_eq!(wave.len(), 2);
    for d in &wave {
        assert!(d.had_secret);
        assert_eq!(d.request.body, body);
        assert_eq!(
            d.request.headers.get("x-hub-signature-256"),
            Some("sha256=757107ea0eb2509fc211221cce984b8a37570b6d7586c22c46f4379c8b043e17")
        );
        assert_eq!(d.request.headers.get("x-github-event"), Some("push"));
        assert_eq!(d.request.headers.len(), 2);
    }
    // all deliveries went well and were signed: nothing more to do
    let results = results_of(&wave, Some(200));
    let (state, action) = router.advance(DispatchState::FirstWave, DispatchEvent::Delivered(results), &db, "push", Some("o"), Some("r"), body, &headers);
    assert!(matches!(state, DispatchState::Finished));
    assert!(matches!(action, DispatchAction::Stop));
}

#[test]
fn github_missing_secret_leads_to_one_refresh_and_one_retry() {
    let router = GitHubRouter::new(config("http://engine:5678"));
    let mut db = Database::new();
    db.sync_github_triggers(&vec![github_trigger("wh1", true, vec!["push"], "test-owner", "test-repo", None)]).unwrap();
    let headers = HeaderSet::new();
    let body = br#"{"ref":"refs/heads/main"}"#;
    let (state, action) = router.route_event(&db, "push", Some("test-owner"), Some("test-repo"), body, &headers);
    let wave = match action {
        DispatchAction::Forward(wave) => wave,
        _ => panic!("expected deliveries"),
    };
    assert_eq!(wave.len(), 2);
    assert!(wave.iter().all(|d| !d.had_secret));
    assert!(wave.iter().all(|d| d.request.headers.get("x-hub-signature-256").is_none()));

    // the engine answered 200 to both, yet they went out unsigned
    let (state, action) = router.advance(state, DispatchEvent::Delivered(results_of(&wave, Some(200))), &db, "push", Some("test-owner"), Some("test-repo"), body, &headers);
    assert!(matches!(action, DispatchAction::Refresh));
    let urls = match &state {
        DispatchState::Refreshing(urls) => urls.clone(),
        _ => panic!("expected a refresh"),
    };
    assert_eq!(urls.len(), 2);

    // the refresh brings the secret that the engine keeps with the workflow
    let fetched = vec![github_trigger("wh1", true, vec!["push"], "test-owner", "test-repo", Some("new-secret"))];
    assert!(router.refresh_triggers(&mut db, Ok(fetched)).is_ok());
    assert_eq!(db.get_webhook_secret("wh1").unwrap().as_deref(), Some("new-secret"));

    let (state, action) = router.advance(state, DispatchEvent::Refreshed(true), &db, "push", Some("test-owner"), Some("test-repo"), body, &headers);
    assert!(matches!(state, DispatchState::RetryWave));
    let retry = match action {
        DispatchAction::Forward(wave) => wave,
        _ => panic!("expected the second round"),
    };
    assert_eq!(retry.len(), 2);
    let expected = compute_hmac_sha256("new-secret", body);
    for d in &retry {
        assert!(d.had_secret);
        assert_eq!(d.request.headers.get("x-hub-signature-256"), Some(expected.as_str()));
        assert_eq!(d.request.body, body);
    }

    // whatever the second round brings, it is not tried again
    let (state, action) = router.advance(state, DispatchEvent::Delivered(results_of(&retry, Some(401))), &db, "push", Some("test-owner"), Some("test-repo"), body, &headers);
    assert!(matches!(state, DispatchState::Finished));
    assert!(matches!(action, DispatchAction::Stop));
}

#[test]
fn github_refusal_with_401_asks_for_refresh_and_failed_refresh_ends_it() {
    let router = GitHubRouter::new(config("http://engine:5678"));
    let mut db = Database::new();
    db.upsert_webhook_secret("wh1", "github", "old-secret").unwrap();
    db.sync_github_triggers(&vec![github_trigger("wh1", false, vec!["push"], "o", "r", None)]).unwrap();
    let headers = HeaderSet::new();
    let (state, action) = router.route_event(&db, "push", Some("o"), Some("r"), b"{}", &headers);
    let wave = match action {
        DispatchAction::Forward(wave) => wave,
        _ => panic!("expected deliveries"),
    };
    assert_eq!(wave.len(), 1);
    assert_eq!(wave[0].request.kind, WebhookKind::Test);
    assert_eq!(wave[0].request.url, "http://engine:5678/webhook-test/wh1/webhook");
    let (state, action) = router.advance(state, DispatchEvent::Delivered(results_of(&wave, Some(401))), &db, "push", Some("o"), Some("r"), b"{}", &headers);
    assert!(matches!(action, DispatchAction::Refresh));
    let (state, action) = router.advance(state, DispatchEvent::Refreshed(false), &db, "push", Some("o"), Some("r"), b"{}", &headers);
    assert!(matches!(state, DispatchState::Finished));
    assert!(matches!(action, DispatchAction::Stop));
}

#[test]
fn a_delivery_without_response_is_no_refusal() {
    assert_eq!(forward_to_webhook(&Ok(204)), Some(204));
    assert_eq!(forward_to_webhook(&Err(N8nClientError::RequestFailed("timeout".to_string()))), None);
    let results = vec![
        ForwardResult { webhook_url: "a".to_string(), had_secret: true, status: None },
        ForwardResult { webhook_url: "b".to_string(), had_secret: true, status: Some(500) },
    ];
    assert!(retry_targets(&results).is_empty());
    let results = vec![
        ForwardResult { webhook_url: "a".to_string(), had_secret: true, status: Some(401) },
        ForwardResult { webhook_url: "a".to_string(), had_secret: false, status: None },
        ForwardResult { webhook_url: "b".to_string(), had_secret: true, status: Some(200) },
        ForwardResult { webhook_url: "c".to_string(), had_secret: false, status: Some(200) },
    ];
    assert_eq!(retry_targets(&results), vec!["a", "c"]);
}

#[test]
fn retry_covers_only_the_urls_that_asked_for_it() {
    let router = GitHubRouter::new(config("http://engine:5678"));
    let mut db = Database::new();
    db.upsert_webhook_secret("wh1", "github", "s1").unwrap();
    db.upsert_webhook_secret("wh2", "github", "s2").unwrap();
    db.sync_github_triggers(&vec![
        github_trigger("wh1", true, vec!["push"], "o", "r", None),
        github_trigger("wh2", true, vec!["push"], "o", "r", None),
    ])
    .unwrap();
    let rows = db.query_github_triggers(Some("o"), Some("r")).unwrap();
    let urls = vec!["http://engine:5678/webhook/wh2/webhook".to_string()];
    let retry = router.retry_all(&rows, "push", b"{}", &HeaderSet::new(), &urls);
    assert_eq!(retry.len(), 1);
    assert_eq!(retry[0].request.url, "http://engine:5678/webhook/wh2/webhook");
    assert_eq!(retry[0].request.kind, WebhookKind::Production);
}

#[test]
fn github_refresh_fills_gaps_but_never_overwrites() {
    let router = GitHubRouter::new(config("http://engine:5678"));
    let mut db = Database::new();
    let captured = db.upsert_webhook_secret("wh1", "github", "captured").unwrap();
    let fetched = vec![
        github_trigger("wh1", true, vec!["push"], "o", "r", Some("stale")),
        github_trigger("wh2", true, vec!["push"], "o", "r", Some("embedded")),
        github_trigger("wh3", true, vec!["push"], "o", "r", Some("")),
        github_trigger("wh4", true, vec!["push"], "o", "r", None),
    ];
    assert!(router.refresh_triggers(&mut db, Ok(fetched)).is_ok());
    assert_eq!(db.get_webhook_secret("wh1").unwrap().as_deref(), Some("captured"));
    assert_eq!(db.get_webhook_secret("wh2").unwrap().as_deref(), Some("embedded"));
    assert_eq!(db.get_webhook_secret("wh3").unwrap(), None);
    assert_eq!(db.get_webhook_secret("wh4").unwrap(), None);
    assert_eq!(db.upsert_webhook_secret("wh1", "github", "again"), Ok(captured));
    assert_eq!(router.trigger_count(&db), 4);
}

fn seeded(secret: Option<&str>) -> (GitHubRouter, Database) {
    let router = GitHubRouter::new(config("http://engine:5678"));
    let mut db = Database::new();
    if let Some(s) = secret {
        db.upsert_webhook_secret("wh1", "github", s).unwrap();
    }
    db.sync_github_triggers(&vec![github_trigger("wh1", true, vec!["push"], "test-owner", "test-repo", None)]).unwrap();
    (router, db)
}

fn workflows_api_response(secret: &str) -> Vec<GitHubTriggerConfig> {
    vec![github_trigger("wh1", true, vec!["push"], "test-owner", "test-repo", Some(secret))]
}

/// Runs one event through the router, answering every delivery with
/// `status`, and counts the deliveries and the refreshes.
fn run_event(router: &GitHubRouter, db: &mut Database, status: u16, refreshed_secret: &str) -> (usize, usize) {
    let body = br#"{"ref":"refs/heads/main"}"#;
    let headers = HeaderSet::new();
    let mut posts = 0;
    let mut refreshes = 0;
    let (mut state, mut action) = router.route_event(db, "push", Some("test-owner"), Some("test-repo"), body, &headers);
    loop {
        let event = match &action {
            DispatchAction::Stop => break,
            DispatchAction::Forward(wave) => {
                posts += wave.len();
                DispatchEvent::Delivered(results_of(wave, Some(status)))
            }
            DispatchAction::Refresh => {
                refreshes += 1;
                let outcome = router.refresh_triggers(db, Ok(workflows_api_response(refreshed_secret)));
                DispatchEvent::Refreshed(outcome.is_ok())
            }
        };
        let (next, then) = router.advance(state, event, db, "push", Some("test-owner"), Some("test-repo"), body, &headers);
        state = next;
        action = then;
    }
    assert!(matches!(state, DispatchState::Finished));
    (posts, refreshes)
}

#[test]
fn test_no_retry_when_all_forwards_succeed() {
    let (router, mut db) = seeded(Some("good-secret"));
    assert_eq!(run_event(&router, &mut db, 200, "unused"), (2, 0));
}

#[test]
fn test_retry_on_401_refreshes_triggers_and_retries() {
    let (router, mut db) = seeded(Some("old-secret"));
    assert_eq!(run_event(&router, &mut db, 401, "new-secret"), (4, 1));
}

#[test]
fn test_retry_on_missing_secret_refreshes_and_retries() {
    let (router, mut db) = seeded(None);
    assert_eq!(run_event(&router, &mut db, 200, "the-secret"), (4, 1));
    assert_eq!(db.get_webhook_secret("wh1").unwrap().as_deref(), Some("the-secret"));
}
