//! The endpoint that takes GitHub's webhook deliveries.

use vstd::prelude::*;
use vstd::string::*;
use crate::config::ConfigModel;
use crate::crypto::{github_signature, verify_signature};
use crate::db::{Database, DatabaseModel};
use crate::headers::{header_value, HeaderModel, HeaderSet};
use crate::json::{json_document, JsonModel, JsonValue};
use crate::router::github::{dispatch_start, DispatchAction, DispatchActionModel, DispatchState, DispatchStateModel, GitHubRouter};
use crate::routes::{extract_forwarded_headers, forwarded_headers};
use crate::text::str_eq;

verus! {

/// What the endpoint does with a delivery.
#[derive(Debug)]
pub enum GitHubOutcome<'a> {
    /// The signature is missing or wrong: answer 401.
    Unauthorized,
    /// The event header is missing or the body is no JSON: answer 400 with
    /// the text.
    BadRequest(&'static str),
    /// A ping: answer 200 and deliver nothing.
    Pong,
    /// An event: answer 200 at once, then do what the router asks for.
    Accepted(DispatchState, DispatchAction<'a>),
}

/// The view of a `GitHubOutcome`.
pub enum GitHubOutcomeModel {
    Unauthorized,
    BadRequest(Seq<char>),
    Pong,
    Accepted(DispatchStateModel, DispatchActionModel),
}

impl<'a> View for GitHubOutcome<'a> {
    type V = GitHubOutcomeModel;

    open spec fn view(&self) -> GitHubOutcomeModel {
        match self {
            GitHubOutcome::Unauthorized => GitHubOutcomeModel::Unauthorized,
            GitHubOutcome::BadRequest(text) => GitHubOutcomeModel::BadRequest(text@),
            GitHubOutcome::Pong => GitHubOutcomeModel::Pong,
            GitHubOutcome::Accepted(state, action) => GitHubOutcomeModel::Accepted(state@, action@),
        }
    }
}

/// The names of the headers that go on to the engine with a GitHub event.
pub open spec fn github_forwarded_names() -> Seq<Seq<char>> {
    seq!["x-github-"@, "content-type"@]
}

/// Whether a delivery is signed as the configuration asks: with no shared
/// secret configured every delivery passes; with one, the signature header
/// must hold the signature of the body under it.
pub open spec fn signature_accepted(
    secret: Option<Seq<char>>,
    headers: Seq<HeaderModel>,
    body: Seq<u8>,
) -> bool {
    match secret {
        None => true,
        Some(s) => header_value(headers, "x-hub-signature-256"@) == Some(github_signature(s, body)),
    }
}

/// The owner of the repository that a delivery is about: the text at
/// `repository.owner.login`.
pub open spec fn event_owner(doc: JsonModel) -> Option<Seq<char>> {
    match doc.get("repository"@) {
        Some(repository) => match repository.get("owner"@) {
            Some(owner) => owner.text_at("login"@),
            None => None,
        },
        None => None,
    }
}

/// The repository that a delivery is about: the text at `repository.name`.
pub open spec fn event_repository(doc: JsonModel) -> Option<Seq<char>> {
    match doc.get("repository"@) {
        Some(repository) => repository.text_at("name"@),
        None => None,
    }
}

/// What the endpoint does with a delivery whose body stands for `doc`;
/// `None` stands for a body that is no JSON. The signature is looked at
/// first, then the event header, then the body; a ping is answered and not
/// routed.
pub open spec fn github_outcome(
    doc: Option<JsonModel>,
    db: DatabaseModel,
    config: ConfigModel,
    headers: Seq<HeaderModel>,
    body: Seq<u8>,
) -> GitHubOutcomeModel {
    if !signature_accepted(config.github_webhook_secret, headers, body) {
        GitHubOutcomeModel::Unauthorized
    } else {
        match header_value(headers, "x-github-event"@) {
            None => GitHubOutcomeModel::BadRequest("Missing X-GitHub-Event header"@),
            Some(event_type) => match doc {
                None => GitHubOutcomeModel::BadRequest("Invalid JSON"@),
                Some(d) => if event_type == "ping"@ {
                    GitHubOutcomeModel::Pong
                } else {
                    let start = dispatch_start(
                        db.github_rows(event_owner(d), event_repository(d)),
                        config,
                        event_type,
                        body,
                        forwarded_headers(headers, github_forwarded_names()),
                    );
                    GitHubOutcomeModel::Accepted(start.0, start.1)
                },
            },
        }
    }
}

impl<'a> GitHubOutcome<'a> {
    /// The status to answer with.
    pub fn status(&self) -> (s: u16)
        ensures
            s == match self@ {
                GitHubOutcomeModel::Unauthorized => 401u16,
                GitHubOutcomeModel::BadRequest(_) => 400u16,
                _ => 200u16,
            },
    {
        match self {
            GitHubOutcome::Unauthorized => 401,
            GitHubOutcome::BadRequest(_) => 400,
            _ => 200,
        }
    }
}

/// Whether a delivery is signed as the configuration asks.
pub fn check_signature(secret: Option<&str>, headers: &HeaderSet, body: &[u8]) -> (r: bool)
    ensures
        r == signature_accepted(secret.deep_view(), headers@, body@),
{
    match secret {
        None => true,
        Some(s) => match headers.get("x-hub-signature-256") {
            Some(presented) => verify_signature(s, body, presented),
            None => false,
        },
    }
}

/// The owner of the repository that a delivery is about.
pub fn owner_of(doc: &JsonValue) -> (r: Option<&str>)
    ensures
        r.deep_view() == event_owner(doc@),
{
    match doc.get("repository") {
        Some(repository) => match repository.get("owner") {
            Some(owner) => owner.text_at("login"),
            None => None,
        },
        None => None,
    }
}

/// The repository that a delivery is about.
pub fn repository_of(doc: &JsonValue) -> (r: Option<&str>)
    ensures
        r.deep_view() == event_repository(doc@),
{
    match doc.get("repository") {
        Some(repository) => repository.text_at("name"),
        None => None,
    }
}

/// Decides on a delivery whose body was read as `doc`: see `github_outcome`.
pub fn respond_to_github<'a>(
    doc: Option<JsonValue>,
    router: &GitHubRouter,
    db: &Database,
    headers: &HeaderSet,
    body: &'a [u8],
) -> (outcome: GitHubOutcome<'a>)
    ensures
        outcome@ == github_outcome(doc.deep_view(), db@, router.config()@, headers@, body@),
{
    if !check_signature(router.shared_secret(), headers, body) {
        return GitHubOutcome::Unauthorized;
    }
    let event_type = match headers.get("x-github-event") {
        Some(e) => e,
        None => { return GitHubOutcome::BadRequest("Missing X-GitHub-Event header"); },
    };
    let doc = match doc {
        Some(d) => d,
        None => { return GitHubOutcome::BadRequest("Invalid JSON"); },
    };
    if str_eq(event_type, "ping") {
        return GitHubOutcome::Pong;
    }
    let names = ["x-github-", "content-type"];
    let allowed = names.as_slice();
    assert(allowed.deep_view() =~= github_forwarded_names());
    let forwarded = extract_forwarded_headers(headers, allowed);
    let (state, action) = router.route_event(
        db,
        event_type,
        owner_of(&doc),
        repository_of(&doc),
        body,
        &forwarded,
    );
    GitHubOutcome::Accepted(state, action)
}

/// Decides on a delivery of GitHub: the body is read as JSON and handed to
/// `respond_to_github`.
pub fn handle_github_event<'a>(
    router: &GitHubRouter,
    db: &Database,
    headers: &HeaderSet,
    body: &'a [u8],
) -> (outcome: GitHubOutcome<'a>)
    ensures
        outcome@ == github_outcome(json_document(body@), db@, router.config()@, headers@, body@),
{
    respond_to_github(JsonValue::parse(body), router, db, headers, body)
}

} // verus!
