//! What the HTTP endpoints decide.
//!
//! Each function here takes what a request brought as plain values and
//! returns the response to give and the deliveries to make. The caller
//! answers first and delivers afterwards.

pub mod github;
pub mod jira;
pub mod provider_github;
pub mod provider_jira;
pub mod slack;

pub use github::handle_github_event;
pub use jira::handle_jira_event;
pub use slack::handle_slack_event;




use vstd::prelude::*;
use vstd::string::*;
use crate::db::Database;
use crate::headers::{with_header, HeaderModel, HeaderSet};
use crate::json::{no_members, push_member, JsonModel, JsonNumber, JsonNumberModel, JsonValue};
use crate::router::{GitHubRouter, JiraRouter, SlackRouter};
use crate::text::{chars_of, eq_ignore_ascii_case, eq_ignoring_ascii_case, has_prefix_ignoring_ascii_case, starts_with_ignore_ascii_case};

verus! {

/// Whether an entry of an allow-list admits the header `name`. An entry
/// that ends in `-` admits every name that begins with it; any other entry
/// admits the name equal to it. The case of ASCII letters does not count.
pub open spec fn pattern_admits(pattern: Seq<char>, name: Seq<char>) -> bool {
    if pattern.len() > 0 && pattern.last() == '-' {
        has_prefix_ignoring_ascii_case(name, pattern)
    } else {
        eq_ignoring_ascii_case(name, pattern)
    }
}

/// Whether one of the entries of `allowed` admits the header `name`.
pub open spec fn header_allowed(allowed: Seq<Seq<char>>, name: Seq<char>) -> bool {
    exists|i: int| 0 <= i < allowed.len() && pattern_admits(#[trigger] allowed[i], name)
}

/// The headers to pass on: those that the allow-list admits, one for each
/// name, with the value that came last.
pub open spec fn forwarded_headers(entries: Seq<HeaderModel>, allowed: Seq<Seq<char>>) -> Seq<
    HeaderModel,
>
    decreases entries.len(),
{
    if entries.len() == 0 {
        Seq::empty()
    } else {
        let rest = forwarded_headers(entries.drop_last(), allowed);
        if header_allowed(allowed, entries.last().name) {
            with_header(rest, entries.last().name, entries.last().value)
        } else {
            rest
        }
    }
}

/// The body of the health report.
pub open spec fn health_report(slack: nat, jira: nat, github: nat) -> JsonModel {
    JsonModel::Object(
        seq![
            ("status"@, JsonModel::Text("healthy"@)),
            ("slack_triggers_loaded"@, JsonModel::Number(JsonNumberModel::PosInt(slack as u64))),
            ("jira_triggers_loaded"@, JsonModel::Number(JsonNumberModel::PosInt(jira as u64))),
            ("github_triggers_loaded"@, JsonModel::Number(JsonNumberModel::PosInt(github as u64))),
        ],
    )
}

fn pattern_matches(pattern: &str, name: &str) -> (r: bool)
    ensures
        r == pattern_admits(pattern@, name@),
{
    let p = chars_of(pattern);
    if p.len() > 0 && p[p.len() - 1] == '-' {
        starts_with_ignore_ascii_case(name, pattern)
    } else {
        eq_ignore_ascii_case(name, pattern)
    }
}

fn is_allowed(allowed: &[&str], name: &str) -> (r: bool)
    ensures
        r == header_allowed(allowed.deep_view(), name@),
{
    let mut i: usize = 0;
    while i < allowed.len()
        invariant
            i <= allowed.len(),
            forall|k: int| 0 <= k < i ==> !pattern_admits(#[trigger] allowed.deep_view()[k], name@),
        decreases allowed.len() - i,
    {
        assert(allowed.deep_view()[i as int] == allowed@[i as int]@);
        if pattern_matches(allowed[i], name) {
            return true;
        }
        i += 1;
    }
    false
}

/// The headers of a request that are passed on to the engine; see
/// `forwarded_headers`.
pub fn extract_forwarded_headers(headers: &HeaderSet, allowed: &[&str]) -> (forwarded: HeaderSet)
    ensures
        forwarded@ == forwarded_headers(headers@, allowed.deep_view()),
{
    let mut forwarded = HeaderSet::new();
    let ghost all = headers@;
    let mut i: usize = 0;
    assert(all.take(0) =~= Seq::<HeaderModel>::empty());
    while i < headers.len()
        invariant
            i <= all.len(),
            all == headers@,
            forwarded@ == forwarded_headers(all.take(i as int), allowed.deep_view()),
        decreases all.len() - i,
    {
        let header = headers.entry(i);
        proof {
            let prefix = all.take(i + 1);
            assert(prefix.last() == header@);
            assert(prefix.drop_last() =~= all.take(i as int));
        }
        if is_allowed(allowed, header.name.as_str()) {
            forwarded.insert(header.name.as_str(), header.value.as_str());
        }
        i += 1;
    }
    assert(all.take(i as int) =~= all);
    forwarded
}

/// The body of the health report: a fixed status and the number of
/// triggers known for each provider.
pub fn health_check(
    slack_router: &SlackRouter,
    jira_router: &JiraRouter,
    github_router: &GitHubRouter,
    db: &Database,
) -> (report: JsonValue)
    ensures
        report@ == health_report(
            db@.slack_triggers.len(),
            db@.jira_triggers.len(),
            db@.github_triggers.len(),
        ),
{
    let slack = slack_router.trigger_count(db);
    let jira = jira_router.trigger_count(db);
    let github = github_router.trigger_count(db);
    let mut members = no_members();
    push_member(&mut members, "status", JsonValue::Text("healthy".to_string()));
    push_member(
        &mut members,
        "slack_triggers_loaded",
        JsonValue::Number(JsonNumber::PosInt(slack as u64)),
    );
    push_member(
        &mut members,
        "jira_triggers_loaded",
        JsonValue::Number(JsonNumber::PosInt(jira as u64)),
    );
    push_member(
        &mut members,
        "github_triggers_loaded",
        JsonValue::Number(JsonNumber::PosInt(github as u64)),
    );
    let report = JsonValue::Object(members);
    assert(report@->Object_0 =~= health_report(
        db@.slack_triggers.len(),
        db@.jira_triggers.len(),
        db@.github_triggers.len(),
    )->Object_0);
    report
}

} // verus!
