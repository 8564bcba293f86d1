//! Turning an inbound event into the list of deliveries to make.
//!
//! A router neither sends nor waits. It reads the store, picks the triggers
//! that take the event and plans one delivery to the test webhook of each,
//! and one to the production webhook of each that belongs to an active
//! workflow. The caller makes the deliveries and reports back.

pub mod github;
pub mod jira;
pub mod slack;

pub use github::GitHubRouter;
pub use jira::JiraRouter;
pub use slack::SlackRouter;

use vstd::prelude::*;
use vstd::string::*;
use crate::headers::{HeaderModel, HeaderSet};
use crate::n8n::client::N8nClientError;
use crate::text::{trim_end_matches, trim_trailing};

verus! {

/// Which of a trigger's two webhooks a delivery goes to.
#[derive(Debug, Clone, Copy, PartialEq, Eq, Structural)]
pub enum WebhookKind {
    Production,
    Test,
}

/// A delivery to make: a POST of `body` with `headers` to `url`.
#[derive(Debug)]
pub struct ForwardRequest<'a> {
    pub url: String,
    /// The workflow that the delivery is for.
    pub workflow_name: String,
    pub kind: WebhookKind,
    /// The bytes to send: those that came in, untouched.
    pub body: &'a [u8],
    pub headers: HeaderSet,
}

/// The view of a `ForwardRequest`.
pub struct ForwardModel {
    pub url: Seq<char>,
    pub workflow_name: Seq<char>,
    pub kind: WebhookKind,
    pub body: Seq<u8>,
    pub headers: Seq<HeaderModel>,
}

impl<'a> View for ForwardRequest<'a> {
    type V = ForwardModel;

    open spec fn view(&self) -> ForwardModel {
        ForwardModel {
            url: self.url@,
            workflow_name: self.workflow_name@,
            kind: self.kind,
            body: self.body@,
            headers: self.headers@,
        }
    }
}

impl<'a> DeepView for ForwardRequest<'a> {
    type V = ForwardModel;

    open spec fn deep_view(&self) -> ForwardModel {
        self@
    }
}

/// The URL of a webhook: the base without trailing slashes, then the
/// endpoint segment, the webhook identifier and `webhook`.
pub open spec fn webhook_url(base: Seq<char>, endpoint: Seq<char>, webhook_id: Seq<char>) -> Seq<
    char,
> {
    trim_trailing(base, '/') + "/"@ + endpoint + "/"@ + webhook_id + "/webhook"@
}

/// The deliveries for one trigger that takes an event: to the production
/// webhook if the workflow is active, and to the test webhook in any case.
pub open spec fn deliveries_for(
    production_url: Seq<char>,
    test_url: Seq<char>,
    workflow_name: Seq<char>,
    workflow_active: bool,
    body: Seq<u8>,
    headers: Seq<HeaderModel>,
) -> Seq<ForwardModel> {
    let test = ForwardModel { url: test_url, workflow_name, kind: WebhookKind::Test, body, headers };
    if workflow_active {
        seq![
            ForwardModel {
                url: production_url,
                workflow_name,
                kind: WebhookKind::Production,
                body,
                headers,
            },
            test,
        ]
    } else {
        seq![test]
    }
}

/// A trigger as a plan sees it: whether it takes the event at hand, the
/// URLs of its two webhooks, and what a delivery to it is labelled with.
pub struct Candidate {
    pub takes: bool,
    pub production_url: Seq<char>,
    pub test_url: Seq<char>,
    pub workflow_name: Seq<char>,
    pub workflow_active: bool,
}

/// The delivery to the test webhook of `c`.
pub open spec fn test_forward(c: Candidate, body: Seq<u8>, headers: Seq<HeaderModel>) -> ForwardModel {
    ForwardModel {
        url: c.test_url,
        workflow_name: c.workflow_name,
        kind: WebhookKind::Test,
        body,
        headers,
    }
}

/// The delivery to the production webhook of `c`.
pub open spec fn production_forward(
    c: Candidate,
    body: Seq<u8>,
    headers: Seq<HeaderModel>,
) -> ForwardModel {
    ForwardModel {
        url: c.production_url,
        workflow_name: c.workflow_name,
        kind: WebhookKind::Production,
        body,
        headers,
    }
}

/// The plan for an event: the deliveries for every candidate that takes it,
/// candidate by candidate.
pub open spec fn plan_of(candidates: Seq<Candidate>, body: Seq<u8>, headers: Seq<HeaderModel>) -> Seq<
    ForwardModel,
>
    decreases candidates.len(),
{
    if candidates.len() == 0 {
        Seq::empty()
    } else {
        let rest = plan_of(candidates.drop_last(), body, headers);
        let c = candidates.last();
        if c.takes {
            rest + deliveries_for(
                c.production_url,
                c.test_url,
                c.workflow_name,
                c.workflow_active,
                body,
                headers,
            )
        } else {
            rest
        }
    }
}

/// Every trigger that takes the event gets a delivery to its test webhook,
/// and one to its production webhook if its workflow is active.
pub proof fn lemma_plan_reaches_every_match(
    candidates: Seq<Candidate>,
    body: Seq<u8>,
    headers: Seq<HeaderModel>,
    i: int,
)
    requires
        0 <= i < candidates.len(),
        candidates[i].takes,
    ensures
        plan_of(candidates, body, headers).contains(test_forward(candidates[i], body, headers)),
        candidates[i].workflow_active ==> plan_of(candidates, body, headers).contains(
            production_forward(candidates[i], body, headers),
        ),
    decreases candidates.len(),
{
    let plan = plan_of(candidates, body, headers);
    let rest = plan_of(candidates.drop_last(), body, headers);
    let c = candidates.last();
    let added = deliveries_for(
        c.production_url,
        c.test_url,
        c.workflow_name,
        c.workflow_active,
        body,
        headers,
    );
    if i == candidates.len() - 1 {
        assert(plan == rest + added);
        if c.workflow_active {
            assert(plan[rest.len() as int] == production_forward(c, body, headers));
            assert(plan[rest.len() as int + 1] == test_forward(c, body, headers));
        } else {
            assert(plan[rest.len() as int] == test_forward(c, body, headers));
        }
    } else {
        lemma_plan_reaches_every_match(candidates.drop_last(), body, headers, i);
        assert(candidates.drop_last()[i] == candidates[i]);
        let t = test_forward(candidates[i], body, headers);
        let k = choose|k: int| 0 <= k < rest.len() && rest[k] == t;
        if c.takes {
            assert(plan[k] == t);
        }
        if candidates[i].workflow_active {
            let p = production_forward(candidates[i], body, headers);
            let j = choose|j: int| 0 <= j < rest.len() && rest[j] == p;
            if c.takes {
                assert(plan[j] == p);
            }
        }
    }
}

/// Every delivery of a plan is for a trigger that takes the event: it goes
/// to that trigger's test webhook, or to its production webhook and the
/// workflow is active. It carries the body and the headers given.
pub proof fn lemma_plan_holds_only_matches(
    candidates: Seq<Candidate>,
    body: Seq<u8>,
    headers: Seq<HeaderModel>,
    f: ForwardModel,
)
    requires
        plan_of(candidates, body, headers).contains(f),
    ensures
        f.body == body,
        f.headers == headers,
        exists|i: int|
            0 <= i < candidates.len() && (#[trigger] candidates[i]).takes && (f == test_forward(
                candidates[i],
                body,
                headers,
            ) || (candidates[i].workflow_active && f == production_forward(
                candidates[i],
                body,
                headers,
            ))),
    decreases candidates.len(),
{
    let plan = plan_of(candidates, body, headers);
    if candidates.len() > 0 {
        let rest = plan_of(candidates.drop_last(), body, headers);
        let c = candidates.last();
        let k = choose|k: int| 0 <= k < plan.len() && plan[k] == f;
        if c.takes && k >= rest.len() {
            let last = candidates.len() - 1;
            assert(candidates[last].takes);
            assert(f == test_forward(candidates[last], body, headers) || (
            candidates[last].workflow_active && f == production_forward(
                candidates[last],
                body,
                headers,
            )));
        } else {
            assert(rest[k] == f);
            assert(rest.contains(f));
            lemma_plan_holds_only_matches(candidates.drop_last(), body, headers, f);
            let i = choose|i: int|
                0 <= i < candidates.drop_last().len() && (#[trigger] candidates.drop_last()[i]).takes
                    && (f == test_forward(candidates.drop_last()[i], body, headers) || (
                candidates.drop_last()[i].workflow_active && f == production_forward(
                    candidates.drop_last()[i],
                    body,
                    headers,
                )));
            assert(candidates[i] == candidates.drop_last()[i]);
        }
    }
}

/// Where no trigger takes the event, nothing is delivered.
pub proof fn lemma_no_match_no_delivery(
    candidates: Seq<Candidate>,
    body: Seq<u8>,
    headers: Seq<HeaderModel>,
)
    requires
        forall|i: int| 0 <= i < candidates.len() ==> !(#[trigger] candidates[i]).takes,
    ensures
        plan_of(candidates, body, headers) == Seq::<ForwardModel>::empty(),
    decreases candidates.len(),
{
    if candidates.len() > 0 {
        assert(!candidates[candidates.len() - 1].takes);
        assert forall|i: int| 0 <= i < candidates.drop_last().len() implies !(
        #[trigger] candidates.drop_last()[i]).takes by {
            assert(candidates.drop_last()[i] == candidates[i]);
        }
        lemma_no_match_no_delivery(candidates.drop_last(), body, headers);
    }
}

/// The status that a delivery ended with: that of the response, or none
/// where no response was obtained.
pub open spec fn delivered_status(outcome: Result<u16, N8nClientError>) -> Option<u16> {
    match outcome {
        Ok(status) => Some(status),
        Err(_) => None,
    }
}

/// The URL of a webhook of the engine at `base`.
pub fn build_webhook_url(base: &str, endpoint: &str, webhook_id: &str) -> (url: String)
    ensures
        url@ == webhook_url(base@, endpoint@, webhook_id@),
{
    let mut url = String::from_str(trim_end_matches(base, '/'));
    url.append("/");
    url.append(endpoint);
    url.append("/");
    url.append(webhook_id);
    url.append("/webhook");
    url
}

/// Appends the deliveries for one trigger to `out`.
pub fn push_deliveries<'a>(
    out: &mut Vec<ForwardRequest<'a>>,
    production_url: String,
    test_url: String,
    workflow_name: &str,
    workflow_active: bool,
    body: &'a [u8],
    headers: &HeaderSet,
)
    ensures
        final(out).deep_view() == old(out).deep_view() + deliveries_for(
            production_url@,
            test_url@,
            workflow_name@,
            workflow_active,
            body@,
            headers@,
        ),
{
    let ghost before = out.deep_view();
    if workflow_active {
        let production = ForwardRequest {
            url: production_url,
            workflow_name: String::from_str(workflow_name),
            kind: WebhookKind::Production,
            body,
            headers: headers.clone(),
        };
        out.push(production);
        assert(out.deep_view() =~= before.push(production@));
    }
    let ghost middle = out.deep_view();
    let test = ForwardRequest {
        url: test_url,
        workflow_name: String::from_str(workflow_name),
        kind: WebhookKind::Test,
        body,
        headers: headers.clone(),
    };
    out.push(test);
    assert(out.deep_view() =~= middle.push(test@));
    assert(out.deep_view() =~= before + deliveries_for(
        production_url@,
        test_url@,
        workflow_name@,
        workflow_active,
        body@,
        headers@,
    ));
}

/// What a delivery ended with. A delivery that got no response has no
/// status; it is not taken for a refusal.
pub fn forward_to_webhook(outcome: &Result<u16, N8nClientError>) -> (status: Option<u16>)
    ensures
        status == delivered_status(*outcome),
{
    match outcome {
        Ok(status) => Some(*status),
        Err(_) => None,
    }
}

} // verus!
