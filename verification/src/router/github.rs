//! Routing of GitHub events.
//!
//! The engine checks the signature of every delivery against the secret it
//! chose for the webhook, so each delivery is signed anew with the secret
//! captured for its trigger. A secret may be missing or stale right after a
//! workflow was activated. Where a first round of deliveries met a refusal
//! or had no secret to sign with, the triggers are refreshed once and the
//! deliveries concerned are made once more.

use vstd::prelude::*;
use vstd::string::*;
use crate::config::{Config, ConfigModel};
use crate::crypto::{compute_hmac_sha256, github_signature};
use crate::db::{Database, DatabaseModel, GitHubTriggerRow, GitHubTriggerRowModel};
use crate::github::triggers::{GitHubTriggerConfig, GitHubTriggerModel};
use crate::headers::{header_value, lemma_with_header_value, with_header, HeaderModel, HeaderSet};
use crate::matching::{contains_text, event_filter_matches, event_filter_takes};
use crate::n8n::client::N8nClientError;
use crate::router::{build_webhook_url, webhook_url, ForwardModel, ForwardRequest, WebhookKind};

verus! {

/// A delivery of a GitHub event, and whether it was signed.
#[derive(Debug)]
pub struct GitHubDelivery<'a> {
    pub request: ForwardRequest<'a>,
    /// Whether a secret was at hand when the delivery was planned.
    pub had_secret: bool,
}

/// The view of a `GitHubDelivery`.
pub struct GitHubDeliveryModel {
    pub request: ForwardModel,
    pub had_secret: bool,
}

impl<'a> View for GitHubDelivery<'a> {
    type V = GitHubDeliveryModel;

    open spec fn view(&self) -> GitHubDeliveryModel {
        GitHubDeliveryModel { request: self.request@, had_secret: self.had_secret }
    }
}

impl<'a> DeepView for GitHubDelivery<'a> {
    type V = GitHubDeliveryModel;

    open spec fn deep_view(&self) -> GitHubDeliveryModel {
        self@
    }
}

/// How a delivery ended.
#[derive(Debug)]
pub struct ForwardResult {
    pub webhook_url: String,
    /// Whether a secret was at hand when the delivery was planned.
    pub had_secret: bool,
    /// The status of the response; none where no response was obtained.
    pub status: Option<u16>,
}

/// The view of a `ForwardResult`.
pub struct ForwardResultModel {
    pub webhook_url: Seq<char>,
    pub had_secret: bool,
    pub status: Option<u16>,
}

impl View for ForwardResult {
    type V = ForwardResultModel;

    open spec fn view(&self) -> ForwardResultModel {
        ForwardResultModel {
            webhook_url: self.webhook_url@,
            had_secret: self.had_secret,
            status: self.status,
        }
    }
}

impl DeepView for ForwardResult {
    type V = ForwardResultModel;

    open spec fn deep_view(&self) -> ForwardResultModel {
        self@
    }
}

/// The headers of a delivery: the inbound ones with the signature header
/// set to the signature of `body` under `secret`; the inbound ones as they
/// are where there is no secret.
pub open spec fn signed_headers(
    inbound: Seq<HeaderModel>,
    body: Seq<u8>,
    secret: Option<Seq<char>>,
) -> Seq<HeaderModel> {
    match secret {
        Some(s) => with_header(inbound, "x-hub-signature-256"@, github_signature(s, body)),
        None => inbound,
    }
}

/// The delivery to the production webhook of `row`.
pub open spec fn production_delivery(
    row: GitHubTriggerRowModel,
    config: ConfigModel,
    body: Seq<u8>,
    headers: Seq<HeaderModel>,
) -> GitHubDeliveryModel {
    GitHubDeliveryModel {
        request: ForwardModel {
            url: webhook_url(config.n8n_api_url, config.n8n_endpoint_webhook, row.webhook_id),
            workflow_name: row.workflow_name,
            kind: WebhookKind::Production,
            body,
            headers: signed_headers(headers, body, row.secret),
        },
        had_secret: row.secret is Some,
    }
}

/// The delivery to the test webhook of `row`.
pub open spec fn test_delivery(
    row: GitHubTriggerRowModel,
    config: ConfigModel,
    body: Seq<u8>,
    headers: Seq<HeaderModel>,
) -> GitHubDeliveryModel {
    GitHubDeliveryModel {
        request: ForwardModel {
            url: webhook_url(config.n8n_api_url, config.n8n_endpoint_webhook_test, row.webhook_id),
            workflow_name: row.workflow_name,
            kind: WebhookKind::Test,
            body,
            headers: signed_headers(headers, body, row.secret),
        },
        had_secret: row.secret is Some,
    }
}

/// The first round of deliveries for a GitHub event: for every row whose
/// filter takes the event, one to the production webhook if the workflow is
/// active, and one to the test webhook.
pub open spec fn first_wave(
    rows: Seq<GitHubTriggerRowModel>,
    config: ConfigModel,
    event_type: Seq<char>,
    body: Seq<u8>,
    headers: Seq<HeaderModel>,
) -> Seq<GitHubDeliveryModel>
    decreases rows.len(),
{
    if rows.len() == 0 {
        Seq::empty()
    } else {
        let rest = first_wave(rows.drop_last(), config, event_type, body, headers);
        let row = rows.last();
        if !event_filter_takes(row.events, event_type) {
            rest
        } else if row.workflow_active {
            rest.push(production_delivery(row, config, body, headers)).push(
                test_delivery(row, config, body, headers),
            )
        } else {
            rest.push(test_delivery(row, config, body, headers))
        }
    }
}

/// The second round: the deliveries of the first round, planned anew from
/// the rows as they now are, as far as their URL is among `retry_urls`.
pub open spec fn retry_wave(
    rows: Seq<GitHubTriggerRowModel>,
    config: ConfigModel,
    event_type: Seq<char>,
    body: Seq<u8>,
    headers: Seq<HeaderModel>,
    retry_urls: Set<Seq<char>>,
) -> Seq<GitHubDeliveryModel>
    decreases rows.len(),
{
    if rows.len() == 0 {
        Seq::empty()
    } else {
        let rest = retry_wave(rows.drop_last(), config, event_type, body, headers, retry_urls);
        let row = rows.last();
        if !event_filter_takes(row.events, event_type) {
            rest
        } else {
            let production = production_delivery(row, config, body, headers);
            let test = test_delivery(row, config, body, headers);
            let with_production = if row.workflow_active && retry_urls.contains(
                production.request.url,
            ) {
                rest.push(production)
            } else {
                rest
            };
            if retry_urls.contains(test.request.url) {
                with_production.push(test)
            } else {
                with_production
            }
        }
    }
}

/// Whether a delivery asks for the refresh and retry: it was refused with
/// status 401, or it went out without a secret.
pub open spec fn needs_retry(result: ForwardResultModel) -> bool {
    result.status == Some(401u16) || !result.had_secret
}

/// The URLs of the deliveries among `results` that ask for a retry.
pub open spec fn retry_set(results: Seq<ForwardResultModel>) -> Set<Seq<char>> {
    Set::new(
        |url: Seq<char>|
            exists|i: int|
                0 <= i < results.len() && needs_retry(#[trigger] results[i])
                    && results[i].webhook_url == url,
    )
}

/// Whether one of `results` asks for a retry.
pub open spec fn any_needs_retry(results: Seq<ForwardResultModel>) -> bool {
    exists|i: int| 0 <= i < results.len() && needs_retry(#[trigger] results[i])
}

/// The store after a refresh that fetched `list`: every trigger that brings
/// a non-empty secret of its own has it kept, unless a secret is kept for
/// it already. Triggers are taken in their order.
pub open spec fn with_fallback_secrets(
    db: DatabaseModel,
    list: Seq<GitHubTriggerModel>,
) -> DatabaseModel
    decreases list.len(),
{
    if list.len() == 0 {
        db
    } else {
        let before = with_fallback_secrets(db, list.drop_last());
        match list.last().webhook_secret {
            Some(secret) => if secret.len() > 0 {
                before.insert_secret_if_absent(list.last().webhook_id, "github"@, secret).0
            } else {
                before
            },
            None => before,
        }
    }
}

/// The store after a refresh that fetched `fetched`, and what the refresh
/// reports. A failed fetch is reported and leaves the store as it is.
/// Otherwise the secrets that the triggers bring fill the gaps among the
/// kept ones, and the triggers replace the table; what the store refuses of
/// either is left out and not reported.
pub open spec fn github_refresh(
    db: DatabaseModel,
    fetched: Result<Seq<GitHubTriggerModel>, N8nClientError>,
) -> (DatabaseModel, Result<(), N8nClientError>) {
    match fetched {
        Err(e) => (db, Err(e)),
        Ok(list) => (with_fallback_secrets(db, list).sync_github(list).0, Ok(())),
    }
}

/// Where the handling of one event stands.
#[derive(Debug)]
pub enum DispatchState {
    /// The first round of deliveries is under way.
    FirstWave,
    /// The refresh is under way; the URLs are those to deliver to again.
    Refreshing(Vec<String>),
    /// The second round of deliveries is under way.
    RetryWave,
    /// Nothing is left to do.
    Finished,
}

/// The view of a `DispatchState`.
pub enum DispatchStateModel {
    FirstWave,
    Refreshing(Set<Seq<char>>),
    RetryWave,
    Finished,
}

impl View for DispatchState {
    type V = DispatchStateModel;

    open spec fn view(&self) -> DispatchStateModel {
        match self {
            DispatchState::FirstWave => DispatchStateModel::FirstWave,
            DispatchState::Refreshing(urls) => DispatchStateModel::Refreshing(
                urls.deep_view().to_set(),
            ),
            DispatchState::RetryWave => DispatchStateModel::RetryWave,
            DispatchState::Finished => DispatchStateModel::Finished,
        }
    }
}

/// What the caller reports back.
#[derive(Debug)]
pub enum DispatchEvent {
    /// A round of deliveries has ended, with these results.
    Delivered(Vec<ForwardResult>),
    /// The refresh has ended, well or not.
    Refreshed(bool),
}

/// The view of a `DispatchEvent`.
pub enum DispatchEventModel {
    Delivered(Seq<ForwardResultModel>),
    Refreshed(bool),
}

impl View for DispatchEvent {
    type V = DispatchEventModel;

    open spec fn view(&self) -> DispatchEventModel {
        match self {
            DispatchEvent::Delivered(results) => DispatchEventModel::Delivered(results.deep_view()),
            DispatchEvent::Refreshed(ok) => DispatchEventModel::Refreshed(*ok),
        }
    }
}

/// What the caller is to do next.
#[derive(Debug)]
pub enum DispatchAction<'a> {
    /// Make these deliveries, all at once, and report their results.
    Forward(Vec<GitHubDelivery<'a>>),
    /// Refresh the GitHub triggers and report how it went.
    Refresh,
    /// Nothing.
    Stop,
}

/// The view of a `DispatchAction`.
pub enum DispatchActionModel {
    Forward(Seq<GitHubDeliveryModel>),
    Refresh,
    Stop,
}

impl<'a> View for DispatchAction<'a> {
    type V = DispatchActionModel;

    open spec fn view(&self) -> DispatchActionModel {
        match self {
            DispatchAction::Forward(wave) => DispatchActionModel::Forward(wave.deep_view()),
            DispatchAction::Refresh => DispatchActionModel::Refresh,
            DispatchAction::Stop => DispatchActionModel::Stop,
        }
    }
}

/// How the handling of an event begins: with the first round, unless no
/// trigger takes the event, which ends it at once.
pub open spec fn dispatch_start(
    rows: Seq<GitHubTriggerRowModel>,
    config: ConfigModel,
    event_type: Seq<char>,
    body: Seq<u8>,
    headers: Seq<HeaderModel>,
) -> (DispatchStateModel, DispatchActionModel) {
    let wave = first_wave(rows, config, event_type, body, headers);
    if wave.len() == 0 {
        (DispatchStateModel::Finished, DispatchActionModel::Stop)
    } else {
        (DispatchStateModel::FirstWave, DispatchActionModel::Forward(wave))
    }
}

/// How the handling of an event goes on when `event` is reported in
/// `state`; `rows` are the rows that the store gives at that moment.
///
/// After the first round, a refresh is asked for if one of the results
/// asks for a retry, and nothing else is done if none does. After a refresh
/// that went well the second round is made; after one that failed nothing.
/// After the second round nothing is left, whatever its results. A report
/// that does not fit the state ends the handling.
pub open spec fn dispatch_step(
    state: DispatchStateModel,
    event: DispatchEventModel,
    rows: Seq<GitHubTriggerRowModel>,
    config: ConfigModel,
    event_type: Seq<char>,
    body: Seq<u8>,
    headers: Seq<HeaderModel>,
) -> (DispatchStateModel, DispatchActionModel) {
    match (state, event) {
        (DispatchStateModel::FirstWave, DispatchEventModel::Delivered(results)) => {
            if any_needs_retry(results) {
                (DispatchStateModel::Refreshing(retry_set(results)), DispatchActionModel::Refresh)
            } else {
                (DispatchStateModel::Finished, DispatchActionModel::Stop)
            }
        },
        (DispatchStateModel::Refreshing(urls), DispatchEventModel::Refreshed(ok)) => {
            if ok {
                (
                    DispatchStateModel::RetryWave,
                    DispatchActionModel::Forward(
                        retry_wave(rows, config, event_type, body, headers, urls),
                    ),
                )
            } else {
                (DispatchStateModel::Finished, DispatchActionModel::Stop)
            }
        },
        _ => (DispatchStateModel::Finished, DispatchActionModel::Stop),
    }
}

/// Every trigger that takes the event gets a delivery to its test webhook
/// in the first round, and one to its production webhook if its workflow is
/// active.
pub proof fn lemma_first_wave_reaches_every_match(
    rows: Seq<GitHubTriggerRowModel>,
    config: ConfigModel,
    event_type: Seq<char>,
    body: Seq<u8>,
    headers: Seq<HeaderModel>,
    i: int,
)
    requires
        0 <= i < rows.len(),
        event_filter_takes(rows[i].events, event_type),
    ensures
        first_wave(rows, config, event_type, body, headers).contains(
            test_delivery(rows[i], config, body, headers),
        ),
        rows[i].workflow_active ==> first_wave(rows, config, event_type, body, headers).contains(
            production_delivery(rows[i], config, body, headers),
        ),
    decreases rows.len(),
{
    let wave = first_wave(rows, config, event_type, body, headers);
    let rest = first_wave(rows.drop_last(), config, event_type, body, headers);
    let row = rows.last();
    if i == rows.len() - 1 {
        if row.workflow_active {
            assert(wave[rest.len() as int] == production_delivery(row, config, body, headers));
            assert(wave[rest.len() as int + 1] == test_delivery(row, config, body, headers));
        } else {
            assert(wave[rest.len() as int] == test_delivery(row, config, body, headers));
        }
    } else {
        lemma_first_wave_reaches_every_match(
            rows.drop_last(),
            config,
            event_type,
            body,
            headers,
            i,
        );
        assert(rows.drop_last()[i] == rows[i]);
        let t = test_delivery(rows[i], config, body, headers);
        let k = choose|k: int| 0 <= k < rest.len() && rest[k] == t;
        assert(wave[k] == t);
        if rows[i].workflow_active {
            let p = production_delivery(rows[i], config, body, headers);
            let j = choose|j: int| 0 <= j < rest.len() && rest[j] == p;
            assert(wave[j] == p);
        }
    }
}

/// Every delivery of the first round is for a trigger that takes the
/// event: it goes to that trigger's test webhook, or to its production
/// webhook and the workflow is active. It carries the body given.
pub proof fn lemma_first_wave_holds_only_matches(
    rows: Seq<GitHubTriggerRowModel>,
    config: ConfigModel,
    event_type: Seq<char>,
    body: Seq<u8>,
    headers: Seq<HeaderModel>,
    d: GitHubDeliveryModel,
)
    requires
        first_wave(rows, config, event_type, body, headers).contains(d),
    ensures
        d.request.body == body,
        exists|i: int|
            0 <= i < rows.len() && event_filter_takes((#[trigger] rows[i]).events, event_type) && (d
                == test_delivery(rows[i], config, body, headers) || (rows[i].workflow_active && d
                == production_delivery(rows[i], config, body, headers))),
    decreases rows.len(),
{
    let wave = first_wave(rows, config, event_type, body, headers);
    if rows.len() > 0 {
        let rest = first_wave(rows.drop_last(), config, event_type, body, headers);
        let row = rows.last();
        let k = choose|k: int| 0 <= k < wave.len() && wave[k] == d;
        if event_filter_takes(row.events, event_type) && k >= rest.len() {
            let last = rows.len() - 1;
            assert(event_filter_takes(rows[last].events, event_type));
            assert(d == test_delivery(rows[last], config, body, headers) || (
            rows[last].workflow_active && d == production_delivery(
                rows[last],
                config,
                body,
                headers,
            )));
        } else {
            assert(rest[k] == d);
            assert(rest.contains(d));
            lemma_first_wave_holds_only_matches(
                rows.drop_last(),
                config,
                event_type,
                body,
                headers,
                d,
            );
            let i = choose|i: int|
                0 <= i < rows.drop_last().len() && event_filter_takes(
                    (#[trigger] rows.drop_last()[i]).events,
                    event_type,
                ) && (d == test_delivery(rows.drop_last()[i], config, body, headers) || (
                rows.drop_last()[i].workflow_active && d == production_delivery(
                    rows.drop_last()[i],
                    config,
                    body,
                    headers,
                )));
            assert(rows[i] == rows.drop_last()[i]);
        }
    }
}

/// Where no trigger takes the event, the handling ends at once and nothing
/// is delivered.
pub proof fn lemma_no_match_no_delivery(
    rows: Seq<GitHubTriggerRowModel>,
    config: ConfigModel,
    event_type: Seq<char>,
    body: Seq<u8>,
    headers: Seq<HeaderModel>,
)
    requires
        forall|i: int| 0 <= i < rows.len() ==> !event_filter_takes(
            (#[trigger] rows[i]).events,
            event_type,
        ),
    ensures
        dispatch_start(rows, config, event_type, body, headers) == (
            DispatchStateModel::Finished,
            DispatchActionModel::Stop,
        ),
    decreases rows.len(),
{
    if rows.len() > 0 {
        assert(!event_filter_takes(rows[rows.len() - 1].events, event_type));
        assert forall|i: int| 0 <= i < rows.drop_last().len() implies !event_filter_takes(
            (#[trigger] rows.drop_last()[i]).events,
            event_type,
        ) by {
            assert(rows.drop_last()[i] == rows[i]);
        }
        lemma_no_match_no_delivery(rows.drop_last(), config, event_type, body, headers);
    }
}

/// Every delivery of the second round is for a trigger that takes the
/// event and goes to a URL that asked for the retry: to that trigger's test
/// webhook, or to its production webhook and the workflow is active. It
/// carries the body given.
pub proof fn lemma_retry_wave_holds_only_asked(
    rows: Seq<GitHubTriggerRowModel>,
    config: ConfigModel,
    event_type: Seq<char>,
    body: Seq<u8>,
    headers: Seq<HeaderModel>,
    retry_urls: Set<Seq<char>>,
    d: GitHubDeliveryModel,
)
    requires
        retry_wave(rows, config, event_type, body, headers, retry_urls).contains(d),
    ensures
        d.request.body == body,
        retry_urls.contains(d.request.url),
        exists|i: int|
            0 <= i < rows.len() && event_filter_takes((#[trigger] rows[i]).events, event_type) && (d
                == test_delivery(rows[i], config, body, headers) || (rows[i].workflow_active && d
                == production_delivery(rows[i], config, body, headers))),
    decreases rows.len(),
{
    let wave = retry_wave(rows, config, event_type, body, headers, retry_urls);
    if rows.len() > 0 {
        let rest = retry_wave(rows.drop_last(), config, event_type, body, headers, retry_urls);
        let row = rows.last();
        let k = choose|k: int| 0 <= k < wave.len() && wave[k] == d;
        if event_filter_takes(row.events, event_type) && k >= rest.len() {
            let last = rows.len() - 1;
            assert(event_filter_takes(rows[last].events, event_type));
            assert(d == test_delivery(rows[last], config, body, headers) || (
            rows[last].workflow_active && d == production_delivery(
                rows[last],
                config,
                body,
                headers,
            )));
        } else {
            assert(rest[k] == d);
            assert(rest.contains(d));
            lemma_retry_wave_holds_only_asked(
                rows.drop_last(),
                config,
                event_type,
                body,
                headers,
                retry_urls,
                d,
            );
            let i = choose|i: int|
                0 <= i < rows.drop_last().len() && event_filter_takes(
                    (#[trigger] rows.drop_last()[i]).events,
                    event_type,
                ) && (d == test_delivery(rows.drop_last()[i], config, body, headers) || (
                rows.drop_last()[i].workflow_active && d == production_delivery(
                    rows.drop_last()[i],
                    config,
                    body,
                    headers,
                )));
            assert(rows[i] == rows.drop_last()[i]);
        }
    }
}

/// A delivery for a trigger whose secret is known carries, in its signature
/// header, `sha256=` and the hexadecimal HMAC-SHA256 code of the body under
/// that secret.
pub proof fn lemma_deliveries_are_signed(
    row: GitHubTriggerRowModel,
    config: ConfigModel,
    body: Seq<u8>,
    headers: Seq<HeaderModel>,
)
    requires
        row.secret is Some,
    ensures
        header_value(
            production_delivery(row, config, body, headers).request.headers,
            "x-hub-signature-256"@,
        ) == Some(github_signature(row.secret->0, body)),
        header_value(
            test_delivery(row, config, body, headers).request.headers,
            "x-hub-signature-256"@,
        ) == Some(github_signature(row.secret->0, body)),
{
    lemma_with_header_value(headers, "x-hub-signature-256"@, github_signature(row.secret->0, body));
}

/// How often a refresh is asked for when `events` are reported one after
/// the other, beginning in `state`.
pub open spec fn refreshes_asked(
    state: DispatchStateModel,
    events: Seq<DispatchEventModel>,
    rows: Seq<GitHubTriggerRowModel>,
    config: ConfigModel,
    event_type: Seq<char>,
    body: Seq<u8>,
    headers: Seq<HeaderModel>,
) -> nat
    decreases events.len(),
{
    if events.len() == 0 {
        0
    } else {
        let step = dispatch_step(state, events.first(), rows, config, event_type, body, headers);
        let asked: nat = if step.1 is Refresh {
            1
        } else {
            0
        };
        asked + refreshes_asked(
            step.0,
            events.drop_first(),
            rows,
            config,
            event_type,
            body,
            headers,
        )
    }
}

/// How often a second round is asked for when `events` are reported one
/// after the other, beginning in `state`.
pub open spec fn retries_asked(
    state: DispatchStateModel,
    events: Seq<DispatchEventModel>,
    rows: Seq<GitHubTriggerRowModel>,
    config: ConfigModel,
    event_type: Seq<char>,
    body: Seq<u8>,
    headers: Seq<HeaderModel>,
) -> nat
    decreases events.len(),
{
    if events.len() == 0 {
        0
    } else {
        let step = dispatch_step(state, events.first(), rows, config, event_type, body, headers);
        let asked: nat = if step.1 is Forward {
            1
        } else {
            0
        };
        asked + retries_asked(step.0, events.drop_first(), rows, config, event_type, body, headers)
    }
}

proof fn lemma_nothing_after_refresh(
    state: DispatchStateModel,
    events: Seq<DispatchEventModel>,
    rows: Seq<GitHubTriggerRowModel>,
    config: ConfigModel,
    event_type: Seq<char>,
    body: Seq<u8>,
    headers: Seq<HeaderModel>,
)
    requires
        !(state is FirstWave),
    ensures
        refreshes_asked(state, events, rows, config, event_type, body, headers) == 0,
        retries_asked(state, events, rows, config, event_type, body, headers) <= 1,
        !(state is Refreshing) ==> retries_asked(
            state,
            events,
            rows,
            config,
            event_type,
            body,
            headers,
        ) == 0,
    decreases events.len(),
{
    if events.len() > 0 {
        let step = dispatch_step(state, events.first(), rows, config, event_type, body, headers);
        lemma_nothing_after_refresh(
            step.0,
            events.drop_first(),
            rows,
            config,
            event_type,
            body,
            headers,
        );
    }
}

/// However the reports come in after the first round went out, a refresh is
/// asked for at most once, and a second round at most once. The refresh is
/// asked for exactly when the first report brings the results of the first
/// round and one of them was refused with 401 or went out unsigned.
pub proof fn lemma_one_refresh_and_retry(
    events: Seq<DispatchEventModel>,
    rows: Seq<GitHubTriggerRowModel>,
    config: ConfigModel,
    event_type: Seq<char>,
    body: Seq<u8>,
    headers: Seq<HeaderModel>,
)
    ensures
        refreshes_asked(
            DispatchStateModel::FirstWave,
            events,
            rows,
            config,
            event_type,
            body,
            headers,
        ) <= 1,
        retries_asked(
            DispatchStateModel::FirstWave,
            events,
            rows,
            config,
            event_type,
            body,
            headers,
        ) <= 1,
        refreshes_asked(
            DispatchStateModel::FirstWave,
            events,
            rows,
            config,
            event_type,
            body,
            headers,
        ) == 1 <==> events.len() > 0 && events.first() is Delivered && any_needs_retry(
            events.first()->Delivered_0,
        ),
{
    if events.len() > 0 {
        let step = dispatch_step(
            DispatchStateModel::FirstWave,
            events.first(),
            rows,
            config,
            event_type,
            body,
            headers,
        );
        lemma_nothing_after_refresh(
            step.0,
            events.drop_first(),
            rows,
            config,
            event_type,
            body,
            headers,
        );
    }
}

/// The URLs of the deliveries among `results` that ask for a retry, each
/// once.
pub fn retry_targets(results: &Vec<ForwardResult>) -> (urls: Vec<String>)
    ensures
        urls.deep_view().to_set() == retry_set(results.deep_view()),
        urls.len() > 0 <==> any_needs_retry(results.deep_view()),
{
    let mut urls: Vec<String> = Vec::new();
    let ghost all = results.deep_view();
    let mut i: usize = 0;
    while i < results.len()
        invariant
            i <= results.len(),
            all == results.deep_view(),
            forall|u: Seq<char>|
                urls.deep_view().contains(u) <==> exists|k: int|
                    0 <= k < i && needs_retry(#[trigger] all[k]) && all[k].webhook_url == u,
            urls.len() > 0 <==> exists|k: int| 0 <= k < i && needs_retry(#[trigger] all[k]),
        decreases results.len() - i,
    {
        let result = &results[i];
        assert(all[i as int] == result@);
        let refused = match result.status {
            Some(status) => status == 401,
            None => false,
        };
        if refused || !result.had_secret {
            if !contains_text(&urls, result.webhook_url.as_str()) {
                let ghost before = urls.deep_view();
                urls.push(result.webhook_url.clone());
                assert(urls.deep_view() =~= before.push(result@.webhook_url));
                assert forall|u: Seq<char>| urls.deep_view().contains(u) <==> exists|k: int|
                    0 <= k < i + 1 && needs_retry(#[trigger] all[k]) && all[k].webhook_url
                        == u by {
                    if urls.deep_view().contains(u) {
                        let j = choose|j: int|
                            0 <= j < urls.deep_view().len() && urls.deep_view()[j] == u;
                        if j < before.len() {
                            assert(before[j] == u);
                            assert(before.contains(u));
                        } else {
                            assert(needs_retry(all[i as int]) && all[i as int].webhook_url == u);
                        }
                    }
                    if exists|k: int|
                        0 <= k < i + 1 && needs_retry(#[trigger] all[k]) && all[k].webhook_url
                            == u {
                        let k = choose|k: int|
                            0 <= k < i + 1 && needs_retry(#[trigger] all[k])
                                && all[k].webhook_url == u;
                        if k < i {
                            assert(before.contains(u));
                            let j = choose|j: int| 0 <= j < before.len() && before[j] == u;
                            assert(urls.deep_view()[j] == u);
                        } else {
                            assert(urls.deep_view()[before.len() as int] == u);
                        }
                    }
                }
            } else {
                assert(needs_retry(all[i as int]));
            }
            assert(urls.len() > 0);
            assert(needs_retry(all[i as int]));
        }
        i += 1;
    }
    assert(urls.deep_view().to_set() =~= retry_set(all));
    urls
}

/// The router of GitHub events.
#[derive(Debug)]
pub struct GitHubRouter {
    config: Config,
}

impl GitHubRouter {
    /// A router for the engine that `config` names.
    pub fn new(config: Config) -> (r: GitHubRouter)
        ensures
            r.config()@ == config@,
    {
        GitHubRouter { config }
    }

    /// The configuration that this router was made with.
    pub closed spec fn config(&self) -> Config {
        self.config
    }

    /// Seconds between two refreshes.
    pub fn refresh_interval_secs(&self) -> (r: u64)
        ensures
            r == self.config()@.refresh_interval_secs,
    {
        self.config.refresh_interval_secs
    }

    /// The secret shared with GitHub for signing inbound deliveries.
    pub fn shared_secret(&self) -> (r: Option<&str>)
        ensures
            r.deep_view() == self.config()@.github_webhook_secret,
    {
        match &self.config.github_webhook_secret {
            Some(s) => Some(s.as_str()),
            None => None,
        }
    }

    /// Takes in what a refresh fetched: see `github_refresh`.
    pub fn refresh_triggers(
        &self,
        db: &mut Database,
        fetched: Result<Vec<GitHubTriggerConfig>, N8nClientError>,
    ) -> (r: Result<(), N8nClientError>)
        ensures
            (final(db)@, r) == github_refresh(
                old(db)@,
                match fetched {
                    Ok(list) => Ok(list.deep_view()),
                    Err(e) => Err(e),
                },
            ),
    {
        match fetched {
            Err(e) => Err(e),
            Ok(list) => {
                let ghost start = db@;
                let ghost all = list.deep_view();
                let mut i: usize = 0;
                assert(all.take(0) =~= Seq::<GitHubTriggerModel>::empty());
                while i < list.len()
                    invariant
                        i <= list.len(),
                        all == list.deep_view(),
                        db@ == with_fallback_secrets(start, all.take(i as int)),
                    decreases list.len() - i,
                {
                    let trigger = &list[i];
                    proof {
                        let prefix = all.take(i + 1);
                        assert(prefix.last() == trigger@);
                        assert(prefix.drop_last() =~= all.take(i as int));
                    }
                    match &trigger.webhook_secret {
                        Some(secret) => {
                            if !secret.as_str().is_empty() {
                                let _ = db.upsert_webhook_secret_fallback(
                                    trigger.webhook_id.as_str(),
                                    "github",
                                    secret.as_str(),
                                );
                            }
                        },
                        None => {},
                    }
                    i += 1;
                }
                assert(all.take(i as int) =~= all);
                let _ = db.sync_github_triggers(list.as_slice());
                Ok(())
            },
        }
    }

    /// The headers of a delivery: see `signed_headers`.
    pub fn build_signed_headers(
        inbound_headers: &HeaderSet,
        body: &[u8],
        webhook_secret: Option<&str>,
    ) -> (headers: HeaderSet)
        ensures
            headers@ == signed_headers(inbound_headers@, body@, webhook_secret.deep_view()),
    {
        let mut headers = inbound_headers.clone();
        match webhook_secret {
            Some(secret) => {
                let signature = compute_hmac_sha256(secret, body);
                headers.insert("x-hub-signature-256", signature.as_str());
            },
            None => {},
        }
        headers
    }

    fn plan_production<'a>(
        &self,
        row: &GitHubTriggerRow,
        raw_body: &'a [u8],
        headers: &HeaderSet,
    ) -> (d: GitHubDelivery<'a>)
        ensures
            d@ == production_delivery(row@, self.config@, raw_body@, headers@),
    {
        let secret: Option<&str> = match &row.secret {
            Some(s) => Some(s.as_str()),
            None => None,
        };
        GitHubDelivery {
            request: ForwardRequest {
                url: build_webhook_url(
                    self.config.n8n_api_url.as_str(),
                    self.config.n8n_endpoint_webhook.as_str(),
                    row.webhook_id.as_str(),
                ),
                workflow_name: row.workflow_name.clone(),
                kind: WebhookKind::Production,
                body: raw_body,
                headers: GitHubRouter::build_signed_headers(headers, raw_body, secret),
            },
            had_secret: row.secret.is_some(),
        }
    }

    fn plan_test<'a>(&self, row: &GitHubTriggerRow, raw_body: &'a [u8], headers: &HeaderSet) -> (d:
        GitHubDelivery<'a>)
        ensures
            d@ == test_delivery(row@, self.config@, raw_body@, headers@),
    {
        let secret: Option<&str> = match &row.secret {
            Some(s) => Some(s.as_str()),
            None => None,
        };
        GitHubDelivery {
            request: ForwardRequest {
                url: build_webhook_url(
                    self.config.n8n_api_url.as_str(),
                    self.config.n8n_endpoint_webhook_test.as_str(),
                    row.webhook_id.as_str(),
                ),
                workflow_name: row.workflow_name.clone(),
                kind: WebhookKind::Test,
                body: raw_body,
                headers: GitHubRouter::build_signed_headers(headers, raw_body, secret),
            },
            had_secret: row.secret.is_some(),
        }
    }

    /// The first round of deliveries for an event: see `first_wave`.
    pub fn forward_all<'a>(
        &self,
        rows: &Vec<GitHubTriggerRow>,
        event_type: &str,
        raw_body: &'a [u8],
        headers: &HeaderSet,
    ) -> (wave: Vec<GitHubDelivery<'a>>)
        ensures
            wave.deep_view() == first_wave(
                rows.deep_view(),
                self.config()@,
                event_type@,
                raw_body@,
                headers@,
            ),
    {
        let mut wave: Vec<GitHubDelivery<'a>> = Vec::new();
        let ghost all = rows.deep_view();
        let ghost cfg = self.config@;
        let mut i: usize = 0;
        assert(wave.deep_view() =~= first_wave(all.take(0), cfg, event_type@, raw_body@, headers@));
        while i < rows.len()
            invariant
                i <= rows.len(),
                all == rows.deep_view(),
                cfg == self.config@,
                wave.deep_view() == first_wave(
                    all.take(i as int),
                    cfg,
                    event_type@,
                    raw_body@,
                    headers@,
                ),
            decreases rows.len() - i,
        {
            let row = &rows[i];
            proof {
                let prefix = all.take(i + 1);
                assert(prefix.last() == row@);
                assert(prefix.drop_last() =~= all.take(i as int));
            }
            if event_filter_matches(&row.events, event_type) {
                if row.workflow_active {
                    let ghost before = wave.deep_view();
                    let d = self.plan_production(row, raw_body, headers);
                    wave.push(d);
                    assert(wave.deep_view() =~= before.push(d@));
                }
                let ghost before = wave.deep_view();
                let d = self.plan_test(row, raw_body, headers);
                wave.push(d);
                assert(wave.deep_view() =~= before.push(d@));
            }
            i += 1;
        }
        assert(all.take(i as int) =~= all);
        wave
    }

    /// The second round of deliveries for an event: see `retry_wave`.
    pub fn retry_all<'a>(
        &self,
        rows: &Vec<GitHubTriggerRow>,
        event_type: &str,
        raw_body: &'a [u8],
        headers: &HeaderSet,
        retry_urls: &Vec<String>,
    ) -> (wave: Vec<GitHubDelivery<'a>>)
        ensures
            wave.deep_view() == retry_wave(
                rows.deep_view(),
                self.config()@,
                event_type@,
                raw_body@,
                headers@,
                retry_urls.deep_view().to_set(),
            ),
    {
        let mut wave: Vec<GitHubDelivery<'a>> = Vec::new();
        let ghost all = rows.deep_view();
        let ghost cfg = self.config@;
        let ghost urls = retry_urls.deep_view().to_set();
        let mut i: usize = 0;
        assert(wave.deep_view() =~= retry_wave(
            all.take(0),
            cfg,
            event_type@,
            raw_body@,
            headers@,
            urls,
        ));
        while i < rows.len()
            invariant
                i <= rows.len(),
                all == rows.deep_view(),
                cfg == self.config@,
                urls == retry_urls.deep_view().to_set(),
                wave.deep_view() == retry_wave(
                    all.take(i as int),
                    cfg,
                    event_type@,
                    raw_body@,
                    headers@,
                    urls,
                ),
            decreases rows.len() - i,
        {
            let row = &rows[i];
            proof {
                let prefix = all.take(i + 1);
                assert(prefix.last() == row@);
                assert(prefix.drop_last() =~= all.take(i as int));
            }
            if event_filter_matches(&row.events, event_type) {
                if row.workflow_active {
                    let d = self.plan_production(row, raw_body, headers);
                    if contains_text(retry_urls, d.request.url.as_str()) {
                        let ghost before = wave.deep_view();
                        wave.push(d);
                        assert(wave.deep_view() =~= before.push(d@));
                    }
                }
                let d = self.plan_test(row, raw_body, headers);
                if contains_text(retry_urls, d.request.url.as_str()) {
                    let ghost before = wave.deep_view();
                    wave.push(d);
                    assert(wave.deep_view() =~= before.push(d@));
                }
            }
            i += 1;
        }
        assert(all.take(i as int) =~= all);
        wave
    }

    /// Begins the handling of an event: see `dispatch_start`. The rows are
    /// those that the store gives for `owner` and `repository`.
    pub fn route_event<'a>(
        &self,
        db: &Database,
        event_type: &str,
        owner: Option<&str>,
        repository: Option<&str>,
        raw_body: &'a [u8],
        headers: &HeaderSet,
    ) -> (r: (DispatchState, DispatchAction<'a>))
        ensures
            (r.0@, r.1@) == dispatch_start(
                db@.github_rows(owner.deep_view(), repository.deep_view()),
                self.config()@,
                event_type@,
                raw_body@,
                headers@,
            ),
    {
        let rows = match db.query_github_triggers(owner, repository) {
            Ok(rows) => rows,
            Err(_) => { return (DispatchState::Finished, DispatchAction::Stop); },
        };
        let wave = self.forward_all(&rows, event_type, raw_body, headers);
        if wave.len() == 0 {
            (DispatchState::Finished, DispatchAction::Stop)
        } else {
            (DispatchState::FirstWave, DispatchAction::Forward(wave))
        }
    }

    /// Goes on with the handling of an event when the caller reports
    /// `event`: see `dispatch_step`. The rows are those that the store
    /// gives for `owner` and `repository` now.
    pub fn advance<'a>(
        &self,
        state: DispatchState,
        event: DispatchEvent,
        db: &Database,
        event_type: &str,
        owner: Option<&str>,
        repository: Option<&str>,
        raw_body: &'a [u8],
        headers: &HeaderSet,
    ) -> (r: (DispatchState, DispatchAction<'a>))
        ensures
            (r.0@, r.1@) == dispatch_step(
                state@,
                event@,
                db@.github_rows(owner.deep_view(), repository.deep_view()),
                self.config()@,
                event_type@,
                raw_body@,
                headers@,
            ),
    {
        match (state, event) {
            (DispatchState::FirstWave, DispatchEvent::Delivered(results)) => {
                let urls = retry_targets(&results);
                if urls.len() > 0 {
                    (DispatchState::Refreshing(urls), DispatchAction::Refresh)
                } else {
                    (DispatchState::Finished, DispatchAction::Stop)
                }
            },
            (DispatchState::Refreshing(urls), DispatchEvent::Refreshed(ok)) => {
                if ok {
                    let rows = match db.query_github_triggers(owner, repository) {
                        Ok(rows) => rows,
                        Err(_) => { return (DispatchState::Finished, DispatchAction::Stop); },
                    };
                    let wave = self.retry_all(&rows, event_type, raw_body, headers, &urls);
                    (DispatchState::RetryWave, DispatchAction::Forward(wave))
                } else {
                    (DispatchState::Finished, DispatchAction::Stop)
                }
            },
            _ => (DispatchState::Finished, DispatchAction::Stop),
        }
    }

    /// How many GitHub triggers are known; 0 where the store cannot tell.
    pub fn trigger_count(&self, db: &Database) -> (n: usize)
        ensures
            n == db@.github_triggers.len(),
    {
        match db.count_github_triggers() {
            Ok(n) => n,
            Err(_) => 0,
        }
    }
}

} // verus!
