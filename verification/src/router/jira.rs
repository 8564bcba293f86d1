//! Routing of Jira events.

use vstd::prelude::*;
use vstd::string::*;
use crate::config::{Config, ConfigModel};
use crate::db::{Database, DatabaseModel, JiraTriggerRowModel};
use crate::headers::{HeaderModel, HeaderSet};
use crate::jira::triggers::{JiraTriggerConfig, JiraTriggerModel};
use crate::matching::{event_filter_matches, event_filter_takes};
use crate::n8n::client::N8nClientError;
use crate::router::{build_webhook_url, lemma_no_match_no_delivery, lemma_plan_reaches_every_match, plan_of, production_forward, push_deliveries, test_forward, webhook_url, Candidate, ForwardModel, ForwardRequest};
use crate::text::contains_char;

verus! {

/// `url` with the query string of the inbound request: joined with `?`, or
/// with `&` where the URL has a query already; `url` itself where there is
/// no query string or an empty one.
pub open spec fn url_with_query(url: Seq<char>, query_string: Option<Seq<char>>) -> Seq<char> {
    match query_string {
        Some(qs) => if qs.len() == 0 {
            url
        } else if url.contains('?') {
            url + "&"@ + qs
        } else {
            url + "?"@ + qs
        },
        None => url,
    }
}

/// A Jira trigger as the plan for an event sees it. Both URLs carry the
/// query string of the inbound request.
pub open spec fn jira_candidate(
    row: JiraTriggerRowModel,
    config: ConfigModel,
    webhook_event: Seq<char>,
    query_string: Option<Seq<char>>,
) -> Candidate {
    Candidate {
        takes: event_filter_takes(row.events, webhook_event),
        production_url: url_with_query(
            webhook_url(config.n8n_api_url, config.n8n_endpoint_webhook, row.webhook_id),
            query_string,
        ),
        test_url: url_with_query(
            webhook_url(config.n8n_api_url, config.n8n_endpoint_webhook_test, row.webhook_id),
            query_string,
        ),
        workflow_name: row.workflow_name,
        workflow_active: row.workflow_active,
    }
}

/// The deliveries for a Jira event: those of every row that takes it, row
/// by row.
pub open spec fn jira_plan(
    rows: Seq<JiraTriggerRowModel>,
    config: ConfigModel,
    webhook_event: Seq<char>,
    query_string: Option<Seq<char>>,
    body: Seq<u8>,
    headers: Seq<HeaderModel>,
) -> Seq<ForwardModel> {
    plan_of(
        rows.map_values(
            |row: JiraTriggerRowModel| jira_candidate(row, config, webhook_event, query_string),
        ),
        body,
        headers,
    )
}

/// Every Jira trigger that takes the event gets a delivery to its test
/// webhook, and one to its production webhook if its workflow is active.
pub proof fn lemma_jira_plan_reaches_every_match(
    rows: Seq<JiraTriggerRowModel>,
    config: ConfigModel,
    webhook_event: Seq<char>,
    query_string: Option<Seq<char>>,
    body: Seq<u8>,
    headers: Seq<HeaderModel>,
    i: int,
)
    requires
        0 <= i < rows.len(),
        event_filter_takes(rows[i].events, webhook_event),
    ensures
        jira_plan(rows, config, webhook_event, query_string, body, headers).contains(
            test_forward(jira_candidate(rows[i], config, webhook_event, query_string), body, headers),
        ),
        rows[i].workflow_active ==> jira_plan(
            rows,
            config,
            webhook_event,
            query_string,
            body,
            headers,
        ).contains(
            production_forward(
                jira_candidate(rows[i], config, webhook_event, query_string),
                body,
                headers,
            ),
        ),
{
    let candidates = rows.map_values(
        |row: JiraTriggerRowModel| jira_candidate(row, config, webhook_event, query_string),
    );
    lemma_plan_reaches_every_match(candidates, body, headers, i);
}

/// Where no Jira trigger takes the event, nothing is delivered.
pub proof fn lemma_jira_no_match_no_delivery(
    rows: Seq<JiraTriggerRowModel>,
    config: ConfigModel,
    webhook_event: Seq<char>,
    query_string: Option<Seq<char>>,
    body: Seq<u8>,
    headers: Seq<HeaderModel>,
)
    requires
        forall|i: int|
            0 <= i < rows.len() ==> !event_filter_takes((#[trigger] rows[i]).events, webhook_event),
    ensures
        jira_plan(rows, config, webhook_event, query_string, body, headers) == Seq::<
            ForwardModel,
        >::empty(),
{
    let candidates = rows.map_values(
        |row: JiraTriggerRowModel| jira_candidate(row, config, webhook_event, query_string),
    );
    assert forall|i: int| 0 <= i < candidates.len() implies !(#[trigger] candidates[i]).takes by {
        assert(candidates[i] == jira_candidate(rows[i], config, webhook_event, query_string));
    }
    lemma_no_match_no_delivery(candidates, body, headers);
}

/// The store after a refresh that fetched `fetched`, and what the refresh
/// reports. A failed fetch is reported and leaves the store as it is. A
/// list that the store refuses leaves it as it is too, and is not reported.
pub open spec fn jira_refresh(
    db: DatabaseModel,
    fetched: Result<Seq<JiraTriggerModel>, N8nClientError>,
) -> (DatabaseModel, Result<(), N8nClientError>) {
    match fetched {
        Err(e) => (db, Err(e)),
        Ok(list) => (db.sync_jira(list).0, Ok(())),
    }
}

/// `url` with the query string of the inbound request; see `url_with_query`.
pub fn append_query_string(url: &str, query_string: &Option<String>) -> (r: String)
    ensures
        r@ == url_with_query(url@, query_string.deep_view()),
{
    let mut r = String::from_str(url);
    match query_string {
        Some(qs) => {
            if !qs.as_str().is_empty() {
                if contains_char(url, '?') {
                    r.append("&");
                } else {
                    r.append("?");
                }
                r.append(qs.as_str());
            }
        },
        None => {},
    }
    r
}

/// The router of Jira events.
#[derive(Debug)]
pub struct JiraRouter {
    config: Config,
}

impl JiraRouter {
    /// A router for the engine that `config` names.
    pub fn new(config: Config) -> (r: JiraRouter)
        ensures
            r.config()@ == config@,
    {
        JiraRouter { config }
    }

    /// The configuration that this router was made with.
    pub closed spec fn config(&self) -> Config {
        self.config
    }

    /// Seconds between two refreshes.
    pub fn refresh_interval_secs(&self) -> (r: u64)
        ensures
            r == self.config()@.refresh_interval_secs,
    {
        self.config.refresh_interval_secs
    }

    /// Takes in what a refresh fetched: see `jira_refresh`.
    pub fn refresh_triggers(
        &self,
        db: &mut Database,
        fetched: Result<Vec<JiraTriggerConfig>, N8nClientError>,
    ) -> (r: Result<(), N8nClientError>)
        ensures
            (final(db)@, r) == jira_refresh(
                old(db)@,
                match fetched {
                    Ok(list) => Ok(list.deep_view()),
                    Err(e) => Err(e),
                },
            ),
    {
        match fetched {
            Err(e) => Err(e),
            Ok(list) => {
                let _ = db.sync_jira_triggers(list.as_slice());
                Ok(())
            },
        }
    }

    /// The URL of the production webhook of a trigger.
    pub fn build_webhook_url(&self, webhook_id: &str) -> (url: String)
        ensures
            url@ == webhook_url(
                self.config()@.n8n_api_url,
                self.config()@.n8n_endpoint_webhook,
                webhook_id@,
            ),
    {
        build_webhook_url(
            self.config.n8n_api_url.as_str(),
            self.config.n8n_endpoint_webhook.as_str(),
            webhook_id,
        )
    }

    /// The URL of the test webhook of a trigger.
    pub fn build_test_webhook_url(&self, webhook_id: &str) -> (url: String)
        ensures
            url@ == webhook_url(
                self.config()@.n8n_api_url,
                self.config()@.n8n_endpoint_webhook_test,
                webhook_id@,
            ),
    {
        build_webhook_url(
            self.config.n8n_api_url.as_str(),
            self.config.n8n_endpoint_webhook_test.as_str(),
            webhook_id,
        )
    }

    /// The deliveries to make for a Jira event: see `jira_plan`.
    pub fn route_event<'a>(
        &self,
        db: &Database,
        webhook_event: &str,
        raw_body: &'a [u8],
        headers: &HeaderSet,
        query_string: Option<String>,
    ) -> (plan: Vec<ForwardRequest<'a>>)
        ensures
            plan.deep_view() == jira_plan(
                db@.jira_rows(),
                self.config()@,
                webhook_event@,
                query_string.deep_view(),
                raw_body@,
                headers@,
            ),
    {
        let mut plan: Vec<ForwardRequest<'a>> = Vec::new();
        let rows = match db.query_jira_triggers() {
            Ok(rows) => rows,
            Err(_) => { return plan; },
        };
        let ghost cfg = self.config@;
        let ghost qs = query_string.deep_view();
        let ghost all = rows.deep_view().map_values(
            |row: JiraTriggerRowModel| jira_candidate(row, cfg, webhook_event@, qs),
        );
        let mut i: usize = 0;
        assert(plan.deep_view() =~= plan_of(all.take(0), raw_body@, headers@));
        while i < rows.len()
            invariant
                i <= rows.len(),
                all == rows.deep_view().map_values(
                    |row: JiraTriggerRowModel| jira_candidate(row, cfg, webhook_event@, qs),
                ),
                cfg == self.config@,
                qs == query_string.deep_view(),
                plan.deep_view() == plan_of(all.take(i as int), raw_body@, headers@),
            decreases rows.len() - i,
        {
            let row = &rows[i];
            proof {
                let prefix = all.take(i + 1);
                assert(rows.deep_view()[i as int] == row@);
                assert(prefix.last() == jira_candidate(row@, cfg, webhook_event@, qs));
                assert(prefix.drop_last() =~= all.take(i as int));
            }
            if event_filter_matches(&row.events, webhook_event) {
                let production_url = append_query_string(
                    self.build_webhook_url(row.webhook_id.as_str()).as_str(),
                    &query_string,
                );
                let test_url = append_query_string(
                    self.build_test_webhook_url(row.webhook_id.as_str()).as_str(),
                    &query_string,
                );
                push_deliveries(
                    &mut plan,
                    production_url,
                    test_url,
                    row.workflow_name.as_str(),
                    row.workflow_active,
                    raw_body,
                    headers,
                );
            }
            i += 1;
        }
        assert(all.take(i as int) =~= all);
        plan
    }

    /// How many Jira triggers are known; 0 where the store cannot tell.
    pub fn trigger_count(&self, db: &Database) -> (n: usize)
        ensures
            n == db@.jira_triggers.len(),
    {
        match db.count_jira_triggers() {
            Ok(n) => n,
            Err(_) => 0,
        }
    }
}

} // verus!
