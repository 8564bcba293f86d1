//! Routing of Slack events.

use vstd::prelude::*;
use vstd::string::*;
use crate::config::{Config, ConfigModel};
use crate::db::{Database, DatabaseModel, SlackTriggerRowModel};
use crate::headers::{HeaderModel, HeaderSet};
use crate::matching::{slack_trigger_matches, slack_trigger_takes};
use crate::n8n::client::N8nClientError;
use crate::router::{build_webhook_url, lemma_no_match_no_delivery, lemma_plan_reaches_every_match, plan_of, production_forward, push_deliveries, test_forward, webhook_url, Candidate, ForwardModel, ForwardRequest};
use crate::slack::models::{engine_event_type, SlackEventCallback};
use crate::slack::triggers::{SlackTriggerConfig, SlackTriggerModel};

verus! {

/// A Slack trigger as the plan for an event sees it.
pub open spec fn slack_candidate(
    row: SlackTriggerRowModel,
    config: ConfigModel,
    event_type: Seq<char>,
    channel: Option<Seq<char>>,
) -> Candidate {
    Candidate {
        takes: slack_trigger_takes(
            row.event_type,
            row.channels,
            row.watch_whole_workspace,
            event_type,
            channel,
        ),
        production_url: webhook_url(config.n8n_api_url, config.n8n_endpoint_webhook, row.webhook_id),
        test_url: webhook_url(config.n8n_api_url, config.n8n_endpoint_webhook_test, row.webhook_id),
        workflow_name: row.workflow_name,
        workflow_active: row.workflow_active,
    }
}

/// The deliveries for a Slack event: those of every row that takes it, row
/// by row.
pub open spec fn slack_plan(
    rows: Seq<SlackTriggerRowModel>,
    config: ConfigModel,
    event_type: Seq<char>,
    channel: Option<Seq<char>>,
    body: Seq<u8>,
    headers: Seq<HeaderModel>,
) -> Seq<ForwardModel> {
    plan_of(
        rows.map_values(|row: SlackTriggerRowModel| slack_candidate(row, config, event_type, channel)),
        body,
        headers,
    )
}

/// Every Slack trigger that takes the event gets a delivery to its test
/// webhook, and one to its production webhook if its workflow is active.
pub proof fn lemma_slack_plan_reaches_every_match(
    rows: Seq<SlackTriggerRowModel>,
    config: ConfigModel,
    event_type: Seq<char>,
    channel: Option<Seq<char>>,
    body: Seq<u8>,
    headers: Seq<HeaderModel>,
    i: int,
)
    requires
        0 <= i < rows.len(),
        slack_candidate(rows[i], config, event_type, channel).takes,
    ensures
        slack_plan(rows, config, event_type, channel, body, headers).contains(
            test_forward(slack_candidate(rows[i], config, event_type, channel), body, headers),
        ),
        rows[i].workflow_active ==> slack_plan(
            rows,
            config,
            event_type,
            channel,
            body,
            headers,
        ).contains(
            production_forward(slack_candidate(rows[i], config, event_type, channel), body, headers),
        ),
{
    let candidates = rows.map_values(
        |row: SlackTriggerRowModel| slack_candidate(row, config, event_type, channel),
    );
    lemma_plan_reaches_every_match(candidates, body, headers, i);
}

/// Where no Slack trigger takes the event, nothing is delivered.
pub proof fn lemma_slack_no_match_no_delivery(
    rows: Seq<SlackTriggerRowModel>,
    config: ConfigModel,
    event_type: Seq<char>,
    channel: Option<Seq<char>>,
    body: Seq<u8>,
    headers: Seq<HeaderModel>,
)
    requires
        forall|i: int|
            0 <= i < rows.len() ==> !slack_candidate(
                #[trigger] rows[i],
                config,
                event_type,
                channel,
            ).takes,
    ensures
        slack_plan(rows, config, event_type, channel, body, headers) == Seq::<ForwardModel>::empty(),
{
    let candidates = rows.map_values(
        |row: SlackTriggerRowModel| slack_candidate(row, config, event_type, channel),
    );
    assert forall|i: int| 0 <= i < candidates.len() implies !(#[trigger] candidates[i]).takes by {
        assert(candidates[i] == slack_candidate(rows[i], config, event_type, channel));
    }
    lemma_no_match_no_delivery(candidates, body, headers);
}

/// The store after a refresh that fetched `fetched`, and what the refresh
/// reports. A failed fetch is reported and leaves the store as it is. A
/// list that the store refuses leaves it as it is too, and is not reported.
pub open spec fn slack_refresh(
    db: DatabaseModel,
    fetched: Result<Seq<SlackTriggerModel>, N8nClientError>,
) -> (DatabaseModel, Result<(), N8nClientError>) {
    match fetched {
        Err(e) => (db, Err(e)),
        Ok(list) => (db.sync_slack(list).0, Ok(())),
    }
}

/// The router of Slack events.
#[derive(Debug)]
pub struct SlackRouter {
    config: Config,
}

impl SlackRouter {
    /// A router for the engine that `config` names.
    pub fn new(config: Config) -> (r: SlackRouter)
        ensures
            r.config()@ == config@,
    {
        SlackRouter { config }
    }

    /// The configuration that this router was made with.
    pub closed spec fn config(&self) -> Config {
        self.config
    }

    /// Seconds between two refreshes.
    pub fn refresh_interval_secs(&self) -> (r: u64)
        ensures
            r == self.config()@.refresh_interval_secs,
    {
        self.config.refresh_interval_secs
    }

    /// Takes in what a refresh fetched: see `slack_refresh`.
    pub fn refresh_triggers(
        &self,
        db: &mut Database,
        fetched: Result<Vec<SlackTriggerConfig>, N8nClientError>,
    ) -> (r: Result<(), N8nClientError>)
        ensures
            (final(db)@, r) == slack_refresh(
                old(db)@,
                match fetched {
                    Ok(list) => Ok(list.deep_view()),
                    Err(e) => Err(e),
                },
            ),
    {
        match fetched {
            Err(e) => Err(e),
            Ok(list) => {
                let _ = db.sync_slack_triggers(list.as_slice());
                Ok(())
            },
        }
    }

    /// The URL of the production webhook of a trigger.
    pub fn build_webhook_url(&self, webhook_id: &str) -> (url: String)
        ensures
            url@ == webhook_url(
                self.config()@.n8n_api_url,
                self.config()@.n8n_endpoint_webhook,
                webhook_id@,
            ),
    {
        build_webhook_url(
            self.config.n8n_api_url.as_str(),
            self.config.n8n_endpoint_webhook.as_str(),
            webhook_id,
        )
    }

    /// The URL of the test webhook of a trigger.
    pub fn build_test_webhook_url(&self, webhook_id: &str) -> (url: String)
        ensures
            url@ == webhook_url(
                self.config()@.n8n_api_url,
                self.config()@.n8n_endpoint_webhook_test,
                webhook_id@,
            ),
    {
        build_webhook_url(
            self.config.n8n_api_url.as_str(),
            self.config.n8n_endpoint_webhook_test.as_str(),
            webhook_id,
        )
    }

    /// The deliveries to make for an event delivery of Slack: see
    /// `slack_plan`. The event goes by the engine's name for it.
    pub fn route_event<'a>(
        &self,
        db: &Database,
        callback: &SlackEventCallback,
        raw_body: &'a [u8],
        headers: &HeaderSet,
    ) -> (plan: Vec<ForwardRequest<'a>>)
        ensures
            plan.deep_view() == slack_plan(
                db@.slack_rows(),
                self.config()@,
                engine_event_type(callback@.event.event_type, callback@.event.subtype),
                callback@.event.channel,
                raw_body@,
                headers@,
            ),
    {
        let event_type = callback.event.to_n8n_event_type();
        let channel: Option<&str> = match &callback.event.channel {
            Some(c) => Some(c.as_str()),
            None => None,
        };
        let mut plan: Vec<ForwardRequest<'a>> = Vec::new();
        let rows = match db.query_slack_triggers() {
            Ok(rows) => rows,
            Err(_) => { return plan; },
        };
        let ghost cfg = self.config@;
        let ghost all = rows.deep_view().map_values(
            |row: SlackTriggerRowModel| slack_candidate(row, cfg, event_type@, channel.deep_view()),
        );
        let mut i: usize = 0;
        assert(plan.deep_view() =~= plan_of(all.take(0), raw_body@, headers@));
        while i < rows.len()
            invariant
                i <= rows.len(),
                all == rows.deep_view().map_values(
                    |row: SlackTriggerRowModel|
                        slack_candidate(row, cfg, event_type@, channel.deep_view()),
                ),
                cfg == self.config@,
                plan.deep_view() == plan_of(all.take(i as int), raw_body@, headers@),
            decreases rows.len() - i,
        {
            let row = &rows[i];
            proof {
                let prefix = all.take(i + 1);
                assert(rows.deep_view()[i as int] == row@);
                assert(prefix.last() == slack_candidate(
                    row@,
                    cfg,
                    event_type@,
                    channel.deep_view(),
                ));
                assert(prefix.drop_last() =~= all.take(i as int));
            }
            if slack_trigger_matches(
                row.event_type.as_str(),
                &row.channels,
                row.watch_whole_workspace,
                event_type,
                channel,
            ) {
                let production_url = self.build_webhook_url(row.webhook_id.as_str());
                let test_url = self.build_test_webhook_url(row.webhook_id.as_str());
                push_deliveries(
                    &mut plan,
                    production_url,
                    test_url,
                    row.workflow_name.as_str(),
                    row.workflow_active,
                    raw_body,
                    headers,
                );
            }
            i += 1;
        }
        assert(all.take(i as int) =~= all);
        plan
    }

    /// How many Slack triggers are known; 0 where the store cannot tell.
    pub fn trigger_count(&self, db: &Database) -> (n: usize)
        ensures
            n == db@.slack_triggers.len(),
    {
        match db.count_slack_triggers() {
            Ok(n) => n,
            Err(_) => 0,
        }
    }
}

} // verus!
