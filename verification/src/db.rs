//! The store of captured webhook secrets and discovered triggers.
//!
//! Two writers meet here. The provider endpoints capture the signing secret
//! that the engine chose for a webhook and write it with authority. The
//! periodic trigger sync reads the engine's own copy, which may lag, and may
//! only fill a gap. Both use the engine's webhook identifier as the key, and
//! routing joins triggers and secrets on it.

use vstd::prelude::*;
use vstd::string::*;
use crate::github::triggers::{GitHubTriggerConfig, GitHubTriggerModel};
use crate::jira::triggers::{JiraTriggerConfig, JiraTriggerModel};
use crate::slack::triggers::{SlackTriggerConfig, SlackTriggerModel};
use crate::text::{eq_ignore_ascii_case, eq_ignoring_ascii_case, lemma_eq_ignoring_ascii_case, str_eq};

verus! {

/// Why the store refused an operation.
#[derive(Debug, Clone, Copy, PartialEq, Eq, Structural)]
pub enum StoreError {
    /// A list of triggers named one webhook identifier twice.
    DuplicateWebhookId,
    /// No numeric identifier is left for a new secret.
    IdsExhausted,
    /// Rows handed in to make a store of break its rules.
    Inconsistent,
}

impl StoreError {
    /// What this error reads like in a log.
    pub fn message(&self) -> (r: &'static str)
        ensures
            r@ == match self {
                StoreError::DuplicateWebhookId => "a webhook identifier occurs twice"@,
                StoreError::IdsExhausted => "no numeric identifier is left"@,
                StoreError::Inconsistent => "the rows break the rules of the store"@,
            },
    {
        match self {
            StoreError::DuplicateWebhookId => "a webhook identifier occurs twice",
            StoreError::IdsExhausted => "no numeric identifier is left",
            StoreError::Inconsistent => "the rows break the rules of the store",
        }
    }
}

/// A captured signing secret.
#[derive(Debug)]
pub struct WebhookSecret {
    /// The stable numeric identifier, handed to the engine as the hook's id.
    pub id: i64,
    /// The engine's webhook identifier.
    pub webhook_id: String,
    pub provider: String,
    pub secret: String,
}

/// The view of a `WebhookSecret`.
pub struct WebhookSecretModel {
    pub id: i64,
    pub webhook_id: Seq<char>,
    pub provider: Seq<char>,
    pub secret: Seq<char>,
}

impl View for WebhookSecret {
    type V = WebhookSecretModel;

    open spec fn view(&self) -> WebhookSecretModel {
        WebhookSecretModel {
            id: self.id,
            webhook_id: self.webhook_id@,
            provider: self.provider@,
            secret: self.secret@,
        }
    }
}

impl DeepView for WebhookSecret {
    type V = WebhookSecretModel;

    open spec fn deep_view(&self) -> WebhookSecretModel {
        self@
    }
}

impl Clone for WebhookSecret {
    fn clone(&self) -> (r: Self)
        ensures
            r@ == self@,
    {
        WebhookSecret {
            id: self.id,
            webhook_id: self.webhook_id.clone(),
            provider: self.provider.clone(),
            secret: self.secret.clone(),
        }
    }
}

/// A GitHub trigger joined with the secret captured for it, if any.
#[derive(Debug)]
pub struct GitHubTriggerRow {
    pub webhook_id: String,
    pub workflow_name: String,
    pub workflow_active: bool,
    pub events: Vec<String>,
    pub secret: Option<String>,
}

/// The view of a `GitHubTriggerRow`.
pub struct GitHubTriggerRowModel {
    pub webhook_id: Seq<char>,
    pub workflow_name: Seq<char>,
    pub workflow_active: bool,
    pub events: Seq<Seq<char>>,
    pub secret: Option<Seq<char>>,
}

impl View for GitHubTriggerRow {
    type V = GitHubTriggerRowModel;

    open spec fn view(&self) -> GitHubTriggerRowModel {
        GitHubTriggerRowModel {
            webhook_id: self.webhook_id@,
            workflow_name: self.workflow_name@,
            workflow_active: self.workflow_active,
            events: self.events.deep_view(),
            secret: self.secret.deep_view(),
        }
    }
}

impl DeepView for GitHubTriggerRow {
    type V = GitHubTriggerRowModel;

    open spec fn deep_view(&self) -> GitHubTriggerRowModel {
        self@
    }
}

/// A Jira trigger as routing reads it.
#[derive(Debug)]
pub struct JiraTriggerRow {
    pub webhook_id: String,
    pub workflow_name: String,
    pub workflow_active: bool,
    pub events: Vec<String>,
}

/// The view of a `JiraTriggerRow`.
pub struct JiraTriggerRowModel {
    pub webhook_id: Seq<char>,
    pub workflow_name: Seq<char>,
    pub workflow_active: bool,
    pub events: Seq<Seq<char>>,
}

impl View for JiraTriggerRow {
    type V = JiraTriggerRowModel;

    open spec fn view(&self) -> JiraTriggerRowModel {
        JiraTriggerRowModel {
            webhook_id: self.webhook_id@,
            workflow_name: self.workflow_name@,
            workflow_active: self.workflow_active,
            events: self.events.deep_view(),
        }
    }
}

impl DeepView for JiraTriggerRow {
    type V = JiraTriggerRowModel;

    open spec fn deep_view(&self) -> JiraTriggerRowModel {
        self@
    }
}

/// A Slack trigger as routing reads it.
#[derive(Debug)]
pub struct SlackTriggerRow {
    pub webhook_id: String,
    pub workflow_name: String,
    pub workflow_active: bool,
    pub event_type: String,
    pub channels: Vec<String>,
    pub watch_whole_workspace: bool,
}

/// The view of a `SlackTriggerRow`.
pub struct SlackTriggerRowModel {
    pub webhook_id: Seq<char>,
    pub workflow_name: Seq<char>,
    pub workflow_active: bool,
    pub event_type: Seq<char>,
    pub channels: Seq<Seq<char>>,
    pub watch_whole_workspace: bool,
}

impl View for SlackTriggerRow {
    type V = SlackTriggerRowModel;

    open spec fn view(&self) -> SlackTriggerRowModel {
        SlackTriggerRowModel {
            webhook_id: self.webhook_id@,
            workflow_name: self.workflow_name@,
            workflow_active: self.workflow_active,
            event_type: self.event_type@,
            channels: self.channels.deep_view(),
            watch_whole_workspace: self.watch_whole_workspace,
        }
    }
}

impl DeepView for SlackTriggerRow {
    type V = SlackTriggerRowModel;

    open spec fn deep_view(&self) -> SlackTriggerRowModel {
        self@
    }
}

/// The index of the secret kept for `webhook_id`.
pub open spec fn secret_position(secrets: Seq<WebhookSecretModel>, webhook_id: Seq<char>) -> Option<
    int,
>
    decreases secrets.len(),
{
    if secrets.len() == 0 {
        None
    } else if secrets.last().webhook_id == webhook_id {
        Some(secrets.len() - 1)
    } else {
        secret_position(secrets.drop_last(), webhook_id)
    }
}

/// The index of the secret with the numeric identifier `id`.
pub open spec fn secret_position_by_id(secrets: Seq<WebhookSecretModel>, id: i64) -> Option<int>
    decreases secrets.len(),
{
    if secrets.len() == 0 {
        None
    } else if secrets.last().id == id {
        Some(secrets.len() - 1)
    } else {
        secret_position_by_id(secrets.drop_last(), id)
    }
}

/// The secret captured for `webhook_id`, if any.
pub open spec fn secret_for(secrets: Seq<WebhookSecretModel>, webhook_id: Seq<char>) -> Option<
    Seq<char>,
> {
    match secret_position(secrets, webhook_id) {
        Some(i) => Some(secrets[i].secret),
        None => None,
    }
}

/// Whether no two of `ids` are the same.
pub open spec fn all_distinct(ids: Seq<Seq<char>>) -> bool {
    forall|i: int, j: int| 0 <= i < j < ids.len() ==> ids[i] != ids[j]
}

/// Whether a query for `owner` and `repository` selects the trigger `t`.
/// With both given, the trigger's owner and repository are compared up to
/// the case of ASCII letters. With either missing, only a trigger that
/// names neither an owner nor a repository is selected.
pub open spec fn github_selected(
    t: GitHubTriggerModel,
    owner: Option<Seq<char>>,
    repository: Option<Seq<char>>,
) -> bool {
    match (owner, repository) {
        (Some(o), Some(r)) => eq_ignoring_ascii_case(t.owner, o) && eq_ignoring_ascii_case(
            t.repository,
            r,
        ),
        _ => t.owner.len() == 0 && t.repository.len() == 0,
    }
}

/// The row that routing reads for the trigger `t`: the trigger joined with
/// the secret captured for its webhook identifier, if any.
pub open spec fn github_row_of(
    t: GitHubTriggerModel,
    secrets: Seq<WebhookSecretModel>,
) -> GitHubTriggerRowModel {
    GitHubTriggerRowModel {
        webhook_id: t.webhook_id,
        workflow_name: t.workflow_name,
        workflow_active: t.workflow_active,
        events: t.events,
        secret: secret_for(secrets, t.webhook_id),
    }
}

/// The rows of the selected triggers, in the order of the table.
pub open spec fn github_rows_of(
    triggers: Seq<GitHubTriggerModel>,
    secrets: Seq<WebhookSecretModel>,
    owner: Option<Seq<char>>,
    repository: Option<Seq<char>>,
) -> Seq<GitHubTriggerRowModel>
    decreases triggers.len(),
{
    if triggers.len() == 0 {
        Seq::empty()
    } else {
        let rest = github_rows_of(triggers.drop_last(), secrets, owner, repository);
        if github_selected(triggers.last(), owner, repository) {
            rest.push(github_row_of(triggers.last(), secrets))
        } else {
            rest
        }
    }
}

/// The row that routing reads for the Jira trigger `t`.
pub open spec fn jira_row_of(t: JiraTriggerModel) -> JiraTriggerRowModel {
    JiraTriggerRowModel {
        webhook_id: t.webhook_id,
        workflow_name: t.workflow_name,
        workflow_active: t.workflow_active,
        events: t.events,
    }
}

/// The row that routing reads for the Slack trigger `t`.
pub open spec fn slack_row_of(t: SlackTriggerModel) -> SlackTriggerRowModel {
    SlackTriggerRowModel {
        webhook_id: t.webhook_id,
        workflow_name: t.workflow_name,
        workflow_active: t.workflow_active,
        event_type: t.event_type,
        channels: t.channels,
        watch_whole_workspace: t.watch_whole_workspace,
    }
}

/// The webhook identifiers of GitHub triggers, in their order.
pub open spec fn github_ids(triggers: Seq<GitHubTriggerModel>) -> Seq<Seq<char>> {
    triggers.map_values(|t: GitHubTriggerModel| t.webhook_id)
}

/// The webhook identifiers of Jira triggers, in their order.
pub open spec fn jira_ids(triggers: Seq<JiraTriggerModel>) -> Seq<Seq<char>> {
    triggers.map_values(|t: JiraTriggerModel| t.webhook_id)
}

/// The webhook identifiers of Slack triggers, in their order.
pub open spec fn slack_ids(triggers: Seq<SlackTriggerModel>) -> Seq<Seq<char>> {
    triggers.map_values(|t: SlackTriggerModel| t.webhook_id)
}

/// The webhook identifiers of secrets, in their order.
pub open spec fn secret_ids(secrets: Seq<WebhookSecretModel>) -> Seq<Seq<char>> {
    secrets.map_values(|s: WebhookSecretModel| s.webhook_id)
}

/// The store's contents.
pub struct DatabaseModel {
    /// The captured secrets, oldest first.
    pub secrets: Seq<WebhookSecretModel>,
    /// The largest numeric identifier ever given to a secret; 0 at first.
    pub last_secret_id: i64,
    pub github_triggers: Seq<GitHubTriggerModel>,
    pub jira_triggers: Seq<JiraTriggerModel>,
    pub slack_triggers: Seq<SlackTriggerModel>,
}

impl DatabaseModel {
    /// The rules that every store keeps: a webhook identifier has at most
    /// one secret and at most one trigger per provider, and the numeric
    /// identifiers of the secrets are positive, pairwise different and never
    /// above the last one given out.
    pub open spec fn well_formed(self) -> bool {
        &&& 0 <= self.last_secret_id
        &&& forall|i: int|
            0 <= i < self.secrets.len() ==> 0 < (#[trigger] self.secrets[i]).id
                <= self.last_secret_id
        &&& forall|i: int, j: int|
            0 <= i < j < self.secrets.len() ==> (#[trigger] self.secrets[i]).id != (
            #[trigger] self.secrets[j]).id
        &&& all_distinct(secret_ids(self.secrets))
        &&& all_distinct(github_ids(self.github_triggers))
        &&& all_distinct(jira_ids(self.jira_triggers))
        &&& all_distinct(slack_ids(self.slack_triggers))
    }

    /// The store with no secret and no trigger.
    pub open spec fn empty() -> DatabaseModel {
        DatabaseModel {
            secrets: Seq::empty(),
            last_secret_id: 0,
            github_triggers: Seq::empty(),
            jira_triggers: Seq::empty(),
            slack_triggers: Seq::empty(),
        }
    }

    /// The store that holds `secrets` and no trigger, if that keeps the
    /// rules of a store.
    pub open spec fn restored(secrets: Seq<WebhookSecretModel>, last_secret_id: i64) -> Result<
        DatabaseModel,
        StoreError,
    > {
        let db = DatabaseModel {
            secrets,
            last_secret_id,
            github_triggers: Seq::empty(),
            jira_triggers: Seq::empty(),
            slack_triggers: Seq::empty(),
        };
        if db.well_formed() {
            Ok(db)
        } else {
            Err(StoreError::Inconsistent)
        }
    }

    /// The store after a new secret was added for `webhook_id`, and the
    /// numeric identifier given to it: one above the last one given out.
    /// Where none is left, the store stays as it is.
    pub open spec fn add_secret(
        self,
        webhook_id: Seq<char>,
        provider: Seq<char>,
        secret: Seq<char>,
    ) -> (DatabaseModel, Result<i64, StoreError>) {
        if self.last_secret_id == i64::MAX {
            (self, Err(StoreError::IdsExhausted))
        } else {
            let id = (self.last_secret_id + 1) as i64;
            (
                DatabaseModel {
                    secrets: self.secrets.push(
                        WebhookSecretModel { id, webhook_id, provider, secret },
                    ),
                    last_secret_id: id,
                    ..self
                },
                Ok(id),
            )
        }
    }

    /// The authoritative write: where `webhook_id` has a secret, its
    /// provider and secret are replaced and its numeric identifier stays;
    /// where it has none, one is added.
    pub open spec fn upsert_secret(
        self,
        webhook_id: Seq<char>,
        provider: Seq<char>,
        secret: Seq<char>,
    ) -> (DatabaseModel, Result<i64, StoreError>) {
        match secret_position(self.secrets, webhook_id) {
            Some(i) => (
                DatabaseModel {
                    secrets: self.secrets.update(
                        i,
                        WebhookSecretModel { id: self.secrets[i].id, webhook_id, provider, secret },
                    ),
                    ..self
                },
                Ok(self.secrets[i].id),
            ),
            None => self.add_secret(webhook_id, provider, secret),
        }
    }

    /// The fallback write: where `webhook_id` has a secret, nothing changes;
    /// where it has none, one is added.
    pub open spec fn insert_secret_if_absent(
        self,
        webhook_id: Seq<char>,
        provider: Seq<char>,
        secret: Seq<char>,
    ) -> (DatabaseModel, Result<(), StoreError>) {
        match secret_position(self.secrets, webhook_id) {
            Some(_) => (self, Ok(())),
            None => {
                let (next, outcome) = self.add_secret(webhook_id, provider, secret);
                (
                    next,
                    match outcome {
                        Ok(_) => Ok(()),
                        Err(e) => Err(e),
                    },
                )
            },
        }
    }

    /// The store without the secret whose numeric identifier is `id`, and
    /// whether there was one.
    pub open spec fn delete_secret(self, id: i64) -> (DatabaseModel, bool) {
        match secret_position_by_id(self.secrets, id) {
            Some(i) => (DatabaseModel { secrets: self.secrets.remove(i), ..self }, true),
            None => (self, false),
        }
    }
    /// The store after the GitHub triggers were replaced by `list`. A list
    /// that names a webhook identifier twice is refused, and the table stays
    /// as it was. The secrets are not touched.
    pub open spec fn sync_github(self, list: Seq<GitHubTriggerModel>) -> (
        DatabaseModel,
        Result<(), StoreError>,
    ) {
        if all_distinct(github_ids(list)) {
            (DatabaseModel { github_triggers: list, ..self }, Ok(()))
        } else {
            (self, Err(StoreError::DuplicateWebhookId))
        }
    }

    /// The store after the Jira triggers were replaced by `list`; see
    /// `sync_github`.
    pub open spec fn sync_jira(self, list: Seq<JiraTriggerModel>) -> (
        DatabaseModel,
        Result<(), StoreError>,
    ) {
        if all_distinct(jira_ids(list)) {
            (DatabaseModel { jira_triggers: list, ..self }, Ok(()))
        } else {
            (self, Err(StoreError::DuplicateWebhookId))
        }
    }

    /// The store after the Slack triggers were replaced by `list`; see
    /// `sync_github`.
    pub open spec fn sync_slack(self, list: Seq<SlackTriggerModel>) -> (
        DatabaseModel,
        Result<(), StoreError>,
    ) {
        if all_distinct(slack_ids(list)) {
            (DatabaseModel { slack_triggers: list, ..self }, Ok(()))
        } else {
            (self, Err(StoreError::DuplicateWebhookId))
        }
    }

    /// The rows that a query for `owner` and `repository` gives.
    pub open spec fn github_rows(
        self,
        owner: Option<Seq<char>>,
        repository: Option<Seq<char>>,
    ) -> Seq<GitHubTriggerRowModel> {
        github_rows_of(self.github_triggers, self.secrets, owner, repository)
    }

    /// The rows of all Jira triggers, in the order of the table.
    pub open spec fn jira_rows(self) -> Seq<JiraTriggerRowModel> {
        self.jira_triggers.map_values(|t: JiraTriggerModel| jira_row_of(t))
    }

    /// The rows of all Slack triggers, in the order of the table.
    pub open spec fn slack_rows(self) -> Seq<SlackTriggerRowModel> {
        self.slack_triggers.map_values(|t: SlackTriggerModel| slack_row_of(t))
    }
}

/// The store.
pub struct Database {
    secrets: Vec<WebhookSecret>,
    last_secret_id: i64,
    github_triggers: Vec<GitHubTriggerConfig>,
    jira_triggers: Vec<JiraTriggerConfig>,
    slack_triggers: Vec<SlackTriggerConfig>,
}

impl View for Database {
    type V = DatabaseModel;

    closed spec fn view(&self) -> DatabaseModel {
        DatabaseModel {
            secrets: self.secrets.deep_view(),
            last_secret_id: self.last_secret_id,
            github_triggers: self.github_triggers.deep_view(),
            jira_triggers: self.jira_triggers.deep_view(),
            slack_triggers: self.slack_triggers.deep_view(),
        }
    }
}

fn find_secret(secrets: &Vec<WebhookSecret>, webhook_id: &str) -> (r: Option<usize>)
    ensures
        match r {
            Some(i) => secret_position(secrets.deep_view(), webhook_id@) == Some(i as int) && i
                < secrets.len(),
            None => secret_position(secrets.deep_view(), webhook_id@) is None,
        },
{
    let ghost all = secrets.deep_view();
    let mut n: usize = secrets.len();
    assert(all.take(n as int) =~= all);
    while n > 0
        invariant
            n <= secrets.len(),
            all == secrets.deep_view(),
            secret_position(all, webhook_id@) == secret_position(all.take(n as int), webhook_id@),
        decreases n,
    {
        let ghost prefix = all.take(n as int);
        assert(prefix.last() == secrets@[n - 1]@);
        assert(prefix.drop_last() =~= all.take(n - 1));
        if str_eq(secrets[n - 1].webhook_id.as_str(), webhook_id) {
            return Some(n - 1);
        }
        n -= 1;
    }
    None
}

fn find_secret_by_id(secrets: &Vec<WebhookSecret>, id: i64) -> (r: Option<usize>)
    ensures
        match r {
            Some(i) => secret_position_by_id(secrets.deep_view(), id) == Some(i as int) && i
                < secrets.len(),
            None => secret_position_by_id(secrets.deep_view(), id) is None,
        },
{
    let ghost all = secrets.deep_view();
    let mut n: usize = secrets.len();
    assert(all.take(n as int) =~= all);
    while n > 0
        invariant
            n <= secrets.len(),
            all == secrets.deep_view(),
            secret_position_by_id(all, id) == secret_position_by_id(all.take(n as int), id),
        decreases n,
    {
        let ghost prefix = all.take(n as int);
        assert(prefix.last() == secrets@[n - 1]@);
        assert(prefix.drop_last() =~= all.take(n - 1));
        if secrets[n - 1].id == id {
            return Some(n - 1);
        }
        n -= 1;
    }
    None
}

/// A position that `secret_position` gives holds the identifier asked for.
pub proof fn lemma_secret_position(secrets: Seq<WebhookSecretModel>, webhook_id: Seq<char>)
    ensures
        match secret_position(secrets, webhook_id) {
            Some(i) => 0 <= i < secrets.len() && secrets[i].webhook_id == webhook_id,
            None => forall|k: int| 0 <= k < secrets.len() ==> secrets[k].webhook_id != webhook_id,
        },
    decreases secrets.len(),
{
    if secrets.len() > 0 && secrets.last().webhook_id != webhook_id {
        lemma_secret_position(secrets.drop_last(), webhook_id);
        if secret_position(secrets, webhook_id) is None {
            assert forall|k: int| 0 <= k < secrets.len() implies secrets[k].webhook_id
                != webhook_id by {
                if k < secrets.len() - 1 {
                    assert(secrets.drop_last()[k] == secrets[k]);
                }
            }
        }
    }
}

/// Writing a secret for a webhook again gives the numeric identifier that
/// the first write gave: the identifier of a row never changes, and a
/// webhook that has a row keeps it.
pub proof fn lemma_upsert_keeps_id(
    db: DatabaseModel,
    webhook_id: Seq<char>,
    first_provider: Seq<char>,
    first_secret: Seq<char>,
    second_provider: Seq<char>,
    second_secret: Seq<char>,
)
    requires
        db.well_formed(),
    ensures
        ({
            let first = db.upsert_secret(webhook_id, first_provider, first_secret);
            let second = first.0.upsert_secret(webhook_id, second_provider, second_secret);
            &&& first.1 is Ok ==> second.1 == first.1
            &&& secret_position(db.secrets, webhook_id) is Some ==> first.1 == Ok::<
                i64,
                StoreError,
            >(db.secrets[secret_position(db.secrets, webhook_id)->0].id)
        }),
{
    let first = db.upsert_secret(webhook_id, first_provider, first_secret);
    lemma_secret_position(db.secrets, webhook_id);
    lemma_secret_position(first.0.secrets, webhook_id);
    match secret_position(db.secrets, webhook_id) {
        Some(i) => {
            assert(first.0.secrets[i].webhook_id == webhook_id);
            let j = secret_position(first.0.secrets, webhook_id)->0;
            if j != i {
                let ids = secret_ids(db.secrets);
                assert(first.0.secrets[j] == db.secrets[j]);
                assert(ids[i] == webhook_id && ids[j] == webhook_id);
            }
        },
        None => {
            if db.last_secret_id != i64::MAX {
                assert(first.0.secrets.last().webhook_id == webhook_id);
            }
        },
    }
}

/// The fallback write changes nothing where the webhook has a secret.
pub proof fn lemma_fallback_keeps_existing(
    db: DatabaseModel,
    webhook_id: Seq<char>,
    provider: Seq<char>,
    secret: Seq<char>,
)
    requires
        secret_position(db.secrets, webhook_id) is Some,
    ensures
        db.insert_secret_if_absent(webhook_id, provider, secret) == (db, Ok::<(), StoreError>(())),
{
}

/// A secret written with authority survives a later fallback write for the
/// same webhook, whatever that brings.
pub proof fn lemma_fallback_never_overwrites(
    db: DatabaseModel,
    webhook_id: Seq<char>,
    provider: Seq<char>,
    secret: Seq<char>,
    later_provider: Seq<char>,
    later_secret: Seq<char>,
)
    requires
        db.well_formed(),
        db.upsert_secret(webhook_id, provider, secret).1 is Ok,
    ensures
        ({
            let written = db.upsert_secret(webhook_id, provider, secret).0;
            let after = written.insert_secret_if_absent(webhook_id, later_provider, later_secret).0;
            &&& after == written
            &&& secret_for(after.secrets, webhook_id) == Some(secret)
        }),
{
    let written = db.upsert_secret(webhook_id, provider, secret).0;
    lemma_secret_position(db.secrets, webhook_id);
    lemma_secret_position(written.secrets, webhook_id);
    match secret_position(db.secrets, webhook_id) {
        Some(i) => {
            assert(written.secrets[i].webhook_id == webhook_id);
            let j = secret_position(written.secrets, webhook_id)->0;
            if j != i {
                let ids = secret_ids(db.secrets);
                assert(written.secrets[j] == db.secrets[j]);
                assert(ids[i] == webhook_id && ids[j] == webhook_id);
            }
        },
        None => {
            assert(written.secrets.last().webhook_id == webhook_id);
        },
    }
}

/// A sync is all or nothing: afterwards the table holds exactly the list,
/// or the store is exactly what it was. It succeeds exactly for a list
/// without a repeated webhook identifier, and never touches the secrets or
/// the tables of the other providers.
pub proof fn lemma_sync_is_all_or_nothing(
    db: DatabaseModel,
    github: Seq<GitHubTriggerModel>,
    jira: Seq<JiraTriggerModel>,
    slack: Seq<SlackTriggerModel>,
)
    ensures
        db.sync_github(github).1 is Ok <==> all_distinct(github_ids(github)),
        db.sync_github(github) == if all_distinct(github_ids(github)) {
            (DatabaseModel { github_triggers: github, ..db }, Ok::<(), StoreError>(()))
        } else {
            (db, Err::<(), StoreError>(StoreError::DuplicateWebhookId))
        },
        db.sync_jira(jira).1 is Ok <==> all_distinct(jira_ids(jira)),
        db.sync_jira(jira) == if all_distinct(jira_ids(jira)) {
            (DatabaseModel { jira_triggers: jira, ..db }, Ok::<(), StoreError>(()))
        } else {
            (db, Err::<(), StoreError>(StoreError::DuplicateWebhookId))
        },
        db.sync_slack(slack).1 is Ok <==> all_distinct(slack_ids(slack)),
        db.sync_slack(slack) == if all_distinct(slack_ids(slack)) {
            (DatabaseModel { slack_triggers: slack, ..db }, Ok::<(), StoreError>(()))
        } else {
            (db, Err::<(), StoreError>(StoreError::DuplicateWebhookId))
        },
{
}

/// Syncing the same list twice leaves the store as syncing it once does.
pub proof fn lemma_sync_twice(
    db: DatabaseModel,
    github: Seq<GitHubTriggerModel>,
    jira: Seq<JiraTriggerModel>,
    slack: Seq<SlackTriggerModel>,
)
    ensures
        db.sync_github(github).0.sync_github(github) == db.sync_github(github),
        db.sync_jira(jira).0.sync_jira(jira) == db.sync_jira(jira),
        db.sync_slack(slack).0.sync_slack(slack) == db.sync_slack(slack),
{
}

/// A query for an owner and a repository gives the same rows however the
/// two are written in upper and lower case.
pub proof fn lemma_query_ignores_case(
    db: DatabaseModel,
    owner: Seq<char>,
    repository: Seq<char>,
    other_owner: Seq<char>,
    other_repository: Seq<char>,
)
    requires
        eq_ignoring_ascii_case(owner, other_owner),
        eq_ignoring_ascii_case(repository, other_repository),
    ensures
        db.github_rows(Some(owner), Some(repository)) == db.github_rows(
            Some(other_owner),
            Some(other_repository),
        ),
{
    lemma_rows_ignore_case(
        db.github_triggers,
        db.secrets,
        owner,
        repository,
        other_owner,
        other_repository,
    );
}

proof fn lemma_rows_ignore_case(
    triggers: Seq<GitHubTriggerModel>,
    secrets: Seq<WebhookSecretModel>,
    owner: Seq<char>,
    repository: Seq<char>,
    other_owner: Seq<char>,
    other_repository: Seq<char>,
)
    requires
        eq_ignoring_ascii_case(owner, other_owner),
        eq_ignoring_ascii_case(repository, other_repository),
    ensures
        github_rows_of(triggers, secrets, Some(owner), Some(repository)) == github_rows_of(
            triggers,
            secrets,
            Some(other_owner),
            Some(other_repository),
        ),
    decreases triggers.len(),
{
    if triggers.len() > 0 {
        lemma_rows_ignore_case(
            triggers.drop_last(),
            secrets,
            owner,
            repository,
            other_owner,
            other_repository,
        );
        let t = triggers.last();
        lemma_eq_ignoring_ascii_case(t.owner, owner, other_owner);
        lemma_eq_ignoring_ascii_case(t.owner, other_owner, owner);
        lemma_eq_ignoring_ascii_case(owner, other_owner, owner);
        lemma_eq_ignoring_ascii_case(t.repository, repository, other_repository);
        lemma_eq_ignoring_ascii_case(t.repository, other_repository, repository);
        lemma_eq_ignoring_ascii_case(repository, other_repository, repository);
    }
}

impl Database {
    #[verifier::type_invariant]
    spec fn consistent(self) -> bool {
        self@.well_formed()
    }

    /// A store with the secrets that were kept elsewhere and no trigger:
    /// see `DatabaseModel::restored`.
    pub fn restore(secrets: Vec<WebhookSecret>, last_secret_id: i64) -> (r: Result<
        Database,
        StoreError,
    >)
        ensures
            match r {
                Ok(db) => Ok(db@),
                Err(e) => Err(e),
            } == DatabaseModel::restored(secrets.deep_view(), last_secret_id),
            r is Ok ==> r->Ok_0@.well_formed(),
    {
        let ghost all = secrets.deep_view();
        let ghost model = DatabaseModel {
            secrets: all,
            last_secret_id,
            github_triggers: Seq::empty(),
            jira_triggers: Seq::empty(),
            slack_triggers: Seq::empty(),
        };
        if last_secret_id < 0 {
            return Err(StoreError::Inconsistent);
        }
        let mut i: usize = 0;
        while i < secrets.len()
            invariant
                i <= secrets.len(),
                all == secrets.deep_view(),
                forall|k: int| 0 <= k < i ==> 0 < (#[trigger] all[k]).id <= last_secret_id,
                forall|a: int, b: int|
                    0 <= a < b < i ==> (#[trigger] all[a]).id != (#[trigger] all[b]).id,
                forall|a: int, b: int|
                    0 <= a < b < i ==> (#[trigger] all[a]).webhook_id != (
                    #[trigger] all[b]).webhook_id,
            decreases secrets.len() - i,
        {
            assert(all[i as int] == secrets@[i as int]@);
            if secrets[i].id <= 0 || secrets[i].id > last_secret_id {
                return Err(StoreError::Inconsistent);
            }
            let mut j: usize = 0;
            while j < i
                invariant
                    j <= i,
                    i < secrets.len(),
                    all == secrets.deep_view(),
                    forall|k: int| 0 <= k < j ==> (#[trigger] all[k]).id != all[i as int].id,
                    forall|k: int|
                        0 <= k < j ==> (#[trigger] all[k]).webhook_id != all[i as int].webhook_id,
                decreases i - j,
            {
                assert(all[j as int] == secrets@[j as int]@);
                assert(all[i as int] == secrets@[i as int]@);
                if secrets[j].id == secrets[i].id {
                    return Err(StoreError::Inconsistent);
                }
                if str_eq(secrets[j].webhook_id.as_str(), secrets[i].webhook_id.as_str()) {
                    proof {
                        let ids = secret_ids(all);
                        assert(ids[j as int] == ids[i as int]);
                    }
                    return Err(StoreError::Inconsistent);
                }
                j += 1;
            }
            i += 1;
        }
        let db = Database {
            secrets,
            last_secret_id,
            github_triggers: Vec::new(),
            jira_triggers: Vec::new(),
            slack_triggers: Vec::new(),
        };
        proof {
            assert(db@.github_triggers =~= Seq::empty());
            assert(db@.jira_triggers =~= Seq::empty());
            assert(db@.slack_triggers =~= Seq::empty());
            let ids = secret_ids(all);
            assert forall|a: int, b: int| 0 <= a < b < ids.len() implies ids[a] != ids[b] by {
                assert(ids[a] == all[a].webhook_id && ids[b] == all[b].webhook_id);
            }
        }
        Ok(db)
    }

    /// The numeric identifier that was given out last; 0 at first.
    pub fn last_secret_id(&self) -> (r: i64)
        ensures
            r == self@.last_secret_id,
    {
        self.last_secret_id
    }

    /// The kept secrets, oldest first.
    pub fn secrets(&self) -> (r: Vec<WebhookSecret>)
        ensures
            r.deep_view() == self@.secrets,
    {
        let mut copy: Vec<WebhookSecret> = Vec::new();
        let mut i: usize = 0;
        while i < self.secrets.len()
            invariant
                i <= self.secrets.len(),
                copy.len() == i,
                forall|k: int| 0 <= k < i ==> (#[trigger] copy@[k])@ == self.secrets@[k]@,
            decreases self.secrets.len() - i,
        {
            copy.push(self.secrets[i].clone());
            i += 1;
        }
        assert(copy.deep_view() =~= self.secrets.deep_view());
        copy
    }

    /// The GitHub triggers as they were synced, in the order of the table.
    pub fn github_trigger_configs(&self) -> (r: Vec<GitHubTriggerConfig>)
        ensures
            r.deep_view() == self@.github_triggers,
    {
        let mut copy: Vec<GitHubTriggerConfig> = Vec::new();
        let mut i: usize = 0;
        while i < self.github_triggers.len()
            invariant
                i <= self.github_triggers.len(),
                copy.len() == i,
                forall|k: int| 0 <= k < i ==> (#[trigger] copy@[k])@ == self.github_triggers@[k]@,
            decreases self.github_triggers.len() - i,
        {
            copy.push(self.github_triggers[i].clone());
            i += 1;
        }
        assert(copy.deep_view() =~= self.github_triggers.deep_view());
        copy
    }

    /// The Jira triggers as they were synced, in the order of the table.
    pub fn jira_trigger_configs(&self) -> (r: Vec<JiraTriggerConfig>)
        ensures
            r.deep_view() == self@.jira_triggers,
    {
        let mut copy: Vec<JiraTriggerConfig> = Vec::new();
        let mut i: usize = 0;
        while i < self.jira_triggers.len()
            invariant
                i <= self.jira_triggers.len(),
                copy.len() == i,
                forall|k: int| 0 <= k < i ==> (#[trigger] copy@[k])@ == self.jira_triggers@[k]@,
            decreases self.jira_triggers.len() - i,
        {
            copy.push(self.jira_triggers[i].clone());
            i += 1;
        }
        assert(copy.deep_view() =~= self.jira_triggers.deep_view());
        copy
    }

    /// The Slack triggers as they were synced, in the order of the table.
    pub fn slack_trigger_configs(&self) -> (r: Vec<SlackTriggerConfig>)
        ensures
            r.deep_view() == self@.slack_triggers,
    {
        let mut copy: Vec<SlackTriggerConfig> = Vec::new();
        let mut i: usize = 0;
        while i < self.slack_triggers.len()
            invariant
                i <= self.slack_triggers.len(),
                copy.len() == i,
                forall|k: int| 0 <= k < i ==> (#[trigger] copy@[k])@ == self.slack_triggers@[k]@,
            decreases self.slack_triggers.len() - i,
        {
            copy.push(self.slack_triggers[i].clone());
            i += 1;
        }
        assert(copy.deep_view() =~= self.slack_triggers.deep_view());
        copy
    }

    /// A store with no secret and no trigger.
    pub fn new() -> (db: Database)
        ensures
            db@ == DatabaseModel::empty(),
            db@.well_formed(),
    {
        let db = Database {
            secrets: Vec::new(),
            last_secret_id: 0,
            github_triggers: Vec::new(),
            jira_triggers: Vec::new(),
            slack_triggers: Vec::new(),
        };
        assert(db@.secrets =~= Seq::empty());
        assert(db@.github_triggers =~= Seq::empty());
        assert(db@.jira_triggers =~= Seq::empty());
        assert(db@.slack_triggers =~= Seq::empty());
        db
    }

    fn add_secret(&mut self, webhook_id: &str, provider: &str, secret: &str) -> (r: Result<
        i64,
        StoreError,
    >)
        requires
            secret_position(old(self)@.secrets, webhook_id@) is None,
        ensures
            (final(self)@, r) == old(self)@.add_secret(webhook_id@, provider@, secret@),
            final(self)@.well_formed(),
    {
        proof {
            use_type_invariant(&*self);
            lemma_secret_position(self@.secrets, webhook_id@);
        }
        if self.last_secret_id == i64::MAX {
            return Err(StoreError::IdsExhausted);
        }
        let id = self.last_secret_id + 1;
        let row = WebhookSecret {
            id,
            webhook_id: String::from_str(webhook_id),
            provider: String::from_str(provider),
            secret: String::from_str(secret),
        };
        let ghost before = self@;
        let mut secrets: Vec<WebhookSecret> = Vec::new();
        assert(secret_ids(secrets.deep_view()) =~= Seq::<Seq<char>>::empty());
        core::mem::swap(&mut self.secrets, &mut secrets);
        secrets.push(row);
        self.last_secret_id = id;
        proof {
            assert(secrets.deep_view() =~= before.secrets.push(row@));
            let ids = secret_ids(secrets.deep_view());
            let ids_before = secret_ids(before.secrets);
            assert forall|i: int, j: int| 0 <= i < j < ids.len() implies ids[i] != ids[j] by {
                if j < ids_before.len() {
                    assert(ids[i] == ids_before[i] && ids[j] == ids_before[j]);
                } else {
                    assert(ids[i] == before.secrets[i].webhook_id);
                }
            }
        }
        self.secrets = secrets;
        Ok(id)
    }

    /// Keeps `secret` for `webhook_id`, whatever was kept before, and
    /// returns the numeric identifier of the row: the one it had, or a new
    /// one.
    pub fn upsert_webhook_secret(&mut self, webhook_id: &str, provider: &str, secret: &str) -> (r:
        Result<i64, StoreError>)
        ensures
            (final(self)@, r) == old(self)@.upsert_secret(webhook_id@, provider@, secret@),
            final(self)@.well_formed(),
    {
        proof {
            use_type_invariant(&*self);
        }
        match find_secret(&self.secrets, webhook_id) {
            Some(i) => {
                let id = self.secrets[i].id;
                let row = WebhookSecret {
                    id,
                    webhook_id: String::from_str(webhook_id),
                    provider: String::from_str(provider),
                    secret: String::from_str(secret),
                };
                let ghost before = self@;
                proof {
                    lemma_secret_position(before.secrets, webhook_id@);
                }
                let mut secrets: Vec<WebhookSecret> = Vec::new();
                assert(secret_ids(secrets.deep_view()) =~= Seq::<Seq<char>>::empty());
                core::mem::swap(&mut self.secrets, &mut secrets);
                secrets.set(i, row);
                proof {
                    assert(secrets.deep_view() =~= before.secrets.update(i as int, row@));
                    assert(secret_ids(secrets.deep_view()) =~= secret_ids(before.secrets));
                }
                self.secrets = secrets;
                Ok(id)
            },
            None => self.add_secret(webhook_id, provider, secret),
        }
    }

    /// Keeps `secret` for `webhook_id` only where nothing is kept for it yet.
    pub fn upsert_webhook_secret_fallback(
        &mut self,
        webhook_id: &str,
        provider: &str,
        secret: &str,
    ) -> (r: Result<(), StoreError>)
        ensures
            (final(self)@, r) == old(self)@.insert_secret_if_absent(
                webhook_id@,
                provider@,
                secret@,
            ),
            final(self)@.well_formed(),
    {
        proof {
            use_type_invariant(&*self);
        }
        match find_secret(&self.secrets, webhook_id) {
            Some(_) => Ok(()),
            None => match self.add_secret(webhook_id, provider, secret) {
                Ok(_) => Ok(()),
                Err(e) => Err(e),
            },
        }
    }

    /// Forgets the secret with the numeric identifier `id` and tells
    /// whether there was one.
    pub fn delete_webhook_secret_by_id(&mut self, id: i64) -> (r: Result<bool, StoreError>)
        ensures
            r is Ok,
            (final(self)@, r->Ok_0) == old(self)@.delete_secret(id),
            final(self)@.well_formed(),
    {
        proof {
            use_type_invariant(&*self);
        }
        match find_secret_by_id(&self.secrets, id) {
            Some(i) => {
                let ghost before = self@;
                let mut secrets: Vec<WebhookSecret> = Vec::new();
                assert(secret_ids(secrets.deep_view()) =~= Seq::<Seq<char>>::empty());
                core::mem::swap(&mut self.secrets, &mut secrets);
                secrets.remove(i);
                proof {
                    let after = secrets.deep_view();
                    assert(after =~= before.secrets.remove(i as int));
                    let ids = secret_ids(after);
                    let ids_before = secret_ids(before.secrets);
                    assert forall|a: int, b: int| 0 <= a < b < ids.len() implies ids[a]
                        != ids[b] by {
                        let a0 = if a < i { a } else { a + 1 };
                        let b0 = if b < i { b } else { b + 1 };
                        assert(ids[a] == ids_before[a0] && ids[b] == ids_before[b0]);
                    }
                    assert forall|a: int, b: int| 0 <= a < b < after.len() implies (
                    #[trigger] after[a]).id != (#[trigger] after[b]).id by {
                        let a0 = if a < i { a } else { a + 1 };
                        let b0 = if b < i { b } else { b + 1 };
                        assert(after[a] == before.secrets[a0]);
                        assert(after[b] == before.secrets[b0]);
                    }
                    assert forall|a: int| 0 <= a < after.len() implies 0 < (#[trigger] after[a]).id
                        <= before.last_secret_id by {
                        let a0 = if a < i { a } else { a + 1 };
                        assert(after[a] == before.secrets[a0]);
                    }
                }
                self.secrets = secrets;
                Ok(true)
            },
            None => Ok(false),
        }
    }

    /// Tells a caller what every store keeps to: the rules of
    /// `DatabaseModel::well_formed`.
    pub fn well_formed(&self)
        ensures
            self@.well_formed(),
    {
        proof {
            use_type_invariant(self);
        }
    }

    /// The secret kept for `webhook_id`, if any.
    pub fn get_webhook_secret(&self, webhook_id: &str) -> (r: Result<Option<String>, StoreError>)
        ensures
            r is Ok,
            r->Ok_0.deep_view() == secret_for(self@.secrets, webhook_id@),
    {
        match find_secret(&self.secrets, webhook_id) {
            Some(i) => {
                assert(self.secrets.deep_view()[i as int] == self.secrets@[i as int]@);
                Ok(Some(self.secrets[i].secret.clone()))
            },
            None => Ok(None),
        }
    }
    /// Replaces the GitHub triggers by `triggers`, all or nothing: a list
    /// that names a webhook identifier twice is refused and leaves the table
    /// as it was.
    pub fn sync_github_triggers(&mut self, triggers: &[GitHubTriggerConfig]) -> (r: Result<
        (),
        StoreError,
    >)
        ensures
            (final(self)@, r) == old(self)@.sync_github(triggers.deep_view()),
            final(self)@.well_formed(),
    {
        proof {
            use_type_invariant(&*self);
        }
        let mut copy: Vec<GitHubTriggerConfig> = Vec::new();
        let mut i: usize = 0;
        while i < triggers.len()
            invariant
                i <= triggers.len(),
                copy.len() == i,
                forall|k: int| 0 <= k < i ==> (#[trigger] copy@[k])@ == triggers@[k]@,
                all_distinct(github_ids(triggers.deep_view().take(i as int))),
                self@.well_formed(),
            decreases triggers.len() - i,
        {
            let ghost all = triggers.deep_view();
            let mut j: usize = 0;
            while j < i
                invariant
                    j <= i,
                    i < triggers.len(),
                    all == triggers.deep_view(),
                    self@.well_formed(),
                    forall|k: int| 0 <= k < j ==> all[k].webhook_id != all[i as int].webhook_id,
                decreases i - j,
            {
                if str_eq(triggers[j].webhook_id.as_str(), triggers[i].webhook_id.as_str()) {
                    proof {
                        let ids = github_ids(all);
                        assert(ids[j as int] == ids[i as int]);
                    }
                    return Err(StoreError::DuplicateWebhookId);
                }
                j += 1;
            }
            proof {
                let ids = github_ids(all.take(i + 1));
                let ids_before = github_ids(all.take(i as int));
                assert forall|a: int, b: int| 0 <= a < b < ids.len() implies ids[a] != ids[b] by {
                    if b < i {
                        assert(ids[a] == ids_before[a] && ids[b] == ids_before[b]);
                    } else {
                        assert(ids[a] == all[a].webhook_id);
                    }
                }
            }
            copy.push(triggers[i].clone());
            i += 1;
        }
        proof {
            assert(triggers.deep_view().take(i as int) =~= triggers.deep_view());
            assert(copy.deep_view() =~= triggers.deep_view());
        }
        self.github_triggers = copy;
        Ok(())
    }

    /// The GitHub triggers that a delivery for `owner` and `repository`
    /// concerns, each with the secret captured for it: see `github_selected`.
    pub fn query_github_triggers(&self, owner: Option<&str>, repository: Option<&str>) -> (r:
        Result<Vec<GitHubTriggerRow>, StoreError>)
        ensures
            r is Ok,
            r->Ok_0.deep_view() == self@.github_rows(owner.deep_view(), repository.deep_view()),
    {
        let mut rows: Vec<GitHubTriggerRow> = Vec::new();
        let ghost all = self.github_triggers.deep_view();
        let ghost secrets = self.secrets.deep_view();
        let ghost o = owner.deep_view();
        let ghost p = repository.deep_view();
        let mut i: usize = 0;
        assert(rows.deep_view() =~= github_rows_of(all.take(0), secrets, o, p));
        while i < self.github_triggers.len()
            invariant
                i <= self.github_triggers.len(),
                all == self.github_triggers.deep_view(),
                secrets == self.secrets.deep_view(),
                o == owner.deep_view(),
                p == repository.deep_view(),
                rows.deep_view() == github_rows_of(all.take(i as int), secrets, o, p),
            decreases self.github_triggers.len() - i,
        {
            let t = &self.github_triggers[i];
            proof {
                let prefix = all.take(i + 1);
                assert(prefix.last() == t@);
                assert(prefix.drop_last() =~= all.take(i as int));
            }
            let selected = match (owner, repository) {
                (Some(x), Some(y)) => eq_ignore_ascii_case(t.owner.as_str(), x)
                    && eq_ignore_ascii_case(t.repository.as_str(), y),
                _ => t.owner.as_str().is_empty() && t.repository.as_str().is_empty(),
            };
            if selected {
                let secret = match find_secret(&self.secrets, t.webhook_id.as_str()) {
                    Some(k) => {
                        assert(secrets[k as int] == self.secrets@[k as int]@);
                        Some(self.secrets[k].secret.clone())
                    },
                    None => None,
                };
                let events = t.events.clone();
                assert(events.deep_view() =~= t.events.deep_view());
                let row = GitHubTriggerRow {
                    webhook_id: t.webhook_id.clone(),
                    workflow_name: t.workflow_name.clone(),
                    workflow_active: t.workflow_active,
                    events,
                    secret,
                };
                let ghost before = rows.deep_view();
                rows.push(row);
                assert(rows.deep_view() =~= before.push(row@));
            }
            i += 1;
        }
        assert(all.take(i as int) =~= all);
        Ok(rows)
    }

    /// How many GitHub triggers the store holds.
    pub fn count_github_triggers(&self) -> (r: Result<usize, StoreError>)
        ensures
            r is Ok,
            r->Ok_0 == self@.github_triggers.len(),
    {
        Ok(self.github_triggers.len())
    }

    /// Replaces the Jira triggers by `triggers`, all or nothing: a list that
    /// names a webhook identifier twice is refused and leaves the table as
    /// it was.
    pub fn sync_jira_triggers(&mut self, triggers: &[JiraTriggerConfig]) -> (r: Result<
        (),
        StoreError,
    >)
        ensures
            (final(self)@, r) == old(self)@.sync_jira(triggers.deep_view()),
            final(self)@.well_formed(),
    {
        proof {
            use_type_invariant(&*self);
        }
        let mut copy: Vec<JiraTriggerConfig> = Vec::new();
        let mut i: usize = 0;
        while i < triggers.len()
            invariant
                i <= triggers.len(),
                copy.len() == i,
                forall|k: int| 0 <= k < i ==> (#[trigger] copy@[k])@ == triggers@[k]@,
                all_distinct(jira_ids(triggers.deep_view().take(i as int))),
                self@.well_formed(),
            decreases triggers.len() - i,
        {
            let ghost all = triggers.deep_view();
            let mut j: usize = 0;
            while j < i
                invariant
                    j <= i,
                    i < triggers.len(),
                    all == triggers.deep_view(),
                    self@.well_formed(),
                    forall|k: int| 0 <= k < j ==> all[k].webhook_id != all[i as int].webhook_id,
                decreases i - j,
            {
                if str_eq(triggers[j].webhook_id.as_str(), triggers[i].webhook_id.as_str()) {
                    proof {
                        let ids = jira_ids(all);
                        assert(ids[j as int] == ids[i as int]);
                    }
                    return Err(StoreError::DuplicateWebhookId);
                }
                j += 1;
            }
            proof {
                let ids = jira_ids(all.take(i + 1));
                let ids_before = jira_ids(all.take(i as int));
                assert forall|a: int, b: int| 0 <= a < b < ids.len() implies ids[a] != ids[b] by {
                    if b < i {
                        assert(ids[a] == ids_before[a] && ids[b] == ids_before[b]);
                    } else {
                        assert(ids[a] == all[a].webhook_id);
                    }
                }
            }
            copy.push(triggers[i].clone());
            i += 1;
        }
        proof {
            assert(triggers.deep_view().take(i as int) =~= triggers.deep_view());
            assert(copy.deep_view() =~= triggers.deep_view());
        }
        self.jira_triggers = copy;
        Ok(())
    }

    /// All Jira triggers, in the order of the table.
    pub fn query_jira_triggers(&self) -> (r: Result<Vec<JiraTriggerRow>, StoreError>)
        ensures
            r is Ok,
            r->Ok_0.deep_view() == self@.jira_rows(),
    {
        let mut rows: Vec<JiraTriggerRow> = Vec::new();
        let mut i: usize = 0;
        while i < self.jira_triggers.len()
            invariant
                i <= self.jira_triggers.len(),
                rows.len() == i,
                forall|k: int|
                    0 <= k < i ==> (#[trigger] rows@[k])@ == jira_row_of(self.jira_triggers@[k]@),
            decreases self.jira_triggers.len() - i,
        {
            let t = &self.jira_triggers[i];
            let events = t.events.clone();
            assert(events.deep_view() =~= t.events.deep_view());
            rows.push(
                JiraTriggerRow {
                    webhook_id: t.webhook_id.clone(),
                    workflow_name: t.workflow_name.clone(),
                    workflow_active: t.workflow_active,
                    events,
                },
            );
            i += 1;
        }
        assert(rows.deep_view() =~= self@.jira_rows());
        Ok(rows)
    }

    /// How many Jira triggers the store holds.
    pub fn count_jira_triggers(&self) -> (r: Result<usize, StoreError>)
        ensures
            r is Ok,
            r->Ok_0 == self@.jira_triggers.len(),
    {
        Ok(self.jira_triggers.len())
    }

    /// Replaces the Slack triggers by `triggers`, all or nothing: a list
    /// that names a webhook identifier twice is refused and leaves the table
    /// as it was.
    pub fn sync_slack_triggers(&mut self, triggers: &[SlackTriggerConfig]) -> (r: Result<
        (),
        StoreError,
    >)
        ensures
            (final(self)@, r) == old(self)@.sync_slack(triggers.deep_view()),
            final(self)@.well_formed(),
    {
        proof {
            use_type_invariant(&*self);
        }
        let mut copy: Vec<SlackTriggerConfig> = Vec::new();
        let mut i: usize = 0;
        while i < triggers.len()
            invariant
                i <= triggers.len(),
                copy.len() == i,
                forall|k: int| 0 <= k < i ==> (#[trigger] copy@[k])@ == triggers@[k]@,
                all_distinct(slack_ids(triggers.deep_view().take(i as int))),
                self@.well_formed(),
            decreases triggers.len() - i,
        {
            let ghost all = triggers.deep_view();
            let mut j: usize = 0;
            while j < i
                invariant
                    j <= i,
                    i < triggers.len(),
                    all == triggers.deep_view(),
                    self@.well_formed(),
                    forall|k: int| 0 <= k < j ==> all[k].webhook_id != all[i as int].webhook_id,
                decreases i - j,
            {
                if str_eq(triggers[j].webhook_id.as_str(), triggers[i].webhook_id.as_str()) {
                    proof {
                        let ids = slack_ids(all);
                        assert(ids[j as int] == ids[i as int]);
                    }
                    return Err(StoreError::DuplicateWebhookId);
                }
                j += 1;
            }
            proof {
                let ids = slack_ids(all.take(i + 1));
                let ids_before = slack_ids(all.take(i as int));
                assert forall|a: int, b: int| 0 <= a < b < ids.len() implies ids[a] != ids[b] by {
                    if b < i {
                        assert(ids[a] == ids_before[a] && ids[b] == ids_before[b]);
                    } else {
                        assert(ids[a] == all[a].webhook_id);
                    }
                }
            }
            copy.push(triggers[i].clone());
            i += 1;
        }
        proof {
            assert(triggers.deep_view().take(i as int) =~= triggers.deep_view());
            assert(copy.deep_view() =~= triggers.deep_view());
        }
        self.slack_triggers = copy;
        Ok(())
    }

    /// All Slack triggers, in the order of the table.
    pub fn query_slack_triggers(&self) -> (r: Result<Vec<SlackTriggerRow>, StoreError>)
        ensures
            r is Ok,
            r->Ok_0.deep_view() == self@.slack_rows(),
    {
        let mut rows: Vec<SlackTriggerRow> = Vec::new();
        let mut i: usize = 0;
        while i < self.slack_triggers.len()
            invariant
                i <= self.slack_triggers.len(),
                rows.len() == i,
                forall|k: int|
                    0 <= k < i ==> (#[trigger] rows@[k])@ == slack_row_of(
                        self.slack_triggers@[k]@,
                    ),
            decreases self.slack_triggers.len() - i,
        {
            let t = &self.slack_triggers[i];
            let channels = t.channels.clone();
            assert(channels.deep_view() =~= t.channels.deep_view());
            rows.push(
                SlackTriggerRow {
                    webhook_id: t.webhook_id.clone(),
                    workflow_name: t.workflow_name.clone(),
                    workflow_active: t.workflow_active,
                    event_type: t.event_type.clone(),
                    channels,
                    watch_whole_workspace: t.watch_whole_workspace,
                },
            );
            i += 1;
        }
        assert(rows.deep_view() =~= self@.slack_rows());
        Ok(rows)
    }

    /// How many Slack triggers the store holds.
    pub fn count_slack_triggers(&self) -> (r: Result<usize, StoreError>)
        ensures
            r is Ok,
            r->Ok_0 == self@.slack_triggers.len(),
    {
        Ok(self.slack_triggers.len())
    }
}

} // verus!
