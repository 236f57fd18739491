//! The local store: its tables, and the statements that touch all of them.
pub mod change_laws;
pub mod chat;
pub mod documents;
pub mod listing_laws;
pub mod notifications;
pub mod record_laws;
pub mod removal_laws;
pub mod things_log;
pub mod triggers;

use crate::rows::{
    ActionDefinition, ActionInvocationRecord, ActorMetaEntry, AgentVersion, ChatMessage,
    ChatRuntimeState, ChatSession, CrdtDocumentRow, DatasetMember, EvalDataset, EvalDatasetRun,
    EvalDatasetRunEval, InternalKv, LocationCacheEntry, NotificationEntry, Preference,
    PreferenceSyncState, RunItem, StoredEvent, StoredTrigger, ThingsChangeLogEntry,
    ThingsContentSnapshot, ThingsState, TriggerBinding, TriggerLogEntry,
};
use crate::table::{
    any_data, count_unowned, group_keyed, keyed, law_claim_leaves_no_orphan, numbered,
    rows_claimed, Table,
};
use crate::text::{owned, same};
use vstd::prelude::*;

verus! {

/// The tables of the store.
pub struct Storage {
    pub db_path: String,
    pub triggers: Table<StoredTrigger>,
    pub actions: Table<ActionDefinition>,
    pub action_invocations: Table<ActionInvocationRecord>,
    pub events: Table<StoredEvent>,
    pub preferences: Table<Preference>,
    pub preference_sync_state: Table<PreferenceSyncState>,
    pub things_state: Table<ThingsState>,
    pub trigger_logs: Table<TriggerLogEntry>,
    pub trigger_bindings: Table<TriggerBinding>,
    pub chat_sessions: Table<ChatSession>,
    pub internal_kv: Table<InternalKv>,
    pub chat_messages: Table<ChatMessage>,
    pub chat_runtime_state: Table<ChatRuntimeState>,
    pub agent_versions: Table<AgentVersion>,
    pub eval_datasets: Table<EvalDataset>,
    pub eval_dataset_sessions: Table<DatasetMember>,
    pub eval_dataset_runs: Table<EvalDatasetRun>,
    pub eval_dataset_run_items: Table<RunItem>,
    pub eval_dataset_run_evals: Table<EvalDatasetRunEval>,
    pub things_change_log: Table<ThingsChangeLogEntry>,
    pub things_content_snapshots: Table<ThingsContentSnapshot>,
    pub location_cache: Table<LocationCacheEntry>,
    pub crdt_documents: Table<CrdtDocumentRow>,
    pub notifications: Table<NotificationEntry>,
    pub things_actor_meta: Table<ActorMetaEntry>,
}

/// How many rows the tables hold whose rows have owners.
pub open spec fn claimable_rows(s: Storage) -> nat {
    s.triggers.rows@.len() + s.actions.rows@.len() + s.action_invocations.rows@.len()
        + s.events.rows@.len() + s.preferences.rows@.len()
        + s.things_state.rows@.len() + s.trigger_logs.rows@.len() + s.trigger_bindings.rows@.len()
        + s.chat_sessions.rows@.len() + s.chat_messages.rows@.len() + s.agent_versions.rows@.len()
        + s.eval_datasets.rows@.len() + s.eval_dataset_sessions.rows@.len()
        + s.eval_dataset_runs.rows@.len() + s.eval_dataset_run_items.rows@.len()
        + s.eval_dataset_run_evals.rows@.len() + s.things_change_log.rows@.len()
        + s.things_content_snapshots.rows@.len() + s.crdt_documents.rows@.len()
        + s.internal_kv.rows@.len() + s.notifications.rows@.len()
}

/// How many rows of these tables nobody owns.
pub open spec fn unowned_rows(s: Storage) -> nat {
    count_unowned(s.triggers.rows@)
        + count_unowned(s.actions.rows@)
        + count_unowned(s.action_invocations.rows@)
        + count_unowned(s.events.rows@)
        + count_unowned(s.preferences.rows@)
        + count_unowned(s.things_state.rows@)
        + count_unowned(s.trigger_logs.rows@)
        + count_unowned(s.trigger_bindings.rows@)
        + count_unowned(s.chat_sessions.rows@)
        + count_unowned(s.chat_messages.rows@)
        + count_unowned(s.agent_versions.rows@)
        + count_unowned(s.eval_datasets.rows@)
        + count_unowned(s.eval_dataset_sessions.rows@)
        + count_unowned(s.eval_dataset_runs.rows@)
        + count_unowned(s.eval_dataset_run_items.rows@)
        + count_unowned(s.eval_dataset_run_evals.rows@)
        + count_unowned(s.things_change_log.rows@)
        + count_unowned(s.things_content_snapshots.rows@)
        + count_unowned(s.crdt_documents.rows@)
        + count_unowned(s.internal_kv.rows@)
        + count_unowned(s.notifications.rows@)
}

/// Whether a table is another one after its unowned rows went to a user.
pub open spec fn table_claimed<T>(old: Table<T>, new: Table<T>, user_id: String) -> bool {
    new.rows@ == rows_claimed(old.rows@, user_id) && new.next_id == old.next_id
}

/// Whether a store is another one after its unowned rows went to a user.
pub open spec fn claimed_by(old: Storage, new: Storage, user_id: String) -> bool {
    &&& table_claimed(old.triggers, new.triggers, user_id)
    &&& table_claimed(old.actions, new.actions, user_id)
    &&& table_claimed(old.action_invocations, new.action_invocations, user_id)
    &&& table_claimed(old.events, new.events, user_id)
    &&& table_claimed(old.preferences, new.preferences, user_id)
    &&& table_claimed(old.things_state, new.things_state, user_id)
    &&& table_claimed(old.trigger_logs, new.trigger_logs, user_id)
    &&& table_claimed(old.trigger_bindings, new.trigger_bindings, user_id)
    &&& table_claimed(old.chat_sessions, new.chat_sessions, user_id)
    &&& table_claimed(old.internal_kv, new.internal_kv, user_id)
    &&& table_claimed(old.chat_messages, new.chat_messages, user_id)
    &&& table_claimed(old.agent_versions, new.agent_versions, user_id)
    &&& table_claimed(old.eval_datasets, new.eval_datasets, user_id)
    &&& table_claimed(old.eval_dataset_sessions, new.eval_dataset_sessions, user_id)
    &&& table_claimed(old.eval_dataset_runs, new.eval_dataset_runs, user_id)
    &&& table_claimed(old.eval_dataset_run_items, new.eval_dataset_run_items, user_id)
    &&& table_claimed(old.eval_dataset_run_evals, new.eval_dataset_run_evals, user_id)
    &&& table_claimed(old.things_change_log, new.things_change_log, user_id)
    &&& table_claimed(old.things_content_snapshots, new.things_content_snapshots, user_id)
    &&& table_claimed(old.crdt_documents, new.crdt_documents, user_id)
    &&& table_claimed(old.notifications, new.notifications, user_id)
    &&& new.db_path == old.db_path
    &&& new.preference_sync_state == old.preference_sync_state
    &&& new.chat_runtime_state == old.chat_runtime_state
    &&& new.location_cache == old.location_cache
    &&& new.things_actor_meta == old.things_actor_meta
}

/// Whether a table is another one after all its rows were removed: automatic ids go on from
/// where they were.
pub open spec fn table_wiped<T>(old: Table<T>, new: Table<T>) -> bool {
    new.rows@.len() == 0 && new.next_id == old.next_id
}

/// Whether a store is another one after all its rows were removed.
pub open spec fn wiped(old: Storage, new: Storage) -> bool {
    &&& table_wiped(old.triggers, new.triggers)
    &&& table_wiped(old.actions, new.actions)
    &&& table_wiped(old.action_invocations, new.action_invocations)
    &&& table_wiped(old.events, new.events)
    &&& table_wiped(old.preferences, new.preferences)
    &&& table_wiped(old.preference_sync_state, new.preference_sync_state)
    &&& table_wiped(old.things_state, new.things_state)
    &&& table_wiped(old.trigger_logs, new.trigger_logs)
    &&& table_wiped(old.trigger_bindings, new.trigger_bindings)
    &&& table_wiped(old.chat_sessions, new.chat_sessions)
    &&& table_wiped(old.internal_kv, new.internal_kv)
    &&& table_wiped(old.chat_messages, new.chat_messages)
    &&& table_wiped(old.chat_runtime_state, new.chat_runtime_state)
    &&& table_wiped(old.agent_versions, new.agent_versions)
    &&& table_wiped(old.eval_datasets, new.eval_datasets)
    &&& table_wiped(old.eval_dataset_sessions, new.eval_dataset_sessions)
    &&& table_wiped(old.eval_dataset_runs, new.eval_dataset_runs)
    &&& table_wiped(old.eval_dataset_run_items, new.eval_dataset_run_items)
    &&& table_wiped(old.eval_dataset_run_evals, new.eval_dataset_run_evals)
    &&& table_wiped(old.things_change_log, new.things_change_log)
    &&& table_wiped(old.things_content_snapshots, new.things_content_snapshots)
    &&& table_wiped(old.location_cache, new.location_cache)
    &&& table_wiped(old.crdt_documents, new.crdt_documents)
    &&& table_wiped(old.notifications, new.notifications)
    &&& table_wiped(old.things_actor_meta, new.things_actor_meta)
    &&& new.db_path == old.db_path
}

/// Once a user claimed the rows that nobody owned there are none left to claim, and rows that
/// had an owner keep it.
pub proof fn law_claimed_once(old: Storage, new: Storage, user_id: String)
    requires
        claimed_by(old, new, user_id),
    ensures
        unowned_rows(new) == 0,
        claimable_rows(new) == claimable_rows(old),
{
    law_claim_leaves_no_orphan(old.triggers.rows@, user_id);
    law_claim_leaves_no_orphan(old.actions.rows@, user_id);
    law_claim_leaves_no_orphan(old.action_invocations.rows@, user_id);
    law_claim_leaves_no_orphan(old.events.rows@, user_id);
    law_claim_leaves_no_orphan(old.preferences.rows@, user_id);
    law_claim_leaves_no_orphan(old.things_state.rows@, user_id);
    law_claim_leaves_no_orphan(old.trigger_logs.rows@, user_id);
    law_claim_leaves_no_orphan(old.trigger_bindings.rows@, user_id);
    law_claim_leaves_no_orphan(old.chat_sessions.rows@, user_id);
    law_claim_leaves_no_orphan(old.internal_kv.rows@, user_id);
    law_claim_leaves_no_orphan(old.chat_messages.rows@, user_id);
    law_claim_leaves_no_orphan(old.agent_versions.rows@, user_id);
    law_claim_leaves_no_orphan(old.eval_datasets.rows@, user_id);
    law_claim_leaves_no_orphan(old.eval_dataset_sessions.rows@, user_id);
    law_claim_leaves_no_orphan(old.eval_dataset_runs.rows@, user_id);
    law_claim_leaves_no_orphan(old.eval_dataset_run_items.rows@, user_id);
    law_claim_leaves_no_orphan(old.eval_dataset_run_evals.rows@, user_id);
    law_claim_leaves_no_orphan(old.things_change_log.rows@, user_id);
    law_claim_leaves_no_orphan(old.things_content_snapshots.rows@, user_id);
    law_claim_leaves_no_orphan(old.crdt_documents.rows@, user_id);
    law_claim_leaves_no_orphan(old.notifications.rows@, user_id);
}

/// The conversations with an id.
pub open spec fn has_session_id(id: Seq<char>) -> spec_fn(ChatSession) -> bool {
    |s: ChatSession| s.session_id@ == id
}

pub open spec fn trigger_key() -> spec_fn(StoredTrigger) -> Seq<char> {
    |r: StoredTrigger| r.trigger_uuid@
}

pub open spec fn action_key() -> spec_fn(ActionDefinition) -> Seq<char> {
    |r: ActionDefinition| r.action_uuid@
}

pub open spec fn invocation_key() -> spec_fn(ActionInvocationRecord) -> Seq<char> {
    |r: ActionInvocationRecord| r.invocation_uuid@
}

pub open spec fn preference_key() -> spec_fn(Preference) -> Seq<char> {
    |r: Preference| r.key@
}

/// The table holds one row at most: all of them have the same key.
pub open spec fn sync_state_key() -> spec_fn(PreferenceSyncState) -> () {
    |r: PreferenceSyncState| ()
}

/// The table holds one row at most: all of them have the same key.
pub open spec fn things_state_key() -> spec_fn(ThingsState) -> () {
    |r: ThingsState| ()
}

pub open spec fn binding_key() -> spec_fn(TriggerBinding) -> (Seq<char>, Seq<char>) {
    |r: TriggerBinding| (r.entity_type@, r.entity_uuid@)
}

pub open spec fn session_key() -> spec_fn(ChatSession) -> Seq<char> {
    |r: ChatSession| r.session_id@
}

pub open spec fn kv_key() -> spec_fn(InternalKv) -> Seq<char> {
    |r: InternalKv| r.key@
}

pub open spec fn message_key() -> spec_fn(ChatMessage) -> (Seq<char>, Seq<char>) {
    |r: ChatMessage| (r.session_id@, r.message_id@)
}

pub open spec fn runtime_state_key() -> spec_fn(ChatRuntimeState) -> Seq<char> {
    |r: ChatRuntimeState| r.session_id@
}

pub open spec fn version_key() -> spec_fn(AgentVersion) -> Seq<char> {
    |r: AgentVersion| r.version_id@
}

pub open spec fn dataset_key() -> spec_fn(EvalDataset) -> Seq<char> {
    |r: EvalDataset| r.dataset_id@
}

pub open spec fn member_key() -> spec_fn(DatasetMember) -> (Seq<char>, Seq<char>) {
    |r: DatasetMember| (r.dataset_id@, r.session_id@)
}

pub open spec fn run_key() -> spec_fn(EvalDatasetRun) -> Seq<char> {
    |r: EvalDatasetRun| r.run_id@
}

pub open spec fn run_item_key() -> spec_fn(RunItem) -> (Seq<char>, Seq<char>) {
    |r: RunItem| (r.run_id@, r.session_id@)
}

pub open spec fn run_eval_key() -> spec_fn(EvalDatasetRunEval) -> (Seq<char>, Seq<char>) {
    |r: EvalDatasetRunEval| (r.run_id@, r.session_id@)
}

pub open spec fn place_key() -> spec_fn(LocationCacheEntry) -> Seq<char> {
    |r: LocationCacheEntry| r.name@
}

pub open spec fn document_key() -> spec_fn(CrdtDocumentRow) -> (Seq<char>, Seq<char>) {
    |r: CrdtDocumentRow| (r.uuid@, r.data_type@)
}

pub open spec fn actor_key() -> spec_fn(ActorMetaEntry) -> Seq<char> {
    |r: ActorMetaEntry| r.uuid@
}

pub open spec fn log_id() -> spec_fn(ThingsChangeLogEntry) -> i64 {
    |r: ThingsChangeLogEntry| r.id
}

pub open spec fn snapshot_id() -> spec_fn(ThingsContentSnapshot) -> i64 {
    |r: ThingsContentSnapshot| r.id
}

pub open spec fn notification_id() -> spec_fn(NotificationEntry) -> i64 {
    |r: NotificationEntry| r.id
}

impl Storage {
    /// Whether no table holds a key twice, and automatic ids go on from the last one.
    pub open spec fn well_formed(self) -> bool {
        &&& keyed(self.triggers.rows@, trigger_key())
        &&& keyed(self.actions.rows@, action_key())
        &&& keyed(self.action_invocations.rows@, invocation_key())
        &&& keyed(self.preferences.rows@, preference_key())
        &&& keyed(self.preference_sync_state.rows@, sync_state_key())
        &&& keyed(self.things_state.rows@, things_state_key())
        &&& keyed(self.trigger_bindings.rows@, binding_key())
        &&& keyed(self.chat_sessions.rows@, session_key())
        &&& keyed(self.internal_kv.rows@, kv_key())
        &&& keyed(self.chat_messages.rows@, message_key())
        &&& keyed(self.chat_runtime_state.rows@, runtime_state_key())
        &&& keyed(self.agent_versions.rows@, version_key())
        &&& keyed(self.eval_datasets.rows@, dataset_key())
        &&& keyed(self.eval_dataset_sessions.rows@, member_key())
        &&& keyed(self.eval_dataset_runs.rows@, run_key())
        &&& keyed(self.eval_dataset_run_items.rows@, run_item_key())
        &&& keyed(self.eval_dataset_run_evals.rows@, run_eval_key())
        &&& keyed(self.location_cache.rows@, place_key())
        &&& keyed(self.crdt_documents.rows@, document_key())
        &&& keyed(self.things_actor_meta.rows@, actor_key())
        &&& numbered(
            self.things_change_log.rows@,
            log_id(),
            self.things_change_log.next_id,
        )
        &&& numbered(
            self.things_content_snapshots.rows@,
            snapshot_id(),
            self.things_content_snapshots.next_id,
        )
        &&& numbered(self.notifications.rows@, notification_id(), self.notifications.next_id)
    }

    /// An empty store.
    pub fn new(path: &str) -> (s: Self)
        ensures
            s.db_path@ == path@,
            claimable_rows(s) == 0,
            s.preference_sync_state.rows@.len() == 0,
            s.chat_runtime_state.rows@.len() == 0,
            s.location_cache.rows@.len() == 0,
            s.things_actor_meta.rows@.len() == 0,
            s.things_change_log.next_id == 1,
            s.things_content_snapshots.next_id == 1,
            s.notifications.next_id == 1,
            s.location_cache.next_id == 1,
            s.well_formed(),
    {
        broadcast use group_keyed;

        Storage {
            db_path: owned(path),
            triggers: Table::new(),
            actions: Table::new(),
            action_invocations: Table::new(),
            events: Table::new(),
            preferences: Table::new(),
            preference_sync_state: Table::new(),
            things_state: Table::new(),
            trigger_logs: Table::new(),
            trigger_bindings: Table::new(),
            chat_sessions: Table::new(),
            internal_kv: Table::new(),
            chat_messages: Table::new(),
            chat_runtime_state: Table::new(),
            agent_versions: Table::new(),
            eval_datasets: Table::new(),
            eval_dataset_sessions: Table::new(),
            eval_dataset_runs: Table::new(),
            eval_dataset_run_items: Table::new(),
            eval_dataset_run_evals: Table::new(),
            things_change_log: Table::new(),
            things_content_snapshots: Table::new(),
            location_cache: Table::new(),
            crdt_documents: Table::new(),
            notifications: Table::new(),
            things_actor_meta: Table::new(),
        }
    }

    /// Where the store is kept.
    pub fn db_path(&self) -> (path: &str)
        ensures
            path@ == self.db_path@,
    {
        self.db_path.as_str()
    }

    /// Gives every row that was written while nobody was signed in to a user, and counts
    /// them.
    pub fn claim_anonymous_data(&mut self, user_id: &str) -> (claimed: usize)
        requires
            claimable_rows(*old(self)) <= usize::MAX,
        ensures
            claimed == unowned_rows(*old(self)),
            exists|id: String| id@ == user_id@ && #[trigger] claimed_by(
                *old(self),
                *final(self),
                id,
            ),
            old(self).well_formed() ==> final(self).well_formed(),
    {
        broadcast use group_keyed;

        let id = owned(user_id);
        let mut total: usize = self.triggers.claim(&id);
        total = total + self.actions.claim(&id);
        total = total + self.action_invocations.claim(&id);
        total = total + self.events.claim(&id);
        total = total + self.preferences.claim(&id);
        total = total + self.things_state.claim(&id);
        total = total + self.trigger_logs.claim(&id);
        total = total + self.trigger_bindings.claim(&id);
        total = total + self.chat_sessions.claim(&id);
        total = total + self.chat_messages.claim(&id);
        total = total + self.agent_versions.claim(&id);
        total = total + self.eval_datasets.claim(&id);
        total = total + self.eval_dataset_sessions.claim(&id);
        total = total + self.eval_dataset_runs.claim(&id);
        total = total + self.eval_dataset_run_items.claim(&id);
        total = total + self.eval_dataset_run_evals.claim(&id);
        total = total + self.things_change_log.claim(&id);
        total = total + self.things_content_snapshots.claim(&id);
        total = total + self.crdt_documents.claim(&id);
        total = total + self.internal_kv.claim(&id);
        total = total + self.notifications.claim(&id);
        proof {
            assert(claimed_by(*old(self), *self, id));
        }
        total
    }

    /// Removes everything, so that nothing of the user who signs out is left.
    pub fn wipe_all_data(&mut self)
        ensures
            wiped(*old(self), *final(self)),
            final(self).well_formed(),
    {
        broadcast use group_keyed;

        self.triggers.clear();
        self.actions.clear();
        self.action_invocations.clear();
        self.events.clear();
        self.preferences.clear();
        self.preference_sync_state.clear();
        self.things_state.clear();
        self.trigger_logs.clear();
        self.trigger_bindings.clear();
        self.chat_sessions.clear();
        self.internal_kv.clear();
        self.chat_messages.clear();
        self.chat_runtime_state.clear();
        self.agent_versions.clear();
        self.eval_datasets.clear();
        self.eval_dataset_sessions.clear();
        self.eval_dataset_runs.clear();
        self.eval_dataset_run_items.clear();
        self.eval_dataset_run_evals.clear();
        self.things_change_log.clear();
        self.things_content_snapshots.clear();
        self.location_cache.clear();
        self.crdt_documents.clear();
        self.notifications.clear();
        self.things_actor_meta.clear();
    }
}

/// Whether a conversation with an id is in the store.
pub fn session_exists(sessions: &Table<ChatSession>, id: &str) -> (r: bool)
    ensures
        r == any_data(sessions.data(), has_session_id(id@)),
{
    let hit = |s: &ChatSession| -> (b: bool)
        ensures
            b == has_session_id(id@)(*s),
        { same(s.session_id.as_str(), id) };
    sessions.any(hit, Ghost(has_session_id(id@)))
}

} // verus!
