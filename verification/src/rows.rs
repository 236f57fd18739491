//! The rows of the store.
use crate::table::Record;
use crate::text::same;
use std::sync::Arc;
use vstd::prelude::*;

verus! {

/// What a logged change did.
#[derive(Clone, Copy, Debug, PartialEq, Eq, Structural)]
pub enum ThingsOperationType {
    CreateCollection,
    UpdateCollection,
    DeleteCollection,
    CreateThing,
    UpdateThing,
    DeleteThing,
}

/// A trigger: when it fires and what it does.
#[derive(Debug)]
pub struct StoredTrigger {
    pub trigger_uuid: String,
    pub name: String,
    pub version: String,
    pub precondition_json: String,
    pub condition_json: String,
    pub action_uuid: Option<String>,
    pub action_args_json: String,
    pub next_fire: Option<i64>,
    pub last_result: Option<bool>,
    pub is_paused: bool,
    pub created_at: i64,
    pub updated_at: i64,
}

impl Record for StoredTrigger {
    fn duplicate(&self) -> (copy: Self) {
        StoredTrigger {
            trigger_uuid: self.trigger_uuid.clone(),
            name: self.name.clone(),
            version: self.version.clone(),
            precondition_json: self.precondition_json.clone(),
            condition_json: self.condition_json.clone(),
            action_uuid: self.action_uuid.clone(),
            action_args_json: self.action_args_json.clone(),
            next_fire: self.next_fire,
            last_result: self.last_result,
            is_paused: self.is_paused,
            created_at: self.created_at,
            updated_at: self.updated_at,
        }
    }
}

/// An action and its script. The JSON columns are kept as text.
#[derive(Debug)]
pub struct ActionDefinition {
    pub action_uuid: String,
    pub name: String,
    pub title: String,
    pub description: String,
    pub version: String,
    pub category: String,
    pub enabled: bool,
    pub metadata_json: String,
    pub script_source: String,
    pub input_schema_json: String,
    pub output_schema_json: Option<String>,
    pub created_at: i64,
    pub updated_at: i64,
}

impl Record for ActionDefinition {
    fn duplicate(&self) -> (copy: Self) {
        ActionDefinition {
            action_uuid: self.action_uuid.clone(),
            name: self.name.clone(),
            title: self.title.clone(),
            description: self.description.clone(),
            version: self.version.clone(),
            category: self.category.clone(),
            enabled: self.enabled,
            metadata_json: self.metadata_json.clone(),
            script_source: self.script_source.clone(),
            input_schema_json: self.input_schema_json.clone(),
            output_schema_json: self.output_schema_json.clone(),
            created_at: self.created_at,
            updated_at: self.updated_at,
        }
    }
}

/// One run of an action.
#[derive(Debug)]
pub struct ActionInvocationRecord {
    pub invocation_uuid: String,
    pub action_uuid: String,
    pub source_kind: String,
    pub source_entity_type: Option<String>,
    pub source_entity_uuid: Option<String>,
    pub args_json: String,
    pub result_json: Option<String>,
    pub console_logs_json: String,
    pub error_json: Option<String>,
    pub started_at: i64,
    pub finished_at: i64,
    pub duration_ms: i64,
    pub device_id: Option<String>,
}

impl Record for ActionInvocationRecord {
    fn duplicate(&self) -> (copy: Self) {
        ActionInvocationRecord {
            invocation_uuid: self.invocation_uuid.clone(),
            action_uuid: self.action_uuid.clone(),
            source_kind: self.source_kind.clone(),
            source_entity_type: self.source_entity_type.clone(),
            source_entity_uuid: self.source_entity_uuid.clone(),
            args_json: self.args_json.clone(),
            result_json: self.result_json.clone(),
            console_logs_json: self.console_logs_json.clone(),
            error_json: self.error_json.clone(),
            started_at: self.started_at,
            finished_at: self.finished_at,
            duration_ms: self.duration_ms,
            device_id: self.device_id.clone(),
        }
    }
}

/// Something that happened on the device.
#[derive(Debug)]
pub struct StoredEvent {
    pub event_type: String,
    pub timestamp: String,
    pub timestamp_utc: i64,
    pub metadata_json: String,
    pub created_at: i64,
}

impl Record for StoredEvent {
    fn duplicate(&self) -> (copy: Self) {
        StoredEvent {
            event_type: self.event_type.clone(),
            timestamp: self.timestamp.clone(),
            timestamp_utc: self.timestamp_utc,
            metadata_json: self.metadata_json.clone(),
            created_at: self.created_at,
        }
    }
}

/// A setting.
#[derive(Debug)]
pub struct Preference {
    pub key: String,
    pub display_name: Option<String>,
    pub description: Option<String>,
    pub value_type: String,
    pub value_json: String,
    pub updated_at: i64,
}

impl Record for Preference {
    fn duplicate(&self) -> (copy: Self) {
        Preference {
            key: self.key.clone(),
            display_name: self.display_name.clone(),
            description: self.description.clone(),
            value_type: self.value_type.clone(),
            value_json: self.value_json.clone(),
            updated_at: self.updated_at,
        }
    }
}

/// The state of things as one document.
#[derive(Debug)]
pub struct ThingsState {
    pub automerge_doc: Arc<Vec<u8>>,
    pub sync_state: Arc<Vec<u8>>,
    pub dirty: bool,
    pub last_sync_at: Option<String>,
}

impl Record for ThingsState {
    fn duplicate(&self) -> (copy: Self) {
        ThingsState {
            automerge_doc: self.automerge_doc.clone(),
            sync_state: self.sync_state.clone(),
            dirty: self.dirty,
            last_sync_at: self.last_sync_at.clone(),
        }
    }
}

/// The state of the settings as one document.
#[derive(Debug)]
pub struct PreferenceSyncState {
    pub automerge_doc: Arc<Vec<u8>>,
    pub last_sync_at: i64,
}

impl Record for PreferenceSyncState {
    fn duplicate(&self) -> (copy: Self) {
        PreferenceSyncState {
            automerge_doc: self.automerge_doc.clone(),
            last_sync_at: self.last_sync_at,
        }
    }
}

/// How a run of a trigger came about.
#[derive(Clone, Copy, Debug, PartialEq, Eq, Structural)]
pub enum TriggerRunType {
    Automatic,
    Manual,
}

/// The name of a kind of runs in the store.
pub open spec fn run_type_name(run_type: TriggerRunType) -> Seq<char> {
    match run_type {
        TriggerRunType::Automatic => "automatic"@,
        TriggerRunType::Manual => "manual"@,
    }
}

/// The kind of runs with a name.
pub open spec fn run_type_of(name: Seq<char>) -> Option<TriggerRunType> {
    if name == "automatic"@ {
        Some(TriggerRunType::Automatic)
    } else if name == "manual"@ {
        Some(TriggerRunType::Manual)
    } else {
        None
    }
}

impl TriggerRunType {
    /// The name of the kind.
    pub fn as_str(&self) -> (name: &'static str)
        ensures
            name@ == run_type_name(*self),
    {
        match self {
            TriggerRunType::Automatic => "automatic",
            TriggerRunType::Manual => "manual",
        }
    }

    /// The kind with a name.
    pub fn from_name(name: &str) -> (out: Option<Self>)
        ensures
            out == run_type_of(name@),
    {
        if same(name, "automatic") {
            Some(TriggerRunType::Automatic)
        } else if same(name, "manual") {
            Some(TriggerRunType::Manual)
        } else {
            None
        }
    }
}

/// What an action is called from.
#[derive(Clone, Copy, Debug, PartialEq, Eq, Structural)]
pub enum ActionInvocationSourceKind {
    Trigger,
    CollectionManual,
    ThingManual,
    System,
}

/// The name of what an action is called from in the store.
pub open spec fn source_kind_name(kind: ActionInvocationSourceKind) -> Seq<char> {
    match kind {
        ActionInvocationSourceKind::Trigger => "trigger"@,
        ActionInvocationSourceKind::CollectionManual => "collection_manual"@,
        ActionInvocationSourceKind::ThingManual => "thing_manual"@,
        ActionInvocationSourceKind::System => "system"@,
    }
}

/// What an action is called from, by its name.
pub open spec fn source_kind_of(name: Seq<char>) -> Option<ActionInvocationSourceKind> {
    if name == "trigger"@ {
        Some(ActionInvocationSourceKind::Trigger)
    } else if name == "collection_manual"@ {
        Some(ActionInvocationSourceKind::CollectionManual)
    } else if name == "thing_manual"@ {
        Some(ActionInvocationSourceKind::ThingManual)
    } else if name == "system"@ {
        Some(ActionInvocationSourceKind::System)
    } else {
        None
    }
}

impl ActionInvocationSourceKind {
    /// The name of the source.
    pub fn as_str(&self) -> (name: &'static str)
        ensures
            name@ == source_kind_name(*self),
    {
        match self {
            ActionInvocationSourceKind::Trigger => "trigger",
            ActionInvocationSourceKind::CollectionManual => "collection_manual",
            ActionInvocationSourceKind::ThingManual => "thing_manual",
            ActionInvocationSourceKind::System => "system",
        }
    }

    /// The source with a name.
    pub fn from_name(name: &str) -> (out: Option<Self>)
        ensures
            out == source_kind_of(name@),
    {
        if same(name, "trigger") {
            Some(ActionInvocationSourceKind::Trigger)
        } else if same(name, "collection_manual") {
            Some(ActionInvocationSourceKind::CollectionManual)
        } else if same(name, "thing_manual") {
            Some(ActionInvocationSourceKind::ThingManual)
        } else if same(name, "system") {
            Some(ActionInvocationSourceKind::System)
        } else {
            None
        }
    }
}

/// The name of a kind of runs, and of what an action is called from, names that kind.
pub proof fn law_stored_names(run_type: TriggerRunType, kind: ActionInvocationSourceKind)
    ensures
        run_type_of(run_type_name(run_type)) == Some(run_type),
        source_kind_of(source_kind_name(kind)) == Some(kind),
{
    reveal_strlit("automatic");
    reveal_strlit("manual");
    reveal_strlit("trigger");
    reveal_strlit("collection_manual");
    reveal_strlit("thing_manual");
    reveal_strlit("system");
    assert("automatic"@.len() == 9 && "manual"@.len() == 6);
    assert("trigger"@.len() == 7 && "collection_manual"@.len() == 17);
    assert("thing_manual"@.len() == 12 && "system"@.len() == 6);
}

/// A line in the log of a trigger. The level is kept as it was given, whatever it is; the name
/// of the kind of runs is judged where lines are read.
#[derive(Debug)]
pub struct TriggerLogEntry {
    pub trigger_id: String,
    pub level: String,
    pub message: String,
    pub fire_time: i64,
    pub created_at: i64,
    pub run_type: String,
}

impl Record for TriggerLogEntry {
    fn duplicate(&self) -> (copy: Self) {
        TriggerLogEntry {
            trigger_id: self.trigger_id.clone(),
            level: self.level.clone(),
            message: self.message.clone(),
            fire_time: self.fire_time,
            created_at: self.created_at,
            run_type: self.run_type.clone(),
        }
    }
}

/// Which trigger an entity is bound to.
#[derive(Debug)]
pub struct TriggerBinding {
    pub trigger_uuid: String,
    pub entity_type: String,
    pub entity_uuid: String,
    pub created_at: i64,
}

impl Record for TriggerBinding {
    fn duplicate(&self) -> (copy: Self) {
        TriggerBinding {
            trigger_uuid: self.trigger_uuid.clone(),
            entity_type: self.entity_type.clone(),
            entity_uuid: self.entity_uuid.clone(),
            created_at: self.created_at,
        }
    }
}

/// A conversation.
#[derive(Debug)]
pub struct ChatSession {
    pub session_id: String,
    pub title: Option<String>,
    pub created_at: i64,
    pub last_activity: i64,
    pub message_count: i64,
}

impl Record for ChatSession {
    fn duplicate(&self) -> (copy: Self) {
        ChatSession {
            session_id: self.session_id.clone(),
            title: self.title.clone(),
            created_at: self.created_at,
            last_activity: self.last_activity,
            message_count: self.message_count,
        }
    }
}

/// A value that the library keeps for itself.
#[derive(Debug)]
pub struct InternalKv {
    pub key: String,
    pub value: String,
    pub updated_at: i64,
}

impl Record for InternalKv {
    fn duplicate(&self) -> (copy: Self) {
        InternalKv {
            key: self.key.clone(),
            value: self.value.clone(),
            updated_at: self.updated_at,
        }
    }
}

/// A message of a conversation, as the JSON that the user interface made.
#[derive(Debug)]
pub struct ChatMessage {
    pub session_id: String,
    pub message_id: String,
    pub created_at_ms: i64,
    pub message_json: String,
}

impl Record for ChatMessage {
    fn duplicate(&self) -> (copy: Self) {
        ChatMessage {
            session_id: self.session_id.clone(),
            message_id: self.message_id.clone(),
            created_at_ms: self.created_at_ms,
            message_json: self.message_json.clone(),
        }
    }
}

/// What the runtime keeps of a conversation.
#[derive(Debug)]
pub struct ChatRuntimeState {
    pub session_id: String,
    pub state_json: String,
    pub updated_at: i64,
}

impl Record for ChatRuntimeState {
    fn duplicate(&self) -> (copy: Self) {
        ChatRuntimeState {
            session_id: self.session_id.clone(),
            state_json: self.state_json.clone(),
            updated_at: self.updated_at,
        }
    }
}

/// A version of an agent.
#[derive(Debug)]
pub struct AgentVersion {
    pub version_id: String,
    pub agent_id: String,
    pub name: String,
    pub raw_markdown: String,
    pub created_at: i64,
    pub updated_at: i64,
    pub applied_at: Option<i64>,
}

impl Record for AgentVersion {
    fn duplicate(&self) -> (copy: Self) {
        AgentVersion {
            version_id: self.version_id.clone(),
            agent_id: self.agent_id.clone(),
            name: self.name.clone(),
            raw_markdown: self.raw_markdown.clone(),
            created_at: self.created_at,
            updated_at: self.updated_at,
            applied_at: self.applied_at,
        }
    }
}

/// A set of conversations to evaluate agents on.
#[derive(Debug)]
pub struct EvalDataset {
    pub dataset_id: String,
    pub name: String,
    pub description: Option<String>,
    pub created_at: i64,
    pub updated_at: i64,
}

impl Record for EvalDataset {
    fn duplicate(&self) -> (copy: Self) {
        EvalDataset {
            dataset_id: self.dataset_id.clone(),
            name: self.name.clone(),
            description: self.description.clone(),
            created_at: self.created_at,
            updated_at: self.updated_at,
        }
    }
}

/// A conversation in a data set.
#[derive(Debug)]
pub struct DatasetMember {
    pub dataset_id: String,
    pub session_id: String,
    pub added_at: i64,
}

impl Record for DatasetMember {
    fn duplicate(&self) -> (copy: Self) {
        DatasetMember {
            dataset_id: self.dataset_id.clone(),
            session_id: self.session_id.clone(),
            added_at: self.added_at,
        }
    }
}

/// One run of an agent over a data set.
#[derive(Debug)]
pub struct EvalDatasetRun {
    pub run_id: String,
    pub dataset_id: String,
    pub agent_id: String,
    pub agent_version_id: Option<String>,
    pub agent_version_name: Option<String>,
    pub variant_id: String,
    pub variant_label: String,
    pub source_session_count: i64,
    pub created_at: i64,
    pub updated_at: i64,
}

impl Record for EvalDatasetRun {
    fn duplicate(&self) -> (copy: Self) {
        EvalDatasetRun {
            run_id: self.run_id.clone(),
            dataset_id: self.dataset_id.clone(),
            agent_id: self.agent_id.clone(),
            agent_version_id: self.agent_version_id.clone(),
            agent_version_name: self.agent_version_name.clone(),
            variant_id: self.variant_id.clone(),
            variant_label: self.variant_label.clone(),
            source_session_count: self.source_session_count,
            created_at: self.created_at,
            updated_at: self.updated_at,
        }
    }
}

/// What a run made of one conversation.
#[derive(Debug)]
pub struct RunItem {
    pub run_id: String,
    pub dataset_id: String,
    pub session_id: String,
    pub final_text: String,
    pub reasoning: Option<String>,
    pub prompt_tokens: i64,
    pub completion_tokens: i64,
    pub tool_results_json: String,
    pub done: bool,
    pub cancelled: bool,
    pub interrupted: bool,
    pub error: Option<String>,
    pub created_at: i64,
    pub updated_at: i64,
}

impl Record for RunItem {
    fn duplicate(&self) -> (copy: Self) {
        RunItem {
            run_id: self.run_id.clone(),
            dataset_id: self.dataset_id.clone(),
            session_id: self.session_id.clone(),
            final_text: self.final_text.clone(),
            reasoning: self.reasoning.clone(),
            prompt_tokens: self.prompt_tokens,
            completion_tokens: self.completion_tokens,
            tool_results_json: self.tool_results_json.clone(),
            done: self.done,
            cancelled: self.cancelled,
            interrupted: self.interrupted,
            error: self.error.clone(),
            created_at: self.created_at,
            updated_at: self.updated_at,
        }
    }
}

/// How what a run made of a conversation was judged.
#[derive(Debug)]
pub struct EvalDatasetRunEval {
    pub run_id: String,
    pub dataset_id: String,
    pub session_id: String,
    pub analysis_agent_id: String,
    pub score: String,
    pub summary: String,
    pub rationale: String,
    pub created_at: i64,
    pub updated_at: i64,
}

impl Record for EvalDatasetRunEval {
    fn duplicate(&self) -> (copy: Self) {
        EvalDatasetRunEval {
            run_id: self.run_id.clone(),
            dataset_id: self.dataset_id.clone(),
            session_id: self.session_id.clone(),
            analysis_agent_id: self.analysis_agent_id.clone(),
            score: self.score.clone(),
            summary: self.summary.clone(),
            rationale: self.rationale.clone(),
            created_at: self.created_at,
            updated_at: self.updated_at,
        }
    }
}

/// A change to things that was logged.
#[derive(Debug)]
pub struct ThingsChangeLogEntry {
    pub id: i64,
    pub device_id: String,
    pub op_type: ThingsOperationType,
    pub entity_type: String,
    pub entity_uuid: String,
    pub summary: String,
    pub details_json: String,
    pub parent_log_id: Option<i64>,
    pub cascade_log_ids_json: Option<String>,
    pub created_at: i64,
    pub can_undo: bool,
    pub synced: bool,
}

impl Record for ThingsChangeLogEntry {
    fn duplicate(&self) -> (copy: Self) {
        ThingsChangeLogEntry {
            id: self.id,
            device_id: self.device_id.clone(),
            op_type: self.op_type,
            entity_type: self.entity_type.clone(),
            entity_uuid: self.entity_uuid.clone(),
            summary: self.summary.clone(),
            details_json: self.details_json.clone(),
            parent_log_id: self.parent_log_id,
            cascade_log_ids_json: self.cascade_log_ids_json.clone(),
            created_at: self.created_at,
            can_undo: self.can_undo,
            synced: self.synced,
        }
    }
}

/// The content of a thing at some time.
#[derive(Debug)]
pub struct ThingsContentSnapshot {
    pub id: i64,
    pub device_id: String,
    pub thing_uuid: String,
    pub content_json: String,
    pub change_log_id: Option<i64>,
    pub created_at: i64,
    pub synced: bool,
}

impl Record for ThingsContentSnapshot {
    fn duplicate(&self) -> (copy: Self) {
        ThingsContentSnapshot {
            id: self.id,
            device_id: self.device_id.clone(),
            thing_uuid: self.thing_uuid.clone(),
            content_json: self.content_json.clone(),
            change_log_id: self.change_log_id,
            created_at: self.created_at,
            synced: self.synced,
        }
    }
}

/// A place that was looked up. Coordinates are kept as numbers' texts.
#[derive(Debug)]
pub struct LocationCacheEntry {
    pub name: String,
    pub is_fuzzy: bool,
    pub latitude: Option<String>,
    pub longitude: Option<String>,
    pub coord_system: String,
    pub place_id: Option<String>,
    pub place_type: Option<String>,
    pub formatted_address: Option<String>,
    pub created_at: i64,
    pub updated_at: i64,
}

impl Record for LocationCacheEntry {
    fn duplicate(&self) -> (copy: Self) {
        LocationCacheEntry {
            name: self.name.clone(),
            is_fuzzy: self.is_fuzzy,
            latitude: self.latitude.clone(),
            longitude: self.longitude.clone(),
            coord_system: self.coord_system.clone(),
            place_id: self.place_id.clone(),
            place_type: self.place_type.clone(),
            formatted_address: self.formatted_address.clone(),
            created_at: self.created_at,
            updated_at: self.updated_at,
        }
    }
}

/// A document in its raw form.
#[derive(Debug)]
pub struct CrdtDocumentRow {
    pub uuid: String,
    pub data_type: String,
    pub automerge_doc: Arc<Vec<u8>>,
    pub sync_state: Arc<Vec<u8>>,
    pub dirty: bool,
    pub last_sync_at: Option<String>,
    pub created_at: i64,
    pub updated_at: i64,
}

impl Record for CrdtDocumentRow {
    fn duplicate(&self) -> (copy: Self) {
        CrdtDocumentRow {
            uuid: self.uuid.clone(),
            data_type: self.data_type.clone(),
            automerge_doc: self.automerge_doc.clone(),
            sync_state: self.sync_state.clone(),
            dirty: self.dirty,
            last_sync_at: self.last_sync_at.clone(),
            created_at: self.created_at,
            updated_at: self.updated_at,
        }
    }
}

/// A notification.
#[derive(Debug)]
pub struct NotificationEntry {
    pub id: i64,
    pub source: String,
    pub category: String,
    pub title: String,
    pub body: String,
    pub is_read: bool,
    pub response_action: Option<String>,
    pub responded_at: Option<i64>,
    pub created_at: i64,
}

impl Record for NotificationEntry {
    fn duplicate(&self) -> (copy: Self) {
        NotificationEntry {
            id: self.id,
            source: self.source.clone(),
            category: self.category.clone(),
            title: self.title.clone(),
            body: self.body.clone(),
            is_read: self.is_read,
            response_action: self.response_action.clone(),
            responded_at: self.responded_at,
            created_at: self.created_at,
        }
    }
}

/// Who made a thing or a collection, as the server says.
#[derive(Debug)]
pub struct ActorMetaEntry {
    pub uuid: String,
    pub is_collection: bool,
    pub actor_type: String,
    pub actor_app_id: Option<String>,
    pub actor_display_name: Option<String>,
}

impl Record for ActorMetaEntry {
    fn duplicate(&self) -> (copy: Self) {
        ActorMetaEntry {
            uuid: self.uuid.clone(),
            is_collection: self.is_collection,
            actor_type: self.actor_type.clone(),
            actor_app_id: self.actor_app_id.clone(),
            actor_display_name: self.actor_display_name.clone(),
        }
    }
}

} // verus!
