//! Triggers, their bindings and logs, actions, and events.
use super::chat::every;
use super::{action_key, Storage};
use crate::clock::{
    clock_seconds, now_seconds, plain_time, read_rfc3339, rfc3339_offset_text, rfc3339_time,
    write_rfc3339_offset, DomainTime,
};
use crate::error::{failure, ErrorView, SdkError};
use crate::json::{
    int_text, json_read, json_text, opt_view, plain_json, read_json, signed_text, write_json, Json,
    JsonView, NESTING_LIMIT,
};
use crate::rows::{
    run_type_name, run_type_of, source_kind_of, ActionDefinition, ActionInvocationRecord,
    ActionInvocationSourceKind, StoredEvent, StoredTrigger, TriggerBinding, TriggerLogEntry,
    TriggerRunType,
};
use crate::scheduling::{
    law_rules_round_trip, lemma_rules_plain, read_rules, rule_views, rules_json, rules_to_json,
    stored_rules, TriggerRule,
};
use crate::table::{
    any_data, at_most_one, first_data, first_item, first_of, group_keyed, law_upsert_leaves_others,
    law_upsert_read_back, lemma_keyed_upserted, page, ranked, rows_kept, rows_updated,
    rows_upserted, take_page, Rank, Record, Row,
};
use crate::text::{cat3, owned, same, views};
use vstd::prelude::*;

verus! {

/// What a trigger is registered with.
pub struct TriggerRegistration {
    pub trigger_uuid: String,
    pub name: String,
    pub version: String,
    pub precondition: Vec<TriggerRule>,
    pub condition: Vec<TriggerRule>,
    pub action_uuid: Option<String>,
    pub action_args: Json,
}

/// An event as it is reported.
pub struct EventPayload {
    pub event_type: String,
    pub timestamp: DomainTime,
    pub metadata: Json,
}

/// A trigger and an entity that it is bound to.
#[derive(Debug)]
pub struct TriggerInfo {
    pub trigger: StoredTrigger,
    pub bind_type: Option<String>,
    pub bind_uuid: Option<String>,
}

impl Record for TriggerInfo {
    fn duplicate(&self) -> (copy: Self) {
        TriggerInfo {
            trigger: self.trigger.duplicate(),
            bind_type: self.bind_type.clone(),
            bind_uuid: self.bind_uuid.clone(),
        }
    }
}

impl TriggerInfo {
    /// The rules that a trigger waits for.
    pub fn precondition(&self) -> (rules: Vec<TriggerRule>)
        ensures
            rule_views(rules@) == stored_rules(self.trigger.precondition_json@),
    {
        read_rules(self.trigger.precondition_json.as_str())
    }

    /// The rules that have to hold when a trigger fires.
    pub fn condition(&self) -> (rules: Vec<TriggerRule>)
        ensures
            rule_views(rules@) == stored_rules(self.trigger.condition_json@),
    {
        read_rules(self.trigger.condition_json.as_str())
    }

    /// What the action of a trigger is called with.
    pub fn action_args(&self) -> (args: Json)
        ensures
            args@ == json_or_empty(self.trigger.action_args_json@),
    {
        read_json_or_empty(self.trigger.action_args_json.as_str())
    }
}

/// The value of a JSON text; an empty object where it is none.
pub fn read_json_or_empty(text: &str) -> (j: Json)
    ensures
        j@ == json_or_empty(text@),
{
    match read_json(text) {
        Ok(j) => j,
        Err(_) => {
            let none: Vec<(String, Json)> = Vec::new();
            proof {
                assert(crate::json::entries_view(none@) =~= Seq::empty());
            }
            Json::object(none)
        },
    }
}

impl StoredEvent {
    /// The metadata of the event.
    pub fn metadata(&self) -> (j: Json)
        ensures
            j@ == metadata_of(*self),
    {
        match read_json(self.metadata_json.as_str()) {
            Ok(j) => j,
            Err(_) => Json::Null,
        }
    }

    /// When the event happened, or `now` where its text holds no time.
    pub fn time_or(&self, now: DomainTime) -> (t: DomainTime)
        ensures
            t == match rfc3339_time(self.timestamp@) {
                Some(t) => t,
                None => now,
            },
    {
        match read_rfc3339(self.timestamp.as_str()) {
            Some(t) => t,
            None => now,
        }
    }
}

pub open spec fn is_trigger(uuid: Seq<char>) -> spec_fn(StoredTrigger) -> bool {
    |t: StoredTrigger| t.trigger_uuid@ == uuid
}

pub open spec fn other_trigger(uuid: Seq<char>) -> spec_fn(StoredTrigger) -> bool {
    |t: StoredTrigger| t.trigger_uuid@ != uuid
}

/// The triggers that fire at `now` or were to fire before.
pub open spec fn is_due(now: i64) -> spec_fn(StoredTrigger) -> bool {
    |t: StoredTrigger| t.next_fire is Some && t.next_fire->0 <= now && !t.is_paused
}

pub open spec fn fires_after(now: Option<i64>) -> spec_fn(StoredTrigger) -> bool {
    |t: StoredTrigger| t.next_fire is Some && (now matches Some(n) ==> t.next_fire->0 > n)
}

pub open spec fn fire_time_of(t: StoredTrigger) -> i64 {
    match t.next_fire {
        Some(at) => at,
        None => 0,
    }
}

pub open spec fn by_fire_time() -> spec_fn(StoredTrigger) -> Rank {
    |t: StoredTrigger| (fire_time_of(t), 0i64)
}

/// How a trigger that is there takes over a new registration: it stays paused or not, and
/// keeps the time of its creation.
pub open spec fn trigger_taken_over(new: StoredTrigger) -> spec_fn(StoredTrigger) -> StoredTrigger {
    |t: StoredTrigger|
        StoredTrigger {
            name: new.name,
            version: new.version,
            precondition_json: new.precondition_json,
            condition_json: new.condition_json,
            action_uuid: new.action_uuid,
            action_args_json: new.action_args_json,
            next_fire: new.next_fire,
            last_result: None,
            updated_at: new.updated_at,
            ..t
        }
}

pub open spec fn trigger_fired(fired_at: i64, next_fire: Option<i64>, last_result: bool) -> spec_fn(
    StoredTrigger,
) -> StoredTrigger {
    |t: StoredTrigger|
        StoredTrigger { next_fire, last_result: Some(last_result), updated_at: fired_at, ..t }
}

pub open spec fn trigger_paused(paused: bool, now: i64) -> spec_fn(StoredTrigger) -> StoredTrigger {
    |t: StoredTrigger| StoredTrigger { is_paused: paused, updated_at: now, ..t }
}

pub open spec fn trigger_due(due_at: i64, now: i64) -> spec_fn(StoredTrigger) -> StoredTrigger {
    |t: StoredTrigger| StoredTrigger { next_fire: Some(due_at), updated_at: now, ..t }
}

/// How a trigger takes over an action and its arguments.
pub open spec fn trigger_acting(action: Option<String>, args_json: String, now: i64) -> spec_fn(
    StoredTrigger,
) -> StoredTrigger {
    |t: StoredTrigger|
        StoredTrigger { action_uuid: action, action_args_json: args_json, updated_at: now, ..t }
}

/// Whether a store is another one after a trigger was given an action and its arguments. The
/// arguments are read back where they have the form in which serde_json gives values.
pub open spec fn trigger_action_set(
    old: Storage,
    new: Storage,
    trigger: Seq<char>,
    action: Option<Seq<char>>,
    args: JsonView,
    now: i64,
) -> bool {
    exists|given: Option<String>, text: String|
        opt_view(given) == action && text@ == json_text(args) && (plain_json(
            args,
            NESTING_LIMIT as nat,
        ) ==> json_or_empty(text@) == args) && new.triggers.rows@ == rows_updated(
            old.triggers.rows@,
            is_trigger(trigger),
            #[trigger] trigger_acting(given, text, now),
        )
}

/// Whether a row gives back the rules and the arguments that it was registered with; the
/// arguments where they have the form in which serde_json gives values.
pub open spec fn registration_reads_back(row: StoredTrigger, params: TriggerRegistration) -> bool {
    &&& stored_rules(row.precondition_json@) == rule_views(params.precondition@)
    &&& stored_rules(row.condition_json@) == rule_views(params.condition@)
    &&& plain_json(params.action_args@, NESTING_LIMIT as nat) ==> json_or_empty(
        row.action_args_json@,
    ) == params.action_args@
}

/// Whether a store is another one after a trigger was registered.
pub open spec fn trigger_registered(
    old: Storage,
    new: Storage,
    params: TriggerRegistration,
    next_fire: Option<i64>,
    now: i64,
) -> bool {
    exists|row: StoredTrigger|
        row.trigger_uuid@ == params.trigger_uuid@ && row.name@ == params.name@ && row.version@
            == params.version@ && row.precondition_json@ == json_text(
            rules_json(rule_views(params.precondition@)),
        ) && row.condition_json@ == json_text(rules_json(rule_views(params.condition@)))
            && row.action_uuid == params.action_uuid && row.action_args_json@ == json_text(
            params.action_args@,
        ) && row.next_fire == next_fire && row.last_result is None && !row.is_paused
            && row.created_at == now && row.updated_at == now && registration_reads_back(
            row,
            params,
        ) && new.triggers.rows@ == #[trigger] rows_upserted(
            old.triggers.rows@,
            is_trigger(params.trigger_uuid@),
            trigger_taken_over(row),
            row,
        )
}

/// The id of a registration: the trigger and when it fires next, or 0.
pub open spec fn registration_id(uuid: Seq<char>, next_fire: Option<i64>) -> Seq<char> {
    uuid + ":"@ + int_text(
        match next_fire {
            Some(at) => at as int,
            None => 0,
        },
    )
}

/// Registering a trigger again leaves one trigger with its uuid where there was at most
/// one, and that one gives back what it was registered with.
pub proof fn law_registration_is_unique(
    old: Storage,
    new: Storage,
    params: TriggerRegistration,
    next_fire: Option<i64>,
    now: i64,
)
    requires
        trigger_registered(old, new, params, next_fire, now),
        at_most_one(old.triggers.data(), is_trigger(params.trigger_uuid@)),
    ensures
        at_most_one(new.triggers.data(), is_trigger(params.trigger_uuid@)),
        first_data(new.triggers.data(), is_trigger(params.trigger_uuid@)) matches Some(t)
            && t.next_fire == next_fire && t.last_result is None && registration_reads_back(
            t,
            params,
        ),
{
    let row = choose|row: StoredTrigger|
        row.trigger_uuid@ == params.trigger_uuid@ && row.next_fire == next_fire
            && row.last_result is None && registration_reads_back(row, params) && new.triggers.rows@
            == #[trigger] rows_upserted(
            old.triggers.rows@,
            is_trigger(params.trigger_uuid@),
            trigger_taken_over(row),
            row,
        );
    law_upsert_read_back(
        old.triggers.rows@,
        is_trigger(params.trigger_uuid@),
        trigger_taken_over(row),
        row,
    );
}

pub open spec fn event_between(start: int, end: int) -> spec_fn(StoredEvent) -> bool {
    |e: StoredEvent| start <= e.timestamp_utc <= end
}

pub open spec fn by_event_time() -> spec_fn(StoredEvent) -> Rank {
    |e: StoredEvent| (e.timestamp_utc, 0i64)
}

/// The row of an event that was written at `now`.
pub open spec fn event_row(row: StoredEvent, event: EventPayload, now: i64) -> bool {
    &&& row.event_type == event.event_type
    &&& row.timestamp@ == rfc3339_offset_text(event.timestamp)
    &&& row.timestamp_utc == event.timestamp.seconds
    &&& row.metadata_json@ == json_text(event.metadata@)
    &&& plain_json(event.metadata@, NESTING_LIMIT as nat) ==> metadata_of(row) == event.metadata@
    &&& plain_time(event.timestamp) ==> rfc3339_time(row.timestamp@) == Some(event.timestamp)
    &&& row.created_at == now
}

/// What the metadata of a stored event is; null where its text is no JSON.
pub open spec fn metadata_of(e: StoredEvent) -> JsonView {
    match json_read(e.metadata_json@) {
        Ok(j) => j,
        Err(_) => JsonView::Null,
    }
}

/// The value of a JSON text; an empty object where it is none.
pub open spec fn json_or_empty(text: Seq<char>) -> JsonView {
    match json_read(text) {
        Ok(j) => j,
        Err(_) => JsonView::Object(Seq::empty()),
    }
}

/// The first and the last of the times of a list of events.
pub open spec fn time_span(data: Seq<StoredEvent>, span: Option<(i64, i64)>) -> bool {
    match span {
        None => data.len() == 0,
        Some((first, last)) => {
            &&& exists|i: int| 0 <= i < data.len() && (#[trigger] data[i]).timestamp_utc == first
            &&& exists|i: int| 0 <= i < data.len() && (#[trigger] data[i]).timestamp_utc == last
            &&& forall|i: int|
                0 <= i < data.len() ==> first <= (#[trigger] data[i]).timestamp_utc <= last
        },
    }
}

/// The log lines of a trigger, of one kind of runs or of all.
pub open spec fn log_of(trigger: Seq<char>, run_type: Option<TriggerRunType>) -> spec_fn(
    TriggerLogEntry,
) -> bool {
    |l: TriggerLogEntry|
        l.trigger_id@ == trigger && (run_type matches Some(r) ==> l.run_type@ == run_type_name(r))
}

/// Whether every line has a kind of runs that can be read.
pub open spec fn runs_readable(lines: Seq<TriggerLogEntry>) -> bool {
    forall|i: int|
        0 <= i < lines.len() ==> run_type_of((#[trigger] lines[i]).run_type@) is Some
}

/// The refusal of log lines that cannot be read.
pub open spec fn logs_fault(run_type: Option<TriggerRunType>, limit: Option<u32>) -> ErrorView {
    ErrorView::Failure {
        message: if run_type is Some {
            "Failed to fetch filtered trigger logs"@
        } else if real_limit(limit) is Some {
            "Failed to fetch limited trigger logs"@
        } else {
            "Failed to fetch trigger logs"@
        },
    }
}

pub open spec fn by_log_time() -> spec_fn(TriggerLogEntry) -> Rank {
    |l: TriggerLogEntry| (l.created_at, 0i64)
}

/// A limit of 0 is no limit.
pub open spec fn real_limit(limit: Option<u32>) -> Option<u32> {
    match limit {
        Some(n) => if n > 0 { Some(n) } else { None },
        None => None,
    }
}

pub open spec fn log_row(
    row: TriggerLogEntry,
    trigger: Seq<char>,
    level: Seq<char>,
    message: Seq<char>,
    fire_time: i64,
    run_type: TriggerRunType,
    now: i64,
) -> bool {
    &&& row.trigger_id@ == trigger
    &&& row.level@ == level
    &&& row.message@ == message
    &&& row.fire_time == fire_time
    &&& row.run_type@ == run_type_name(run_type)
    &&& row.created_at == now
}

pub open spec fn is_action(uuid: Seq<char>) -> spec_fn(ActionDefinition) -> bool {
    |a: ActionDefinition| a.action_uuid@ == uuid
}

pub open spec fn by_action_creation() -> spec_fn(ActionDefinition) -> Rank {
    |a: ActionDefinition| (a.created_at, 0i64)
}

/// How an action that is there takes over a new definition.
pub open spec fn action_taken_over(new: ActionDefinition) -> spec_fn(
    ActionDefinition,
) -> ActionDefinition {
    |a: ActionDefinition|
        ActionDefinition { action_uuid: a.action_uuid, created_at: a.created_at, ..new }
}

pub open spec fn stamped_action(a: ActionDefinition, now: i64) -> ActionDefinition {
    ActionDefinition { created_at: now, updated_at: now, ..a }
}

/// The rows after the first `n` actions were seeded.
pub open spec fn actions_seeded(
    rows: Seq<Row<ActionDefinition>>,
    actions: Seq<ActionDefinition>,
    now: i64,
    n: int,
) -> Seq<Row<ActionDefinition>>
    decreases n,
{
    if n <= 0 {
        rows
    } else {
        let new = stamped_action(actions[n - 1], now);
        rows_upserted(
            actions_seeded(rows, actions, now, n - 1),
            is_action(new.action_uuid@),
            action_taken_over(new),
            new,
        )
    }
}

/// The run of an action that started last; a refusal where its source cannot be read.
pub open spec fn latest_invocation(data: Seq<ActionInvocationRecord>, action: Seq<char>) -> Result<
    Option<ActionInvocationRecord>,
    ErrorView,
> {
    match first_of(ranked(data, invocation_of(action), by_start(), true)) {
        Some(r) => if source_kind_of(r.source_kind@) is Some {
            Ok(Some(r))
        } else {
            Err(ErrorView::Failure { message: "Failed to fetch latest action invocation"@ })
        },
        None => Ok(None),
    }
}

pub open spec fn invocation_out(out: Result<Option<ActionInvocationRecord>, SdkError>) -> Result<
    Option<ActionInvocationRecord>,
    ErrorView,
> {
    match out {
        Ok(r) => Ok(r),
        Err(e) => Err(e@),
    }
}

pub open spec fn is_invocation(uuid: Seq<char>) -> spec_fn(ActionInvocationRecord) -> bool {
    |r: ActionInvocationRecord| r.invocation_uuid@ == uuid
}

pub open spec fn invocation_of(action: Seq<char>) -> spec_fn(ActionInvocationRecord) -> bool {
    |r: ActionInvocationRecord| r.action_uuid@ == action
}

pub open spec fn by_start() -> spec_fn(ActionInvocationRecord) -> Rank {
    |r: ActionInvocationRecord| (r.started_at, 0i64)
}

pub open spec fn binding_of(entity_type: Seq<char>, entity: Seq<char>) -> spec_fn(
    TriggerBinding,
) -> bool {
    |x: TriggerBinding| x.entity_type@ == entity_type && x.entity_uuid@ == entity
}

pub open spec fn binding_of_other(entity_type: Seq<char>, entity: Seq<char>) -> spec_fn(
    TriggerBinding,
) -> bool {
    |x: TriggerBinding| !(x.entity_type@ == entity_type && x.entity_uuid@ == entity)
}

pub open spec fn bound_to(trigger: Seq<char>) -> spec_fn(TriggerBinding) -> bool {
    |x: TriggerBinding| x.trigger_uuid@ == trigger
}

pub open spec fn bound_to_other(trigger: Seq<char>) -> spec_fn(TriggerBinding) -> bool {
    |x: TriggerBinding| x.trigger_uuid@ != trigger
}

pub open spec fn rebound(new: TriggerBinding) -> spec_fn(TriggerBinding) -> TriggerBinding {
    |x: TriggerBinding|
        TriggerBinding { trigger_uuid: new.trigger_uuid, created_at: new.created_at, ..x }
}

/// Whether the bindings of a store are those of another one after an entity was bound.
pub open spec fn entity_bound(
    old: Storage,
    new: Storage,
    trigger: Seq<char>,
    entity_type: Seq<char>,
    entity: Seq<char>,
    now: i64,
) -> bool {
    exists|row: TriggerBinding|
        row.trigger_uuid@ == trigger && row.entity_type@ == entity_type && row.entity_uuid@
            == entity && row.created_at == now && new.trigger_bindings.rows@
            == #[trigger] rows_upserted(
            old.trigger_bindings.rows@,
            binding_of(entity_type, entity),
            rebound(row),
            row,
        )
}

/// The trigger that an entity is bound to.
pub open spec fn trigger_for(
    data: Seq<TriggerBinding>,
    entity_type: Seq<char>,
    entity: Seq<char>,
) -> Option<Seq<char>> {
    match first_data(data, binding_of(entity_type, entity)) {
        Some(x) => Some(x.trigger_uuid@),
        None => None,
    }
}

/// Binding an entity replaces its binding: afterwards it is bound to that trigger, and
/// still to one trigger at most. Other entities keep their binding.
pub proof fn law_rebinding(
    old: Storage,
    new: Storage,
    trigger: Seq<char>,
    entity_type: Seq<char>,
    entity: Seq<char>,
    now: i64,
    other_type: Seq<char>,
    other: Seq<char>,
)
    requires
        entity_bound(old, new, trigger, entity_type, entity, now),
    ensures
        trigger_for(new.trigger_bindings.data(), entity_type, entity) == Some(trigger),
        at_most_one(old.trigger_bindings.data(), binding_of(entity_type, entity)) ==> at_most_one(
            new.trigger_bindings.data(),
            binding_of(entity_type, entity),
        ),
        (other_type != entity_type || other != entity) ==> trigger_for(
            new.trigger_bindings.data(),
            other_type,
            other,
        ) == trigger_for(old.trigger_bindings.data(), other_type, other),
{
    let row = choose|row: TriggerBinding|
        row.trigger_uuid@ == trigger && row.entity_type@ == entity_type && row.entity_uuid@
            == entity && row.created_at == now && new.trigger_bindings.rows@
            == #[trigger] rows_upserted(
            old.trigger_bindings.rows@,
            binding_of(entity_type, entity),
            rebound(row),
            row,
        );
    law_upsert_read_back(
        old.trigger_bindings.rows@,
        binding_of(entity_type, entity),
        rebound(row),
        row,
    );
    if other_type != entity_type || other != entity {
        law_upsert_leaves_others(
            old.trigger_bindings.rows@,
            binding_of(entity_type, entity),
            rebound(row),
            row,
            binding_of(other_type, other),
        );
    }
}

pub open spec fn binding_view(x: TriggerBinding) -> (Seq<char>, Seq<char>, Seq<char>) {
    (x.trigger_uuid@, x.entity_type@, x.entity_uuid@)
}

/// The first occurrence of each element.
pub open spec fn without_repeats(s: Seq<Seq<char>>) -> Seq<Seq<char>>
    decreases s.len(),
{
    if s.len() == 0 {
        Seq::empty()
    } else {
        let before = without_repeats(s.drop_last());
        if before.contains(s.last()) {
            before
        } else {
            before.push(s.last())
        }
    }
}

pub open spec fn bound_uuids(data: Seq<TriggerBinding>) -> Seq<Seq<char>> {
    data.map_values(|x: TriggerBinding| x.trigger_uuid@)
}

/// A trigger with one of its bindings, or without one where it has none.
pub open spec fn trigger_lines(bindings: Seq<TriggerBinding>, t: StoredTrigger) -> Seq<TriggerInfo> {
    let own = bindings.filter(bound_to(t.trigger_uuid@));
    if own.len() == 0 {
        seq![TriggerInfo { trigger: t, bind_type: None, bind_uuid: None }]
    } else {
        own.map_values(
            |x: TriggerBinding|
                TriggerInfo {
                    trigger: t,
                    bind_type: Some(x.entity_type),
                    bind_uuid: Some(x.entity_uuid),
                },
        )
    }
}

/// The lines of a list of triggers.
pub open spec fn all_lines(bindings: Seq<TriggerBinding>, triggers: Seq<StoredTrigger>) -> Seq<
    TriggerInfo,
>
    decreases triggers.len(),
{
    if triggers.len() == 0 {
        Seq::empty()
    } else {
        all_lines(bindings, triggers.drop_last()) + trigger_lines(bindings, triggers.last())
    }
}

pub open spec fn by_trigger_creation() -> spec_fn(StoredTrigger) -> Rank {
    |t: StoredTrigger| (t.created_at, 0i64)
}

pub open spec fn by_trigger_change() -> spec_fn(StoredTrigger) -> Rank {
    |t: StoredTrigger| (t.updated_at, 0i64)
}

pub open spec fn triple_view(t: (String, String, String)) -> (Seq<char>, Seq<char>, Seq<char>) {
    (t.0@, t.1@, t.2@)
}

/// Whether a text stands in a list.
pub fn holds_text(list: &Vec<String>, s: &str) -> (r: bool)
    ensures
        r == views(list@).contains(s@),
{
    let mut i: usize = 0;
    while i < list.len()
        invariant
            i <= list@.len(),
            forall|k: int| 0 <= k < i ==> (#[trigger] list@[k])@ != s@,
        decreases list@.len() - i,
    {
        if same(list[i].as_str(), s) {
            assert(views(list@)[i as int] == s@);
            return true;
        }
        i = i + 1;
    }
    proof {
        if views(list@).contains(s@) {
            let w = choose|w: int| 0 <= w < views(list@).len() && views(list@)[w] == s@;
            assert(list@[w]@ == s@);
        }
    }
    false
}

impl Storage {
    /// Registers a trigger at the time `now` and returns the id of the registration.
    pub fn insert_trigger_at(
        &mut self,
        params: TriggerRegistration,
        next_fire: Option<i64>,
        now: i64,
    ) -> (out: String)
        ensures
            *final(self) == (Storage { triggers: final(self).triggers, ..*old(self) }),
            out@ == registration_id(params.trigger_uuid@, next_fire),
            trigger_registered(*old(self), *final(self), params, next_fire, now),
            old(self).well_formed() ==> final(self).well_formed(),
    {
        broadcast use group_keyed;

        let precondition = rules_to_json(&params.precondition);
        let condition = rules_to_json(&params.condition);
        proof {
            lemma_rules_plain(rule_views(params.precondition@));
            lemma_rules_plain(rule_views(params.condition@));
            law_rules_round_trip(rule_views(params.precondition@));
            law_rules_round_trip(rule_views(params.condition@));
        }
        let row = StoredTrigger {
            trigger_uuid: params.trigger_uuid.clone(),
            name: params.name.clone(),
            version: params.version.clone(),
            precondition_json: write_json(&precondition),
            condition_json: write_json(&condition),
            action_uuid: params.action_uuid.clone(),
            action_args_json: write_json(&params.action_args),
            next_fire,
            last_result: None,
            is_paused: false,
            created_at: now,
            updated_at: now,
        };
        let new = row.duplicate();
        let held = &row;
        let uuid = params.trigger_uuid.as_str();
        let hit = |t: &StoredTrigger| -> (b: bool)
            ensures
                b == is_trigger(uuid@)(*t),
            { same(t.trigger_uuid.as_str(), uuid) };
        let change = |t: &StoredTrigger| -> (out: StoredTrigger)
            ensures
                out == trigger_taken_over(*held)(*t),
            {
                StoredTrigger {
                    trigger_uuid: t.trigger_uuid.clone(),
                    name: held.name.clone(),
                    version: held.version.clone(),
                    precondition_json: held.precondition_json.clone(),
                    condition_json: held.condition_json.clone(),
                    action_uuid: held.action_uuid.clone(),
                    action_args_json: held.action_args_json.clone(),
                    next_fire: held.next_fire,
                    last_result: None,
                    is_paused: t.is_paused,
                    created_at: t.created_at,
                    updated_at: held.updated_at,
                }
            };
        self.triggers.upsert(
            hit,
            change,
            new,
            Ghost(is_trigger(uuid@)),
            Ghost(trigger_taken_over(*held)),
        );
        let at = signed_text(
            match next_fire {
                Some(at) => at,
                None => 0,
            },
        );
        cat3(uuid, ":", at.as_str())
    }

    /// Registers a trigger now.
    pub fn insert_trigger(
        &mut self,
        params: TriggerRegistration,
        next_fire: Option<i64>,
    ) -> (out: String)
        ensures
            *final(self) == (Storage { triggers: final(self).triggers, ..*old(self) }),
            out@ == registration_id(params.trigger_uuid@, next_fire),
            exists|now: i64| clock_seconds(now) && #[trigger]
                trigger_registered(*old(self), *final(self), params, next_fire, now),
            old(self).well_formed() ==> final(self).well_formed(),
    {
        let now: i64 = now_seconds();
        self.insert_trigger_at(params, next_fire, now)
    }

    /// Keeps how a trigger fired, and when it fires next.
    pub fn update_next_fire(
        &mut self,
        trigger_uuid: &str,
        fired_at: i64,
        next_fire: Option<i64>,
        last_result: bool,
    )
        ensures
            *final(self) == (Storage { triggers: final(self).triggers, ..*old(self) }),
            final(self).triggers.rows@ == rows_updated(
                old(self).triggers.rows@,
                is_trigger(trigger_uuid@),
                trigger_fired(fired_at, next_fire, last_result),
            ),
            old(self).well_formed() ==> final(self).well_formed(),
    {
        broadcast use group_keyed;

        let hit = |t: &StoredTrigger| -> (b: bool)
            ensures
                b == is_trigger(trigger_uuid@)(*t),
            { same(t.trigger_uuid.as_str(), trigger_uuid) };
        let change = |t: &StoredTrigger| -> (out: StoredTrigger)
            ensures
                out == trigger_fired(fired_at, next_fire, last_result)(*t),
            {
                StoredTrigger {
                    trigger_uuid: t.trigger_uuid.clone(),
                    name: t.name.clone(),
                    version: t.version.clone(),
                    precondition_json: t.precondition_json.clone(),
                    condition_json: t.condition_json.clone(),
                    action_uuid: t.action_uuid.clone(),
                    action_args_json: t.action_args_json.clone(),
                    next_fire: next_fire,
                    last_result: Some(last_result),
                    is_paused: t.is_paused,
                    created_at: t.created_at,
                    updated_at: fired_at,
                }
            };
        self.triggers.update(
            hit,
            change,
            Ghost(is_trigger(trigger_uuid@)),
            Ghost(trigger_fired(fired_at, next_fire, last_result)),
        );
    }

    /// Pauses a trigger or lets it go on, at the time `now`.
    pub fn set_trigger_paused_at(&mut self, trigger_uuid: &str, paused: bool, now: i64)
        ensures
            *final(self) == (Storage { triggers: final(self).triggers, ..*old(self) }),
            final(self).triggers.rows@ == rows_updated(
                old(self).triggers.rows@,
                is_trigger(trigger_uuid@),
                trigger_paused(paused, now),
            ),
            old(self).well_formed() ==> final(self).well_formed(),
    {
        broadcast use group_keyed;

        let hit = |t: &StoredTrigger| -> (b: bool)
            ensures
                b == is_trigger(trigger_uuid@)(*t),
            { same(t.trigger_uuid.as_str(), trigger_uuid) };
        let change = |t: &StoredTrigger| -> (out: StoredTrigger)
            ensures
                out == trigger_paused(paused, now)(*t),
            {
                StoredTrigger {
                    trigger_uuid: t.trigger_uuid.clone(),
                    name: t.name.clone(),
                    version: t.version.clone(),
                    precondition_json: t.precondition_json.clone(),
                    condition_json: t.condition_json.clone(),
                    action_uuid: t.action_uuid.clone(),
                    action_args_json: t.action_args_json.clone(),
                    next_fire: t.next_fire,
                    last_result: t.last_result,
                    is_paused: paused,
                    created_at: t.created_at,
                    updated_at: now,
                }
            };
        self.triggers.update(
            hit,
            change,
            Ghost(is_trigger(trigger_uuid@)),
            Ghost(trigger_paused(paused, now)),
        );
    }

    /// Pauses a trigger or lets it go on. A paused trigger is never due.
    pub fn set_trigger_paused(&mut self, trigger_uuid: &str, paused: bool)
        ensures
            *final(self) == (Storage { triggers: final(self).triggers, ..*old(self) }),
            exists|now: i64|
                clock_seconds(now) && final(self).triggers.rows@ == #[trigger] rows_updated(
                    old(self).triggers.rows@,
                    is_trigger(trigger_uuid@),
                    trigger_paused(paused, now),
                ),
            old(self).well_formed() ==> final(self).well_formed(),
    {
        let now: i64 = now_seconds();
        self.set_trigger_paused_at(trigger_uuid, paused, now);
    }

    /// Gives a trigger an action and its arguments, or takes its action away, at the time
    /// `now`.
    pub fn set_trigger_action_at(
        &mut self,
        trigger_uuid: &str,
        action_uuid: Option<String>,
        args: &Json,
        now: i64,
    )
        ensures
            *final(self) == (Storage { triggers: final(self).triggers, ..*old(self) }),
            trigger_action_set(
                *old(self),
                *final(self),
                trigger_uuid@,
                opt_view(action_uuid),
                args@,
                now,
            ),
            old(self).well_formed() ==> final(self).well_formed(),
    {
        broadcast use group_keyed;

        let text = write_json(args);
        let ghost set = trigger_acting(action_uuid, text, now);
        let action = &action_uuid;
        let args_json = &text;
        let hit = |t: &StoredTrigger| -> (b: bool)
            ensures
                b == is_trigger(trigger_uuid@)(*t),
            { same(t.trigger_uuid.as_str(), trigger_uuid) };
        let change = |t: &StoredTrigger| -> (out: StoredTrigger)
            ensures
                out == trigger_acting(*action, *args_json, now)(*t),
            {
                StoredTrigger {
                    trigger_uuid: t.trigger_uuid.clone(),
                    name: t.name.clone(),
                    version: t.version.clone(),
                    precondition_json: t.precondition_json.clone(),
                    condition_json: t.condition_json.clone(),
                    action_uuid: action.clone(),
                    action_args_json: args_json.clone(),
                    next_fire: t.next_fire,
                    last_result: t.last_result,
                    is_paused: t.is_paused,
                    created_at: t.created_at,
                    updated_at: now,
                }
            };
        self.triggers.update(hit, change, Ghost(is_trigger(trigger_uuid@)), Ghost(set));
    }

    /// Makes a trigger due, at the time `now`.
    pub fn mark_trigger_due_at(&mut self, trigger_uuid: &str, due_at: i64, now: i64)
        ensures
            *final(self) == (Storage { triggers: final(self).triggers, ..*old(self) }),
            final(self).triggers.rows@ == rows_updated(
                old(self).triggers.rows@,
                is_trigger(trigger_uuid@),
                trigger_due(due_at, now),
            ),
            old(self).well_formed() ==> final(self).well_formed(),
    {
        broadcast use group_keyed;

        let hit = |t: &StoredTrigger| -> (b: bool)
            ensures
                b == is_trigger(trigger_uuid@)(*t),
            { same(t.trigger_uuid.as_str(), trigger_uuid) };
        let change = |t: &StoredTrigger| -> (out: StoredTrigger)
            ensures
                out == trigger_due(due_at, now)(*t),
            {
                StoredTrigger {
                    trigger_uuid: t.trigger_uuid.clone(),
                    name: t.name.clone(),
                    version: t.version.clone(),
                    precondition_json: t.precondition_json.clone(),
                    condition_json: t.condition_json.clone(),
                    action_uuid: t.action_uuid.clone(),
                    action_args_json: t.action_args_json.clone(),
                    next_fire: Some(due_at),
                    last_result: t.last_result,
                    is_paused: t.is_paused,
                    created_at: t.created_at,
                    updated_at: now,
                }
            };
        self.triggers.update(
            hit,
            change,
            Ghost(is_trigger(trigger_uuid@)),
            Ghost(trigger_due(due_at, now)),
        );
    }

    /// Makes a trigger due.
    pub fn mark_trigger_due(&mut self, trigger_uuid: &str, due_at: i64)
        ensures
            *final(self) == (Storage { triggers: final(self).triggers, ..*old(self) }),
            exists|now: i64|
                clock_seconds(now) && final(self).triggers.rows@ == #[trigger] rows_updated(
                    old(self).triggers.rows@,
                    is_trigger(trigger_uuid@),
                    trigger_due(due_at, now),
                ),
            old(self).well_formed() ==> final(self).well_formed(),
    {
        let now: i64 = now_seconds();
        self.mark_trigger_due_at(trigger_uuid, due_at, now);
    }

    /// The triggers that are due, the longest due first.
    pub fn fetch_due_triggers(&self, now: i64) -> (out: Vec<StoredTrigger>)
        ensures
            out@ == ranked(self.triggers.data(), is_due(now), by_fire_time(), false),
    {
        let keep = |t: &StoredTrigger| -> (b: bool)
            ensures
                b == is_due(now)(*t),
            {
                match t.next_fire {
                    Some(at) => at <= now && !t.is_paused,
                    None => false,
                }
            };
        let rank = |t: &StoredTrigger| -> (k: Rank)
            ensures
                k == by_fire_time()(*t),
            {
                match t.next_fire {
                    Some(at) => (at, 0),
                    None => (0, 0),
                }
            };
        let all = self.triggers.select(
            keep,
            rank,
            false,
            Ghost(is_due(now)),
            Ghost(by_fire_time()),
        );
        all
    }

    /// A trigger by its uuid.
    pub fn fetch_trigger(&self, trigger_uuid: &str) -> (out: Option<StoredTrigger>)
        ensures
            out == first_data(self.triggers.data(), is_trigger(trigger_uuid@)),
    {
        let hit = |t: &StoredTrigger| -> (b: bool)
            ensures
                b == is_trigger(trigger_uuid@)(*t),
            { same(t.trigger_uuid.as_str(), trigger_uuid) };
        self.triggers.first(hit, Ghost(is_trigger(trigger_uuid@)))
    }

    /// When the next trigger fires, after `now_unix` where that is given.
    pub fn next_deadline(&self, now_unix: Option<i64>) -> (out: Option<i64>)
        ensures
            out == match first_of(
                ranked(self.triggers.data(), fires_after(now_unix), by_fire_time(), false),
            ) {
                Some(t) => t.next_fire,
                None => None,
            },
    {
        let keep = |t: &StoredTrigger| -> (b: bool)
            ensures
                b == fires_after(now_unix)(*t),
            {
                match (t.next_fire, now_unix) {
                    (Some(at), Some(now)) => at > now,
                    (Some(_), None) => true,
                    (None, _) => false,
                }
            };
        let rank = |t: &StoredTrigger| -> (k: Rank)
            ensures
                k == by_fire_time()(*t),
            {
                match t.next_fire {
                    Some(at) => (at, 0),
                    None => (0, 0),
                }
            };
        let all = self.triggers.select(
            keep,
            rank,
            false,
            Ghost(fires_after(now_unix)),
            Ghost(by_fire_time()),
        );
        match first_item(&all) {
            Some(t) => t.next_fire,
            None => None,
        }
    }

    /// Stores an event at the time `now`.
    pub fn insert_event_at(&mut self, event: &EventPayload, now: i64)
        ensures
            *final(self) == (Storage { events: final(self).events, ..*old(self) }),
            exists|row: StoredEvent|
                #[trigger] event_row(row, *event, now) && final(self).events.rows@
                    == old(self).events.rows@.push((Row { user_id: None, data: row })),
            old(self).well_formed() ==> final(self).well_formed(),
    {
        broadcast use group_keyed;

        let row = StoredEvent {
            event_type: event.event_type.clone(),
            timestamp: write_rfc3339_offset(event.timestamp),
            timestamp_utc: event.timestamp.seconds,
            metadata_json: write_json(&event.metadata),
            created_at: now,
        };
        let ghost stored = row;
        self.events.push(row);
        assert(event_row(stored, *event, now));
    }

    /// Stores an event now.
    pub fn insert_event(&mut self, event: &EventPayload)
        ensures
            *final(self) == (Storage { events: final(self).events, ..*old(self) }),
            exists|row: StoredEvent, now: i64|
                clock_seconds(now) && #[trigger] event_row(row, *event, now)
                    && final(self).events.rows@
                    == old(self).events.rows@.push((Row { user_id: None, data: row })),
            old(self).well_formed() ==> final(self).well_formed(),
    {
        let now: i64 = now_seconds();
        self.insert_event_at(event, now);
    }

    /// The events of the minutes up to `cutoff`, the latest first.
    pub fn fetch_events_recent(&self, cutoff: i64, past_minutes: u32) -> (out: Vec<StoredEvent>)
        requires
            i64::MIN <= cutoff - 60 * past_minutes,
        ensures
            out@ == ranked(
                self.events.data(),
                event_between(cutoff - 60 * past_minutes, cutoff as int),
                by_event_time(),
                true,
            ),
    {
        let start: i64 = cutoff - 60 * past_minutes as i64;
        let keep = |e: &StoredEvent| -> (b: bool)
            ensures
                b == event_between(start as int, cutoff as int)(*e),
            { start <= e.timestamp_utc && e.timestamp_utc <= cutoff };
        let rank = |e: &StoredEvent| -> (k: Rank)
            ensures
                k == by_event_time()(*e),
            { (e.timestamp_utc, 0) };
        let all = self.events.select(
            keep,
            rank,
            true,
            Ghost(event_between(start as int, cutoff as int)),
            Ghost(by_event_time()),
        );
        all
    }

    /// The events, the oldest first; `offset` counts only where there is a limit.
    pub fn list_events(&self, limit: Option<u32>, offset: u32) -> (out: Vec<StoredEvent>)
        ensures
            out@ == match real_limit(limit) {
                Some(n) => page(
                    ranked(self.events.data(), every(), by_event_time(), false),
                    Some(n),
                    offset,
                ),
                None => ranked(self.events.data(), every(), by_event_time(), false),
            },
    {
        let keep = |e: &StoredEvent| -> (b: bool)
            ensures
                b == every::<StoredEvent>()(*e),
            { true };
        let rank = |e: &StoredEvent| -> (k: Rank)
            ensures
                k == by_event_time()(*e),
            { (e.timestamp_utc, 0) };
        let all = self.events.select(
            keep,
            rank,
            false,
            Ghost(every::<StoredEvent>()),
            Ghost(by_event_time()),
        );
        match limit {
            Some(n) => if n > 0 {
                take_page(&all, Some(n), offset)
            } else {
                all
            },
            None => all,
        }
    }

    /// The events of a span of time, the oldest first.
    pub fn list_events_between_utc(
        &self,
        start_ts_utc: i64,
        end_ts_utc: i64,
    ) -> (out: Vec<StoredEvent>)
        ensures
            out@ == ranked(
                self.events.data(),
                event_between(start_ts_utc as int, end_ts_utc as int),
                by_event_time(),
                false,
            ),
    {
        let keep = |e: &StoredEvent| -> (b: bool)
            ensures
                b == event_between(start_ts_utc as int, end_ts_utc as int)(*e),
            { start_ts_utc <= e.timestamp_utc && e.timestamp_utc <= end_ts_utc };
        let rank = |e: &StoredEvent| -> (k: Rank)
            ensures
                k == by_event_time()(*e),
            { (e.timestamp_utc, 0) };
        let all = self.events.select(
            keep,
            rank,
            false,
            Ghost(event_between(start_ts_utc as int, end_ts_utc as int)),
            Ghost(by_event_time()),
        );
        all
    }

    /// How many events there are.
    pub fn events_count(&self) -> (n: i64)
        requires
            self.events.rows@.len() <= i64::MAX,
        ensures
            n == self.events.rows@.len(),
    {
        self.events.rows.len() as i64
    }

    /// The times of the first and the last event.
    pub fn events_time_range(&self) -> (span: Option<(i64, i64)>)
        ensures
            time_span(self.events.data(), span),
    {
        let ghost data = self.events.data();
        if self.events.rows.len() == 0 {
            return None;
        }
        let mut first: i64 = self.events.rows[0].data.timestamp_utc;
        let mut last: i64 = first;
        let mut i: usize = 1;
        assert(data[0].timestamp_utc == first);
        while i < self.events.rows.len()
            invariant
                1 <= i <= self.events.rows@.len(),
                data == self.events.data(),
                exists|k: int| 0 <= k < data.len() && (#[trigger] data[k]).timestamp_utc == first,
                exists|k: int| 0 <= k < data.len() && (#[trigger] data[k]).timestamp_utc == last,
                forall|k: int| 0 <= k < i ==> first <= (#[trigger] data[k]).timestamp_utc <= last,
            decreases self.events.rows@.len() - i,
        {
            let at: i64 = self.events.rows[i].data.timestamp_utc;
            assert(data[i as int].timestamp_utc == at);
            if at < first {
                first = at;
            }
            if at > last {
                last = at;
            }
            i = i + 1;
        }
        Some((first, last))
    }

    /// Adds a line to the log of a trigger at the time `now`.
    pub fn insert_trigger_log_at(
        &mut self,
        trigger_uuid: &str,
        level: &str,
        message: &str,
        fire_time: i64,
        run_type: TriggerRunType,
        now: i64,
    )
        ensures
            *final(self) == (Storage { trigger_logs: final(self).trigger_logs, ..*old(self) }),
            exists|row: TriggerLogEntry|
                #[trigger] log_row(row, trigger_uuid@, level@, message@, fire_time, run_type, now)
                    && final(self).trigger_logs.rows@ == old(self).trigger_logs.rows@.push(
                    (Row { user_id: None, data: row }),
                ),
            old(self).well_formed() ==> final(self).well_formed(),
    {
        broadcast use group_keyed;

        let row = TriggerLogEntry {
            trigger_id: owned(trigger_uuid),
            level: owned(level),
            message: owned(message),
            fire_time,
            created_at: now,
            run_type: owned(run_type.as_str()),
        };
        let ghost stored = row;
        self.trigger_logs.push(row);
        assert(log_row(stored, trigger_uuid@, level@, message@, fire_time, run_type, now));
    }

    /// Adds a line to the log of a trigger now.
    pub fn insert_trigger_log(
        &mut self,
        trigger_uuid: &str,
        level: &str,
        message: &str,
        fire_time: i64,
        run_type: TriggerRunType,
    )
        ensures
            *final(self) == (Storage { trigger_logs: final(self).trigger_logs, ..*old(self) }),
            exists|row: TriggerLogEntry, now: i64|
                clock_seconds(now) && #[trigger] log_row(
                    row,
                    trigger_uuid@,
                    level@,
                    message@,
                    fire_time,
                    run_type,
                    now,
                )
                    && final(self).trigger_logs.rows@ == old(self).trigger_logs.rows@.push(
                    (Row { user_id: None, data: row }),
                ),
            old(self).well_formed() ==> final(self).well_formed(),
    {
        let now: i64 = now_seconds();
        self.insert_trigger_log_at(trigger_uuid, level, message, fire_time, run_type, now);
    }

    /// The log lines of a trigger, the latest first. One with a kind of runs that cannot be
    /// read makes the whole fail.
    pub fn list_trigger_logs(
        &self,
        trigger_uuid: &str,
        limit: Option<u32>,
        run_type: Option<TriggerRunType>,
    ) -> (out: Result<Vec<TriggerLogEntry>, SdkError>)
        ensures
            ({
                let lines = page(
                    ranked(
                        self.trigger_logs.data(),
                        log_of(trigger_uuid@, run_type),
                        by_log_time(),
                        true,
                    ),
                    real_limit(limit),
                    0,
                );
                match out {
                    Ok(o) => o@ == lines && runs_readable(lines),
                    Err(e) => !runs_readable(lines) && e@ == logs_fault(run_type, limit),
                }
            }),
    {
        let keep = |l: &TriggerLogEntry| -> (b: bool)
            ensures
                b == log_of(trigger_uuid@, run_type)(*l),
            {
                same(l.trigger_id.as_str(), trigger_uuid) && match run_type {
                    Some(r) => same(l.run_type.as_str(), r.as_str()),
                    None => true,
                }
            };
        let rank = |l: &TriggerLogEntry| -> (k: Rank)
            ensures
                k == by_log_time()(*l),
            { (l.created_at, 0) };
        let all = self.trigger_logs.select(
            keep,
            rank,
            true,
            Ghost(log_of(trigger_uuid@, run_type)),
            Ghost(by_log_time()),
        );
        let wanted = match limit {
            Some(n) => if n > 0 {
                Some(n)
            } else {
                None
            },
            None => None,
        };
        let lines = take_page(&all, wanted, 0);
        let mut i: usize = 0;
        while i < lines.len()
            invariant
                i <= lines@.len(),
                wanted == real_limit(limit),
                lines@ == page(
                    ranked(
                        self.trigger_logs.data(),
                        log_of(trigger_uuid@, run_type),
                        by_log_time(),
                        true,
                    ),
                    wanted,
                    0,
                ),
                forall|k: int|
                    0 <= k < i ==> run_type_of((#[trigger] lines@[k]).run_type@) is Some,
            decreases lines@.len() - i,
        {
            if TriggerRunType::from_name(lines[i].run_type.as_str()).is_none() {
                proof {
                    assert(run_type_of(lines@[i as int].run_type@) is None);
                }
                return Err(
                    failure(
                        if run_type.is_some() {
                            "Failed to fetch filtered trigger logs"
                        } else if wanted.is_some() {
                            "Failed to fetch limited trigger logs"
                        } else {
                            "Failed to fetch trigger logs"
                        },
                    ),
                );
            }
            i = i + 1;
        }
        Ok(lines)
    }

    /// All log lines of a trigger, the latest first.
    pub fn export_trigger_logs(
        &self,
        trigger_uuid: &str,
        run_type: Option<TriggerRunType>,
    ) -> (out: Result<Vec<TriggerLogEntry>, SdkError>)
        ensures
            ({
                let lines = ranked(
                    self.trigger_logs.data(),
                    log_of(trigger_uuid@, run_type),
                    by_log_time(),
                    true,
                );
                match out {
                    Ok(o) => o@ == lines && runs_readable(lines),
                    Err(e) => !runs_readable(lines) && e@ == logs_fault(run_type, None),
                }
            }),
    {
        let out = self.list_trigger_logs(trigger_uuid, None, run_type);
        proof {
            let all = ranked(
                self.trigger_logs.data(),
                log_of(trigger_uuid@, run_type),
                by_log_time(),
                true,
            );
            assert(page(all, None, 0) =~= all);
        }
        out
    }

    /// The lines of a list of triggers.
    fn with_bindings(&self, triggers: &Vec<StoredTrigger>) -> (out: Vec<TriggerInfo>)
        ensures
            out@ == all_lines(self.trigger_bindings.data(), triggers@),
    {
        let ghost bindings = self.trigger_bindings.data();
        let mut out: Vec<TriggerInfo> = Vec::new();
        let mut i: usize = 0;
        proof {
            assert(triggers@.take(0) =~= Seq::empty());
        }
        while i < triggers.len()
            invariant
                i <= triggers@.len(),
                bindings == self.trigger_bindings.data(),
                out@ == all_lines(bindings, triggers@.take(i as int)),
            decreases triggers@.len() - i,
        {
            let t = &triggers[i];
            let own = self.bindings_of_trigger(t.trigger_uuid.as_str());
            let ghost before = out@;
            let ghost lines = trigger_lines(bindings, *t);
            if own.len() == 0 {
                out.push(TriggerInfo { trigger: t.duplicate(), bind_type: None, bind_uuid: None });
                proof {
                    assert(out@ =~= before + lines);
                }
            } else {
                let mut k: usize = 0;
                while k < own.len()
                    invariant
                        k <= own@.len(),
                        own@.len() > 0,
                        own@ == bindings.filter(bound_to(t.trigger_uuid@)),
                        lines == trigger_lines(bindings, *t),
                        out@ == before + lines.take(k as int),
                    decreases own@.len() - k,
                {
                    out.push(
                        TriggerInfo {
                            trigger: t.duplicate(),
                            bind_type: Some(own[k].entity_type.clone()),
                            bind_uuid: Some(own[k].entity_uuid.clone()),
                        },
                    );
                    proof {
                        assert(lines.take(k + 1) =~= lines.take(k as int).push(lines[k as int]));
                        assert(out@ =~= before + lines.take(k + 1));
                    }
                    k = k + 1;
                }
                proof {
                    assert(lines.take(k as int) =~= lines);
                }
            }
            proof {
                assert(triggers@.take(i + 1).drop_last() =~= triggers@.take(i as int));
            }
            i = i + 1;
        }
        proof {
            assert(triggers@.take(i as int) =~= triggers@);
        }
        out
    }

    /// The bindings of a trigger.
    fn bindings_of_trigger(&self, trigger_uuid: &str) -> (out: Vec<TriggerBinding>)
        ensures
            out@ == self.trigger_bindings.data().filter(bound_to(trigger_uuid@)),
    {
        let keep = |x: &TriggerBinding| -> (b: bool)
            ensures
                b == bound_to(trigger_uuid@)(*x),
            { same(x.trigger_uuid.as_str(), trigger_uuid) };
        self.trigger_bindings.pick(keep, Ghost(bound_to(trigger_uuid@)))
    }

    /// All triggers with what they are bound to, the oldest first.
    pub fn list_triggers(&self) -> (out: Vec<TriggerInfo>)
        ensures
            out@ == all_lines(
                self.trigger_bindings.data(),
                ranked(self.triggers.data(), every(), by_trigger_creation(), false),
            ),
    {
        let keep = |t: &StoredTrigger| -> (b: bool)
            ensures
                b == every::<StoredTrigger>()(*t),
            { true };
        let rank = |t: &StoredTrigger| -> (k: Rank)
            ensures
                k == by_trigger_creation()(*t),
            { (t.created_at, 0) };
        let all = self.triggers.select(
            keep,
            rank,
            false,
            Ghost(every::<StoredTrigger>()),
            Ghost(by_trigger_creation()),
        );
        self.with_bindings(&all)
    }

    /// The triggers that changed last, with what they are bound to.
    pub fn list_triggers_for_context_prompt(&self, limit: usize) -> (out: Vec<TriggerInfo>)
        ensures
            ({
                let lines = all_lines(
                    self.trigger_bindings.data(),
                    ranked(self.triggers.data(), every(), by_trigger_change(), true),
                );
                out@ == if limit <= lines.len() {
                    lines.take(limit as int)
                } else {
                    lines
                }
            }),
    {
        let keep = |t: &StoredTrigger| -> (b: bool)
            ensures
                b == every::<StoredTrigger>()(*t),
            { true };
        let rank = |t: &StoredTrigger| -> (k: Rank)
            ensures
                k == by_trigger_change()(*t),
            { (t.updated_at, 0) };
        let all = self.triggers.select(
            keep,
            rank,
            true,
            Ghost(every::<StoredTrigger>()),
            Ghost(by_trigger_change()),
        );
        let mut lines = self.with_bindings(&all);
        lines.truncate(limit);
        lines
    }

    /// Writes the built-in actions at the time `now`; those that are there keep the time of
    /// their creation.
    pub fn seed_builtin_actions_at(&mut self, actions: &Vec<ActionDefinition>, now: i64)
        ensures
            *final(self) == (Storage { actions: final(self).actions, ..*old(self) }),
            final(self).actions.rows@ == actions_seeded(
                old(self).actions.rows@,
                actions@,
                now,
                actions@.len() as int,
            ),
            old(self).well_formed() ==> final(self).well_formed(),
    {
        let mut i: usize = 0;
        while i < actions.len()
            invariant
                i <= actions@.len(),
                *self == (Storage { actions: self.actions, ..*old(self) }),
                self.actions.rows@ == actions_seeded(
                    old(self).actions.rows@,
                    actions@,
                    now,
                    i as int,
                ),
                old(self).well_formed() ==> self.well_formed(),
            decreases actions@.len() - i,
        {
            let ghost before = self.actions.rows@;
            let a = &actions[i];
            let row = ActionDefinition {
                action_uuid: a.action_uuid.clone(),
                name: a.name.clone(),
                title: a.title.clone(),
                description: a.description.clone(),
                version: a.version.clone(),
                category: a.category.clone(),
                enabled: a.enabled,
                metadata_json: a.metadata_json.clone(),
                script_source: a.script_source.clone(),
                input_schema_json: a.input_schema_json.clone(),
                output_schema_json: a.output_schema_json.clone(),
                created_at: now,
                updated_at: now,
            };
            let new = row.duplicate();
            let held = &row;
            let hit = |x: &ActionDefinition| -> (b: bool)
                ensures
                    b == is_action(held.action_uuid@)(*x),
                { same(x.action_uuid.as_str(), held.action_uuid.as_str()) };
            let change = |x: &ActionDefinition| -> (out: ActionDefinition)
                ensures
                    out == action_taken_over(*held)(*x),
                {
                    ActionDefinition {
                        action_uuid: x.action_uuid.clone(),
                        name: held.name.clone(),
                        title: held.title.clone(),
                        description: held.description.clone(),
                        version: held.version.clone(),
                        category: held.category.clone(),
                        enabled: held.enabled,
                        metadata_json: held.metadata_json.clone(),
                        script_source: held.script_source.clone(),
                        input_schema_json: held.input_schema_json.clone(),
                        output_schema_json: held.output_schema_json.clone(),
                        created_at: x.created_at,
                        updated_at: held.updated_at,
                    }
                };
            self.actions.upsert(
                hit,
                change,
                new,
                Ghost(is_action(held.action_uuid@)),
                Ghost(action_taken_over(*held)),
            );
            proof {
                if old(self).well_formed() {
                    lemma_keyed_upserted(
                        before,
                        is_action(held.action_uuid@),
                        action_taken_over(*held),
                        *held,
                        action_key(),
                    );
                }
            }
            i = i + 1;
        }
    }

    /// Writes the built-in actions now.
    pub fn seed_builtin_actions(&mut self, actions: &Vec<ActionDefinition>)
        ensures
            *final(self) == (Storage { actions: final(self).actions, ..*old(self) }),
            exists|now: i64|
                clock_seconds(now) && final(self).actions.rows@ == #[trigger] actions_seeded(
                    old(self).actions.rows@,
                    actions@,
                    now,
                    actions@.len() as int,
                ),
            old(self).well_formed() ==> final(self).well_formed(),
    {
        let now: i64 = now_seconds();
        self.seed_builtin_actions_at(actions, now);
    }

    /// All actions, the oldest first.
    pub fn list_actions(&self) -> (out: Vec<ActionDefinition>)
        ensures
            out@ == ranked(
                self.actions.data(),
                every::<ActionDefinition>(),
                by_action_creation(),
                false,
            ),
    {
        let keep = |a: &ActionDefinition| -> (b: bool)
            ensures
                b == every::<ActionDefinition>()(*a),
            { true };
        let rank = |a: &ActionDefinition| -> (k: Rank)
            ensures
                k == by_action_creation()(*a),
            { (a.created_at, 0) };
        let all = self.actions.select(
            keep,
            rank,
            false,
            Ghost(every::<ActionDefinition>()),
            Ghost(by_action_creation()),
        );
        all
    }

    /// An action by its uuid.
    pub fn fetch_action(&self, action_uuid: &str) -> (out: Option<ActionDefinition>)
        ensures
            out == first_data(self.actions.data(), is_action(action_uuid@)),
    {
        let hit = |a: &ActionDefinition| -> (b: bool)
            ensures
                b == is_action(action_uuid@)(*a),
            { same(a.action_uuid.as_str(), action_uuid) };
        self.actions.first(hit, Ghost(is_action(action_uuid@)))
    }

    /// Stores a run of an action; its uuid must be new.
    pub fn insert_action_invocation(
        &mut self,
        record: &ActionInvocationRecord,
    ) -> (out: Result<(), SdkError>)
        ensures
            out is Err <==> any_data(
                old(self).action_invocations.data(),
                is_invocation(record.invocation_uuid@),
            ),
            out matches Err(e) ==> *final(self) == *old(self) && e@ == (ErrorView::Failure {
                message: "Failed to insert action invocation"@,
            }),
            out is Ok ==> *final(self) == (Storage {
                action_invocations: final(self).action_invocations,
                ..*old(self)
            }) && final(self).action_invocations.rows@ == old(self).action_invocations.rows@.push(
                (Row { user_id: None, data: *record }),
            ),
            old(self).well_formed() ==> final(self).well_formed(),
    {
        broadcast use group_keyed;

        let hit = |r: &ActionInvocationRecord| -> (b: bool)
            ensures
                b == is_invocation(record.invocation_uuid@)(*r),
            { same(r.invocation_uuid.as_str(), record.invocation_uuid.as_str()) };
        if self.action_invocations.any(hit, Ghost(is_invocation(record.invocation_uuid@))) {
            return Err(failure("Failed to insert action invocation"));
        }
        self.action_invocations.push(record.duplicate());
        Ok(())
    }

    /// The run of an action that started last. One whose source cannot be read makes it fail.
    pub fn latest_action_invocation(
        &self,
        action_uuid: &str,
    ) -> (out: Result<Option<ActionInvocationRecord>, SdkError>)
        ensures
            invocation_out(out) == latest_invocation(
                self.action_invocations.data(),
                action_uuid@,
            ),
    {
        let keep = |r: &ActionInvocationRecord| -> (b: bool)
            ensures
                b == invocation_of(action_uuid@)(*r),
            { same(r.action_uuid.as_str(), action_uuid) };
        let rank = |r: &ActionInvocationRecord| -> (k: Rank)
            ensures
                k == by_start()(*r),
            { (r.started_at, 0) };
        let all = self.action_invocations.select(
            keep,
            rank,
            true,
            Ghost(invocation_of(action_uuid@)),
            Ghost(by_start()),
        );
        match first_item(&all) {
            Some(r) => if ActionInvocationSourceKind::from_name(
                r.source_kind.as_str(),
            ).is_some() {
                Ok(Some(r))
            } else {
                Err(failure("Failed to fetch latest action invocation"))
            },
            None => Ok(None),
        }
    }

    /// Binds an entity to a trigger at the time `now`, in place of any other.
    pub fn upsert_trigger_binding_at(
        &mut self,
        trigger_uuid: &str,
        entity_type: &str,
        entity_uuid: &str,
        now: i64,
    )
        ensures
            *final(self) == (Storage {
                trigger_bindings: final(self).trigger_bindings,
                ..*old(self)
            }),
            entity_bound(
                *old(self),
                *final(self),
                trigger_uuid@,
                entity_type@,
                entity_uuid@,
                now,
            ),
            old(self).well_formed() ==> final(self).well_formed(),
    {
        broadcast use group_keyed;

        let row = TriggerBinding {
            trigger_uuid: owned(trigger_uuid),
            entity_type: owned(entity_type),
            entity_uuid: owned(entity_uuid),
            created_at: now,
        };
        let new = row.duplicate();
        let held = &row;
        let hit = |x: &TriggerBinding| -> (b: bool)
            ensures
                b == binding_of(entity_type@, entity_uuid@)(*x),
            { same(x.entity_type.as_str(), entity_type)
                && same(x.entity_uuid.as_str(), entity_uuid) };
        let change = |x: &TriggerBinding| -> (out: TriggerBinding)
            ensures
                out == rebound(*held)(*x),
            {
                TriggerBinding {
                    trigger_uuid: held.trigger_uuid.clone(),
                    entity_type: x.entity_type.clone(),
                    entity_uuid: x.entity_uuid.clone(),
                    created_at: held.created_at,
                }
            };
        self.trigger_bindings.upsert(
            hit,
            change,
            new,
            Ghost(binding_of(entity_type@, entity_uuid@)),
            Ghost(rebound(*held)),
        );
    }

    /// Binds an entity to a trigger now.
    pub fn upsert_trigger_binding(
        &mut self,
        trigger_uuid: &str,
        entity_type: &str,
        entity_uuid: &str,
    )
        ensures
            *final(self) == (Storage {
                trigger_bindings: final(self).trigger_bindings,
                ..*old(self)
            }),
            exists|now: i64| clock_seconds(now) && #[trigger]
                entity_bound(
                    *old(self),
                    *final(self),
                    trigger_uuid@,
                    entity_type@,
                    entity_uuid@,
                    now,
                ),
            old(self).well_formed() ==> final(self).well_formed(),
    {
        let now: i64 = now_seconds();
        self.upsert_trigger_binding_at(trigger_uuid, entity_type, entity_uuid, now);
    }

    /// Unbinds an entity.
    pub fn delete_trigger_binding(&mut self, entity_type: &str, entity_uuid: &str)
        ensures
            *final(self) == (Storage {
                trigger_bindings: final(self).trigger_bindings,
                ..*old(self)
            }),
            final(self).trigger_bindings.rows@ == rows_kept(
                old(self).trigger_bindings.rows@,
                binding_of_other(entity_type@, entity_uuid@),
            ),
            old(self).well_formed() ==> final(self).well_formed(),
    {
        broadcast use group_keyed;

        let keep = |x: &TriggerBinding| -> (b: bool)
            ensures
                b == binding_of_other(entity_type@, entity_uuid@)(*x),
            { !(same(x.entity_type.as_str(), entity_type)
                && same(x.entity_uuid.as_str(), entity_uuid)) };
        self.trigger_bindings.retain(keep, Ghost(binding_of_other(entity_type@, entity_uuid@)));
    }

    /// All bindings.
    pub fn list_trigger_bindings(&self) -> (out: Vec<(String, String, String)>)
        ensures
            out@.len() == self.trigger_bindings.rows@.len(),
            forall|k: int|
                0 <= k < out@.len() ==> triple_view(#[trigger] out@[k]) == binding_view(
                    self.trigger_bindings.data()[k],
                ),
    {
        let mut out: Vec<(String, String, String)> = Vec::new();
        let mut i: usize = 0;
        while i < self.trigger_bindings.rows.len()
            invariant
                i <= self.trigger_bindings.rows@.len(),
                out@.len() == i,
                forall|k: int|
                    0 <= k < i ==> triple_view(#[trigger] out@[k]) == binding_view(
                        self.trigger_bindings.data()[k],
                    ),
            decreases self.trigger_bindings.rows@.len() - i,
        {
            let x = &self.trigger_bindings.rows[i].data;
            out.push((x.trigger_uuid.clone(), x.entity_type.clone(), x.entity_uuid.clone()));
            i = i + 1;
        }
        out
    }

    /// The triggers that are bound to some entity, each once.
    pub fn list_bound_trigger_uuids(&self) -> (out: Vec<String>)
        ensures
            views(out@) == without_repeats(bound_uuids(self.trigger_bindings.data())),
    {
        let ghost all = bound_uuids(self.trigger_bindings.data());
        let mut out: Vec<String> = Vec::new();
        let mut i: usize = 0;
        proof {
            assert(all.take(0) =~= Seq::empty());
            assert(views(out@) =~= Seq::empty());
        }
        while i < self.trigger_bindings.rows.len()
            invariant
                i <= self.trigger_bindings.rows@.len(),
                all == bound_uuids(self.trigger_bindings.data()),
                views(out@) == without_repeats(all.take(i as int)),
            decreases self.trigger_bindings.rows@.len() - i,
        {
            let uuid = self.trigger_bindings.rows[i].data.trigger_uuid.as_str();
            let known = holds_text(&out, uuid);
            proof {
                assert(all.take(i + 1).drop_last() =~= all.take(i as int));
                assert(all.take(i + 1).last() == uuid@);
            }
            if !known {
                let ghost before = out@;
                out.push(owned(uuid));
                proof {
                    assert(views(out@) =~= views(before).push(uuid@));
                }
            }
            i = i + 1;
        }
        proof {
            assert(all.take(i as int) =~= all);
        }
        out
    }

    /// Whether a trigger is bound to some entity.
    pub fn is_trigger_bound(&self, trigger_uuid: &str) -> (r: bool)
        ensures
            r == any_data(self.trigger_bindings.data(), bound_to(trigger_uuid@)),
    {
        let hit = |x: &TriggerBinding| -> (b: bool)
            ensures
                b == bound_to(trigger_uuid@)(*x),
            { same(x.trigger_uuid.as_str(), trigger_uuid) };
        self.trigger_bindings.any(hit, Ghost(bound_to(trigger_uuid@)))
    }

    /// The trigger that an entity is bound to.
    pub fn get_trigger_for_entity(
        &self,
        entity_type: &str,
        entity_uuid: &str,
    ) -> (out: Option<String>)
        ensures
            opt_view(out) == trigger_for(
                self.trigger_bindings.data(),
                entity_type@,
                entity_uuid@,
            ),
    {
        let hit = |x: &TriggerBinding| -> (b: bool)
            ensures
                b == binding_of(entity_type@, entity_uuid@)(*x),
            { same(x.entity_type.as_str(), entity_type)
                && same(x.entity_uuid.as_str(), entity_uuid) };
        match self.trigger_bindings.first(hit, Ghost(binding_of(entity_type@, entity_uuid@))) {
            Some(x) => Some(x.trigger_uuid),
            None => None,
        }
    }

    /// The entities that are bound to a trigger.
    pub fn get_entities_for_trigger(&self, trigger_uuid: &str) -> (out: Vec<(String, String)>)
        ensures
            out@ == self.trigger_bindings.data().filter(bound_to(trigger_uuid@)).map_values(
                |x: TriggerBinding| (x.entity_type, x.entity_uuid),
            ),
    {
        let own = self.bindings_of_trigger(trigger_uuid);
        let mut out: Vec<(String, String)> = Vec::new();
        let mut i: usize = 0;
        while i < own.len()
            invariant
                i <= own@.len(),
                out@.len() == i,
                forall|k: int|
                    0 <= k < i ==> #[trigger] out@[k] == (own@[k].entity_type, own@[k].entity_uuid),
            decreases own@.len() - i,
        {
            out.push((own[i].entity_type.clone(), own[i].entity_uuid.clone()));
            i = i + 1;
        }
        proof {
            assert(out@ =~= own@.map_values(|x: TriggerBinding| (x.entity_type, x.entity_uuid)));
        }
        out
    }

    /// Removes every binding of a trigger and counts them.
    pub fn delete_all_bindings_for_trigger(&mut self, trigger_uuid: &str) -> (removed: usize)
        ensures
            *final(self) == (Storage {
                trigger_bindings: final(self).trigger_bindings,
                ..*old(self)
            }),
            final(self).trigger_bindings.rows@ == rows_kept(
                old(self).trigger_bindings.rows@,
                bound_to_other(trigger_uuid@),
            ),
            removed == old(self).trigger_bindings.rows@.len() - final(self).trigger_bindings.rows@.len(),
            old(self).well_formed() ==> final(self).well_formed(),
    {
        broadcast use group_keyed;

        let keep = |x: &TriggerBinding| -> (b: bool)
            ensures
                b == bound_to_other(trigger_uuid@)(*x),
            { !same(x.trigger_uuid.as_str(), trigger_uuid) };
        self.trigger_bindings.retain(keep, Ghost(bound_to_other(trigger_uuid@)))
    }

    /// Removes a trigger and says whether there was one.
    pub fn delete_trigger(&mut self, trigger_uuid: &str) -> (removed: bool)
        ensures
            *final(self) == (Storage { triggers: final(self).triggers, ..*old(self) }),
            final(self).triggers.rows@ == rows_kept(
                old(self).triggers.rows@,
                other_trigger(trigger_uuid@),
            ),
            removed == (final(self).triggers.rows@.len() < old(self).triggers.rows@.len()),
            old(self).well_formed() ==> final(self).well_formed(),
    {
        broadcast use group_keyed;

        let keep = |t: &StoredTrigger| -> (b: bool)
            ensures
                b == other_trigger(trigger_uuid@)(*t),
            { !same(t.trigger_uuid.as_str(), trigger_uuid) };
        let gone: usize = self.triggers.retain(keep, Ghost(other_trigger(trigger_uuid@)));
        gone > 0
    }
}

} // verus!
