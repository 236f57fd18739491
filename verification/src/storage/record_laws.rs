//! What rows hold of what was given for them, what a clean-up leaves, and that nothing is left when
//! all is wiped.
use super::things_log::{
    actor_taken_over, actors_written, cut_refused, is_actor_of, log_cut, log_entry, log_from,
    snapshot_from, snapshot_row, snapshots_cut,
};
use super::triggers::{
    action_taken_over, actions_seeded, is_action, is_trigger, log_row, registration_id,
    stamped_action, trigger_for, trigger_registered, trigger_taken_over, TriggerRegistration,
};
use super::{wiped, Storage};
use crate::error::SdkError;
use crate::json::{int_text, json_text};
use crate::rows::{
    run_type_name, ActionDefinition, ActorMetaEntry, StoredTrigger, ThingsChangeLogEntry,
    ThingsContentSnapshot, ThingsOperationType, TriggerBinding, TriggerLogEntry, TriggerRunType,
};
use crate::scheduling::{rule_views, rules_json};
use crate::table::{
    data_of, first_data, law_first_data, law_kept_rows_hold_kept_data, law_upsert_leaves_others,
    law_upsert_read_back, rows_upserted, Row,
};
use vstd::prelude::*;

verus! {

/// A change that is logged says what it was given: who made it, what was done, to which entity, and
/// whether it can be undone.
pub proof fn law_logged_change_is_as_given(
    row: ThingsChangeLogEntry,
    id: i64,
    device: Seq<char>,
    op: ThingsOperationType,
    entity_type: Seq<char>,
    entity: Seq<char>,
    summary: Seq<char>,
    details: Seq<char>,
    parent: Option<i64>,
    can_undo: bool,
    synced: bool,
    at: i64,
)
    requires
        log_entry(
            row,
            id,
            device,
            op,
            entity_type,
            entity,
            summary,
            details,
            parent,
            can_undo,
            synced,
            at,
        ),
    ensures
        row.id == id && row.created_at == at,
        row.device_id@ == device && row.op_type == op,
        row.entity_type@ == entity_type && row.entity_uuid@ == entity,
        row.summary@ == summary && row.details_json@ == details,
        row.parent_log_id == parent && row.can_undo == can_undo && row.synced == synced,
        row.cascade_log_ids_json is None,
{
}

/// A content that is kept is that of the thing, with the change that it was kept for.
pub proof fn law_kept_content_is_as_given(
    row: ThingsContentSnapshot,
    id: i64,
    device: Seq<char>,
    thing: Seq<char>,
    content: Seq<char>,
    change: Option<i64>,
    synced: bool,
    at: i64,
)
    requires
        snapshot_row(row, id, device, thing, content, change, synced, at),
    ensures
        row.id == id && row.created_at == at && row.synced == synced,
        row.device_id@ == device && row.thing_uuid@ == thing,
        row.content_json@ == content && row.change_log_id == change,
{
}

/// What is noted of a run says what it was given.
pub proof fn law_noted_run_is_as_given(
    row: TriggerLogEntry,
    trigger: Seq<char>,
    level: Seq<char>,
    message: Seq<char>,
    fire_time: i64,
    run_type: TriggerRunType,
    now: i64,
)
    requires
        log_row(row, trigger, level, message, fire_time, run_type, now),
    ensures
        row.trigger_id@ == trigger && row.level@ == level && row.message@ == message,
        row.fire_time == fire_time && row.created_at == now,
        row.run_type@ == run_type_name(run_type),
{
}

/// A clean-up of the log takes away what is older than its limit and nothing else; it is refused
/// where something that stays refers to what would go, and then nothing changes.
pub proof fn law_clean_up_takes_what_is_old(
    old: Storage,
    new: Storage,
    cutoff: int,
    out: Result<u64, SdkError>,
    e: ThingsChangeLogEntry,
)
    requires
        log_cut(old, new, cutoff, out),
    ensures
        out is Ok ==> (new.things_change_log.data().contains(e)
            <==> old.things_change_log.data().contains(e) && e.created_at >= cutoff),
        out is Ok ==> new.notifications == old.notifications && new.things_content_snapshots
            == old.things_content_snapshots,
        out is Err ==> new == old,
        out is Err <==> cut_refused(old, cutoff),
{
    if out is Ok {
        let data = old.things_change_log.data();
        let keep = log_from(cutoff);
        law_kept_rows_hold_kept_data(old.things_change_log.rows@, keep);
        lemma_kept(data, keep, e);
    }
}

/// A clean-up of the kept contents takes away what is older than its limit and nothing else.
pub proof fn law_clean_up_of_contents(
    old: Storage,
    new: Storage,
    cutoff: int,
    removed: u64,
    s: ThingsContentSnapshot,
)
    requires
        snapshots_cut(old, new, cutoff, removed),
    ensures
        new.things_content_snapshots.data().contains(s)
            <==> old.things_content_snapshots.data().contains(s) && s.created_at >= cutoff,
        new.things_change_log == old.things_change_log,
{
    let data = old.things_content_snapshots.data();
    let keep = snapshot_from(cutoff);
    law_kept_rows_hold_kept_data(old.things_content_snapshots.rows@, keep);
    lemma_kept(data, keep, s);
}

proof fn lemma_kept<T>(data: Seq<T>, keep: spec_fn(T) -> bool, x: T)
    ensures
        data.filter(keep).contains(x) <==> data.contains(x) && keep(x),
{
    let kept = data.filter(keep);
    if kept.contains(x) {
        data.lemma_filter_contains_rev(keep, x);
        let k = choose|k: int| 0 <= k < kept.len() && kept[k] == x;
        data.lemma_filter_pred(keep, k);
    }
    if data.contains(x) && keep(x) {
        let m = choose|m: int| 0 <= m < data.len() && data[m] == x;
        data.lemma_filter_contains(keep, m);
    }
}

/// After all is wiped no table holds a row.
pub proof fn law_nothing_is_left_when_wiped(old: Storage, new: Storage)
    requires
        wiped(old, new),
    ensures
        new.triggers.data().len() == 0 && new.actions.data().len() == 0
            && new.action_invocations.data().len() == 0 && new.events.data().len() == 0,
        new.preferences.data().len() == 0 && new.preference_sync_state.data().len() == 0
            && new.things_state.data().len() == 0,
        new.trigger_logs.data().len() == 0 && new.trigger_bindings.data().len() == 0,
        new.chat_sessions.data().len() == 0 && new.chat_messages.data().len() == 0
            && new.chat_runtime_state.data().len() == 0,
        new.internal_kv.data().len() == 0 && new.crdt_documents.data().len() == 0,
        new.agent_versions.data().len() == 0 && new.eval_datasets.data().len() == 0
            && new.eval_dataset_sessions.data().len() == 0 && new.eval_dataset_runs.data().len()
            == 0 && new.eval_dataset_run_items.data().len() == 0
            && new.eval_dataset_run_evals.data().len() == 0,
        new.things_change_log.data().len() == 0 && new.things_content_snapshots.data().len() == 0
            && new.notifications.data().len() == 0,
{
}

/// The trigger of an entity is the one that it is bound to, where it is bound.
pub proof fn law_trigger_of_an_entity(
    data: Seq<TriggerBinding>,
    entity_type: Seq<char>,
    entity: Seq<char>,
)
    ensures
        trigger_for(data, entity_type, entity) matches Some(t) ==> exists|i: int|
            0 <= i < data.len() && (#[trigger] data[i]).entity_type@ == entity_type
                && data[i].entity_uuid@ == entity && data[i].trigger_uuid@ == t,
        (exists|i: int|
            0 <= i < data.len() && (#[trigger] data[i]).entity_type@ == entity_type
                && data[i].entity_uuid@ == entity) ==> trigger_for(data, entity_type, entity)
            is Some,
{
    let hit = super::triggers::binding_of(entity_type, entity);
    law_first_data(data, hit);
    if let Some(x) = first_data(data, hit) {
        let i = choose|i: int| 0 <= i < data.len() && data[i] == x;
        assert(data[i].trigger_uuid@ == x.trigger_uuid@);
    } else if exists|i: int|
        0 <= i < data.len() && (#[trigger] data[i]).entity_type@ == entity_type
            && data[i].entity_uuid@ == entity {
        let i = choose|i: int|
            0 <= i < data.len() && (#[trigger] data[i]).entity_type@ == entity_type
                && data[i].entity_uuid@ == entity;
        assert(hit(data[i]));
    }
}

/// A trigger that is registered is found with the name, the rules and the action that were given,
/// and fires when it was worked out to.
pub proof fn law_registered_trigger_is_found(
    old: Storage,
    new: Storage,
    params: TriggerRegistration,
    next_fire: Option<i64>,
    now: i64,
)
    requires
        trigger_registered(old, new, params, next_fire, now),
    ensures
        first_data(new.triggers.data(), is_trigger(params.trigger_uuid@)) matches Some(t)
            && t.trigger_uuid@ == params.trigger_uuid@ && t.name@ == params.name@ && t.next_fire
            == next_fire && t.action_uuid == params.action_uuid && t.updated_at == now
            && t.last_result is None && t.version@ == params.version@ && t.action_args_json@
            == json_text(params.action_args@),
{
    let hit = is_trigger(params.trigger_uuid@);
    let row = choose|row: StoredTrigger|
        row.trigger_uuid@ == params.trigger_uuid@ && row.name@ == params.name@ && row.version@
            == params.version@ && row.precondition_json@ == json_text(
            rules_json(rule_views(params.precondition@)),
        ) && row.condition_json@ == json_text(rules_json(rule_views(params.condition@)))
            && row.action_uuid == params.action_uuid && row.action_args_json@ == json_text(
            params.action_args@,
        ) && row.next_fire == next_fire && row.last_result is None && !row.is_paused
            && row.created_at == now && row.updated_at == now
            && super::triggers::registration_reads_back(row, params) && new.triggers.rows@
            == #[trigger] rows_upserted(
            old.triggers.rows@,
            hit,
            trigger_taken_over(row),
            row,
        );
    law_upsert_read_back(old.triggers.rows@, hit, trigger_taken_over(row), row);
    law_first_data(old.triggers.data(), hit);
}

/// A registration is named by the trigger and the time at which it will fire.
pub proof fn law_registration_is_named(uuid: Seq<char>, at: i64)
    ensures
        registration_id(uuid, Some(at)) == uuid + ":"@ + int_text(at as int),
{
}

/// An action that is seeded is found with its title, its description and its script, where no later
/// one has its id.
pub proof fn law_seeded_actions_are_found(
    rows: Seq<Row<ActionDefinition>>,
    actions: Seq<ActionDefinition>,
    now: i64,
    n: int,
    i: int,
)
    requires
        0 <= i < n <= actions.len(),
        forall|k: int|
            i < k < n ==> (#[trigger] actions[k]).action_uuid@ != actions[i].action_uuid@,
    ensures
        first_data(
            data_of(actions_seeded(rows, actions, now, n)),
            is_action(actions[i].action_uuid@),
        ) matches Some(a) && a.action_uuid@ == actions[i].action_uuid@ && a.title
            == actions[i].title && a.description == actions[i].description && a.script_source
            == actions[i].script_source && a.enabled == actions[i].enabled && a.updated_at == now,
    decreases n,
{
    let before = actions_seeded(rows, actions, now, n - 1);
    let new = stamped_action(actions[n - 1], now);
    let hit = is_action(new.action_uuid@);
    let other = is_action(actions[i].action_uuid@);
    if i == n - 1 {
        law_upsert_read_back(before, hit, action_taken_over(new), new);
        law_first_data(data_of(before), hit);
    } else {
        law_seeded_actions_are_found(rows, actions, now, n - 1, i);
        assert(actions[n - 1].action_uuid@ != actions[i].action_uuid@);
        law_upsert_leaves_others(before, hit, action_taken_over(new), new, other);
    }
}

/// Who made an entity is found after it was written, where nothing later is written of the entity.
pub proof fn law_written_actors_are_found(
    rows: Seq<Row<ActorMetaEntry>>,
    items: Seq<ActorMetaEntry>,
    n: int,
    i: int,
)
    requires
        0 <= i < n <= items.len(),
        forall|k: int| i < k < n ==> (#[trigger] items[k]).uuid@ != items[i].uuid@,
    ensures
        first_data(data_of(actors_written(rows, items, n)), is_actor_of(items[i].uuid@)) matches Some(
            a,
        ) && a.uuid@ == items[i].uuid@ && a.actor_type == items[i].actor_type && a.actor_app_id
            == items[i].actor_app_id && a.actor_display_name == items[i].actor_display_name,
    decreases n,
{
    let before = actors_written(rows, items, n - 1);
    let new = items[n - 1];
    let hit = is_actor_of(new.uuid@);
    let other = is_actor_of(items[i].uuid@);
    if i == n - 1 {
        law_upsert_read_back(before, hit, actor_taken_over(new), new);
        law_first_data(data_of(before), hit);
    } else {
        law_written_actors_are_found(rows, items, n - 1, i);
        assert(items[n - 1].uuid@ != items[i].uuid@);
        law_upsert_leaves_others(before, hit, actor_taken_over(new), new, other);
    }
}

} // verus!
