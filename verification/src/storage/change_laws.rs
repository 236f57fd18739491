//! What a change of a row does to it, and what it leaves as it was.
use super::chat::{
    dataset_changed, dataset_touched, item_shown, member_added, member_shown, message_taken_over,
    session_changed, session_taken_over, state_taken_over, version_applied, version_changed,
    version_not_applied, AgentVersionUpdate, ChatSessionUpdate, EvalDatasetUpdate,
};
use super::documents::{document_marked, document_taken_over, kv_taken_over};
use super::notifications::{not_read, read_now, responded};
use super::things_log::{
    actor_taken_over, log_synced, not_undoable, place_taken_over, snapshot_synced, with_cascade,
};
use super::triggers::{
    action_taken_over, all_lines, bound_to, fires_after, is_due, log_of, rebound, stamped_action,
    trigger_acting, trigger_due, trigger_fired, trigger_lines, trigger_paused, trigger_taken_over,
};
use crate::rows::{
    run_type_name, ActionDefinition, ActorMetaEntry, AgentVersion, ChatMessage, ChatRuntimeState,
    ChatSession, CrdtDocumentRow, DatasetMember, EvalDataset, InternalKv, LocationCacheEntry,
    NotificationEntry, RunItem, StoredTrigger, ThingsChangeLogEntry, ThingsContentSnapshot,
    TriggerBinding, TriggerLogEntry, TriggerRunType,
};
use crate::table::{first_data, law_first_data};
use vstd::prelude::*;

verus! {

/// A paused trigger is never due; one that goes on is due as it was before; and neither changes
/// what it does or when.
pub proof fn law_paused_triggers_wait(t: StoredTrigger, at: i64, now: i64, later: i64)
    ensures
        !is_due(at)(trigger_paused(true, now)(t)),
        !t.is_paused ==> is_due(at)(trigger_paused(false, later)(trigger_paused(true, now)(t)))
            == is_due(at)(t),
        trigger_paused(true, now)(t).next_fire == t.next_fire,
        trigger_paused(true, now)(t).action_uuid == t.action_uuid,
        trigger_paused(true, now)(t).action_args_json == t.action_args_json,
        trigger_paused(true, now)(t).trigger_uuid == t.trigger_uuid,
        trigger_paused(true, now)(t).created_at == t.created_at,
        trigger_paused(true, now)(t).updated_at == now,
{
}

/// A trigger that fired is due again from its next time on, and never where there is none. What
/// came of it is noted.
pub proof fn law_fired_triggers_wait_for_their_next_time(
    t: StoredTrigger,
    fired_at: i64,
    next: Option<i64>,
    result: bool,
    at: i64,
)
    ensures
        ({
            let after = trigger_fired(fired_at, next, result)(t);
            &&& next is None ==> !is_due(at)(after) && !fires_after(None)(after)
            &&& next matches Some(n) ==> (is_due(at)(after) <==> n <= at && !t.is_paused)
            &&& after.last_result == Some(result)
            &&& after.updated_at == fired_at
            &&& after.trigger_uuid == t.trigger_uuid && after.action_uuid == t.action_uuid
                && after.is_paused == t.is_paused && after.created_at == t.created_at
                && after.condition_json == t.condition_json && after.precondition_json
                == t.precondition_json
        }),
{
}

/// A trigger that is made due is due from that time on, unless it is paused; the rest of it stays.
pub proof fn law_trigger_is_made_due(t: StoredTrigger, due_at: i64, now: i64, at: i64)
    ensures
        ({
            let after = trigger_due(due_at, now)(t);
            &&& is_due(at)(after) <==> due_at <= at && !t.is_paused
            &&& after.trigger_uuid == t.trigger_uuid && after.last_result == t.last_result
                && after.action_uuid == t.action_uuid && after.is_paused == t.is_paused
                && after.created_at == t.created_at
        }),
{
}

/// A trigger that is given another action has that action and those arguments, and is due when it
/// was.
pub proof fn law_trigger_acts_as_told(
    t: StoredTrigger,
    action: Option<String>,
    args: String,
    now: i64,
    at: i64,
)
    ensures
        ({
            let after = trigger_acting(action, args, now)(t);
            &&& after.action_uuid == action && after.action_args_json == args
            &&& is_due(at)(after) == is_due(at)(t)
            &&& after.trigger_uuid == t.trigger_uuid && after.name == t.name
                && after.last_result == t.last_result && after.created_at == t.created_at
        }),
{
}

/// A trigger that is registered again is the new one, but for its id, the time it came to be and
/// whether it is paused; what came of it last is forgotten.
pub proof fn law_trigger_is_registered_again(t: StoredTrigger, new: StoredTrigger)
    ensures
        ({
            let after = trigger_taken_over(new)(t);
            &&& after.trigger_uuid == t.trigger_uuid && after.created_at == t.created_at
                && after.is_paused == t.is_paused
            &&& after.name == new.name && after.version == new.version && after.next_fire
                == new.next_fire && after.updated_at == new.updated_at
            &&& after.precondition_json == new.precondition_json && after.condition_json
                == new.condition_json
            &&& after.action_uuid == new.action_uuid && after.action_args_json
                == new.action_args_json
            &&& after.last_result is None
        }),
{
}

/// An action that is stored again is the new one, but for its id and the time it came to be.
pub proof fn law_action_is_stored_again(a: ActionDefinition, new: ActionDefinition, now: i64)
    ensures
        ({
            let after = action_taken_over(new)(a);
            &&& after.action_uuid == a.action_uuid && after.created_at == a.created_at
            &&& after.title == new.title && after.description == new.description && after.name
                == new.name && after.enabled == new.enabled && after.script_source
                == new.script_source && after.version == new.version && after.category
                == new.category && after.metadata_json == new.metadata_json
                && after.input_schema_json == new.input_schema_json && after.output_schema_json
                == new.output_schema_json && after.updated_at == new.updated_at
            &&& stamped_action(new, now).created_at == now && stamped_action(new, now).updated_at
                == now && stamped_action(new, now).title == new.title && stamped_action(
                new,
                now,
            ).script_source == new.script_source && stamped_action(new, now).action_uuid
                == new.action_uuid
        }),
{
}

/// What is bound to another trigger is the same entity still.
pub proof fn law_entity_stays_when_rebound(x: TriggerBinding, new: TriggerBinding)
    ensures
        rebound(new)(x).trigger_uuid == new.trigger_uuid,
        rebound(new)(x).entity_type == x.entity_type,
        rebound(new)(x).entity_uuid == x.entity_uuid,
        rebound(new)(x).created_at == new.created_at,
{
}

/// A list of triggers shows each of them, once for each entity that is bound to it and once where
/// none is; and it shows no others.
pub proof fn law_every_trigger_is_shown(
    bindings: Seq<TriggerBinding>,
    triggers: Seq<StoredTrigger>,
    i: int,
)
    requires
        0 <= i < triggers.len(),
    ensures
        exists|k: int|
            0 <= k < all_lines(bindings, triggers).len() && (#[trigger] all_lines(
                bindings,
                triggers,
            )[k]).trigger == triggers[i],
        forall|m: int|
            #![trigger bindings[m]]
            0 <= m < bindings.len() && bindings[m].trigger_uuid@ == triggers[i].trigger_uuid@
                ==> exists|k: int|
                0 <= k < all_lines(bindings, triggers).len() && (#[trigger] all_lines(
                    bindings,
                    triggers,
                )[k]).trigger == triggers[i] && all_lines(bindings, triggers)[k].bind_type == Some(
                    bindings[m].entity_type,
                ) && all_lines(bindings, triggers)[k].bind_uuid == Some(bindings[m].entity_uuid),
    decreases triggers.len(),
{
    let front = triggers.drop_last();
    let before = all_lines(bindings, front);
    let all = all_lines(bindings, triggers);
    if i < front.len() {
        law_every_trigger_is_shown(bindings, front, i);
        assert(front[i] == triggers[i]);
        let k = choose|k: int| 0 <= k < before.len() && (#[trigger] before[k]).trigger == front[i];
        assert(all[k] == before[k]);
        assert forall|m: int|
            #![trigger bindings[m]]
            0 <= m < bindings.len() && bindings[m].trigger_uuid@
                == triggers[i].trigger_uuid@ implies exists|k: int|
            0 <= k < all.len() && (#[trigger] all[k]).trigger == triggers[i] && all[k].bind_type
                == Some(bindings[m].entity_type) && all[k].bind_uuid == Some(
                bindings[m].entity_uuid,
            ) by {
            let k = choose|k: int|
                0 <= k < before.len() && (#[trigger] before[k]).trigger == front[i]
                    && before[k].bind_type == Some(bindings[m].entity_type) && before[k].bind_uuid
                    == Some(bindings[m].entity_uuid);
            assert(all[k] == before[k]);
        }
    } else {
        let t = triggers[i];
        let own = bindings.filter(bound_to(t.trigger_uuid@));
        let lines = trigger_lines(bindings, t);
        assert(triggers.last() == t);
        assert(lines[0].trigger == t);
        assert(all[before.len() as int] == lines[0]);
        assert forall|m: int|
            #![trigger bindings[m]]
            0 <= m < bindings.len() && bindings[m].trigger_uuid@
                == triggers[i].trigger_uuid@ implies exists|k: int|
            0 <= k < all.len() && (#[trigger] all[k]).trigger == triggers[i] && all[k].bind_type
                == Some(bindings[m].entity_type) && all[k].bind_uuid == Some(
                bindings[m].entity_uuid,
            ) by {
            bindings.lemma_filter_contains(bound_to(t.trigger_uuid@), m);
            let k = choose|k: int| 0 <= k < own.len() && own[k] == bindings[m];
            assert(lines[k].bind_uuid == Some(own[k].entity_uuid));
            assert(all[before.len() + k] == lines[k]);
        }
    }
}

/// What is noted of one kind of run is what is noted of the trigger and of that kind.
pub proof fn law_logs_of_a_kind_of_run(
    l: TriggerLogEntry,
    trigger: Seq<char>,
    run_type: TriggerRunType,
)
    ensures
        log_of(trigger, Some(run_type))(l) <==> log_of(trigger, None)(l) && l.run_type@
            == run_type_name(run_type),
        log_of(trigger, None)(l) <==> l.trigger_id@ == trigger,
{
}

/// A notification that was read or answered is not unread; an answer is kept with its time, and the
/// rest of it stays.
pub proof fn law_answered_notifications_are_read(n: NotificationEntry, answer: String, now: i64)
    ensures
        !not_read()(read_now()(n)),
        !not_read()(responded(answer, now)(n)),
        responded(answer, now)(n).response_action == Some(answer),
        responded(answer, now)(n).responded_at == Some(now),
        ({
            let after = responded(answer, now)(n);
            after.id == n.id && after.title == n.title && after.body == n.body && after.category
                == n.category && after.source == n.source && after.created_at == n.created_at
        }),
        ({
            let after = read_now()(n);
            after.id == n.id && after.title == n.title && after.body == n.body && after.category
                == n.category && after.source == n.source && after.created_at == n.created_at
                && after.response_action == n.response_action && after.responded_at
                == n.responded_at
        }),
{
}

/// A conversation that is stored again keeps its id and the time it came to be, and has the title,
/// the time of the last message and the number of messages of the new one. So it is with
/// one that is changed.
pub proof fn law_session_is_stored_again(s: ChatSession, new: ChatSession, u: ChatSessionUpdate)
    ensures
        ({
            let after = session_taken_over(new)(s);
            &&& after.session_id == s.session_id && after.created_at == s.created_at
            &&& after.title == new.title && after.last_activity == new.last_activity
                && after.message_count == new.message_count
        }),
        ({
            let after = session_changed(u)(s);
            &&& after.session_id == s.session_id && after.created_at == s.created_at
            &&& after.title == u.title && after.last_activity == u.last_activity
                && after.message_count == u.message_count
        }),
{
}

/// A message, the state of a conversation and a kept value that are stored again keep their key and
/// have the new value.
pub proof fn law_values_are_stored_again(
    m: ChatMessage,
    new_message: ChatMessage,
    s: ChatRuntimeState,
    new_state: ChatRuntimeState,
    kv: InternalKv,
    new_kv: InternalKv,
)
    ensures
        ({
            let after = message_taken_over(new_message)(m);
            &&& after.session_id == m.session_id && after.message_id == m.message_id
            &&& after.message_json == new_message.message_json && after.created_at_ms
                == new_message.created_at_ms
        }),
        ({
            let after = state_taken_over(new_state)(s);
            &&& after.session_id == s.session_id
            &&& after.state_json == new_state.state_json && after.updated_at
                == new_state.updated_at
        }),
        ({
            let after = kv_taken_over(new_kv)(kv);
            &&& after.key == kv.key
            &&& after.value == new_kv.value && after.updated_at == new_kv.updated_at
        }),
{
}

/// A version of an agent that is changed has the new name and text and keeps the rest; one that is
/// applied says since when, and one that is not says nothing.
pub proof fn law_versions_change(v: AgentVersion, u: AgentVersionUpdate, at: i64)
    ensures
        ({
            let after = version_changed(u)(v);
            &&& after.version_id == v.version_id && after.agent_id == v.agent_id
                && after.created_at == v.created_at && after.applied_at == v.applied_at
            &&& after.name == u.name && after.raw_markdown == u.raw_markdown && after.updated_at
                == u.updated_at
        }),
        version_applied(at)(v).applied_at == Some(at),
        version_applied(at)(v).updated_at == at,
        version_applied(at)(v).raw_markdown == v.raw_markdown,
        version_applied(at)(v).version_id == v.version_id,
        version_not_applied()(v).applied_at is None,
        version_not_applied()(v).raw_markdown == v.raw_markdown,
        version_not_applied()(v).version_id == v.version_id,
        version_not_applied()(v).updated_at == v.updated_at,
{
}

/// A collection of conversations that is changed has the new name and description and keeps its id
/// and the time it came to be.
pub proof fn law_datasets_change(d: EvalDataset, u: EvalDatasetUpdate, m: DatasetMember, at: i64)
    ensures
        ({
            let after = dataset_changed(u)(d);
            &&& after.dataset_id == d.dataset_id && after.created_at == d.created_at
            &&& after.name == u.name && after.description == u.description && after.updated_at
                == u.updated_at
        }),
        dataset_touched(at)(d).updated_at == at,
        dataset_touched(at)(d).name == d.name,
        dataset_touched(at)(d).dataset_id == d.dataset_id,
        member_added(at)(m).added_at == at,
        member_added(at)(m).dataset_id == m.dataset_id,
        member_added(at)(m).session_id == m.session_id,
{
}

/// A conversation in a collection is shown with the title, the last time and the number of messages
/// of the conversation with its id, where there is one.
pub proof fn law_members_are_shown_with_their_session(
    sessions: Seq<ChatSession>,
    m: DatasetMember,
    r: RunItem,
)
    ensures
        ({
            let shown = member_shown(sessions)(m);
            &&& shown.dataset_id == m.dataset_id && shown.session_id == m.session_id
                && shown.added_at == m.added_at
            &&& (exists|k: int|
                0 <= k < sessions.len() && (#[trigger] sessions[k]).session_id@
                    == m.session_id@) ==> exists|k: int|
                0 <= k < sessions.len() && (#[trigger] sessions[k]).session_id@ == m.session_id@
                    && shown.title == sessions[k].title && shown.last_activity == Some(
                    sessions[k].last_activity,
                ) && shown.message_count == Some(sessions[k].message_count)
        }),
        ({
            let shown = item_shown(sessions)(r);
            &&& shown.item == r
            &&& (exists|k: int|
                0 <= k < sessions.len() && (#[trigger] sessions[k]).session_id@
                    == r.session_id@) ==> exists|k: int|
                0 <= k < sessions.len() && (#[trigger] sessions[k]).session_id@ == r.session_id@
                    && shown.title == sessions[k].title && shown.last_activity == Some(
                    sessions[k].last_activity,
                ) && shown.message_count == Some(sessions[k].message_count)
        }),
{
    lemma_session(sessions, m.session_id@);
    lemma_session(sessions, r.session_id@);
}

proof fn lemma_session(sessions: Seq<ChatSession>, id: Seq<char>)
    ensures
        (exists|k: int| 0 <= k < sessions.len() && (#[trigger] sessions[k]).session_id@ == id)
            ==> first_data(sessions, crate::storage::has_session_id(id)) is Some,
        first_data(sessions, crate::storage::has_session_id(id)) matches Some(s) ==> exists|k: int|
            0 <= k < sessions.len() && (#[trigger] sessions[k]).session_id@ == id && sessions[k]
                == s,
{
    law_first_data(sessions, crate::storage::has_session_id(id));
    if let Some(s) = first_data(sessions, crate::storage::has_session_id(id)) {
        let k = choose|k: int| 0 <= k < sessions.len() && sessions[k] == s;
        assert(sessions[k].session_id@ == id);
    } else if exists|k: int| 0 <= k < sessions.len() && (#[trigger] sessions[k]).session_id@
        == id {
        let k = choose|k: int|
            0 <= k < sessions.len() && (#[trigger] sessions[k]).session_id@ == id;
        assert(crate::storage::has_session_id(id)(sessions[k]));
    }
}

/// A change that was undone cannot be undone again, one that was sent is not sent again, and what
/// it says stays.
pub proof fn law_logged_changes_stay(
    e: ThingsChangeLogEntry,
    s: ThingsContentSnapshot,
    ids: String,
)
    ensures
        !not_undoable()(e).can_undo,
        not_undoable()(e).synced == e.synced,
        log_synced()(e).synced,
        log_synced()(e).can_undo == e.can_undo,
        with_cascade(ids)(e).cascade_log_ids_json == Some(ids),
        with_cascade(ids)(e).can_undo == e.can_undo,
        ({
            let a = not_undoable()(e);
            let b = log_synced()(e);
            let c = with_cascade(ids)(e);
            &&& a.id == e.id && b.id == e.id && c.id == e.id
            &&& a.details_json == e.details_json && b.details_json == e.details_json
                && c.details_json == e.details_json
            &&& a.op_type == e.op_type && b.op_type == e.op_type && c.op_type == e.op_type
            &&& a.entity_uuid == e.entity_uuid && b.entity_uuid == e.entity_uuid && c.entity_uuid
                == e.entity_uuid
            &&& a.created_at == e.created_at && b.created_at == e.created_at && c.created_at
                == e.created_at
        }),
        snapshot_synced()(s).synced,
        snapshot_synced()(s).id == s.id,
        snapshot_synced()(s).thing_uuid == s.thing_uuid,
        snapshot_synced()(s).created_at == s.created_at,
{
}

/// A place and the maker of an entity that are stored again keep their key and have what is new.
pub proof fn law_places_and_actors_are_stored_again(
    l: LocationCacheEntry,
    new_place: LocationCacheEntry,
    a: ActorMetaEntry,
    new_actor: ActorMetaEntry,
)
    ensures
        ({
            let after = place_taken_over(new_place)(l);
            &&& after.name == l.name && after.created_at == l.created_at
            &&& after.latitude == new_place.latitude && after.longitude == new_place.longitude
                && after.is_fuzzy == new_place.is_fuzzy && after.coord_system
                == new_place.coord_system && after.place_id == new_place.place_id
                && after.formatted_address == new_place.formatted_address && after.updated_at
                == new_place.updated_at
        }),
        ({
            let after = actor_taken_over(new_actor)(a);
            &&& after.uuid == a.uuid
            &&& after.actor_type == new_actor.actor_type && after.actor_app_id
                == new_actor.actor_app_id && after.actor_display_name
                == new_actor.actor_display_name
        }),
{
}

/// A document that is stored again keeps its key and the time it came to be and has the new bytes;
/// one that is marked keeps its bytes.
pub proof fn law_documents_are_stored_again(
    d: CrdtDocumentRow,
    new: CrdtDocumentRow,
    dirty: bool,
    now: i64,
)
    ensures
        ({
            let after = document_taken_over(new)(d);
            &&& after.uuid == d.uuid && after.data_type == d.data_type && after.created_at
                == d.created_at
            &&& after.automerge_doc == new.automerge_doc && after.sync_state == new.sync_state
                && after.dirty == new.dirty && after.last_sync_at == new.last_sync_at
                && after.updated_at == new.updated_at
        }),
        ({
            let after = document_marked(dirty, now)(d);
            &&& after.dirty == dirty && after.updated_at == now
            &&& after.uuid == d.uuid && after.data_type == d.data_type && after.automerge_doc
                == d.automerge_doc && after.sync_state == d.sync_state && after.last_sync_at
                == d.last_sync_at
        }),
{
}

} // verus!
