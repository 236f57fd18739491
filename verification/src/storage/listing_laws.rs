//! What the lists of the store hold, and in which order: each list holds what it is of and nothing
//! else.
use super::chat::{
    by_addition, by_dataset_change, by_eval_creation, by_item_creation, by_last_activity,
    by_message_time, by_run_creation, by_version_change, eval_of_run, every, item_of_run, member_of,
    message_in, run_of_dataset, version_of_agent,
};
use super::documents::{by_type_priority, document_dirty};
use super::notifications::{by_arrival, in_category, not_read};
use super::things_log::{
    by_log_creation, by_log_id, by_snapshot_creation, cascade_of, log_of_entity, log_unsynced,
    recent_update_of, snapshot_of, snapshot_unsynced,
};
use super::triggers::{
    by_action_creation, by_event_time, by_fire_time, by_log_time, by_start, by_trigger_change,
    by_trigger_creation, event_between, fires_after, invocation_of, is_due, log_of,
};
use crate::rows::{
    ActionDefinition, ActionInvocationRecord, AgentVersion, ChatMessage, ChatSession,
    CrdtDocumentRow, DatasetMember, EvalDataset, EvalDatasetRun, EvalDatasetRunEval,
    NotificationEntry, RunItem, StoredEvent, StoredTrigger, ThingsChangeLogEntry,
    ThingsContentSnapshot, TriggerLogEntry,
};
use crate::table::{law_ranked_is_sorted_selection, page, ranked, Rank};
use vstd::prelude::*;

verus! {

pub proof fn lemma_listed<T>(
    data: Seq<T>,
    keep: spec_fn(T) -> bool,
    rank: spec_fn(T) -> Rank,
    desc: bool,
    x: T,
)
    ensures
        ranked(data, keep, rank, desc).contains(x) <==> data.contains(x) && keep(x),
        crate::table::is_ranked(ranked(data, keep, rank, desc), rank, desc),
        forall|i: int|
            0 <= i < ranked(data, keep, rank, desc).len() ==> keep(
                #[trigger] ranked(data, keep, rank, desc)[i],
            ),
{
    broadcast use vstd::seq_lib::group_to_multiset_ensures;

    let list = ranked(data, keep, rank, desc);
    let kept = data.filter(keep);
    law_ranked_is_sorted_selection(data, keep, rank, desc);
    if data.contains(x) && keep(x) {
        let m = choose|m: int| 0 <= m < data.len() && data[m] == x;
        data.lemma_filter_contains(keep, m);
    }
    assert(list.contains(x) <==> kept.contains(x)) by {
        assert(list.to_multiset().count(x) == kept.to_multiset().count(x));
    }
    if kept.contains(x) {
        data.lemma_filter_contains_rev(keep, x);
        let k = choose|k: int| 0 <= k < kept.len() && kept[k] == x;
        data.lemma_filter_pred(keep, k);
    }
    assert forall|i: int| 0 <= i < list.len() implies keep(#[trigger] list[i]) by {
        let y = list[i];
        assert(list.contains(y));
        assert(list.to_multiset().count(y) == kept.to_multiset().count(y));
        assert(kept.contains(y));
        let k = choose|k: int| 0 <= k < kept.len() && kept[k] == y;
        data.lemma_filter_pred(keep, k);
    }
}

/// A page of a list starts at the offset and holds as many as are asked for or all that are left;
/// the next page goes on where it ends, and without a limit there is but one.
pub proof fn law_pages_of_a_list<T>(s: Seq<T>, limit: u32, offset: u32, next: u32)
    requires
        limit + offset <= u32::MAX,
        limit + next <= u32::MAX,
    ensures
        page(s, Some(limit), offset).len() <= limit,
        offset + limit <= s.len() ==> page(s, Some(limit), offset).len() == limit,
        forall|k: int|
            0 <= k < page(s, Some(limit), offset).len() ==> #[trigger] page(
                s,
                Some(limit),
                offset,
            )[k] == s[offset + k],
        page(s, Some(limit), offset) + page(s, Some(next), (offset + limit) as u32) == page(
            s,
            Some((limit + next) as u32),
            offset,
        ),
        page(s, None, 0) == s,
{
    assert(page(s, Some(limit), offset) + page(s, Some(next), (offset + limit) as u32) =~= page(
        s,
        Some((limit + next) as u32),
        offset,
    ));
    assert(page(s, None, 0) =~= s);
}

/// The notifications of a category: all of it and no others, the newest first.
pub proof fn law_notifications_of_a_category_are_listed(
    data: Seq<NotificationEntry>,
    category: Seq<char>,
    x: NotificationEntry,
    i: int,
    j: int,
)
    ensures
        ({
            let list = ranked(data, in_category(category), by_arrival(), true);
            &&& list.contains(x) <==> data.contains(x) && x.category@ == category
            &&& 0 <= i < j < list.len() ==> ({
                let a = list[i];
                let b = list[j];
                a.created_at >= b.created_at
            })
        }),
{
    lemma_listed(data, in_category(category), by_arrival(), true, x);
}

/// The notifications that were not read, the newest first.
pub proof fn law_unread_notifications_are_listed(
    data: Seq<NotificationEntry>,
    x: NotificationEntry,
    i: int,
    j: int,
)
    ensures
        ({
            let list = ranked(data, not_read(), by_arrival(), true);
            &&& list.contains(x) <==> data.contains(x) && !x.is_read
            &&& 0 <= i < j < list.len() ==> ({
                let a = list[i];
                let b = list[j];
                a.created_at >= b.created_at
            })
        }),
{
    lemma_listed(data, not_read(), by_arrival(), true, x);
}

/// The triggers whose time has come and that are not paused, the earliest first.
pub proof fn law_due_triggers_are_listed(
    data: Seq<StoredTrigger>,
    now: i64,
    x: StoredTrigger,
    i: int,
    j: int,
)
    ensures
        ({
            let list = ranked(data, is_due(now), by_fire_time(), false);
            &&& list.contains(x) <==> data.contains(x) && x.next_fire is Some
                && x.next_fire->0 <= now && !x.is_paused
            &&& 0 <= i < j < list.len() ==> ({
                let a = list[i];
                let b = list[j];
                a.next_fire->0 <= b.next_fire->0
            })
        }),
{
    lemma_listed(data, is_due(now), by_fire_time(), false, x);
}

/// The triggers that fire after a time, the earliest first.
pub proof fn law_later_triggers_are_listed(
    data: Seq<StoredTrigger>,
    now: i64,
    x: StoredTrigger,
    i: int,
    j: int,
)
    ensures
        ({
            let list = ranked(data, fires_after(Some(now)), by_fire_time(), false);
            &&& list.contains(x) <==> data.contains(x) && x.next_fire is Some
                && x.next_fire->0 > now
            &&& 0 <= i < j < list.len() ==> ({
                let a = list[i];
                let b = list[j];
                a.next_fire->0 <= b.next_fire->0
            })
        }),
{
    lemma_listed(data, fires_after(Some(now)), by_fire_time(), false, x);
}

/// The triggers that will fire, the earliest first.
pub proof fn law_planned_triggers_are_listed(
    data: Seq<StoredTrigger>,
    x: StoredTrigger,
    i: int,
    j: int,
)
    ensures
        ({
            let list = ranked(data, fires_after(None), by_fire_time(), false);
            &&& list.contains(x) <==> data.contains(x) && x.next_fire is Some
            &&& 0 <= i < j < list.len() ==> ({
                let a = list[i];
                let b = list[j];
                a.next_fire->0 <= b.next_fire->0
            })
        }),
{
    lemma_listed(data, fires_after(None), by_fire_time(), false, x);
}

/// The triggers, those that were changed last first.
pub proof fn law_changed_triggers_are_listed(
    data: Seq<StoredTrigger>,
    x: StoredTrigger,
    i: int,
    j: int,
)
    ensures
        ({
            let list = ranked(data, every::<StoredTrigger>(), by_trigger_change(), true);
            &&& list.contains(x) <==> data.contains(x)
            &&& 0 <= i < j < list.len() ==> ({
                let a = list[i];
                let b = list[j];
                a.updated_at >= b.updated_at
            })
        }),
{
    lemma_listed(data, every::<StoredTrigger>(), by_trigger_change(), true, x);
}

/// The triggers, the oldest first.
pub proof fn law_made_triggers_are_listed(
    data: Seq<StoredTrigger>,
    x: StoredTrigger,
    i: int,
    j: int,
)
    ensures
        ({
            let list = ranked(data, every::<StoredTrigger>(), by_trigger_creation(), false);
            &&& list.contains(x) <==> data.contains(x)
            &&& 0 <= i < j < list.len() ==> ({
                let a = list[i];
                let b = list[j];
                a.created_at <= b.created_at
            })
        }),
{
    lemma_listed(data, every::<StoredTrigger>(), by_trigger_creation(), false, x);
}

/// The events from a time to another, both among them, the earliest first.
pub proof fn law_events_between_are_listed(
    data: Seq<StoredEvent>,
    start: int,
    end: int,
    x: StoredEvent,
    i: int,
    j: int,
)
    ensures
        ({
            let list = ranked(data, event_between(start, end), by_event_time(), false);
            &&& list.contains(x) <==> data.contains(x) && start <= x.timestamp_utc <= end
            &&& 0 <= i < j < list.len() ==> ({
                let a = list[i];
                let b = list[j];
                a.timestamp_utc <= b.timestamp_utc
            })
        }),
{
    lemma_listed(data, event_between(start, end), by_event_time(), false, x);
}

/// What was noted of a trigger, the newest first.
pub proof fn law_logs_of_a_trigger_are_listed(
    data: Seq<TriggerLogEntry>,
    trigger: Seq<char>,
    x: TriggerLogEntry,
    i: int,
    j: int,
)
    ensures
        ({
            let list = ranked(data, log_of(trigger, None), by_log_time(), true);
            &&& list.contains(x) <==> data.contains(x) && x.trigger_id@ == trigger
            &&& 0 <= i < j < list.len() ==> ({
                let a = list[i];
                let b = list[j];
                a.created_at >= b.created_at
            })
        }),
{
    lemma_listed(data, log_of(trigger, None), by_log_time(), true, x);
}

/// The runs of an action, the last one first.
pub proof fn law_runs_of_an_action_are_listed(
    data: Seq<ActionInvocationRecord>,
    action: Seq<char>,
    x: ActionInvocationRecord,
    i: int,
    j: int,
)
    ensures
        ({
            let list = ranked(data, invocation_of(action), by_start(), true);
            &&& list.contains(x) <==> data.contains(x) && x.action_uuid@ == action
            &&& 0 <= i < j < list.len() ==> ({
                let a = list[i];
                let b = list[j];
                a.started_at >= b.started_at
            })
        }),
{
    lemma_listed(data, invocation_of(action), by_start(), true, x);
}

/// The actions, the oldest first.
pub proof fn law_actions_are_listed(
    data: Seq<ActionDefinition>,
    x: ActionDefinition,
    i: int,
    j: int,
)
    ensures
        ({
            let list = ranked(data, every::<ActionDefinition>(), by_action_creation(), false);
            &&& list.contains(x) <==> data.contains(x)
            &&& 0 <= i < j < list.len() ==> ({
                let a = list[i];
                let b = list[j];
                a.created_at <= b.created_at
            })
        }),
{
    lemma_listed(data, every::<ActionDefinition>(), by_action_creation(), false, x);
}

/// The conversations, the one that was active last first.
pub proof fn law_sessions_are_listed(
    data: Seq<ChatSession>,
    x: ChatSession,
    i: int,
    j: int,
)
    ensures
        ({
            let list = ranked(data, every::<ChatSession>(), by_last_activity(), true);
            &&& list.contains(x) <==> data.contains(x)
            &&& 0 <= i < j < list.len() ==> ({
                let a = list[i];
                let b = list[j];
                a.last_activity >= b.last_activity
            })
        }),
{
    lemma_listed(data, every::<ChatSession>(), by_last_activity(), true, x);
}

/// The messages of a conversation, the earliest first.
pub proof fn law_messages_are_listed(
    data: Seq<ChatMessage>,
    session: Seq<char>,
    x: ChatMessage,
    i: int,
    j: int,
)
    ensures
        ({
            let list = ranked(data, message_in(session), by_message_time(), false);
            &&& list.contains(x) <==> data.contains(x) && x.session_id@ == session
            &&& 0 <= i < j < list.len() ==> ({
                let a = list[i];
                let b = list[j];
                a.created_at_ms <= b.created_at_ms
            })
        }),
{
    lemma_listed(data, message_in(session), by_message_time(), false, x);
}

/// The versions of an agent, the one that was changed last first, and of two that were changed
/// together the newer one.
pub proof fn law_versions_of_an_agent_are_listed(
    data: Seq<AgentVersion>,
    agent: Seq<char>,
    x: AgentVersion,
    i: int,
    j: int,
)
    ensures
        ({
            let list = ranked(data, version_of_agent(agent), by_version_change(), true);
            &&& list.contains(x) <==> data.contains(x) && x.agent_id@ == agent
            &&& 0 <= i < j < list.len() ==> ({
                let a = list[i];
                let b = list[j];
                a.updated_at >= b.updated_at && (a.updated_at == b.updated_at ==> a.created_at
                    >= b.created_at)
            })
        }),
{
    lemma_listed(data, version_of_agent(agent), by_version_change(), true, x);
}

/// The collections of conversations, the one that was changed last first, and of two that were
/// changed together the newer one.
pub proof fn law_datasets_are_listed(
    data: Seq<EvalDataset>,
    x: EvalDataset,
    i: int,
    j: int,
)
    ensures
        ({
            let list = ranked(data, every::<EvalDataset>(), by_dataset_change(), true);
            &&& list.contains(x) <==> data.contains(x)
            &&& 0 <= i < j < list.len() ==> ({
                let a = list[i];
                let b = list[j];
                a.updated_at >= b.updated_at && (a.updated_at == b.updated_at ==> a.created_at
                    >= b.created_at)
            })
        }),
{
    lemma_listed(data, every::<EvalDataset>(), by_dataset_change(), true, x);
}

/// The conversations in a collection of them, the one that was added last first.
pub proof fn law_members_are_listed(
    data: Seq<DatasetMember>,
    dataset: Seq<char>,
    x: DatasetMember,
    i: int,
    j: int,
)
    ensures
        ({
            let list = ranked(data, member_of(dataset), by_addition(), true);
            &&& list.contains(x) <==> data.contains(x) && x.dataset_id@ == dataset
            &&& 0 <= i < j < list.len() ==> ({
                let a = list[i];
                let b = list[j];
                a.added_at >= b.added_at
            })
        }),
{
    lemma_listed(data, member_of(dataset), by_addition(), true, x);
}

/// The runs over a collection of conversations, the newest first.
pub proof fn law_runs_of_a_dataset_are_listed(
    data: Seq<EvalDatasetRun>,
    dataset: Seq<char>,
    x: EvalDatasetRun,
    i: int,
    j: int,
)
    ensures
        ({
            let list = ranked(data, run_of_dataset(dataset), by_run_creation(), true);
            &&& list.contains(x) <==> data.contains(x) && x.dataset_id@ == dataset
            &&& 0 <= i < j < list.len() ==> ({
                let a = list[i];
                let b = list[j];
                a.created_at >= b.created_at
            })
        }),
{
    lemma_listed(data, run_of_dataset(dataset), by_run_creation(), true, x);
}

/// The items of a run, the earliest first.
pub proof fn law_items_of_a_run_are_listed(
    data: Seq<RunItem>,
    run: Seq<char>,
    x: RunItem,
    i: int,
    j: int,
)
    ensures
        ({
            let list = ranked(data, item_of_run(run), by_item_creation(), false);
            &&& list.contains(x) <==> data.contains(x) && x.run_id@ == run
            &&& 0 <= i < j < list.len() ==> ({
                let a = list[i];
                let b = list[j];
                a.created_at <= b.created_at
            })
        }),
{
    lemma_listed(data, item_of_run(run), by_item_creation(), false, x);
}

/// The judgements of a run, the earliest first.
pub proof fn law_evals_of_a_run_are_listed(
    data: Seq<EvalDatasetRunEval>,
    run: Seq<char>,
    x: EvalDatasetRunEval,
    i: int,
    j: int,
)
    ensures
        ({
            let list = ranked(data, eval_of_run(run), by_eval_creation(), false);
            &&& list.contains(x) <==> data.contains(x) && x.run_id@ == run
            &&& 0 <= i < j < list.len() ==> ({
                let a = list[i];
                let b = list[j];
                a.created_at <= b.created_at
            })
        }),
{
    lemma_listed(data, eval_of_run(run), by_eval_creation(), false, x);
}

/// The changes that were logged, the newest first.
pub proof fn law_changes_are_listed(
    data: Seq<ThingsChangeLogEntry>,
    x: ThingsChangeLogEntry,
    i: int,
    j: int,
)
    ensures
        ({
            let list = ranked(data, every::<ThingsChangeLogEntry>(), by_log_creation(), true);
            &&& list.contains(x) <==> data.contains(x)
            &&& 0 <= i < j < list.len() ==> ({
                let a = list[i];
                let b = list[j];
                a.created_at >= b.created_at
            })
        }),
{
    lemma_listed(data, every::<ThingsChangeLogEntry>(), by_log_creation(), true, x);
}

/// The changes of an entity, the newest first.
pub proof fn law_changes_of_an_entity_are_listed(
    data: Seq<ThingsChangeLogEntry>,
    entity_type: Seq<char>,
    entity: Seq<char>,
    x: ThingsChangeLogEntry,
    i: int,
    j: int,
)
    ensures
        ({
            let list = ranked(data, log_of_entity(entity_type, entity), by_log_creation(), true);
            &&& list.contains(x) <==> data.contains(x) && x.entity_type@ == entity_type
                && x.entity_uuid@ == entity
            &&& 0 <= i < j < list.len() ==> ({
                let a = list[i];
                let b = list[j];
                a.created_at >= b.created_at
            })
        }),
{
    lemma_listed(data, log_of_entity(entity_type, entity), by_log_creation(), true, x);
}

/// The changes that followed from another, in the order of their ids.
pub proof fn law_changes_that_followed_are_listed(
    data: Seq<ThingsChangeLogEntry>,
    parent: i64,
    x: ThingsChangeLogEntry,
    i: int,
    j: int,
)
    ensures
        ({
            let list = ranked(data, cascade_of(parent), by_log_id(), false);
            &&& list.contains(x) <==> data.contains(x) && (x.parent_log_id == Some(parent))
            &&& 0 <= i < j < list.len() ==> ({
                let a = list[i];
                let b = list[j];
                a.id <= b.id
            })
        }),
{
    lemma_listed(data, cascade_of(parent), by_log_id(), false, x);
}

/// The updates of a thing since a time, the newest first.
pub proof fn law_recent_updates_are_listed(
    data: Seq<ThingsChangeLogEntry>,
    thing: Seq<char>,
    cutoff: int,
    x: ThingsChangeLogEntry,
    i: int,
    j: int,
)
    ensures
        ({
            let list = ranked(data, recent_update_of(thing, cutoff), by_log_creation(), true);
            &&& list.contains(x) <==> data.contains(x) && x.entity_type@ == "thing"@
                && x.entity_uuid@ == thing && x.op_type is UpdateThing && x.created_at >= cutoff
            &&& 0 <= i < j < list.len() ==> ({
                let a = list[i];
                let b = list[j];
                a.created_at >= b.created_at
            })
        }),
{
    lemma_listed(data, recent_update_of(thing, cutoff), by_log_creation(), true, x);
}

/// The changes that were not sent, the oldest first.
pub proof fn law_unsent_changes_are_listed(
    data: Seq<ThingsChangeLogEntry>,
    x: ThingsChangeLogEntry,
    i: int,
    j: int,
)
    ensures
        ({
            let list = ranked(data, log_unsynced(), by_log_creation(), false);
            &&& list.contains(x) <==> data.contains(x) && !x.synced
            &&& 0 <= i < j < list.len() ==> ({
                let a = list[i];
                let b = list[j];
                a.created_at <= b.created_at
            })
        }),
{
    lemma_listed(data, log_unsynced(), by_log_creation(), false, x);
}

/// The contents that were kept of a thing, the newest first.
pub proof fn law_kept_contents_of_a_thing_are_listed(
    data: Seq<ThingsContentSnapshot>,
    thing: Seq<char>,
    x: ThingsContentSnapshot,
    i: int,
    j: int,
)
    ensures
        ({
            let list = ranked(data, snapshot_of(thing), by_snapshot_creation(), true);
            &&& list.contains(x) <==> data.contains(x) && x.thing_uuid@ == thing
            &&& 0 <= i < j < list.len() ==> ({
                let a = list[i];
                let b = list[j];
                a.created_at >= b.created_at
            })
        }),
{
    lemma_listed(data, snapshot_of(thing), by_snapshot_creation(), true, x);
}

/// The kept contents that were not sent, the oldest first.
pub proof fn law_unsent_contents_are_listed(
    data: Seq<ThingsContentSnapshot>,
    x: ThingsContentSnapshot,
    i: int,
    j: int,
)
    ensures
        ({
            let list = ranked(data, snapshot_unsynced(), by_snapshot_creation(), false);
            &&& list.contains(x) <==> data.contains(x) && !x.synced
            &&& 0 <= i < j < list.len() ==> ({
                let a = list[i];
                let b = list[j];
                a.created_at <= b.created_at
            })
        }),
{
    lemma_listed(data, snapshot_unsynced(), by_snapshot_creation(), false, x);
}

/// The documents that wait to be sent: the root first, collections before texts, and texts
/// before the rest.
pub proof fn law_unsaved_documents_are_listed(
    data: Seq<CrdtDocumentRow>,
    x: CrdtDocumentRow,
    i: int,
    j: int,
)
    ensures
        ({
            let list = ranked(data, document_dirty(), by_type_priority(), false);
            &&& list.contains(x) <==> data.contains(x) && x.dirty
            &&& 0 <= i < j < list.len() ==> ({
                let a = list[i];
                let b = list[j];
                &&& b.data_type@ == "root"@ ==> a.data_type@ == "root"@
                &&& b.data_type@ == "collection"@ ==> a.data_type@ == "root"@ || a.data_type@
                    == "collection"@
                &&& b.data_type@ == "thing_markdown"@ ==> a.data_type@ == "root"@ || a.data_type@
                    == "collection"@ || a.data_type@ == "thing_markdown"@
            })
        }),
{
    reveal_strlit("root");
    reveal_strlit("collection");
    reveal_strlit("thing_markdown");
    assert("root"@.len() == 4 && "collection"@.len() == 10 && "thing_markdown"@.len() == 14);
    lemma_listed(data, document_dirty(), by_type_priority(), false, x);
}

} // verus!
