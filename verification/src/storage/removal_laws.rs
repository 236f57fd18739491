//! What a deletion takes away and what it leaves, and what is looked for by its key.
use super::chat::{
    eval_of_other_dataset, eval_of_other_run, every, is_dataset, is_eval, is_item, is_run,
    is_version, item_clashes, item_of_other_dataset, items_clash, member_not_session,
    member_of_other, message_outside, not_member, other_dataset, other_version,
    run_of_other_dataset, run_touched, session_other, state_not_of,
};
use super::documents::{document_keys, document_of_type, other_document, other_key};
use super::notifications::{
    by_arrival, counted, group_heads, group_shows, groups_shown, in_category, is_notification,
    outside_category, NotificationGroup,
};
use super::things_log::{is_exact, is_log, log_in, other_place, snapshot_for_log, snapshot_in};
use super::triggers::{
    binding_of_other, bound_to_other, event_row, is_invocation, other_trigger, real_limit,
    time_span, without_repeats, EventPayload,
};
use crate::json::json_text;
use crate::rows::{
    ActionInvocationRecord, AgentVersion, ChatMessage, ChatRuntimeState, ChatSession,
    CrdtDocumentRow, DatasetMember, EvalDataset, EvalDatasetRun, EvalDatasetRunEval, InternalKv,
    LocationCacheEntry, NotificationEntry, RunItem, StoredEvent, StoredTrigger,
    ThingsChangeLogEntry, ThingsContentSnapshot, TriggerBinding,
};
use crate::storage::listing_laws::lemma_listed;
use crate::table::{
    law_ranked_is_sorted_selection, lemma_position_of, page, position_of, rank_before, ranked,
};
use vstd::prelude::*;

verus! {

/// Deleting a conversation takes its messages, its state and its places in collections, and leaves
/// those of every other one.
pub proof fn law_session_is_deleted_whole(
    id: Seq<char>,
    s: ChatSession,
    m: ChatMessage,
    r: ChatRuntimeState,
    d: DatasetMember,
)
    ensures
        session_other(id)(s) <==> s.session_id@ != id,
        message_outside(id)(m) <==> m.session_id@ != id,
        state_not_of(id)(r) <==> r.session_id@ != id,
        member_not_session(id)(d) <==> d.session_id@ != id,
{
}

/// Deleting a collection of conversations takes its members, its runs, their items and their
/// judgements, and leaves those of every other one.
pub proof fn law_dataset_is_deleted_whole(
    id: Seq<char>,
    session: Seq<char>,
    d: EvalDataset,
    m: DatasetMember,
    r: EvalDatasetRun,
    i: RunItem,
    e: EvalDatasetRunEval,
)
    ensures
        other_dataset(id)(d) <==> d.dataset_id@ != id,
        is_dataset(id)(d) <==> d.dataset_id@ == id,
        member_of_other(id)(m) <==> m.dataset_id@ != id,
        not_member(id, session)(m) <==> m.dataset_id@ != id || m.session_id@ != session,
        run_of_other_dataset(id)(r) <==> r.dataset_id@ != id,
        item_of_other_dataset(id)(i) <==> i.dataset_id@ != id,
        eval_of_other_dataset(id)(e) <==> e.dataset_id@ != id,
        eval_of_other_run(id)(e) <==> e.run_id@ != id,
{
}

/// Versions, runs and what they hold are found by their ids; a run that is touched changes its time
/// alone.
pub proof fn law_runs_are_found_by_their_ids(
    id: Seq<char>,
    session: Seq<char>,
    v: AgentVersion,
    r: EvalDatasetRun,
    i: RunItem,
    e: EvalDatasetRunEval,
    at: i64,
)
    ensures
        is_version(id)(v) <==> v.version_id@ == id,
        other_version(id)(v) <==> v.version_id@ != id,
        is_run(id)(r) <==> r.run_id@ == id,
        is_item(id, session)(i) <==> i.run_id@ == id && i.session_id@ == session,
        is_eval(id, session)(e) <==> e.run_id@ == id && e.session_id@ == session,
        run_touched(at)(r).updated_at == at,
        run_touched(at)(r).run_id == r.run_id,
        run_touched(at)(r).dataset_id == r.dataset_id,
        run_touched(at)(r).created_at == r.created_at,
{
}

/// Items clash where two of them, or one of them and one that is stored, are of the same run and
/// the same conversation.
pub proof fn law_items_clash(stored: Seq<RunItem>, items: Seq<RunItem>)
    ensures
        items_clash(stored, items) <==> exists|k: int, j: int|
            0 <= k < items.len() && 0 <= j < stored.len() + k && same_item(
                #[trigger] (stored + items)[j],
                #[trigger] items[k],
            ),
{
    if items_clash(stored, items) {
        let k = choose|k: int| 0 <= k < items.len() && #[trigger] item_clashes(stored, items, k);
        let all = stored + items.take(k);
        let hit = is_item(items[k].run_id@, items[k].session_id@);
        let j = choose|j: int| 0 <= j < all.len() && hit(#[trigger] all[j]);
        assert((stored + items)[j] == all[j]);
        assert(same_item((stored + items)[j], items[k]));
    }
    if exists|k: int, j: int|
        0 <= k < items.len() && 0 <= j < stored.len() + k && same_item(
            #[trigger] (stored + items)[j],
            #[trigger] items[k],
        ) {
        let (k, j) = choose|k: int, j: int|
            0 <= k < items.len() && 0 <= j < stored.len() + k && same_item(
                #[trigger] (stored + items)[j],
                #[trigger] items[k],
            );
        let all = stored + items.take(k);
        assert(all[j] == (stored + items)[j]);
        assert(is_item(items[k].run_id@, items[k].session_id@)(all[j]));
        assert(item_clashes(stored, items, k));
    }
}

/// Whether two items are of the same run and the same conversation.
pub open spec fn same_item(a: RunItem, b: RunItem) -> bool {
    a.run_id@ == b.run_id@ && a.session_id@ == b.session_id@
}

/// Deleting the notifications of a category leaves those of the others; they are found by their
/// ids.
pub proof fn law_categories_are_deleted_whole(n: NotificationEntry, category: Seq<char>, id: i64)
    ensures
        outside_category(category)(n) <==> n.category@ != category,
        is_notification(id)(n) <==> n.id == id,
        counted(category, false)(n) <==> n.category@ == category,
        counted(category, true)(n) <==> n.category@ == category && !n.is_read,
{
}

/// A group shows the newest of its category: the title, the source and the time are those of its
/// head, its notifications are of the category, the newest first, and they are counted.
pub proof fn law_groups_show_their_category(
    group: NotificationGroup,
    data: Seq<NotificationEntry>,
    head: NotificationEntry,
    limit: u32,
    i: int,
    j: int,
)
    requires
        group_shows(group, data, head, limit),
    ensures
        group.category == head.category && group.title == head.title && group.source
            == head.source && group.latest_at == head.created_at,
        group.items@.len() <= limit,
        0 <= i < group.items@.len() ==> group.items@[i].category@ == head.category@
            && data.contains(group.items@[i]),
        0 <= i < j < group.items@.len() ==> group.items@[i].created_at
            >= group.items@[j].created_at,
        group.total_count == data.filter(
            |n: NotificationEntry| n.category@ == head.category@,
        ).len(),
        group.unread_count == data.filter(
            |n: NotificationEntry| n.category@ == head.category@ && !n.is_read,
        ).len(),
{
    let keep = in_category(head.category@);
    let list = ranked(data, keep, by_arrival(), true);
    if 0 <= i < group.items@.len() {
        assert(group.items@[i] == list[i]);
        lemma_listed(data, keep, by_arrival(), true, list[i]);
        assert(list.contains(list[i]));
    }
    if 0 <= i < j < group.items@.len() {
        assert(group.items@[j] == list[j]);
        lemma_listed(data, keep, by_arrival(), true, list[j]);
        assert(crate::table::rank_before(true, by_arrival()(list[i]), by_arrival()(list[j])));
    }
    let all = |n: NotificationEntry| n.category@ == head.category@;
    let unread = |n: NotificationEntry| n.category@ == head.category@ && !n.is_read;
    assert(all =~= counted(head.category@, false));
    assert(unread =~= counted(head.category@, true));
}

/// Triggers, runs, bindings, logged changes and kept contents are found and told apart by their
/// ids.
pub proof fn law_rows_are_told_apart(
    id: Seq<char>,
    kind: Seq<char>,
    number: i64,
    ids: Seq<i64>,
    t: StoredTrigger,
    r: ActionInvocationRecord,
    b: TriggerBinding,
    e: ThingsChangeLogEntry,
    s: ThingsContentSnapshot,
)
    ensures
        other_trigger(id)(t) <==> t.trigger_uuid@ != id,
        is_invocation(id)(r) <==> r.invocation_uuid@ == id,
        bound_to_other(id)(b) <==> b.trigger_uuid@ != id,
        binding_of_other(kind, id)(b) <==> b.entity_type@ != kind || b.entity_uuid@ != id,
        is_log(number)(e) <==> e.id == number,
        log_in(ids)(e) <==> ids.contains(e.id),
        snapshot_for_log(number)(s) <==> s.change_log_id == Some(number),
        snapshot_in(ids)(s) <==> ids.contains(s.id),
{
}

/// Documents are told apart by their id and their kind together, places by their names, and kept
/// values by their keys.
pub proof fn law_documents_are_told_apart(
    id: Seq<char>,
    kind: Seq<char>,
    d: CrdtDocumentRow,
    l: LocationCacheEntry,
    kv: InternalKv,
    data: Seq<CrdtDocumentRow>,
    i: int,
)
    ensures
        other_document(id, kind)(d) <==> d.uuid@ != id || d.data_type@ != kind,
        document_of_type(kind)(d) <==> d.data_type@ == kind,
        other_place(id)(l) <==> l.name@ != id,
        is_exact()(l) <==> !l.is_fuzzy,
        other_key(id)(kv) <==> kv.key@ != id,
        document_keys(data).len() == data.len(),
        0 <= i < data.len() ==> document_keys(data)[i] == (data[i].uuid@, data[i].data_type@),
{
}

/// An event that is stored is the one that happened: its kind, its time and what is known of it.
pub proof fn law_stored_event_is_as_it_happened(row: StoredEvent, event: EventPayload, now: i64)
    requires
        event_row(row, event, now),
    ensures
        row.event_type == event.event_type,
        row.timestamp_utc == event.timestamp.seconds,
        row.metadata_json@ == json_text(event.metadata@),
        row.created_at == now,
{
}

/// The span of the events is from the first to the last of them.
pub proof fn law_span_of_events(data: Seq<StoredEvent>, first: i64, last: i64, i: int)
    requires
        time_span(data, Some((first, last))),
        0 <= i < data.len(),
    ensures
        first <= data[i].timestamp_utc <= last,
        exists|k: int| 0 <= k < data.len() && (#[trigger] data[k]).timestamp_utc == first,
        exists|k: int| 0 <= k < data.len() && (#[trigger] data[k]).timestamp_utc == last,
{
}

/// A limit of none stands for no limit.
pub proof fn law_no_limit(n: u32)
    ensures
        real_limit(Some(0u32)) is None,
        n > 0 ==> real_limit(Some(n)) == Some(n),
        real_limit(None) is None,
{
}

/// Without repeats a list has each of its texts once, and no others.
pub proof fn law_without_repeats(s: Seq<Seq<char>>, x: Seq<char>, i: int, j: int)
    ensures
        without_repeats(s).contains(x) <==> s.contains(x),
        0 <= i < j < without_repeats(s).len() ==> without_repeats(s)[i] != without_repeats(s)[j],
    decreases s.len(),
{
    if s.len() > 0 {
        let front = s.drop_last();
        let before = without_repeats(front);
        let all = without_repeats(s);
        law_without_repeats(front, x, i, j);
        law_without_repeats(front, s.last(), i, j);
        if all.contains(x) {
            let k = choose|k: int| 0 <= k < all.len() && all[k] == x;
            if k < before.len() {
                assert(before[k] == x);
                let m = choose|m: int| 0 <= m < front.len() && front[m] == x;
                assert(s[m] == x);
            } else {
                assert(s[s.len() - 1] == x);
            }
        }
        if s.contains(x) {
            let m = choose|m: int| 0 <= m < s.len() && s[m] == x;
            if m < front.len() {
                assert(front[m] == x);
                let k = choose|k: int| 0 <= k < before.len() && before[k] == x;
                assert(all[k] == x);
            } else if before.contains(x) {
                let k = choose|k: int| 0 <= k < before.len() && before[k] == x;
                assert(all[k] == x);
            } else {
                assert(all[before.len() as int] == x);
            }
        }
        if 0 <= i < j < all.len() {
            if j < before.len() {
                assert(all[i] == before[i] && all[j] == before[j]);
            } else {
                assert(all[i] == before[i]);
                assert(before.contains(before[i]));
            }
        }
    }
}

/// The heads of the groups are notifications, and no two of them are of one category.
pub proof fn law_heads_are_notifications(data: Seq<NotificationEntry>, j: int, k: int)
    requires
        0 <= k < group_heads(data).len(),
    ensures
        data.contains(group_heads(data)[k]),
        0 <= j < k ==> group_heads(data)[j].category@ != group_heads(data)[k].category@,
    decreases data.len(),
{
    if data.len() > 0 {
        let front = data.drop_last();
        let heads = group_heads(front);
        let n = data.last();
        lemma_position_of(heads, in_category(n.category@));
        let at = position_of(heads, in_category(n.category@));
        assert(data[data.len() - 1] == n);
        if k < heads.len() {
            law_heads_are_notifications(front, j, k);
            let i = choose|i: int| 0 <= i < front.len() && front[i] == heads[k];
            assert(data[i] == heads[k]);
        } else if 0 <= j < k {
            assert(!in_category(n.category@)(heads[j]));
        }
    }
}

/// Every category has a head, and nothing of the category is newer than it.
pub proof fn law_head_is_the_newest(data: Seq<NotificationEntry>, i: int)
    requires
        0 <= i < data.len(),
    ensures
        exists|k: int|
            0 <= k < group_heads(data).len() && (#[trigger] group_heads(data)[k]).category@
                == data[i].category@ && group_heads(data)[k].created_at >= data[i].created_at,
    decreases data.len(),
{
    let front = data.drop_last();
    let heads = group_heads(front);
    let n = data.last();
    lemma_position_of(heads, in_category(n.category@));
    let at = position_of(heads, in_category(n.category@));
    if i < front.len() {
        law_head_is_the_newest(front, i);
        assert(front[i] == data[i]);
        let k = choose|k: int|
            0 <= k < heads.len() && (#[trigger] heads[k]).category@ == front[i].category@
                && heads[k].created_at >= front[i].created_at;
        assert(group_heads(data)[k].category@ == data[i].category@);
    } else {
        assert(group_heads(data)[at].category@ == n.category@);
    }
}

/// The groups that are shown are at most as many as asked for, each is that of a head, and the one
/// with the newest notification comes first.
pub proof fn law_groups_come_newest_first(
    groups: Seq<NotificationGroup>,
    data: Seq<NotificationEntry>,
    limit: u32,
    i: int,
    j: int,
)
    requires
        groups_shown(groups, data, limit),
    ensures
        groups.len() == if group_heads(data).len() < limit {
            group_heads(data).len()
        } else {
            limit as nat
        },
        0 <= i < groups.len() ==> exists|k: int|
            0 <= k < group_heads(data).len() && group_shows(
                groups[i],
                data,
                #[trigger] group_heads(data)[k],
                limit,
            ),
        0 <= i < j < groups.len() ==> groups[i].latest_at >= groups[j].latest_at,
{
    let heads = group_heads(data);
    let list = ranked(heads, every(), by_arrival(), true);
    law_ranked_is_sorted_selection(heads, every(), by_arrival(), true);
    lemma_all_kept(heads);
    assert(list.len() == heads.len()) by {
        list.to_multiset_ensures();
        heads.to_multiset_ensures();
    }
    let tops = page(list, Some(limit), 0);
    if 0 <= i < groups.len() {
        assert(group_shows(groups[i], data, tops[i], limit));
        assert(tops[i] == list[i]);
        lemma_listed(heads, every(), by_arrival(), true, list[i]);
        assert(list.contains(list[i]));
        let k = choose|k: int| 0 <= k < heads.len() && heads[k] == list[i];
        assert(group_shows(groups[i], data, heads[k], limit));
        if i < j < groups.len() {
            assert(group_shows(groups[j], data, tops[j], limit));
            assert(tops[j] == list[j]);
            assert(rank_before(true, by_arrival()(list[i]), by_arrival()(list[j])));
        }
    }
}

proof fn lemma_all_kept(data: Seq<NotificationEntry>)
    ensures
        data.filter(every()) == data,
    decreases data.len(),
{
    reveal(Seq::filter);
    if data.len() > 0 {
        lemma_all_kept(data.drop_last());
        assert(data.drop_last().push(data.last()) =~= data);
    }
}

} // verus!
