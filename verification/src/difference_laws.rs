//! What is reported of two states of the things, what an undo meets, and what the entries of a
//! thing are after those of another state were taken over.
use crate::content_registry::EntryView;
use crate::rows::ThingsOperationType;
use crate::table::{law_first_data, lemma_position_is, lemma_position_of};
use crate::things_crdt::{
    coll, entries_put, entries_refusal, entry_added, entry_at, entry_changed, has_entry, is_coll,
    is_entry, is_thing, thing_at, thing_entries,
};
use crate::things_docs::{CollView, SetView, ThingDocView};
use crate::things_events::{EventView, ThingsDocumentChangeKind, ThingsDocumentKind};
use crate::things_laws::{entries_apart, lemma_coll_put};
use crate::things_local::{collection_in, has_entry_uuid, has_thing_uuid, thing_in};
use crate::things_replay::{
    gone_collections, gone_things, last_collection_in, last_entry_in, last_thing_in,
    logged_collection, merged_range, new_collections, new_things, sync_outcome, undo_conflict,
    unwanted_deleted, wanted_synced, ThingsUndoConflictType,
};
use crate::things_types::{CollectionEntryView, ThingEntryView};
use vstd::prelude::*;

verus! {

/// Whether a list shows a collection with an id.
pub open spec fn shows_collection(list: Seq<CollectionEntryView>, uuid: Seq<char>) -> bool {
    exists|i: int| 0 <= i < list.len() && (#[trigger] list[i]).uuid == uuid
}

/// Whether a list shows a thing with an id.
pub open spec fn shows_thing(list: Seq<ThingEntryView>, uuid: Seq<char>) -> bool {
    exists|i: int| 0 <= i < list.len() && (#[trigger] list[i]).uuid == uuid
}

proof fn lemma_shows(
    collections: Seq<CollectionEntryView>,
    things: Seq<ThingEntryView>,
    uuid: Seq<char>,
)
    ensures
        collection_in(collections, uuid) is Some <==> shows_collection(collections, uuid),
        thing_in(things, uuid) is Some <==> shows_thing(things, uuid),
{
    law_first_data(collections, has_entry_uuid(uuid));
    law_first_data(things, has_thing_uuid(uuid));
    if shows_collection(collections, uuid) {
        let i = choose|i: int|
            0 <= i < collections.len() && (#[trigger] collections[i]).uuid == uuid;
        assert(has_entry_uuid(uuid)(collections[i]));
    }
    if shows_thing(things, uuid) {
        let i = choose|i: int| 0 <= i < things.len() && (#[trigger] things[i]).uuid == uuid;
        assert(has_thing_uuid(uuid)(things[i]));
    }
    if let Some(c) = collection_in(collections, uuid) {
        let i = choose|i: int| 0 <= i < collections.len() && collections[i] == c;
        assert(collections[i].uuid == uuid);
    }
    if let Some(t) = thing_in(things, uuid) {
        let i = choose|i: int| 0 <= i < things.len() && things[i] == t;
        assert(things[i].uuid == uuid);
    }
}

/// A creation can be undone where what was created is still there, a deletion where it is not there
/// again, and the deletion of a thing only where its collection is; other changes meet nothing.
pub proof fn law_what_an_undo_meets(
    op: ThingsOperationType,
    uuid: Seq<char>,
    details: Seq<char>,
    collections: Seq<CollectionEntryView>,
    things: Seq<ThingEntryView>,
)
    ensures
        ({
            let out = undo_conflict(op, uuid, details, collections, things);
            let home = logged_collection(details);
            match op {
                ThingsOperationType::CreateCollection => out is Some <==> !shows_collection(
                    collections,
                    uuid,
                ),
                ThingsOperationType::CreateThing => out is Some <==> !shows_thing(things, uuid),
                ThingsOperationType::DeleteCollection => out is Some <==> shows_collection(
                    collections,
                    uuid,
                ),
                ThingsOperationType::DeleteThing => {
                    &&& out is None <==> !shows_thing(things, uuid) && (home.len() == 0
                        || shows_collection(collections, home))
                    &&& shows_thing(things, uuid) ==> out->0.conflict_type
                        == ThingsUndoConflictType::EntityExists
                    &&& out is Some && !shows_thing(things, uuid) ==> out->0.conflict_type
                        == ThingsUndoConflictType::ParentDeleted && out->0.options.len() == 3
                },
                _ => out is None,
            }
        }),
{
    lemma_shows(collections, things, uuid);
    lemma_shows(collections, things, logged_collection(details));
}

proof fn lemma_last_collection(list: Seq<CollectionEntryView>, uuid: Seq<char>)
    ensures
        last_collection_in(list, uuid) is Some <==> shows_collection(list, uuid),
        last_collection_in(list, uuid) matches Some(c) ==> c.uuid == uuid && list.contains(c),
    decreases list.len(),
{
    if list.len() > 0 {
        let front = list.drop_last();
        lemma_last_collection(front, uuid);
        if list.last().uuid == uuid {
            assert(list[list.len() - 1].uuid == uuid);
        } else {
            if shows_collection(list, uuid) {
                let i = choose|i: int| 0 <= i < list.len() && (#[trigger] list[i]).uuid == uuid;
                assert(front[i].uuid == uuid);
            }
            if let Some(c) = last_collection_in(front, uuid) {
                let i = choose|i: int| 0 <= i < front.len() && front[i] == c;
                assert(list[i] == c);
            }
        }
    }
}

proof fn lemma_last_thing(list: Seq<ThingEntryView>, uuid: Seq<char>)
    ensures
        last_thing_in(list, uuid) is Some <==> shows_thing(list, uuid),
        last_thing_in(list, uuid) matches Some(t) ==> t.uuid == uuid && list.contains(t),
    decreases list.len(),
{
    if list.len() > 0 {
        let front = list.drop_last();
        lemma_last_thing(front, uuid);
        if list.last().uuid == uuid {
            assert(list[list.len() - 1].uuid == uuid);
        } else {
            if shows_thing(list, uuid) {
                let i = choose|i: int| 0 <= i < list.len() && (#[trigger] list[i]).uuid == uuid;
                assert(front[i].uuid == uuid);
            }
            if let Some(t) = last_thing_in(front, uuid) {
                let i = choose|i: int| 0 <= i < front.len() && front[i] == t;
                assert(list[i] == t);
            }
        }
    }
}

/// Whether an event says of a collection what happened to it.
pub open spec fn tells_of_collection(
    e: EventView,
    kind: ThingsDocumentChangeKind,
    uuid: Seq<char>,
) -> bool {
    &&& e.document_kind == ThingsDocumentKind::Collection
    &&& e.change_kind == kind
    &&& e.document_uuid == uuid
    &&& e.collection_uuid == Some(uuid)
}

/// Whether an event says of a thing what happened to it.
pub open spec fn tells_of_thing(
    e: EventView,
    kind: ThingsDocumentChangeKind,
    collection: Seq<char>,
    uuid: Seq<char>,
) -> bool {
    &&& e.document_kind == ThingsDocumentKind::Thing
    &&& e.change_kind == kind
    &&& e.document_uuid == uuid
    &&& e.collection_uuid == Some(collection)
    &&& e.thing_uuid == Some(uuid)
}

/// A collection that was not there before is reported as created, and one that is not as it was is
/// reported as changed.
pub proof fn law_new_collections_are_reported(
    before: Seq<CollectionEntryView>,
    after: Seq<CollectionEntryView>,
    i: int,
)
    requires
        0 <= i < after.len(),
    ensures
        !shows_collection(before, after[i].uuid) ==> exists|k: int|
            0 <= k < new_collections(before, after).len() && tells_of_collection(
                #[trigger] new_collections(before, after)[k],
                ThingsDocumentChangeKind::Created,
                after[i].uuid,
            ),
        shows_collection(before, after[i].uuid) && !before.contains(after[i]) ==> exists|k: int|
            0 <= k < new_collections(before, after).len() && tells_of_collection(
                #[trigger] new_collections(before, after)[k],
                ThingsDocumentChangeKind::Updated,
                after[i].uuid,
            ),
    decreases after.len(),
{
    let front = after.drop_last();
    let rest = new_collections(before, front);
    let all = new_collections(before, after);
    lemma_last_collection(before, after[i].uuid);
    if i < front.len() {
        law_new_collections_are_reported(before, front, i);
        assert(front[i] == after[i]);
        let uuid = after[i].uuid;
        if !shows_collection(before, uuid) {
            let k = choose|k: int|
                0 <= k < rest.len() && tells_of_collection(
                    #[trigger] rest[k],
                    ThingsDocumentChangeKind::Created,
                    uuid,
                );
            assert(all[k] == rest[k]);
        } else if !before.contains(after[i]) {
            let k = choose|k: int|
                0 <= k < rest.len() && tells_of_collection(
                    #[trigger] rest[k],
                    ThingsDocumentChangeKind::Updated,
                    uuid,
                );
            assert(all[k] == rest[k]);
        }
    } else {
        if !shows_collection(before, after[i].uuid) || !before.contains(after[i]) {
            assert(all[rest.len() as int] == all.last());
        }
    }
}

/// A collection that is not there any more is reported as deleted.
pub proof fn law_gone_collections_are_reported(
    before: Seq<CollectionEntryView>,
    after: Seq<CollectionEntryView>,
    i: int,
)
    requires
        0 <= i < before.len(),
        !shows_collection(after, before[i].uuid),
    ensures
        exists|k: int|
            0 <= k < gone_collections(before, after).len() && tells_of_collection(
                #[trigger] gone_collections(before, after)[k],
                ThingsDocumentChangeKind::Deleted,
                before[i].uuid,
            ),
    decreases before.len(),
{
    let front = before.drop_last();
    let rest = gone_collections(front, after);
    let all = gone_collections(before, after);
    lemma_last_collection(after, before[i].uuid);
    if i < front.len() {
        assert(front[i] == before[i]);
        law_gone_collections_are_reported(front, after, i);
        let k = choose|k: int|
            0 <= k < rest.len() && tells_of_collection(
                #[trigger] rest[k],
                ThingsDocumentChangeKind::Deleted,
                before[i].uuid,
            );
        assert(all[k] == rest[k]);
    } else {
        assert(all[rest.len() as int] == all.last());
    }
}

/// Each report of a collection is of one that is there and is not as it was, or of one that is
/// gone.
pub proof fn law_collection_reports_are_true(
    before: Seq<CollectionEntryView>,
    after: Seq<CollectionEntryView>,
    k: int,
)
    ensures
        0 <= k < new_collections(before, after).len() ==> exists|i: int|
            0 <= i < after.len() && (tells_of_collection(
                new_collections(before, after)[k],
                ThingsDocumentChangeKind::Created,
                (#[trigger] after[i]).uuid,
            ) && !shows_collection(before, after[i].uuid) || tells_of_collection(
                new_collections(before, after)[k],
                ThingsDocumentChangeKind::Updated,
                after[i].uuid,
            ) && shows_collection(before, after[i].uuid)),
        0 <= k < gone_collections(before, after).len() ==> exists|i: int|
            0 <= i < before.len() && tells_of_collection(
                gone_collections(before, after)[k],
                ThingsDocumentChangeKind::Deleted,
                (#[trigger] before[i]).uuid,
            ) && !shows_collection(after, before[i].uuid),
    decreases before.len() + after.len(),
{
    if after.len() > 0 {
        let front = after.drop_last();
        let rest = new_collections(before, front);
        let all = new_collections(before, after);
        lemma_last_collection(before, after.last().uuid);
        if 0 <= k < all.len() {
            if k < rest.len() {
                law_collection_reports_are_true(before, front, k);
                let i = choose|i: int|
                    0 <= i < front.len() && (tells_of_collection(
                        rest[k],
                        ThingsDocumentChangeKind::Created,
                        (#[trigger] front[i]).uuid,
                    ) && !shows_collection(before, front[i].uuid) || tells_of_collection(
                        rest[k],
                        ThingsDocumentChangeKind::Updated,
                        front[i].uuid,
                    ) && shows_collection(before, front[i].uuid));
                assert(after[i] == front[i]);
                assert(all[k] == rest[k]);
            } else {
                assert(after[after.len() - 1] == after.last());
            }
        }
    }
    if before.len() > 0 {
        let front = before.drop_last();
        let rest = gone_collections(front, after);
        let all = gone_collections(before, after);
        lemma_last_collection(after, before.last().uuid);
        if 0 <= k < all.len() {
            if k < rest.len() {
                law_collection_reports_are_true(front, after, k);
                let i = choose|i: int|
                    0 <= i < front.len() && tells_of_collection(
                        rest[k],
                        ThingsDocumentChangeKind::Deleted,
                        (#[trigger] front[i]).uuid,
                    ) && !shows_collection(after, front[i].uuid);
                assert(before[i] == front[i]);
                assert(all[k] == rest[k]);
            } else {
                assert(before[before.len() - 1] == before.last());
            }
        }
    }
}

/// A thing that was not there before is reported as created in its collection, and one that is not
/// as it was is reported as changed.
pub proof fn law_new_things_are_reported(
    before: Seq<ThingEntryView>,
    after: Seq<ThingEntryView>,
    i: int,
)
    requires
        0 <= i < after.len(),
    ensures
        !shows_thing(before, after[i].uuid) ==> exists|k: int|
            0 <= k < new_things(before, after).len() && tells_of_thing(
                #[trigger] new_things(before, after)[k],
                ThingsDocumentChangeKind::Created,
                after[i].collection_uuid,
                after[i].uuid,
            ),
        shows_thing(before, after[i].uuid) && !before.contains(after[i]) ==> exists|k: int|
            0 <= k < new_things(before, after).len() && tells_of_thing(
                #[trigger] new_things(before, after)[k],
                ThingsDocumentChangeKind::Updated,
                after[i].collection_uuid,
                after[i].uuid,
            ),
    decreases after.len(),
{
    let front = after.drop_last();
    let rest = new_things(before, front);
    let all = new_things(before, after);
    lemma_last_thing(before, after[i].uuid);
    if i < front.len() {
        law_new_things_are_reported(before, front, i);
        assert(front[i] == after[i]);
        let t = after[i];
        if !shows_thing(before, t.uuid) {
            let k = choose|k: int|
                0 <= k < rest.len() && tells_of_thing(
                    #[trigger] rest[k],
                    ThingsDocumentChangeKind::Created,
                    t.collection_uuid,
                    t.uuid,
                );
            assert(all[k] == rest[k]);
        } else if !before.contains(t) {
            let k = choose|k: int|
                0 <= k < rest.len() && tells_of_thing(
                    #[trigger] rest[k],
                    ThingsDocumentChangeKind::Updated,
                    t.collection_uuid,
                    t.uuid,
                );
            assert(all[k] == rest[k]);
        }
    } else {
        if !shows_thing(before, after[i].uuid) || !before.contains(after[i]) {
            assert(all[rest.len() as int] == all.last());
        }
    }
}

/// A thing that is not there any more is reported as deleted.
pub proof fn law_gone_things_are_reported(
    before: Seq<ThingEntryView>,
    after: Seq<ThingEntryView>,
    i: int,
)
    requires
        0 <= i < before.len(),
        !shows_thing(after, before[i].uuid),
    ensures
        exists|k: int|
            0 <= k < gone_things(before, after).len() && tells_of_thing(
                #[trigger] gone_things(before, after)[k],
                ThingsDocumentChangeKind::Deleted,
                before[i].collection_uuid,
                before[i].uuid,
            ),
    decreases before.len(),
{
    let front = before.drop_last();
    let rest = gone_things(front, after);
    let all = gone_things(before, after);
    lemma_last_thing(after, before[i].uuid);
    if i < front.len() {
        assert(front[i] == before[i]);
        law_gone_things_are_reported(front, after, i);
        let k = choose|k: int|
            0 <= k < rest.len() && tells_of_thing(
                #[trigger] rest[k],
                ThingsDocumentChangeKind::Deleted,
                before[i].collection_uuid,
                before[i].uuid,
            );
        assert(all[k] == rest[k]);
    } else {
        assert(all[rest.len() as int] == all.last());
    }
}

proof fn lemma_entries_put(
    set: SetView,
    collection: Seq<char>,
    id: Seq<char>,
    entries: Seq<EntryView>,
)
    requires
        entries_refusal(set, collection, id) is None,
    ensures
        entries_refusal(entries_put(set, collection, id, entries), collection, id) is None,
        thing_entries(entries_put(set, collection, id, entries), collection, id) == entries,
{
    lemma_position_of(set.collections, is_coll(collection));
    let c = coll(set, collection);
    let things = c.things;
    let at = thing_at(things, id);
    lemma_position_of(things, is_thing(id));
    let new = things.update(at, ThingDocView { entries, ..things[at] });
    lemma_coll_put(set, collection, CollView { things: new, dirty: true, ..c });
    assert forall|k: int| 0 <= k < at implies !is_thing(id)(#[trigger] new[k]) by {
        assert(new[k] == things[k]);
    }
    assert(is_thing(id)(new[at]));
    lemma_position_is(new, is_thing(id), at);
}

/// Whether a list has an entry with an id.
pub open spec fn names_entry(list: Seq<EntryView>, id: Seq<char>) -> bool {
    exists|i: int| 0 <= i < list.len() && (#[trigger] list[i]).id == id
}

proof fn lemma_last_entry(list: Seq<EntryView>, id: Seq<char>)
    ensures
        last_entry_in(list, id) is Some <==> names_entry(list, id),
        last_entry_in(list, id) matches Some(e) ==> e.id == id && list.contains(e),
    decreases list.len(),
{
    if list.len() > 0 {
        let front = list.drop_last();
        lemma_last_entry(front, id);
        if list.last().id == id {
            assert(list[list.len() - 1].id == id);
        } else {
            if names_entry(list, id) {
                let i = choose|i: int| 0 <= i < list.len() && (#[trigger] list[i]).id == id;
                assert(front[i].id == id);
            }
            if let Some(e) = last_entry_in(front, id) {
                let i = choose|i: int| 0 <= i < front.len() && front[i] == e;
                assert(list[i] == e);
            }
        }
    }
}

proof fn lemma_has_entry(list: Seq<EntryView>, id: Seq<char>)
    ensures
        has_entry(list, id) <==> names_entry(list, id),
        has_entry(list, id) ==> 0 <= entry_at(list, id) < list.len() && list[entry_at(
            list,
            id,
        )].id == id,
{
    lemma_position_of(list, is_entry(id));
    if names_entry(list, id) {
        let i = choose|i: int| 0 <= i < list.len() && (#[trigger] list[i]).id == id;
        assert(is_entry(id)(list[i]));
    }
}

/// What a list of entries is after those of `existing` that are not wanted went: every entry of it
/// was there, and of what was there those are left that are wanted.
spec fn rid(
    list: Seq<EntryView>,
    existing: Seq<EntryView>,
    wanted: Seq<EntryView>,
    n: int,
) -> bool {
    &&& entries_apart(list)
    &&& forall|i: int| 0 <= i < list.len() ==> existing.contains(#[trigger] list[i])
    &&& forall|i: int|
        0 <= i < existing.len() && (i >= n || names_entry(wanted, (#[trigger] existing[i]).id))
            ==> list.contains(existing[i])
    &&& forall|i: int|
        0 <= i < n && !names_entry(wanted, (#[trigger] existing[i]).id) ==> !names_entry(
            list,
            existing[i].id,
        )
}

proof fn lemma_unwanted_deleted(
    set: SetView,
    collection: Seq<char>,
    id: Seq<char>,
    existing: Seq<EntryView>,
    all: Seq<EntryView>,
    wanted: Seq<EntryView>,
)
    requires
        entries_refusal(set, collection, id) is None,
        all == thing_entries(set, collection, id),
        entries_apart(all),
        existing.len() <= all.len(),
        existing == all.take(existing.len() as int),
    ensures
        ({
            let out = unwanted_deleted(set, collection, id, existing, wanted);
            &&& out.0 is Ok
            &&& entries_refusal(out.1, collection, id) is None
            &&& rid(thing_entries(out.1, collection, id), all, wanted, existing.len() as int)
        }),
    decreases existing.len(),
{
    if existing.len() > 0 {
        let front = existing.drop_last();
        assert(front =~= all.take(front.len() as int));
        lemma_unwanted_deleted(set, collection, id, front, all, wanted);
        let before = unwanted_deleted(set, collection, id, front, wanted);
        let list = thing_entries(before.1, collection, id);
        let e = existing.last();
        let n = existing.len() as int;
        assert(e == all[n - 1]);
        lemma_last_entry(wanted, e.id);
        lemma_has_entry(list, e.id);
        if !names_entry(wanted, e.id) {
            assert(list.contains(e));
            let at = entry_at(list, e.id);
            let k = choose|k: int| 0 <= k < list.len() && list[k] == e;
            assert(list[k].id == e.id);
            let after = list.remove(at);
            lemma_entries_put(before.1, collection, id, after);
            assert(rid(after, all, wanted, n)) by {
                assert forall|i: int| 0 <= i < after.len() implies all.contains(
                    #[trigger] after[i],
                ) by {
                    assert(after[i] == if i < at {
                        list[i]
                    } else {
                        list[i + 1]
                    });
                }
                assert forall|i: int|
                    0 <= i < all.len() && (i >= n || names_entry(
                        wanted,
                        (#[trigger] all[i]).id,
                    )) implies after.contains(all[i]) by {
                    assert(list.contains(all[i]));
                    let m = choose|m: int| 0 <= m < list.len() && list[m] == all[i];
                    assert(i != n - 1);
                    assert(all[i].id != all[n - 1].id);
                    assert(m != at);
                    if m < at {
                        assert(after[m] == all[i]);
                    } else {
                        assert(after[m - 1] == all[i]);
                    }
                }
                assert forall|i: int|
                    0 <= i < n && !names_entry(wanted, (#[trigger] all[i]).id) implies !names_entry(
                    after,
                    all[i].id,
                ) by {
                    if names_entry(after, all[i].id) {
                        let m = choose|m: int|
                            0 <= m < after.len() && (#[trigger] after[m]).id == all[i].id;
                        let old = if m < at {
                            m
                        } else {
                            m + 1
                        };
                        assert(list[old].id == all[i].id);
                        if i < n - 1 {
                            assert(names_entry(list, all[i].id));
                        } else {
                            assert(list[old].id == list[at].id);
                            assert(old == at);
                        }
                    }
                }
            }
        } else {
            assert(rid(list, all, wanted, n)) by {
                assert forall|i: int|
                    0 <= i < n && !names_entry(wanted, (#[trigger] all[i]).id) implies !names_entry(
                    list,
                    all[i].id,
                ) by {
                    assert(i != n - 1);
                }
            }
        }
    } else {
        let list = thing_entries(set, collection, id);
        assert(rid(list, all, wanted, 0)) by {
            assert forall|i: int| 0 <= i < list.len() implies all.contains(#[trigger] list[i]) by {
                assert(all[i] == list[i]);
            }
        }
    }
}

/// What a list of entries is after the first `n` wanted ones were taken over.
spec fn taken(
    list: Seq<EntryView>,
    existing: Seq<EntryView>,
    wanted: Seq<EntryView>,
    n: int,
) -> bool {
    &&& entries_apart(list)
    &&& forall|i: int| 0 <= i < list.len() ==> names_entry(wanted, (#[trigger] list[i]).id)
    &&& forall|j: int| 0 <= j < n ==> list.contains(#[trigger] wanted[j])
    &&& forall|j: int, i: int|
        n <= j < wanted.len() && 0 <= i < existing.len() && (#[trigger] existing[i]).id == (
        #[trigger] wanted[j]).id ==> list.contains(existing[i])
}

proof fn lemma_wanted_synced(
    set: SetView,
    collection: Seq<char>,
    id: Seq<char>,
    existing: Seq<EntryView>,
    some: Seq<EntryView>,
    wanted: Seq<EntryView>,
)
    requires
        entries_refusal(set, collection, id) is None,
        entries_apart(existing),
        entries_apart(wanted),
        some.len() <= wanted.len(),
        some == wanted.take(some.len() as int),
        taken(thing_entries(set, collection, id), existing, wanted, 0),
        forall|i: int|
            0 <= i < thing_entries(set, collection, id).len() ==> existing.contains(
                #[trigger] thing_entries(set, collection, id)[i],
            ),
    ensures
        ({
            let out = wanted_synced(set, collection, id, existing, some);
            let list = thing_entries(out.1, collection, id);
            let n = some.len() as int;
            &&& out.0 is Ok
            &&& entries_refusal(out.1, collection, id) is None
            &&& taken(list, existing, wanted, n)
            &&& forall|i: int|
                0 <= i < list.len() ==> existing.contains(#[trigger] list[i]) || names_entry(
                    some,
                    list[i].id,
                )
        }),
    decreases some.len(),
{
    if some.len() > 0 {
        let front = some.drop_last();
        let n = some.len() as int;
        assert(front =~= wanted.take(front.len() as int));
        lemma_wanted_synced(set, collection, id, existing, front, wanted);
        let before = wanted_synced(set, collection, id, existing, front);
        let list = thing_entries(before.1, collection, id);
        let e = some.last();
        assert(e == wanted[n - 1]);
        lemma_last_entry(existing, e.id);
        lemma_has_entry(list, e.id);
        let old = last_entry_in(existing, e.id);
        let after = match old {
            None => entry_added(list, e),
            Some(o) => if o.title == e.title && o.order == e.order && o.payload == e.payload {
                list
            } else {
                entry_changed(
                    list,
                    e.id,
                    crate::things_replay::if_changed(o.title, e.title),
                    crate::things_replay::if_changed(o.order, e.order),
                    crate::things_replay::if_changed(o.payload, e.payload),
                )
            },
        };
        if old is Some {
            let o = old->0;
            let i = choose|i: int| 0 <= i < existing.len() && existing[i] == o;
            assert(existing[i].id == wanted[n - 1].id);
            assert(list.contains(o));
            let m = choose|m: int| 0 <= m < list.len() && list[m] == o;
            assert(list[m].id == e.id);
            assert(m == entry_at(list, e.id)) by {
                assert(list[entry_at(list, e.id)].id == list[m].id);
            }
            if o.title == e.title && o.order == e.order && o.payload == e.payload {
                assert(o == e);
            } else {
                assert(after =~= list.update(m, e));
            }
        } else {
            if has_entry(list, e.id) {
                let m = entry_at(list, e.id);
                if existing.contains(list[m]) {
                    let x = choose|x: int| 0 <= x < existing.len() && existing[x] == list[m];
                    assert(names_entry(existing, e.id));
                } else {
                    let j = choose|j: int| 0 <= j < front.len() && (#[trigger] front[j]).id
                        == e.id;
                    assert(wanted[j].id == wanted[n - 1].id);
                }
            }
            assert(after == list.push(e));
        }
        lemma_entries_put(before.1, collection, id, after);
        lemma_taken_step(list, after, existing, wanted, n);
        assert forall|i: int| 0 <= i < after.len() implies existing.contains(#[trigger] after[i])
            || names_entry(some, after[i].id) by {
            if after[i] == e {
                assert(some[n - 1].id == e.id);
            } else {
                assert(after[i] == list[i]);
                if !existing.contains(list[i]) {
                    let j = choose|j: int| 0 <= j < front.len() && (#[trigger] front[j]).id
                        == list[i].id;
                    assert(some[j].id == list[i].id);
                }
            }
        }
    }
}

proof fn lemma_taken_step(
    list: Seq<EntryView>,
    after: Seq<EntryView>,
    existing: Seq<EntryView>,
    wanted: Seq<EntryView>,
    n: int,
)
    requires
        0 < n <= wanted.len(),
        entries_apart(wanted),
        taken(list, existing, wanted, n - 1),
        ({
            let e = wanted[n - 1];
            ||| after == list && list.contains(e)
            ||| exists|m: int|
                0 <= m < list.len() && (#[trigger] list[m]).id == e.id && after == list.update(m, e)
            ||| after == list.push(e) && !names_entry(list, e.id)
        }),
    ensures
        taken(after, existing, wanted, n),
{
    let e = wanted[n - 1];
    if after == list.push(e) && !names_entry(list, e.id) {
        assert forall|i: int, j: int| 0 <= i < j < after.len() implies (#[trigger] after[i]).id
            != (#[trigger] after[j]).id by {
            if j == list.len() {
                assert(after[i] == list[i]);
                assert(list[i].id != e.id);
            }
        }
        assert forall|i: int| 0 <= i < after.len() implies names_entry(
            wanted,
            (#[trigger] after[i]).id,
        ) by {
            if i < list.len() {
                assert(after[i] == list[i]);
            }
        }
        assert forall|j: int| 0 <= j < n implies after.contains(#[trigger] wanted[j]) by {
            if j < n - 1 {
                let m = choose|m: int| 0 <= m < list.len() && list[m] == wanted[j];
                assert(after[m] == wanted[j]);
            } else {
                assert(after[list.len() as int] == e);
            }
        }
        assert forall|j: int, i: int|
            n <= j < wanted.len() && 0 <= i < existing.len() && (#[trigger] existing[i]).id == (
            #[trigger] wanted[j]).id implies after.contains(existing[i]) by {
            let m = choose|m: int| 0 <= m < list.len() && list[m] == existing[i];
            assert(after[m] == existing[i]);
        }
    } else if exists|m: int|
        0 <= m < list.len() && (#[trigger] list[m]).id == e.id && after == list.update(m, e) {
        let at = choose|m: int|
            0 <= m < list.len() && (#[trigger] list[m]).id == e.id && after == list.update(m, e);
        assert forall|i: int, j: int| 0 <= i < j < after.len() implies (#[trigger] after[i]).id
            != (#[trigger] after[j]).id by {
            assert(list[i].id != list[j].id);
        }
        assert forall|i: int| 0 <= i < after.len() implies names_entry(
            wanted,
            (#[trigger] after[i]).id,
        ) by {
            assert(names_entry(wanted, list[i].id));
        }
        assert forall|j: int| 0 <= j < n implies after.contains(#[trigger] wanted[j]) by {
            if j < n - 1 {
                let m = choose|m: int| 0 <= m < list.len() && list[m] == wanted[j];
                assert(wanted[j].id != wanted[n - 1].id);
                assert(after[m] == wanted[j]);
            } else {
                assert(after[at] == e);
            }
        }
        assert forall|j: int, i: int|
            n <= j < wanted.len() && 0 <= i < existing.len() && (#[trigger] existing[i]).id == (
            #[trigger] wanted[j]).id implies after.contains(existing[i]) by {
            let m = choose|m: int| 0 <= m < list.len() && list[m] == existing[i];
            assert(wanted[n - 1].id != wanted[j].id);
            assert(after[m] == existing[i]);
        }
    } else {
        assert forall|j: int| 0 <= j < n implies after.contains(#[trigger] wanted[j]) by {}
    }
}

/// After the entries of another state were taken over, a thing has just those: each of them as it
/// is there, and no others.
pub proof fn law_entries_are_taken_over(
    set: SetView,
    collection: Seq<char>,
    id: Seq<char>,
    wanted: Seq<EntryView>,
)
    requires
        entries_refusal(set, collection, id) is None,
        entries_apart(thing_entries(set, collection, id)),
        entries_apart(wanted),
    ensures
        ({
            let out = sync_outcome(set, collection, id, wanted);
            let list = thing_entries(out.1, collection, id);
            &&& out.0 is Ok
            &&& forall|j: int| 0 <= j < wanted.len() ==> list.contains(#[trigger] wanted[j])
            &&& forall|i: int| 0 <= i < list.len() ==> wanted.contains(#[trigger] list[i])
            &&& entries_apart(list)
        }),
{
    let existing = thing_entries(set, collection, id);
    assert(existing.take(existing.len() as int) =~= existing);
    assert(wanted.take(wanted.len() as int) =~= wanted);
    lemma_unwanted_deleted(set, collection, id, existing, existing, wanted);
    let first = unwanted_deleted(set, collection, id, existing, wanted);
    let middle = thing_entries(first.1, collection, id);
    assert(taken(middle, existing, wanted, 0)) by {
        assert forall|i: int| 0 <= i < middle.len() implies names_entry(
            wanted,
            (#[trigger] middle[i]).id,
        ) by {
            let k = choose|k: int| 0 <= k < existing.len() && existing[k] == middle[i];
            if !names_entry(wanted, existing[k].id) {
                assert(names_entry(middle, existing[k].id));
            }
        }
        assert forall|j: int, i: int|
            0 <= j < wanted.len() && 0 <= i < existing.len() && (#[trigger] existing[i]).id == (
            #[trigger] wanted[j]).id implies middle.contains(existing[i]) by {
            assert(names_entry(wanted, existing[i].id));
        }
    }
    lemma_wanted_synced(first.1, collection, id, existing, wanted, wanted);
    let out = sync_outcome(set, collection, id, wanted);
    let list = thing_entries(out.1, collection, id);
    assert forall|i: int| 0 <= i < list.len() implies wanted.contains(#[trigger] list[i]) by {
        assert(names_entry(wanted, list[i].id));
        let j = choose|j: int| 0 <= j < wanted.len() && (#[trigger] wanted[j]).id == list[i].id;
        let m = choose|m: int| 0 <= m < list.len() && list[m] == wanted[j];
        assert(list[m].id == list[i].id);
        assert(m == i);
    }
}

/// The range of two ranges holds both and is no wider than they are.
pub proof fn law_ranges_are_put_together(a: (i64, i64), b: (i64, i64))
    requires
        a.0 <= a.1,
        b.0 <= b.1,
    ensures
        merged_range(Some(a), Some(b)) matches Some(r) && r.0 <= a.0 && r.0 <= b.0 && r.1 >= a.1
            && r.1 >= b.1 && (r.0 == a.0 || r.0 == b.0) && (r.1 == a.1 || r.1 == b.1),
        merged_range(Some(a), None) == Some(a),
        merged_range(None, Some(b)) == Some(b),
{
}

} // verus!
