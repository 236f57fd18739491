//! What a replay is for: what the snapshot of a thing holds is what is read of the thing
//! afterwards, and nothing else changes.
use crate::clock::rfc3339_text;
use crate::content_registry::{snapshot_markdown, EntryView};
use crate::json::{field, lemma_lookup_at, lookup, text_field, JsonView};
use crate::table::{law_first_data, lemma_position_is, lemma_position_of};
use crate::things_content::{block_at, content_of, is_block, main_text};
use crate::things_crdt::{
    coll, coll_at, coll_live, coll_meta_outcome, coll_written, entries_put, entry_added, entry_at,
    has_coll, has_thing, is_coll, is_entry, is_thing, kept_attrs, live_coll_attrs, live_thing_attrs,
    new_thing, or_keep, patched_parent, stamped_attrs, thing_at, thing_attrs, thing_attrs_outcome,
    thing_entries, thing_live, thing_meta_outcome, things_put, things_written, with_coll,
};
use crate::things_docs::{BlockView, CollView, ContentView, SetView, ThingDocView};
use crate::things_laws::{
    entries_apart, law_content_read_after_write, law_snapshot_things, law_text_read_after_write,
    lemma_coll_put, lemma_with_coll, thing_doc,
};
use crate::things_local::{any_coll_attrs, archive_attrs, has_thing_uuid, meta_attrs, thing_in};
use crate::things_reader::{
    block_json, content_json, snapshot_collections, snapshot_things, thing_entry,
};
use crate::things_replay::{
    all_parts_read, any_thing_attrs, entries_added, opt_time_text, parts_read, replay_collection,
    replay_collections, replay_outcome, replay_thing, replay_things, text_replayed, thing_known,
    PartsView,
};
use crate::things_types::{CollectionEntryView, SnapshotOptions, ThingEntryView};
use vstd::prelude::*;

verus! {

/// Whether no collection has a thing with an id, deleted or not.
pub open spec fn lacks(set: SetView, id: Seq<char>) -> bool {
    forall|i: int, j: int|
        0 <= i < set.collections.len() && 0 <= j < set.collections[i].things.len() ==> (
        #[trigger] set.collections[i].things[j]).id != id
}

/// Whether the things of a list have different ids.
pub open spec fn ids_apart(list: Seq<ThingEntryView>) -> bool {
    forall|i: int, j: int|
        0 <= i < j < list.len() ==> (#[trigger] list[i]).uuid != (#[trigger] list[j]).uuid
}

proof fn lemma_thing_put(set: SetView, collection: Seq<char>, id: Seq<char>, t: ThingDocView)
    requires
        has_coll(set, collection),
        has_thing(coll(set, collection).things, id),
        t.id == id,
    ensures
        ({
            let things = coll(set, collection).things;
            let after = things_put(set, collection, things.update(thing_at(things, id), t));
            &&& has_coll(after, collection)
            &&& has_thing(coll(after, collection).things, id)
            &&& thing_doc(after, collection, id) == t
            &&& coll(after, collection).deleted == coll(set, collection).deleted
            &&& after.contents == set.contents
            &&& forall|other: Seq<char>| other != id && lacks(set, other) ==> #[trigger] lacks(
                after,
                other,
            )
        }),
{
    let c = coll(set, collection);
    let things = c.things;
    let at = thing_at(things, id);
    let w = things.update(at, t);
    lemma_position_of(set.collections, is_coll(collection));
    lemma_position_of(things, is_thing(id));
    lemma_coll_put(set, collection, CollView { things: w, dirty: true, ..c });
    assert forall|k: int| 0 <= k < at implies !is_thing(id)(#[trigger] w[k]) by {
        assert(!is_thing(id)(things[k]));
    }
    lemma_position_is(w, is_thing(id), at);
    let after = things_put(set, collection, w);
    assert forall|other: Seq<char>| other != id && lacks(set, other) implies #[trigger] lacks(
        after,
        other,
    ) by {
        assert forall|i: int, j: int|
            0 <= i < after.collections.len() && 0 <= j < after.collections[i].things.len() implies (
        #[trigger] after.collections[i].things[j]).id != other by {
            if i == coll_at(set, collection) {
                if j != at {
                    assert(set.collections[i].things[j].id != other);
                }
            } else {
                assert(set.collections[i].things[j].id != other);
            }
        }
    }
}

/// The document of a thing after it was written, and what stays.
proof fn lemma_thing_written(
    set: SetView,
    collection: Seq<char>,
    id: Seq<char>,
    datatype: Option<Seq<char>>,
    status: Option<Seq<char>>,
    title: Option<Seq<char>>,
    parent: Option<Seq<char>>,
    attrs: JsonView,
)
    requires
        has_coll(set, collection),
    ensures
        ({
            let things = coll(set, collection).things;
            let after = things_put(
                set,
                collection,
                things_written(things, id, datatype, status, title, parent, attrs),
            );
            let base = if has_thing(things, id) {
                things[thing_at(things, id)]
            } else {
                new_thing(id)
            };
            let t = thing_doc(after, collection, id);
            &&& has_coll(after, collection)
            &&& has_thing(coll(after, collection).things, id)
            &&& t.id == id
            &&& !t.deleted
            &&& t.title == (if title is Some { title } else { base.title })
            &&& t.status == or_keep(status, base.status)
            &&& t.datatype == or_keep(datatype, base.datatype)
            &&& t.parent_id == patched_parent(parent, base.parent_id)
            &&& t.entries == base.entries
            &&& coll(after, collection).deleted == coll(set, collection).deleted
            &&& after.contents == set.contents
            &&& forall|other: Seq<char>| other != id && lacks(set, other) ==> #[trigger] lacks(
                after,
                other,
            )
        }),
{
    let c = coll(set, collection);
    let things = c.things;
    lemma_position_of(set.collections, is_coll(collection));
    lemma_position_of(things, is_thing(id));
    let all = if has_thing(things, id) {
        things
    } else {
        things.push(new_thing(id))
    };
    let at = thing_at(things, id);
    assert forall|k: int| 0 <= k < at implies !is_thing(id)(#[trigger] all[k]) by {
        assert(!is_thing(id)(things[k]));
    }
    lemma_position_is(all, is_thing(id), at);
    let w = things_written(things, id, datatype, status, title, parent, attrs);
    assert forall|k: int| 0 <= k < at implies !is_thing(id)(#[trigger] w[k]) by {
        assert(!is_thing(id)(all[k]));
    }
    lemma_position_is(w, is_thing(id), at);
    lemma_coll_put(set, collection, CollView { things: w, dirty: true, ..c });
    let after = things_put(set, collection, w);
    assert forall|other: Seq<char>| other != id && lacks(set, other) implies #[trigger] lacks(
        after,
        other,
    ) by {
        assert forall|i: int, j: int|
            0 <= i < after.collections.len() && 0 <= j < after.collections[i].things.len() implies (
        #[trigger] after.collections[i].things[j]).id != other by {
            if i == coll_at(set, collection) {
                if j != at {
                    assert(all[j] == things[j]);
                    assert(set.collections[i].things[j].id != other);
                }
            } else {
                assert(set.collections[i].things[j].id != other);
            }
        }
    }
}

proof fn lemma_entry_put(entries: Seq<EntryView>, e: EntryView)
    ensures
        entry_added(entries, e).contains(e),
        forall|x: EntryView|
            entries.contains(x) && x.id != e.id ==> #[trigger] entry_added(entries, e).contains(x),
{
    let after = entry_added(entries, e);
    lemma_position_of(entries, is_entry(e.id));
    let at = entry_at(entries, e.id);
    assert(after[at] == e);
    assert forall|x: EntryView| entries.contains(x) && x.id != e.id implies #[trigger] after.contains(
        x,
    ) by {
        let k = choose|k: int| 0 <= k < entries.len() && entries[k] == x;
        assert(k != at);
        assert(after[k] == x);
    }
}

/// What adding content entries to a thing leaves: the thing as it was, with the entries.
proof fn lemma_entries_added(
    set: SetView,
    collection: Seq<char>,
    id: Seq<char>,
    entries: Seq<EntryView>,
)
    requires
        has_coll(set, collection),
        has_thing(coll(set, collection).things, id),
        entries_added(set, collection, id, entries).0 is Ok,
    ensures
        ({
            let after = entries_added(set, collection, id, entries).1;
            let t = thing_doc(after, collection, id);
            &&& has_coll(after, collection)
            &&& has_thing(coll(after, collection).things, id)
            &&& t == (ThingDocView { entries: t.entries, ..thing_doc(set, collection, id) })
            &&& coll(after, collection).deleted == coll(set, collection).deleted
            &&& after.contents == set.contents
            &&& entries_apart(entries) ==> forall|k: int|
                0 <= k < entries.len() ==> t.entries.contains(#[trigger] entries[k])
            &&& entries.len() == 0 ==> after == set
            &&& forall|other: Seq<char>| other != id && lacks(set, other) ==> #[trigger] lacks(
                after,
                other,
            )
        }),
    decreases entries.len(),
{
    if entries.len() > 0 {
        let front = entries.drop_last();
        let e = entries.last();
        lemma_entries_added(set, collection, id, front);
        let before = entries_added(set, collection, id, front).1;
        let old_entries = thing_entries(before, collection, id);
        let doc = thing_doc(before, collection, id);
        lemma_position_of(coll(set, collection).things, is_thing(id));
        assert(doc.id == id);
        let t = ThingDocView { entries: entry_added(old_entries, e), ..doc };
        lemma_thing_put(before, collection, id, t);
        let after = entries_added(set, collection, id, entries).1;
        assert(after == entries_put(before, collection, id, entry_added(old_entries, e)));
        lemma_entry_put(old_entries, e);
        if entries_apart(entries) {
            assert forall|i: int, j: int| 0 <= i < j < front.len() implies (
            #[trigger] front[i]).id != (#[trigger] front[j]).id by {
                assert(entries[i].id != entries[j].id);
            }
            assert forall|k: int| 0 <= k < entries.len() implies thing_doc(
                after,
                collection,
                id,
            ).entries.contains(#[trigger] entries[k]) by {
                if k < front.len() {
                    assert(front[k] == entries[k]);
                    assert(entries[k].id != entries[entries.len() - 1].id);
                }
            }
        }
    }
}

/// A thing of a snapshot that was replayed without an error is there as the snapshot has it:
/// with its title, its status, its kind and its parent, with its content entries, and with
/// the text of its data, where that has one. No other content document changes, and no
/// other thing is made.
pub proof fn law_replayed_thing_is_as_in_the_snapshot(
    set: SetView,
    t: ThingEntryView,
    p: PartsView,
    now: Seq<char>,
)
    requires
        parts_read(t.data, p),
        replay_thing(set, t, p, now).0 is Ok,
    ensures
        ({
            let after = replay_thing(set, t, p, now).1;
            let doc = thing_doc(after, t.collection_uuid, t.uuid);
            &&& has_coll(after, t.collection_uuid)
            &&& has_thing(coll(after, t.collection_uuid).things, t.uuid)
            &&& doc.id == t.uuid && !doc.deleted
            &&& doc.title == Some(t.title)
            &&& doc.status == t.status
            &&& doc.datatype == t.datatype
            &&& t.parent_uuid is Some && t.parent_uuid->0.len() > 0 ==> doc.parent_id
                == t.parent_uuid
            &&& p is Ok && entries_apart(p->Ok_0.1) ==> forall|k: int|
                0 <= k < p->Ok_0.1.len() ==> doc.entries.contains(#[trigger] p->Ok_0.1[k])
            &&& text_field(t.data, "markdown"@) is Some ==> main_text(content_of(after, t.uuid))
                == text_field(t.data, "markdown"@)
            &&& snapshot_markdown(t.data) is Some ==> main_text(content_of(after, t.uuid))
                == snapshot_markdown(t.data)
            &&& snapshot_markdown(t.data) is None ==> content_of(after, t.uuid) == content_of(
                set,
                t.uuid,
            )
            &&& forall|other: Seq<char>|
                other != t.uuid ==> #[trigger] content_of(after, other) == content_of(set, other)
            &&& forall|other: Seq<char>| other != t.uuid && lacks(set, other) ==> #[trigger] lacks(
                after,
                other,
            )
        }),
{
    let c = t.collection_uuid;
    let parts = p->Ok_0;
    let first = thing_meta_outcome(
        set,
        c,
        t.uuid,
        Some(t.datatype),
        Some(t.status),
        Some(t.title),
        t.parent_uuid,
        Some(rfc3339_text(t.created_at)),
        Some(rfc3339_text(t.updated_at)),
        now,
    );
    let existing = live_thing_attrs(set, c, t.uuid);
    let a1 = stamped_attrs(
        existing,
        existing,
        Some(rfc3339_text(t.created_at)),
        Some(rfc3339_text(t.updated_at)),
        thing_live(set, c, t.uuid),
        now,
    )->Ok_0;
    lemma_thing_written(
        set,
        c,
        t.uuid,
        Some(t.datatype),
        Some(t.status),
        Some(t.title),
        t.parent_uuid,
        a1,
    );
    let marks = Some(
        archive_attrs(
            any_thing_attrs(first.1, c, t.uuid),
            opt_time_text(t.archived_at),
            t.archived_from_collection_uuid,
        ),
    );
    let second = thing_attrs_outcome(first.1, c, t.uuid, marks, now);
    let a2 = stamped_attrs(
        thing_attrs(first.1, c, t.uuid),
        kept_attrs(marks),
        None,
        None,
        true,
        now,
    )->Ok_0;
    lemma_thing_written(first.1, c, t.uuid, None, None, None, None, a2);
    let third = text_replayed(second.1, t.uuid, parts.0).1;
    assert(third.collections == second.1.collections);
    assert(coll_at(third, c) == coll_at(second.1, c));
    assert(coll(third, c) == coll(second.1, c));
    lemma_entries_added(third, c, t.uuid, parts.1);
    let after = replay_thing(set, t, p, now).1;
    assert(after == entries_added(third, c, t.uuid, parts.1).1);
    assert(after.contents == third.contents);
    if let Some(s) = parts.0 {
        law_text_read_after_write(second.1, t.uuid, s);
    }
    assert forall|other: Seq<char>| other != t.uuid implies #[trigger] content_of(after, other)
        == content_of(set, other) by {
        if let Some(s) = parts.0 {
            let block = BlockView {
                id: "main"@,
                kind: "markdown"@,
                attrs_json: None,
                text: Some(s),
            };
            law_content_read_after_write(
                second.1,
                t.uuid,
                t.uuid,
                "markdown"@,
                ContentView::Blocks(seq![block]),
                other,
            );
        }
    }
    assert forall|other: Seq<char>| other != t.uuid && lacks(set, other) implies #[trigger] lacks(
        after,
        other,
    ) by {
        assert(lacks(first.1, other));
        assert(lacks(second.1, other));
        assert(lacks(third, other)) by {
            assert forall|i: int, j: int|
                0 <= i < third.collections.len() && 0 <= j
                    < third.collections[i].things.len() implies (
            #[trigger] third.collections[i].things[j]).id != other by {
                assert(second.1.collections[i].things[j].id != other);
            }
        }
    }
}

proof fn lemma_lacks_is_unknown(set: SetView, collection: Seq<char>, id: Seq<char>)
    requires
        lacks(set, id),
    ensures
        !thing_known(set, collection, id),
{
    if thing_known(set, collection, id) {
        lemma_position_of(set.collections, is_coll(collection));
        let i = coll_at(set, collection);
        let things = set.collections[i].things;
        lemma_position_of(things, is_thing(id));
        assert(set.collections[i].things[thing_at(things, id)].id != id);
    }
}

proof fn lemma_coll_written(
    set: SetView,
    uuid: Seq<char>,
    title: Option<Seq<char>>,
    status: Option<Seq<char>>,
    attrs: JsonView,
)
    ensures
        ({
            let after = coll_written(set, uuid, title, status, attrs);
            &&& has_coll(after, uuid)
            &&& !coll(after, uuid).deleted
            &&& title is Some ==> Some(coll(after, uuid).title) == title
            &&& title is None && has_coll(set, uuid) ==> coll(after, uuid).title == coll(
                set,
                uuid,
            ).title
            &&& coll(after, uuid).attrs == Some(attrs)
            &&& after.contents == set.contents
            &&& forall|id: Seq<char>| lacks(set, id) ==> #[trigger] lacks(after, id)
        }),
{
    let s = with_coll(set, uuid);
    lemma_with_coll(set, uuid);
    lemma_position_of(s.collections, is_coll(uuid));
    let c = coll(s, uuid);
    let w = CollView {
        title: or_keep(title, c.title),
        status: or_keep(status, c.status),
        attrs: Some(attrs),
        deleted: false,
        dirty: true,
        ..c
    };
    lemma_coll_put(s, uuid, w);
    let after = coll_written(set, uuid, title, status, attrs);
    assert forall|id: Seq<char>| lacks(set, id) implies #[trigger] lacks(after, id) by {
        lemma_with_coll_lacks(set, uuid, id);
        assert forall|i: int, j: int|
            0 <= i < after.collections.len() && 0 <= j < after.collections[i].things.len() implies (
        #[trigger] after.collections[i].things[j]).id != id by {
            assert(s.collections[i].things[j].id != id);
        }
    }
}

proof fn lemma_with_coll_lacks(set: SetView, uuid: Seq<char>, id: Seq<char>)
    requires
        lacks(set, id),
    ensures
        lacks(with_coll(set, uuid), id),
        with_coll(set, uuid).contents == set.contents,
{
    let s = with_coll(set, uuid);
    assert forall|i: int, j: int|
        0 <= i < s.collections.len() && 0 <= j < s.collections[i].things.len() implies (
    #[trigger] s.collections[i].things[j]).id != id by {
        if i < set.collections.len() {
            assert(set.collections[i].things[j].id != id);
        }
    }
}

/// A collection of a snapshot that was replayed without an error is there under its title; no
/// content document changes and no thing is made.
pub proof fn law_replayed_collection_is_there(set: SetView, c: CollectionEntryView, now: Seq<char>)
    requires
        replay_collection(set, c, now).0 is Ok,
    ensures
        ({
            let after = replay_collection(set, c, now).1;
            &&& coll_live(after, c.uuid)
            &&& coll(after, c.uuid).title == c.title
            &&& after.contents == set.contents
            &&& forall|id: Seq<char>| lacks(set, id) ==> #[trigger] lacks(after, id)
        }),
{
    let s = with_coll(set, c.uuid);
    let existing = live_coll_attrs(s, c.uuid);
    let a1 = stamped_attrs(
        existing,
        existing,
        Some(rfc3339_text(c.created_at)),
        Some(rfc3339_text(c.updated_at)),
        coll_live(s, c.uuid),
        now,
    )->Ok_0;
    lemma_coll_written(s, c.uuid, Some(c.title), None, a1);
    let first = coll_meta_outcome(
        s,
        c.uuid,
        Some(c.title),
        None,
        Some(rfc3339_text(c.created_at)),
        Some(rfc3339_text(c.updated_at)),
        now,
    ).1;
    let marks = Some(
        meta_attrs(
            any_coll_attrs(first, c.uuid),
            c.collection_type,
            c.app_id,
            opt_time_text(c.archived_at),
        ),
    );
    let a2 = stamped_attrs(coll(first, c.uuid).attrs, kept_attrs(marks), None, None, true, now)->Ok_0;
    lemma_coll_written(first, c.uuid, None, None, a2);
    assert forall|id: Seq<char>| lacks(set, id) implies #[trigger] lacks(
        replay_collection(set, c, now).1,
        id,
    ) by {
        lemma_with_coll_lacks(set, c.uuid, id);
        assert(lacks(first, id));
    }
}

proof fn lemma_collections_replayed(
    set: SetView,
    known: Seq<CollectionEntryView>,
    list: Seq<CollectionEntryView>,
    now: Seq<char>,
)
    requires
        replay_collections(set, known, list, now).0 is Ok,
    ensures
        replay_collections(set, known, list, now).1.contents == set.contents,
        forall|id: Seq<char>|
            lacks(set, id) ==> #[trigger] lacks(
                replay_collections(set, known, list, now).1,
                id,
            ),
    decreases list.len(),
{
    if list.len() > 0 {
        lemma_collections_replayed(set, known, list.drop_last(), now);
        let before = replay_collections(set, known, list.drop_last(), now).1;
        if !(crate::things_local::collection_in(known, list.last().uuid) is Some) {
            law_replayed_collection_is_there(before, list.last(), now);
            assert forall|id: Seq<char>| lacks(set, id) implies #[trigger] lacks(
                replay_collections(set, known, list, now).1,
                id,
            ) by {
                assert(lacks(before, id));
            }
        }
    }
}

proof fn lemma_things_replayed(
    set: SetView,
    known: Seq<ThingEntryView>,
    list: Seq<ThingEntryView>,
    parts: Seq<PartsView>,
    now: Seq<char>,
)
    requires
        replay_things(set, known, list, parts, now).0 is Ok,
        ids_apart(list),
        list.len() <= parts.len(),
        forall|i: int| 0 <= i < list.len() ==> parts_read((#[trigger] list[i]).data, parts[i]),
        forall|i: int|
            0 <= i < list.len() ==> lacks(set, (#[trigger] list[i]).uuid) && thing_in(
                known,
                list[i].uuid,
            ) is None,
    ensures
        ({
            let after = replay_things(set, known, list, parts, now).1;
            &&& forall|i: int|
                #![trigger list[i]]
                0 <= i < list.len() && snapshot_markdown(list[i].data) is Some ==> main_text(
                    content_of(after, list[i].uuid),
                ) == snapshot_markdown(list[i].data)
            &&& forall|id: Seq<char>|
                lacks(set, id) && (forall|i: int|
                    0 <= i < list.len() ==> (#[trigger] list[i]).uuid != id) ==> #[trigger] lacks(
                    after,
                    id,
                )
        }),
    decreases list.len(),
{
    if list.len() > 0 {
        let front = list.drop_last();
        let n = list.len() - 1;
        let t = list.last();
        assert forall|i: int, j: int| 0 <= i < j < front.len() implies (#[trigger] front[i]).uuid
            != (#[trigger] front[j]).uuid by {
            assert(list[i].uuid != list[j].uuid);
        }
        assert forall|i: int| 0 <= i < front.len() implies parts_read(
            (#[trigger] front[i]).data,
            parts[i],
        ) && lacks(set, front[i].uuid) && thing_in(known, front[i].uuid) is None by {
            assert(front[i] == list[i]);
        }
        lemma_things_replayed(set, known, front, parts, now);
        let before = replay_things(set, known, front, parts, now).1;
        assert(list[n] == t);
        assert(lacks(before, t.uuid)) by {
            assert forall|i: int| 0 <= i < front.len() implies (#[trigger] front[i]).uuid
                != t.uuid by {
                assert(list[i].uuid != list[n].uuid);
            }
        }
        lemma_lacks_is_unknown(before, t.collection_uuid, t.uuid);
        law_replayed_thing_is_as_in_the_snapshot(before, t, parts[n], now);
        let after = replay_things(set, known, list, parts, now).1;
        assert forall|i: int|
            #![trigger list[i]]
            0 <= i < list.len() && snapshot_markdown(list[i].data) is Some implies main_text(
            content_of(after, list[i].uuid),
        ) == snapshot_markdown(list[i].data) by {
            if i < n {
                assert(front[i] == list[i]);
                assert(list[i].uuid != list[n].uuid);
            }
        }
        assert forall|id: Seq<char>|
            lacks(set, id) && (forall|i: int|
                0 <= i < list.len() ==> (#[trigger] list[i]).uuid != id) implies #[trigger] lacks(
            after,
            id,
        ) by {
            assert forall|i: int| 0 <= i < front.len() implies (#[trigger] front[i]).uuid != id by {
                assert(list[i].uuid != id);
            }
            assert(list[n].uuid != id);
            assert(lacks(before, id));
        }
    }
}

/// After the things of a snapshot were replayed without an error into documents that have none of
/// them, the text that is read of each is the one of its data, where that has one.
pub proof fn law_replay_brings_texts(
    set: SetView,
    collections: Seq<CollectionEntryView>,
    things: Seq<ThingEntryView>,
    parts: Seq<PartsView>,
    now: Seq<char>,
    i: int,
)
    requires
        all_parts_read(things, parts),
        replay_outcome(set, collections, things, parts, now).0 is Ok,
        ids_apart(things),
        forall|k: int| 0 <= k < things.len() ==> lacks(set, (#[trigger] things[k]).uuid),
        0 <= i < things.len(),
        snapshot_markdown(things[i].data) is Some,
    ensures
        main_text(
            content_of(
                replay_outcome(set, collections, things, parts, now).1,
                things[i].uuid,
            ),
        ) == snapshot_markdown(things[i].data),
{
    let options = SnapshotOptions { include_content: true };
    let known = snapshot_things(set, options);
    let first = replay_collections(set, snapshot_collections(set), collections, now).1;
    lemma_collections_replayed(set, snapshot_collections(set), collections, now);
    assert forall|k: int| 0 <= k < things.len() implies lacks(
        first,
        (#[trigger] things[k]).uuid,
    ) && thing_in(known, things[k].uuid) is None by {
        assert(lacks(set, things[k].uuid));
        lemma_not_shown(set, options, things[k].uuid);
    }
    lemma_things_replayed(first, known, things, parts, now);
}

proof fn lemma_not_shown(set: SetView, options: SnapshotOptions, id: Seq<char>)
    requires
        lacks(set, id),
    ensures
        thing_in(snapshot_things(set, options), id) is None,
{
    let list = snapshot_things(set, options);
    law_first_data(list, has_thing_uuid(id));
    if let Some(e) = thing_in(list, id) {
        law_snapshot_things(set, options, e);
        let (i, j) = choose|i: int, j: int|
            0 <= i < set.collections.len() && 0 <= j < set.collections[i].things.len()
                && !set.collections[i].deleted && !set.collections[i].things[j].deleted && e
                == #[trigger] thing_entry(
                set,
                set.collections[i].id,
                set.collections[i].things[j],
                options,
            );
        assert(set.collections[i].things[j].id != id);
    }
}

proof fn lemma_main_block(blocks: Seq<BlockView>)
    ensures
        crate::content_registry::main_block_text(
            blocks.map_values(|b: BlockView| block_json(b)),
        ) == main_text(Some(ContentView::Blocks(blocks))),
    decreases blocks.len(),
{
    let items = blocks.map_values(|b: BlockView| block_json(b));
    lemma_position_of(blocks, is_block("main"@));
    if blocks.len() > 0 {
        let b = blocks[0];
        lemma_block_fields(b);
        assert(items[0] == block_json(b));
        let rest = blocks.drop_first();
        assert(items.drop_first() =~= rest.map_values(|b: BlockView| block_json(b)));
        lemma_main_block(rest);
        if b.id == "main"@ {
            assert(block_at(blocks, "main"@) == 0);
        } else {
            assert(block_at(blocks, "main"@) == 1 + block_at(rest, "main"@));
            lemma_position_of(rest, is_block("main"@));
        }
    }
}

proof fn lemma_block_fields(b: BlockView)
    ensures
        field(block_json(b), "id"@) == Some(JsonView::Text(b.id)),
        text_field(block_json(b), "text"@) == b.text,
{
    reveal_strlit("attrs_json");
    reveal_strlit("id");
    reveal_strlit("text");
    reveal_strlit("type");
    assert("attrs_json"@.len() == 10 && "id"@.len() == 2 && "text"@[1] == 'e');
    assert("text"@.len() == 4 && "type"@.len() == 4 && "type"@[1] == 'y');
    let entries = block_json(b)->Object_0;
    lemma_lookup_at(entries, "id"@, 1);
    lemma_lookup_at(entries, "text"@, 2);
}

proof fn lemma_no_key(entries: Seq<(Seq<char>, JsonView)>, key: Seq<char>)
    requires
        forall|k: int| 0 <= k < entries.len() ==> (#[trigger] entries[k]).0 != key,
    ensures
        lookup(entries, key) is None,
    decreases entries.len(),
{
    if entries.len() > 0 {
        let rest = entries.drop_first();
        assert(entries[0].0 != key);
        assert forall|k: int| 0 <= k < rest.len() implies (#[trigger] rest[k]).0 != key by {
            assert(rest[k] == entries[k + 1]);
        }
        lemma_no_key(rest, key);
    }
}

/// The text in the snapshot of a thing is the text of the thing.
pub proof fn law_snapshot_holds_the_text(
    set: SetView,
    collection: Seq<char>,
    t: ThingDocView,
)
    ensures
        snapshot_markdown(
            thing_entry(set, collection, t, (SnapshotOptions { include_content: true })).data,
        ) == main_text(content_of(set, t.id)),
{
    let data = thing_entry(set, collection, t, (SnapshotOptions { include_content: true })).data;
    let content = content_of(set, t.id);
    let entries = data->Object_0;
    reveal_strlit("attrs");
    reveal_strlit("built_in");
    reveal_strlit("content");
    reveal_strlit("datatype");
    reveal_strlit("status");
    reveal_strlit("markdown");
    reveal_strlit("blocks");
    reveal_strlit("payload");
    assert("attrs"@[0] == 'a' && "built_in"@[0] == 'b' && "content"@[0] == 'c');
    assert("datatype"@[0] == 'd' && "status"@[0] == 's' && "markdown"@[0] == 'm');
    assert("blocks"@[0] == 'b' && "payload"@[0] == 'p');
    assert(entries.len() == 5);
    lemma_lookup_at(entries, "content"@, 2);
    lemma_no_key(entries, "markdown"@);
    if let Some(ContentView::Blocks(blocks)) = content {
        let inner = content_json(content)->Object_0;
        lemma_lookup_at(inner, "blocks"@, 0);
        lemma_main_block(blocks);
    } else if let Some(ContentView::Payload(j)) = content {
        let inner = content_json(content)->Object_0;
        lemma_lookup_at(inner, "blocks"@, 0);
    }
}

/// Documents into which the whole snapshot of other documents was replayed without an error, and
/// which had none of their things, show the same texts as those.
pub proof fn law_replay_of_a_snapshot_shows_the_same_texts(
    source: SetView,
    target: SetView,
    parts: Seq<PartsView>,
    now: Seq<char>,
    i: int,
)
    requires
        ({
            let things = snapshot_things(source, (SnapshotOptions { include_content: true }));
            &&& all_parts_read(things, parts)
            &&& replay_outcome(
                target,
                snapshot_collections(source),
                things,
                parts,
                now,
            ).0 is Ok
            &&& ids_apart(things)
            &&& forall|k: int|
                0 <= k < things.len() ==> lacks(target, (#[trigger] things[k]).uuid)
            &&& 0 <= i < things.len()
            &&& main_text(content_of(source, things[i].uuid)) is Some
        }),
    ensures
        ({
            let things = snapshot_things(source, (SnapshotOptions { include_content: true }));
            let after = replay_outcome(
                target,
                snapshot_collections(source),
                things,
                parts,
                now,
            ).1;
            main_text(content_of(after, things[i].uuid)) == main_text(
                content_of(source, things[i].uuid),
            )
        }),
{
    let options = SnapshotOptions { include_content: true };
    let things = snapshot_things(source, options);
    let e = things[i];
    assert(things.contains(e));
    law_snapshot_things(source, options, e);
    let (a, b) = choose|a: int, b: int|
        0 <= a < source.collections.len() && 0 <= b < source.collections[a].things.len()
            && !source.collections[a].deleted && !source.collections[a].things[b].deleted && e
            == #[trigger] thing_entry(
            source,
            source.collections[a].id,
            source.collections[a].things[b],
            options,
        );
    law_snapshot_holds_the_text(source, source.collections[a].id, source.collections[a].things[b]);
    law_replay_brings_texts(target, snapshot_collections(source), things, parts, now, i);
}

} // verus!
