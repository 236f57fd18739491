//! What holds of the documents of things as a whole: what is written is read, what is deleted is
//! gone, and ids stay apart.
use crate::clock::{plain_time, rfc3339_text, rfc3339_time, time_written, DomainTime};
use crate::content_registry::EntryView;
use crate::error::ErrorView;
use crate::json::{
    field, law_with_entry, law_without_entry, lookup, object_entries, text_field, with_entry,
    without_entry, JsonView,
};
use crate::rows::ActorMetaEntry;
use crate::table::{first_data, law_first_data, lemma_position_is, lemma_position_of, position_of};
use crate::text::{law_trimmed_once, trimmed, trimmed_end, trimmed_start};
use crate::things_content::{
    content_at, content_of, content_written, has_content, is_block, is_content, main_text,
    splice_outcome, text_events, text_written,
};
use crate::things_crdt::{
    coll, coll_at, coll_attrs_outcome, coll_live, coll_meta_outcome, coll_put, coll_written,
    entries_put, entries_refusal, entry_added, entry_added_outcome, entry_at, entry_deleted_outcome,
    has_coll, has_entry, has_thing, is_coll, is_entry, is_live_thing, is_thing, kept_attrs,
    live_coll_attrs, live_thing_attrs, new_coll, new_thing, or_keep, stamped_attrs, thing_at,
    thing_attrs, thing_attrs_outcome, thing_deleted, thing_entries, thing_live, thing_meta_outcome,
    things_put, things_written, with_coll, with_root,
};
use crate::things_docs::{BlockView, CollView, ContentDocView, ContentView, SetView, ThingDocView};
use crate::things_local::{
    any_coll_attrs, app_outcome, app_uuid, attr_put, collection_in, default_outcome,
    has_entry_uuid, meta_attrs, snapshot_result, system_outdated, systems_outcome, trash_outcome,
    typed_outcome, with_collection_actor, with_thing_actor, SnapshotView,
};
use crate::things_reader::{
    all_thing_entries, coll_thing_entries, collection_entry, law_live_collections, live_colls,
    live_things, snapshot_collections, snapshot_things, thing_data, thing_entry,
};
use crate::things_types::{
    collection_type_name, collection_type_of, law_collection_type_name, CollectionEntryView,
    CollectionType, SnapshotOptions, ThingEntryView,
};
use crate::timestamps::{
    attr_text, created_of, law_present_is_normal, normal_time, resolved_times, with_text,
};
use vstd::prelude::*;

verus! {

/// Whether no two collections have the same id.
pub open spec fn colls_apart(colls: Seq<CollView>) -> bool {
    forall|i: int, j: int|
        0 <= i < j < colls.len() ==> (#[trigger] colls[i]).id != (#[trigger] colls[j]).id
}

/// Whether no two things have the same id.
pub open spec fn things_apart(things: Seq<ThingDocView>) -> bool {
    forall|i: int, j: int|
        0 <= i < j < things.len() ==> (#[trigger] things[i]).id != (#[trigger] things[j]).id
}

/// Whether no two content entries have the same id.
pub open spec fn entries_apart(entries: Seq<EntryView>) -> bool {
    forall|i: int, j: int|
        0 <= i < j < entries.len() ==> (#[trigger] entries[i]).id != (#[trigger] entries[j]).id
}

/// Whether the entries of every thing are apart.
pub open spec fn thing_ok(t: ThingDocView) -> bool {
    entries_apart(t.entries)
}

pub open spec fn things_ok(things: Seq<ThingDocView>) -> bool {
    things_apart(things) && forall|i: int| 0 <= i < things.len() ==> thing_ok(#[trigger] things[i])
}

/// Whether no two content documents have the same id.
pub open spec fn contents_apart(contents: Seq<ContentDocView>) -> bool {
    forall|i: int, j: int|
        0 <= i < j < contents.len()
            ==> (#[trigger] contents[i]).uuid != (#[trigger] contents[j]).uuid
}

/// Documents that can be told apart: no id occurs twice where it names one thing.
pub open spec fn well_formed(set: SetView) -> bool {
    &&& colls_apart(set.collections)
    &&& forall|i: int|
    0 <= i < set.collections.len() ==> things_ok((#[trigger] set.collections[i]).things)
    &&& contents_apart(set.contents)
}

/// The document of a thing in its collection.
pub open spec fn thing_doc(set: SetView, collection: Seq<char>, id: Seq<char>) -> ThingDocView {
    let things = coll(set, collection).things;
    things[thing_at(things, id)]
}

pub proof fn lemma_coll_put(set: SetView, uuid: Seq<char>, c: CollView)
    requires
        has_coll(set, uuid),
        c.id == uuid,
    ensures
        has_coll(coll_put(set, uuid, c), uuid),
        coll_at(coll_put(set, uuid, c), uuid) == coll_at(set, uuid),
        coll(coll_put(set, uuid, c), uuid) == c,
        0 <= coll_at(set, uuid) < set.collections.len(),
        coll(set, uuid).id == uuid,
        well_formed(set) && things_ok(c.things) ==> well_formed(coll_put(set, uuid, c)),
{
    let at = coll_at(set, uuid);
    let after = coll_put(set, uuid, c);
    lemma_position_of(set.collections, is_coll(uuid));
    assert forall|k: int| 0 <= k < at implies !is_coll(uuid)(#[trigger] after.collections[k]) by {
        assert(!is_coll(uuid)(set.collections[k]));
    }
    lemma_position_is(after.collections, is_coll(uuid), at);
    if well_formed(set) && things_ok(c.things) {
        assert forall|i: int, j: int| 0 <= i < j < after.collections.len() implies (
        #[trigger] after.collections[i]).id != (#[trigger] after.collections[j]).id by {
            assert(set.collections[i].id != set.collections[j].id);
        }
        assert forall|i: int| 0 <= i < after.collections.len() implies things_ok(
            (#[trigger] after.collections[i]).things,
        ) by {
            if i != at {
                assert(things_ok(set.collections[i].things));
            }
        }
    }
}

pub proof fn lemma_with_coll(set: SetView, uuid: Seq<char>)
    ensures
        has_coll(with_coll(set, uuid), uuid),
        coll(with_coll(set, uuid), uuid).id == uuid,
        well_formed(set) ==> well_formed(with_coll(set, uuid)),
        has_coll(set, uuid) ==> with_coll(set, uuid) == set,
        !has_coll(set, uuid) ==> coll(with_coll(set, uuid), uuid) == new_coll(uuid),
{
    let after = with_coll(set, uuid);
    lemma_position_of(set.collections, is_coll(uuid));
    if !has_coll(set, uuid) {
        assert forall|k: int| 0 <= k < set.collections.len() implies !is_coll(uuid)(
            #[trigger] after.collections[k],
        ) by {
            assert(!is_coll(uuid)(set.collections[k]));
        }
        lemma_position_is(after.collections, is_coll(uuid), set.collections.len() as int);
        if well_formed(set) {
            assert forall|i: int, j: int| 0 <= i < j < after.collections.len() implies (
            #[trigger] after.collections[i]).id != (#[trigger] after.collections[j]).id by {
                assert(!is_coll(uuid)(set.collections[i]));
            }
            assert forall|i: int| 0 <= i < after.collections.len() implies things_ok(
                (#[trigger] after.collections[i]).things,
            ) by {
                if i < set.collections.len() {
                    assert(things_ok(set.collections[i].things));
                }
            }
        }
    }
}

pub proof fn lemma_coll_things_ok(set: SetView, uuid: Seq<char>)
    requires
        well_formed(set),
        has_coll(set, uuid),
    ensures
        things_ok(coll(set, uuid).things),
        coll(set, uuid).id == uuid,
        0 <= coll_at(set, uuid) < set.collections.len(),
{
    lemma_position_of(set.collections, is_coll(uuid));
}

proof fn lemma_things_update(things: Seq<ThingDocView>, at: int, t: ThingDocView)
    requires
        0 <= at < things.len(),
        t.id == things[at].id,
        things_ok(things),
        thing_ok(t),
    ensures
        things_ok(things.update(at, t)),
{
    let after = things.update(at, t);
    assert forall|i: int, j: int| 0 <= i < j < after.len() implies (#[trigger] after[i]).id != (
    #[trigger] after[j]).id by {
        assert(things[i].id != things[j].id);
    }
    assert forall|i: int| 0 <= i < after.len() implies thing_ok(#[trigger] after[i]) by {
        if i != at {
            assert(thing_ok(things[i]));
        }
    }
}

pub proof fn lemma_things_written(
    things: Seq<ThingDocView>,
    id: Seq<char>,
    datatype: Option<Seq<char>>,
    status: Option<Seq<char>>,
    title: Option<Seq<char>>,
    parent: Option<Seq<char>>,
    attrs: JsonView,
)
    ensures
        ({
            let after = things_written(things, id, datatype, status, title, parent, attrs);
            &&& has_thing(after, id)
            &&& 0 <= thing_at(after, id) < after.len()
            &&& ({
                let t = after[thing_at(after, id)];
                &&& t.id == id
                &&& !t.deleted
                &&& t.attrs == Some(attrs)
                &&& title is Some ==> t.title == title
                &&& status is Some ==> Some(t.status) == status
                &&& datatype is Some ==> Some(t.datatype) == datatype
            })
            &&& things_ok(things) ==> things_ok(after)
        }),
{
    lemma_position_of(things, is_thing(id));
    let all = if has_thing(things, id) {
        things
    } else {
        things.push(new_thing(id))
    };
    let at = position_of(things, is_thing(id));
    assert forall|k: int| 0 <= k < at implies !is_thing(id)(#[trigger] all[k]) by {
        assert(!is_thing(id)(things[k]));
    }
    lemma_position_is(all, is_thing(id), at);
    let after = things_written(things, id, datatype, status, title, parent, attrs);
    assert forall|k: int| 0 <= k < at implies !is_thing(id)(#[trigger] after[k]) by {
        assert(!is_thing(id)(all[k]));
    }
    lemma_position_is(after, is_thing(id), at);
    if things_ok(things) {
        if !has_thing(things, id) {
            assert forall|i: int, j: int| 0 <= i < j < all.len() implies (#[trigger] all[i]).id
                != (#[trigger] all[j]).id by {
                assert(!is_thing(id)(things[i]));
            }
            assert forall|i: int| 0 <= i < all.len() implies thing_ok(#[trigger] all[i]) by {
                if i < things.len() {
                    assert(thing_ok(things[i]));
                }
            }
        }
        assert(thing_ok(all[at]));
        lemma_things_update(all, at, after[at]);
    }
}

proof fn lemma_filter_holds<T>(s: Seq<T>, keep: spec_fn(T) -> bool, at: int)
    requires
        0 <= at < s.len(),
        keep(s[at]),
    ensures
        s.filter(keep).contains(s[at]),
    decreases s.len(),
{
    reveal(Seq::filter);
    let front = s.drop_last();
    if at < front.len() {
        lemma_filter_holds(front, keep, at);
        assert(front[at] == s[at]);
        let k = choose|k: int| 0 <= k < front.filter(keep).len() && front.filter(keep)[k] == s[at];
        assert(s.filter(keep)[k] == s[at]);
    } else {
        assert(s.filter(keep).last() == s[at]);
    }
}

proof fn lemma_filter_from<T>(s: Seq<T>, keep: spec_fn(T) -> bool, k: int) -> (at: int)
    requires
        0 <= k < s.filter(keep).len(),
    ensures
        0 <= at < s.len(),
        s[at] == s.filter(keep)[k],
        keep(s[at]),
    decreases s.len(),
{
    reveal(Seq::filter);
    let front = s.drop_last();
    if k < front.filter(keep).len() {
        let at = lemma_filter_from(front, keep, k);
        assert(front[at] == s[at]);
        at
    } else {
        s.len() - 1
    }
}

proof fn lemma_entries_of_collections(
    set: SetView,
    colls: Seq<CollView>,
    options: SnapshotOptions,
    at: int,
    e: ThingEntryView,
)
    requires
        0 <= at < colls.len(),
        coll_thing_entries(set, colls[at], options).contains(e),
    ensures
        all_thing_entries(set, colls, options).contains(e),
    decreases colls.len(),
{
    let front = all_thing_entries(set, colls.drop_last(), options);
    let back = coll_thing_entries(set, colls.last(), options);
    if at < colls.len() - 1 {
        assert(colls.drop_last()[at] == colls[at]);
        lemma_entries_of_collections(set, colls.drop_last(), options, at, e);
        let k = choose|k: int| 0 <= k < front.len() && front[k] == e;
        assert((front + back)[k] == e);
    } else {
        let k = choose|k: int| 0 <= k < back.len() && back[k] == e;
        assert((front + back)[front.len() + k] == e);
    }
}

proof fn lemma_collection_of_entry(
    set: SetView,
    colls: Seq<CollView>,
    options: SnapshotOptions,
    e: ThingEntryView,
) -> (at: int)
    requires
        all_thing_entries(set, colls, options).contains(e),
    ensures
        0 <= at < colls.len(),
        coll_thing_entries(set, colls[at], options).contains(e),
    decreases colls.len(),
{
    let front = all_thing_entries(set, colls.drop_last(), options);
    let back = coll_thing_entries(set, colls.last(), options);
    let k = choose|k: int| 0 <= k < (front + back).len() && (front + back)[k] == e;
    if k < front.len() {
        assert(front[k] == e);
        let at = lemma_collection_of_entry(set, colls.drop_last(), options, e);
        assert(colls.drop_last()[at] == colls[at]);
        at
    } else {
        assert(back[k - front.len()] == e);
        colls.len() - 1
    }
}

/// A snapshot shows every thing that is not deleted in a collection that is not deleted, and
/// shows nothing else.
pub proof fn law_snapshot_things(set: SetView, options: SnapshotOptions, e: ThingEntryView)
    ensures
        snapshot_things(set, options).contains(e) <==> exists|i: int, j: int|
            0 <= i < set.collections.len() && 0 <= j < set.collections[i].things.len()
                && !set.collections[i].deleted && !set.collections[i].things[j].deleted && e
                == #[trigger] thing_entry(
                set,
                set.collections[i].id,
                set.collections[i].things[j],
                options,
            ),
{
    let live = live_colls(set.collections);
    law_live_collections(set.collections);
    let keep = |t: ThingDocView| !t.deleted;
    if snapshot_things(set, options).contains(e) {
        let at = lemma_collection_of_entry(set, live, options, e);
        let c = live[at];
        assert(live.contains(c));
        let i = choose|i: int| 0 <= i < set.collections.len() && set.collections[i] == c;
        let shown = coll_thing_entries(set, c, options);
        let k = choose|k: int| 0 <= k < shown.len() && shown[k] == e;
        let j = lemma_filter_from(c.things, keep, k);
        assert(e == thing_entry(set, set.collections[i].id, set.collections[i].things[j], options));
    }
    if exists|i: int, j: int|
        0 <= i < set.collections.len() && 0 <= j < set.collections[i].things.len()
            && !set.collections[i].deleted && !set.collections[i].things[j].deleted && e
            == #[trigger] thing_entry(
            set,
            set.collections[i].id,
            set.collections[i].things[j],
            options,
        ) {
        let (i, j) = choose|i: int, j: int|
            0 <= i < set.collections.len() && 0 <= j < set.collections[i].things.len()
                && !set.collections[i].deleted && !set.collections[i].things[j].deleted && e
                == #[trigger] thing_entry(
                set,
                set.collections[i].id,
                set.collections[i].things[j],
                options,
            );
        let c = set.collections[i];
        assert(set.collections.contains(c));
        assert(live.contains(c));
        let at = choose|at: int| 0 <= at < live.len() && live[at] == c;
        lemma_filter_holds(c.things, keep, j);
        let kept = live_things(c.things);
        let k = choose|k: int| 0 <= k < kept.len() && kept[k] == c.things[j];
        assert(coll_thing_entries(set, c, options)[k] == e);
        lemma_entries_of_collections(set, live, options, at, e);
    }
}

/// A thing that was written is what the next snapshot shows of it: with the title, the status
/// and the kind that were given.
pub proof fn law_written_thing_is_shown(
    set: SetView,
    collection: Seq<char>,
    id: Seq<char>,
    datatype: Option<Seq<char>>,
    status: Option<Seq<char>>,
    title: Option<Seq<char>>,
    parent: Option<Seq<char>>,
    created: Option<Seq<char>>,
    updated: Option<Seq<char>>,
    now: Seq<char>,
    options: SnapshotOptions,
)
    requires
        thing_meta_outcome(
            set,
            collection,
            id,
            datatype,
            status,
            title,
            parent,
            created,
            updated,
            now,
        ).0 is Ok,
    ensures
        ({
            let after = thing_meta_outcome(
                set,
                collection,
                id,
                datatype,
                status,
                title,
                parent,
                created,
                updated,
                now,
            ).1;
            let e = thing_entry(after, collection, thing_doc(after, collection, id), options);
            &&& snapshot_things(after, options).contains(e)
            &&& e.uuid == id
            &&& e.collection_uuid == collection
            &&& title is Some ==> Some(e.title) == title
            &&& status is Some ==> Some(e.status) == status
            &&& datatype is Some ==> Some(e.datatype) == datatype
        }),
{
    let existing = live_thing_attrs(set, collection, id);
    let existed = thing_live(set, collection, id);
    let attrs = stamped_attrs(existing, existing, created, updated, existed, now)->Ok_0;
    let c = coll(set, collection);
    let written = things_written(c.things, id, datatype, status, title, parent, attrs);
    lemma_position_of(set.collections, is_coll(collection));
    lemma_things_written(c.things, id, datatype, status, title, parent, attrs);
    lemma_coll_put(set, collection, CollView { things: written, dirty: true, ..c });
    let after = things_put(set, collection, written);
    let i = coll_at(after, collection);
    let j = thing_at(written, id);
    let e = thing_entry(after, collection, thing_doc(after, collection, id), options);
    assert(after.collections[i].things[j] == thing_doc(after, collection, id));
    assert(e == thing_entry(after, after.collections[i].id, after.collections[i].things[j], options));
    law_snapshot_things(after, options, e);
}

/// A collection that was written is what the next snapshot shows of it: with the title that
/// was given.
pub proof fn law_written_collection_is_shown(
    set: SetView,
    uuid: Seq<char>,
    title: Option<Seq<char>>,
    status: Option<Seq<char>>,
    created: Option<Seq<char>>,
    updated: Option<Seq<char>>,
    now: Seq<char>,
)
    requires
        coll_meta_outcome(set, uuid, title, status, created, updated, now).0 is Ok,
    ensures
        ({
            let after = coll_meta_outcome(set, uuid, title, status, created, updated, now).1;
            let e = collection_entry(coll(after, uuid));
            &&& snapshot_collections(after).contains(e)
            &&& e.uuid == uuid
            &&& title is Some ==> Some(e.title) == title
        }),
{
    let existing = live_coll_attrs(set, uuid);
    let attrs = stamped_attrs(existing, existing, created, updated, coll_live(set, uuid), now)->Ok_0;
    let s = with_coll(set, uuid);
    lemma_with_coll(set, uuid);
    let c = coll(s, uuid);
    let written = CollView {
        title: or_keep(title, c.title),
        status: or_keep(status, c.status),
        attrs: Some(attrs),
        deleted: false,
        dirty: true,
        ..c
    };
    lemma_coll_put(s, uuid, written);
    let after = coll_put(s, uuid, written);
    let at = coll_at(after, uuid);
    assert(after.collections[at] == written);
    assert(after.collections.contains(written));
    law_live_collections(after.collections);
    let live = live_colls(after.collections);
    assert(live.contains(written));
    let k = choose|k: int| 0 <= k < live.len() && live[k] == written;
    assert(snapshot_collections(after)[k] == collection_entry(written));
}

/// Whether a text is a time, and its normal form can be read again.
pub open spec fn readable_time(text: Seq<char>) -> bool {
    &&& normal_time(Some(text)) matches Ok(Some(y))
    &&& normal_time(Some(normal_time(Some(text))->Ok_0->0)) == normal_time(Some(text))
}

/// The attributes of a collection or thing whose time of creation, where there is one, can be
/// read.
pub open spec fn times_readable(attrs: Option<JsonView>) -> bool {
    created_of(attrs) matches Some(c) ==> readable_time(c)
}

/// Every text that reads as a point in time with a year of four digits is a readable time, in
/// its normal form or not.
pub proof fn law_times_are_readable(text: Seq<char>, t: DomainTime)
    requires
        trimmed(text).len() > 0,
        rfc3339_time(trimmed(text)) == Some(t),
        plain_time(t),
        time_written(t, rfc3339_text(t)),
    ensures
        readable_time(text),
{
    law_present_is_normal(t, rfc3339_text(t));
}

proof fn lemma_first_unique<T>(data: Seq<T>, hit: spec_fn(T) -> bool, x: T)
    requires
        data.contains(x),
        hit(x),
        forall|i: int| 0 <= i < data.len() && hit(#[trigger] data[i]) ==> data[i] == x,
    ensures
        first_data(data, hit) == Some(x),
    decreases data.len(),
{
    if !hit(data[0]) {
        let rest = data.drop_first();
        let k = choose|k: int| 0 <= k < data.len() && data[k] == x;
        assert(rest[k - 1] == x);
        assert forall|i: int| 0 <= i < rest.len() && hit(#[trigger] rest[i]) implies rest[i]
            == x by {
            assert(data[i + 1] == rest[i]);
        }
        lemma_first_unique(rest, hit, x);
    }
}

proof fn lemma_coll_written(
    set: SetView,
    uuid: Seq<char>,
    title: Option<Seq<char>>,
    status: Option<Seq<char>>,
    attrs: JsonView,
)
    requires
        well_formed(set),
    ensures
        ({
            let after = coll_written(set, uuid, title, status, attrs);
            &&& well_formed(after)
            &&& coll_live(after, uuid)
            &&& coll(after, uuid).id == uuid
            &&& coll(after, uuid).attrs == Some(attrs)
            &&& title is Some ==> Some(coll(after, uuid).title) == title
            &&& title is None && has_coll(set, uuid) ==> coll(after, uuid).title == coll(
                set,
                uuid,
            ).title
            &&& after.collections.len() == if has_coll(set, uuid) {
                set.collections.len()
            } else {
                set.collections.len() + 1
            }
        }),
{
    let s = with_coll(set, uuid);
    lemma_with_coll(set, uuid);
    lemma_coll_things_ok(s, uuid);
    let c = coll(s, uuid);
    lemma_coll_put(
        s,
        uuid,
        CollView {
            title: or_keep(title, c.title),
            status: or_keep(status, c.status),
            attrs: Some(attrs),
            deleted: false,
            dirty: true,
            ..c
        },
    );
}

proof fn lemma_shown_collection(set: SetView, uuid: Seq<char>)
    requires
        well_formed(set),
        coll_live(set, uuid),
    ensures
        collection_in(snapshot_collections(set), uuid) == Some(collection_entry(coll(set, uuid))),
{
    let c = coll(set, uuid);
    let shown = snapshot_collections(set);
    let live = live_colls(set.collections);
    lemma_coll_things_ok(set, uuid);
    law_live_collections(set.collections);
    assert(set.collections[coll_at(set, uuid)] == c);
    assert(set.collections.contains(c));
    assert(live.contains(c));
    let k = choose|k: int| 0 <= k < live.len() && live[k] == c;
    assert(shown[k] == collection_entry(c));
    assert forall|i: int| 0 <= i < shown.len() && has_entry_uuid(uuid)(#[trigger] shown[i]) implies
        shown[i] == collection_entry(c) by {
        assert(live.contains(live[i]));
        let p = choose|p: int| 0 <= p < set.collections.len() && set.collections[p] == live[i];
        let at = coll_at(set, uuid);
        if p < at {
            assert(set.collections[p].id != set.collections[at].id);
        } else if at < p {
            assert(set.collections[at].id != set.collections[p].id);
        }
    }
    lemma_first_unique(shown, has_entry_uuid(uuid), collection_entry(c));
}

proof fn lemma_type_name_plain(t: CollectionType)
    ensures
        trimmed(collection_type_name(t)) == collection_type_name(t),
        collection_type_name(t).len() > 0,
{
    let name = collection_type_name(t);
    reveal_strlit("normal");
    reveal_strlit("default");
    reveal_strlit("trash");
    reveal_strlit("app");
    assert("normal"@.len() == 6 && "default"@.len() == 7 && "trash"@.len() == 5 && "app"@.len()
        == 3);
    assert("normal"@[0] == 'n' && "normal"@[5] == 'l' && "default"@[0] == 'd' && "default"@[6]
        == 't');
    assert("trash"@[0] == 't' && "trash"@[4] == 'h' && "app"@[0] == 'a' && "app"@[2] == 'p');
    assert(trimmed_start(name) == name);
    assert(trimmed_end(name) == name);
}

/// An app id as it is kept: without white space around it, and not blank.
pub open spec fn kept_app(app_id: Option<Seq<char>>) -> bool {
    app_id matches Some(app) ==> app.len() > 0 && trimmed(app) == app
}

proof fn lemma_meta_attrs(
    existing: Option<JsonView>,
    collection_type: CollectionType,
    app_id: Option<Seq<char>>,
    created: Seq<char>,
    updated: Seq<char>,
)
    requires
        kept_app(app_id),
    ensures
        ({
            let attrs = meta_attrs(existing, collection_type, app_id, None);
            let stamped = Some(
                JsonView::Object(
                    with_text(
                        with_text(attrs->Object_0, "__remi_created_at"@, Some(created)),
                        "__remi_updated_at"@,
                        Some(updated),
                    ),
                ),
            );
            &&& attrs->Object_0.len() > 0
            &&& collection_type_of(attr_text(stamped, "collection_type"@)) == collection_type
            &&& attr_text(stamped, "app_id"@) == app_id
            &&& attr_text(stamped, "archived_at"@) is None
        }),
{
    let tk = "collection_type"@;
    let ak = "app_id"@;
    let rk = "archived_at"@;
    let ck = "__remi_created_at"@;
    let uk = "__remi_updated_at"@;
    reveal_strlit("collection_type");
    reveal_strlit("app_id");
    reveal_strlit("archived_at");
    reveal_strlit("__remi_created_at");
    reveal_strlit("__remi_updated_at");
    assert(tk.len() == 15 && ak.len() == 6 && rk.len() == 11 && ck.len() == 17 && uk.len() == 17);
    let base = object_entries(existing);
    let name = JsonView::Text(collection_type_name(collection_type));
    let e1 = with_entry(base, tk, name);
    let e2 = attr_put(e1, ak, app_id);
    let e3 = without_entry(e2, rk);
    let e4 = with_entry(e3, ck, JsonView::Text(created));
    law_with_entry(base, tk, name, tk);
    match app_id {
        Some(app) => {
            law_with_entry(e1, ak, JsonView::Text(app), tk);
        },
        None => {
            law_without_entry(e1, ak, tk);
        },
    }
    law_without_entry(e2, rk, tk);
    law_without_entry(e2, rk, ak);
    law_with_entry(e3, ck, JsonView::Text(created), tk);
    law_with_entry(e3, ck, JsonView::Text(created), ak);
    law_with_entry(e3, ck, JsonView::Text(created), rk);
    law_with_entry(e4, uk, JsonView::Text(updated), tk);
    law_with_entry(e4, uk, JsonView::Text(updated), ak);
    law_with_entry(e4, uk, JsonView::Text(updated), rk);
    lemma_type_name_plain(collection_type);
    law_collection_type_name(collection_type);
}

proof fn lemma_other_coll(
    set: SetView,
    uuid: Seq<char>,
    title: Option<Seq<char>>,
    status: Option<Seq<char>>,
    attrs: JsonView,
    other: Seq<char>,
)
    requires
        other != uuid,
    ensures
        has_coll(coll_written(set, uuid, title, status, attrs), other) == has_coll(set, other),
        has_coll(set, other) ==> coll(coll_written(set, uuid, title, status, attrs), other) == coll(
            set,
            other,
        ),
{
    let s = with_coll(set, uuid);
    let after = coll_written(set, uuid, title, status, attrs);
    let at = coll_at(set, other);
    lemma_with_coll(set, uuid);
    lemma_position_of(set.collections, is_coll(other));
    lemma_position_of(s.collections, is_coll(uuid));
    assert forall|k: int| 0 <= k < at implies !is_coll(other)(#[trigger] after.collections[k]) by {
        assert(!is_coll(other)(set.collections[k]));
        assert(s.collections[k] == set.collections[k]);
    }
    if has_coll(set, other) {
        assert(s.collections[at] == set.collections[at]);
        lemma_position_is(after.collections, is_coll(other), at);
    } else {
        assert forall|k: int| 0 <= k < after.collections.len() implies !is_coll(other)(
            #[trigger] after.collections[k],
        ) by {
            if k < set.collections.len() {
                assert(!is_coll(other)(set.collections[k]));
                assert(s.collections[k] == set.collections[k]);
            }
        }
        lemma_position_is(after.collections, is_coll(other), after.collections.len() as int);
    }
}

/// Whether a collection is shown with a title and a type, for an app or for none, and not as
/// archived.
pub open spec fn shown_as(
    c: CollectionEntryView,
    uuid: Seq<char>,
    title: Seq<char>,
    collection_type: CollectionType,
    app_id: Option<Seq<char>>,
) -> bool {
    &&& c.uuid == uuid
    &&& c.title == title
    &&& c.collection_type == collection_type
    &&& c.app_id == app_id
    &&& c.archived_at is None
}

proof fn lemma_typed_outcome(
    set: SetView,
    uuid: Seq<char>,
    title: Seq<char>,
    collection_type: CollectionType,
    app_id: Option<Seq<char>>,
    present: DomainTime,
    now: Seq<char>,
    other: Seq<char>,
)
    requires
        well_formed(set),
        kept_app(app_id),
        plain_time(present),
        time_written(present, now),
        times_readable(live_coll_attrs(set, uuid)),
    ensures
        ({
            let out = typed_outcome(set, uuid, title, collection_type, app_id, now);
            let after = out.1;
            &&& out.0 is Ok
            &&& well_formed(after)
            &&& coll_live(after, uuid)
            &&& collection_in(snapshot_collections(after), uuid) matches Some(c) && shown_as(
                c,
                uuid,
                title,
                collection_type,
                app_id,
            )
            &&& times_readable(live_coll_attrs(after, uuid))
            &&& after.collections.len() == if has_coll(set, uuid) {
                set.collections.len()
            } else {
                set.collections.len() + 1
            }
            &&& other != uuid ==> has_coll(after, other) == has_coll(set, other) && (has_coll(
                set,
                other,
            ) ==> coll(after, other) == coll(set, other))
        }),
{
    law_present_is_normal(present, now);
    let existing = live_coll_attrs(set, uuid);
    let live = coll_live(set, uuid);
    let times = resolved_times(existing, None, None, live, now)->Ok_0;
    let created = normal_time(Some(times.0))->Ok_0->0;
    law_trimmed_once(created);
    if !live && created_of(existing) is None {
        assert(times.1 == now);
    }
    let a1 = stamped_attrs(existing, existing, None, None, live, now)->Ok_0;
    let ck = "__remi_created_at"@;
    let uk = "__remi_updated_at"@;
    reveal_strlit("__remi_created_at");
    reveal_strlit("__remi_updated_at");
    assert(ck[7] == 'c' && uk[7] == 'u');
    let base = object_entries(existing);
    law_with_entry(base, ck, JsonView::Text(created), ck);
    law_with_entry(
        with_entry(base, ck, JsonView::Text(created)),
        uk,
        JsonView::Text(now),
        ck,
    );
    assert(created_of(Some(a1)) == Some(trimmed(created)));
    let s1 = coll_written(set, uuid, Some(title), None, a1);
    lemma_coll_written(set, uuid, Some(title), None, a1);
    let m = meta_attrs(any_coll_attrs(set, uuid), collection_type, app_id, None);
    lemma_meta_attrs(any_coll_attrs(set, uuid), collection_type, app_id, created, now);
    let a2 = stamped_attrs(Some(a1), kept_attrs(Some(m)), None, None, true, now)->Ok_0;
    let own = m->Object_0;
    law_with_entry(own, ck, JsonView::Text(created), ck);
    law_with_entry(with_entry(own, ck, JsonView::Text(created)), uk, JsonView::Text(now), ck);
    assert(created_of(Some(a2)) == Some(trimmed(created)));
    let s2 = coll_written(s1, uuid, None, None, a2);
    lemma_coll_written(s1, uuid, None, None, a2);
    lemma_shown_collection(s2, uuid);
    if other != uuid {
        lemma_other_coll(set, uuid, Some(title), None, a1, other);
        lemma_other_coll(s1, uuid, None, None, a2, other);
    }
}

/// Making sure of the collection of an app leaves one, under the id that belongs to the app,
/// with the title that was given or else the name of the app, and not archived. Where the
/// collection was there before, none is added.
pub proof fn law_app_collection(
    set: SetView,
    app_id: Seq<char>,
    title: Option<Seq<char>>,
    present: DomainTime,
    now: Seq<char>,
)
    requires
        well_formed(set),
        trimmed(app_id).len() > 0,
        plain_time(present),
        time_written(present, now),
        times_readable(live_coll_attrs(set, app_uuid(trimmed(app_id)))),
    ensures
        app_outcome(set, app_id, title, now) is Ok,
        ({
            let app = trimmed(app_id);
            let uuid = app_uuid(app);
            let (events, after, c) = app_outcome(set, app_id, title, now)->Ok_0;
            &&& shown_as(
                c,
                uuid,
                match title {
                    Some(t) => t,
                    None => app,
                },
                CollectionType::App,
                Some(app),
            )
            &&& well_formed(after)
            &&& has_coll(after, uuid)
            &&& collection_in(snapshot_collections(after), uuid) == Some(c)
            &&& times_readable(live_coll_attrs(after, uuid))
            &&& after.collections.len() == if has_coll(set, uuid) {
                set.collections.len()
            } else {
                set.collections.len() + 1
            }
        }),
{
    let app = trimmed(app_id);
    let name = match title {
        Some(t) => t,
        None => app,
    };
    law_trimmed_once(app_id);
    assert(well_formed(with_root(set)));
    assert(live_coll_attrs(with_root(set), app_uuid(app)) == live_coll_attrs(set, app_uuid(app)));
    lemma_typed_outcome(
        with_root(set),
        app_uuid(app),
        name,
        CollectionType::App,
        Some(app),
        present,
        now,
        app_uuid(app),
    );
}

/// Making sure of the collection of an app a second time, under its id with or without white
/// space around it, answers with the same collection, and adds none.
pub proof fn law_app_collection_again(
    set: SetView,
    app_id: Seq<char>,
    title: Option<Seq<char>>,
    present: DomainTime,
    now: Seq<char>,
    again: Seq<char>,
    other_title: Option<Seq<char>>,
    later: DomainTime,
    next: Seq<char>,
)
    requires
        well_formed(set),
        trimmed(app_id).len() > 0,
        trimmed(again) == trimmed(app_id),
        plain_time(present),
        time_written(present, now),
        plain_time(later),
        time_written(later, next),
        times_readable(live_coll_attrs(set, app_uuid(trimmed(app_id)))),
    ensures
        ({
            let first = app_outcome(set, app_id, title, now)->Ok_0;
            let second = app_outcome(first.1, again, other_title, next);
            &&& second is Ok
            &&& second->Ok_0.2.uuid == first.2.uuid
            &&& second->Ok_0.1.collections.len() == first.1.collections.len()
        }),
{
    law_app_collection(set, app_id, title, present, now);
    let first = app_outcome(set, app_id, title, now)->Ok_0;
    law_app_collection(first.1, again, other_title, later, next);
}

proof fn lemma_lite_data(t: ThingDocView, content: Option<ContentView>, key: Seq<char>)
    ensures
        field(thing_data(t, content, false), "content"@) is None,
        key != "content"@ ==> field(thing_data(t, content, false), key) == field(
            thing_data(t, content, true),
            key,
        ),
{
    reveal_strlit("attrs");
    reveal_strlit("built_in");
    reveal_strlit("content");
    reveal_strlit("datatype");
    reveal_strlit("status");
    assert("attrs"@.len() == 5 && "built_in"@.len() == 8 && "content"@.len() == 7);
    assert("datatype"@.len() == 8 && "status"@.len() == 6);
    let lite = thing_data(t, content, false)->Object_0;
    let full = thing_data(t, content, true)->Object_0;
    let c1 = full.drop_first();
    let c2 = c1.drop_first();
    let c3 = c2.drop_first();
    let d1 = lite.drop_first();
    let d2 = d1.drop_first();
    let d3 = d2.drop_first();
    assert(c3 =~= d2);
    assert(c1[0] == d1[0] && c2[0].0 == "content"@);
    assert(d2[0].0 == "datatype"@ && d3[0].0 == "status"@);
    assert(d3.drop_first().len() == 0);
    assert(lookup(d3.drop_first(), "content"@) is None);
    assert(lookup(d3, "content"@) is None);
    assert(lookup(d2, "content"@) is None);
    assert(lookup(d1, "content"@) is None);
    assert(key != "content"@ ==> lookup(c2, key) == lookup(d2, key));
    assert(key != "content"@ ==> lookup(c1, key) == lookup(d1, key));
}

proof fn lemma_lite_entries(set: SetView, colls: Seq<CollView>, key: Seq<char>)
    ensures
        ({
            let full = all_thing_entries(set, colls, SnapshotOptions { include_content: true });
            let lite = all_thing_entries(set, colls, SnapshotOptions { include_content: false });
            &&& full.len() == lite.len()
            &&& forall|i: int|
                0 <= i < full.len() ==> lite_entry(#[trigger] lite[i], full[i], key)
        }),
    decreases colls.len(),
{
    if colls.len() > 0 {
        lemma_lite_entries(set, colls.drop_last(), key);
        let c = colls.last();
        let full = coll_thing_entries(set, c, SnapshotOptions { include_content: true });
        let lite = coll_thing_entries(set, c, SnapshotOptions { include_content: false });
        assert forall|i: int| 0 <= i < full.len() implies lite_entry(
            #[trigger] lite[i],
            full[i],
            key,
        ) by {
            let t = live_things(c.things)[i];
            lemma_lite_data(t, content_of(set, t.id), key);
        }
        let front = all_thing_entries(
            set,
            colls.drop_last(),
            SnapshotOptions { include_content: true },
        );
        let short = all_thing_entries(
            set,
            colls.drop_last(),
            SnapshotOptions { include_content: false },
        );
        assert forall|i: int| 0 <= i < front.len() + full.len() implies lite_entry(
            #[trigger] (short + lite)[i],
            (front + full)[i],
            key,
        ) by {
            if i >= front.len() {
                assert(lite_entry(lite[i - front.len()], full[i - front.len()], key));
            } else {
                assert(lite_entry(short[i], front[i], key));
            }
        }
    }
}

/// Whether a thing is shown as another one is, but for the content in its data: the data agree
/// under `key`, and the first has none under `content`.
pub open spec fn lite_entry(lite: ThingEntryView, full: ThingEntryView, key: Seq<char>) -> bool {
    &&& lite == ThingEntryView { data: lite.data, ..full }
    &&& field(lite.data, "content"@) is None
    &&& key != "content"@ ==> field(lite.data, key) == field(full.data, key)
}

/// A snapshot without content shows what one with content shows: the same collections, and the
/// same things in the same order with everything but their content.
pub proof fn law_lite_snapshot(
    actors: Seq<ActorMetaEntry>,
    set: SetView,
    now: Seq<char>,
    key: Seq<char>,
)
    ensures
        ({
            let full = snapshot_result(actors, set, SnapshotOptions { include_content: true }, now);
            let lite = snapshot_result(
                actors,
                set,
                SnapshotOptions { include_content: false },
                now,
            );
            match full {
                Err(e) => lite == Err::<SnapshotView, ErrorView>(e),
                Ok(f) => lite matches Ok(l) && l == (SnapshotView { things: l.things, ..f })
                    && l.things.len() == f.things.len() && forall|i: int|
                    0 <= i < f.things.len() ==> lite_entry(
                        #[trigger] l.things[i],
                        f.things[i],
                        key,
                    ),
            }
        }),
{
    let seen = systems_outcome(with_root(set), now);
    let colls = live_colls(seen.1.collections);
    lemma_lite_entries(seen.1, colls, key);
    let full = snapshot_things(seen.1, SnapshotOptions { include_content: true });
    let lite = snapshot_things(seen.1, SnapshotOptions { include_content: false });
    assert forall|i: int| 0 <= i < full.len() implies lite_entry(
        #[trigger] with_thing_actor(lite[i], actors),
        with_thing_actor(full[i], actors),
        key,
    ) by {
        assert(lite_entry(lite[i], full[i], key));
    }
}

/// Once both collections of the system are as they should be, what is shown does not depend on
/// when it is asked for.
pub proof fn law_snapshot_at_any_time(
    actors: Seq<ActorMetaEntry>,
    set: SetView,
    options: SnapshotOptions,
    now: Seq<char>,
    next: Seq<char>,
)
    requires
        !system_outdated(
            set,
            "00000000-0000-0000-0000-000000000000"@,
            "Drafts"@,
            CollectionType::Default,
        ),
        !system_outdated(
            set,
            "00000000-0000-0000-0000-000000000001"@,
            "Trash"@,
            CollectionType::Trash,
        ),
    ensures
        snapshot_result(actors, set, options, now) == snapshot_result(actors, set, options, next),
{
    assert(snapshot_collections(with_root(set)) == snapshot_collections(set));
}

/// Once both collections of the system are as they should be, a snapshot without content shows
/// what one with content showed before it: the same collections, and the same things in the
/// same order with everything but their content.
pub proof fn law_lite_snapshot_later(
    actors: Seq<ActorMetaEntry>,
    set: SetView,
    now: Seq<char>,
    next: Seq<char>,
    key: Seq<char>,
)
    requires
        !system_outdated(
            set,
            "00000000-0000-0000-0000-000000000000"@,
            "Drafts"@,
            CollectionType::Default,
        ),
        !system_outdated(
            set,
            "00000000-0000-0000-0000-000000000001"@,
            "Trash"@,
            CollectionType::Trash,
        ),
    ensures
        ({
            let full = snapshot_result(actors, set, SnapshotOptions { include_content: true }, now);
            let lite = snapshot_result(
                actors,
                set,
                SnapshotOptions { include_content: false },
                next,
            );
            full matches Ok(f) && lite matches Ok(l) && l.collections == f.collections
                && l.things.len() == f.things.len() && forall|i: int|
                0 <= i < f.things.len() ==> lite_entry(#[trigger] l.things[i], f.things[i], key)
        }),
{
    law_lite_snapshot(actors, set, now, key);
    law_snapshot_at_any_time(actors, set, SnapshotOptions { include_content: false }, now, next);
    assert(snapshot_collections(with_root(set)) == snapshot_collections(set));
}

proof fn lemma_first_mapped<T>(s: Seq<T>, f: spec_fn(T) -> T, hit: spec_fn(T) -> bool)
    requires
        forall|x: T| hit(#[trigger] f(x)) == hit(x),
    ensures
        first_data(s.map_values(f), hit) == match first_data(s, hit) {
            Some(x) => Some(f(x)),
            None => None,
        },
    decreases s.len(),
{
    if s.len() > 0 {
        lemma_first_mapped(s.drop_first(), f, hit);
        assert(s.map_values(f).drop_first() =~= s.drop_first().map_values(f));
        assert(s.map_values(f)[0] == f(s[0]));
    }
}

proof fn lemma_shown_is_live(set: SetView, uuid: Seq<char>)
    requires
        well_formed(set),
        collection_in(snapshot_collections(set), uuid) is Some,
    ensures
        coll_live(set, uuid),
        coll(set, uuid).id == uuid,
        collection_in(snapshot_collections(set), uuid) == Some(collection_entry(coll(set, uuid))),
{
    let shown = snapshot_collections(set);
    let live = live_colls(set.collections);
    law_live_collections(set.collections);
    law_first_data(shown, has_entry_uuid(uuid));
    let c = collection_in(shown, uuid)->0;
    let k = choose|k: int| 0 <= k < shown.len() && shown[k] == c;
    assert(live.contains(live[k]));
    let i = choose|i: int| 0 <= i < set.collections.len() && set.collections[i] == live[k];
    lemma_position_of(set.collections, is_coll(uuid));
    assert(is_coll(uuid)(set.collections[i]));
    let at = coll_at(set, uuid);
    assert(at <= i);
    if at < i {
        assert(set.collections[at].id != set.collections[i].id);
    }
    lemma_shown_collection(set, uuid);
}

/// The collections of the system are always shown, also where nothing is stored: the drafts
/// and the trash, under their ids, and neither as archived.
pub proof fn law_systems_are_shown(
    actors: Seq<ActorMetaEntry>,
    set: SetView,
    options: SnapshotOptions,
    present: DomainTime,
    now: Seq<char>,
)
    requires
        well_formed(set),
        plain_time(present),
        time_written(present, now),
        times_readable(live_coll_attrs(set, "00000000-0000-0000-0000-000000000000"@)),
        times_readable(live_coll_attrs(set, "00000000-0000-0000-0000-000000000001"@)),
    ensures
        snapshot_result(actors, set, options, now) matches Ok(s) && {
            &&& collection_in(s.collections, "00000000-0000-0000-0000-000000000000"@) matches Some(
                c,
            ) && shown_as(
                c,
                "00000000-0000-0000-0000-000000000000"@,
                "Drafts"@,
                CollectionType::Default,
                None,
            )
            &&& collection_in(s.collections, "00000000-0000-0000-0000-000000000001"@) matches Some(
                c,
            ) && shown_as(
                c,
                "00000000-0000-0000-0000-000000000001"@,
                "Trash"@,
                CollectionType::Trash,
                None,
            )
        },
{
    let drafts = "00000000-0000-0000-0000-000000000000"@;
    let trash = "00000000-0000-0000-0000-000000000001"@;
    reveal_strlit("00000000-0000-0000-0000-000000000000");
    reveal_strlit("00000000-0000-0000-0000-000000000001");
    assert(drafts[35] == '0' && trash[35] == '1');
    let s0 = with_root(set);
    assert(well_formed(s0));
    assert(live_coll_attrs(s0, drafts) == live_coll_attrs(set, drafts));
    assert(live_coll_attrs(s0, trash) == live_coll_attrs(set, trash));
    let s1 = default_outcome(s0, now).1;
    if system_outdated(s0, drafts, "Drafts"@, CollectionType::Default) {
        lemma_typed_outcome(
            s0,
            drafts,
            "Drafts"@,
            CollectionType::Default,
            None,
            present,
            now,
            trash,
        );
    } else {
        lemma_shown_is_live(s0, drafts);
    }
    let s2 = trash_outcome(s1, now).1;
    if system_outdated(s1, trash, "Trash"@, CollectionType::Trash) {
        lemma_typed_outcome(
            s1,
            trash,
            "Trash"@,
            CollectionType::Trash,
            None,
            present,
            now,
            drafts,
        );
        lemma_shown_is_live(s1, drafts);
        lemma_shown_collection(s2, drafts);
    } else {
        lemma_shown_is_live(s1, trash);
    }
    let owned_by = |c: CollectionEntryView| with_collection_actor(c, actors);
    lemma_first_mapped(snapshot_collections(s2), owned_by, has_entry_uuid(drafts));
    lemma_first_mapped(snapshot_collections(s2), owned_by, has_entry_uuid(trash));
    let shown = snapshot_result(actors, set, options, now)->Ok_0;
    assert(shown.collections =~= snapshot_collections(s2).map_values(owned_by));
}

/// A thing that was deleted from a collection is not shown there any more.
pub proof fn law_deleted_thing_is_not_shown(
    set: SetView,
    collection: Seq<char>,
    id: Seq<char>,
    options: SnapshotOptions,
    e: ThingEntryView,
)
    requires
        well_formed(set),
        thing_live(set, collection, id),
        e.uuid == id,
        e.collection_uuid == collection,
    ensures
        !snapshot_things(thing_deleted(set, collection, id), options).contains(e),
{
    let after = thing_deleted(set, collection, id);
    let things = coll(set, collection).things;
    let at = position_of(things, is_live_thing(id));
    lemma_coll_things_ok(set, collection);
    lemma_position_of(things, is_live_thing(id));
    lemma_things_update(things, at, ThingDocView { deleted: true, ..things[at] });
    let gone = things.update(at, ThingDocView { deleted: true, ..things[at] });
    lemma_coll_put(
        set,
        collection,
        CollView { things: gone, dirty: true, ..coll(set, collection) },
    );
    law_snapshot_things(after, options, e);
    if snapshot_things(after, options).contains(e) {
        let (i, j) = choose|i: int, j: int|
            0 <= i < after.collections.len() && 0 <= j < after.collections[i].things.len()
                && !after.collections[i].deleted && !after.collections[i].things[j].deleted && e
                == #[trigger] thing_entry(
                after,
                after.collections[i].id,
                after.collections[i].things[j],
                options,
            );
        let p = coll_at(after, collection);
        if i != p {
            if i < p {
                assert(after.collections[i].id != after.collections[p].id);
            } else {
                assert(after.collections[p].id != after.collections[i].id);
            }
        }
        assert(after.collections[i].things == gone);
        if j != at {
            if j < at {
                assert(gone[j].id != gone[at].id);
            } else {
                assert(gone[at].id != gone[j].id);
            }
        }
    }
}

/// The time at which a thing was created stays with it when it is written again without one,
/// where it is kept in its normal form.
pub proof fn law_creation_time_stays(
    set: SetView,
    collection: Seq<char>,
    id: Seq<char>,
    datatype: Option<Seq<char>>,
    status: Option<Seq<char>>,
    title: Option<Seq<char>>,
    parent: Option<Seq<char>>,
    updated: Option<Seq<char>>,
    now: Seq<char>,
)
    requires
        thing_live(set, collection, id),
        created_of(thing_attrs(set, collection, id)) is Some,
        normal_time(created_of(thing_attrs(set, collection, id))) == Ok::<
            Option<Seq<char>>,
            ErrorView,
        >(created_of(thing_attrs(set, collection, id))),
        thing_meta_outcome(
            set,
            collection,
            id,
            datatype,
            status,
            title,
            parent,
            None,
            updated,
            now,
        ).0 is Ok,
    ensures
        created_of(
            thing_attrs(
                thing_meta_outcome(
                    set,
                    collection,
                    id,
                    datatype,
                    status,
                    title,
                    parent,
                    None,
                    updated,
                    now,
                ).1,
                collection,
                id,
            ),
        ) == created_of(thing_attrs(set, collection, id)),
{
    let existing = live_thing_attrs(set, collection, id);
    let kept = created_of(existing)->0;
    let times = resolved_times(existing, None, updated, true, now)->Ok_0;
    let attrs = stamped_attrs(existing, existing, None, updated, true, now)->Ok_0;
    let c = coll(set, collection);
    let written = things_written(c.things, id, datatype, status, title, parent, attrs);
    lemma_position_of(set.collections, is_coll(collection));
    lemma_things_written(c.things, id, datatype, status, title, parent, attrs);
    lemma_coll_put(set, collection, CollView { things: written, dirty: true, ..c });
    law_trimmed_once(text_field(existing->0, "__remi_created_at"@)->0);
    let base = object_entries(existing);
    let ck = "__remi_created_at"@;
    let uk = "__remi_updated_at"@;
    reveal_strlit("__remi_created_at");
    reveal_strlit("__remi_updated_at");
    assert(ck[7] == 'c' && uk[7] == 'u');
    let first = with_text(base, ck, Some(kept));
    law_with_entry(base, ck, JsonView::Text(kept), uk);
    match normal_time(Some(times.1))->Ok_0 {
        Some(u) => {
            law_with_entry(first, uk, JsonView::Text(u), ck);
        },
        None => {
            law_without_entry(first, uk, ck);
        },
    }
}

/// What a content document was written with is what is read of it, and no other content
/// document changes.
pub proof fn law_content_read_after_write(
    set: SetView,
    uuid: Seq<char>,
    thing: Seq<char>,
    content_type: Seq<char>,
    content: ContentView,
    other: Seq<char>,
)
    requires
        other != uuid,
    ensures
        content_of(content_written(set, uuid, thing, content_type, content), uuid) == Some(content),
        content_of(content_written(set, uuid, thing, content_type, content), other) == content_of(
            set,
            other,
        ),
        well_formed(set) ==> well_formed(
            content_written(set, uuid, thing, content_type, content),
        ),
{
    let after = content_written(set, uuid, thing, content_type, content);
    let at = content_at(set, uuid);
    lemma_position_of(set.contents, is_content(uuid));
    lemma_position_of(set.contents, is_content(other));
    assert forall|k: int| 0 <= k < at implies !is_content(uuid)(#[trigger] after.contents[k]) by {
        assert(!is_content(uuid)(set.contents[k]));
    }
    lemma_position_is(after.contents, is_content(uuid), at);
    let q = content_at(set, other);
    assert forall|k: int| 0 <= k < q && k < after.contents.len() implies !is_content(other)(
        #[trigger] after.contents[k],
    ) by {
        if k < set.contents.len() {
            assert(!is_content(other)(set.contents[k]));
        }
    }
    if q < set.contents.len() {
        lemma_position_is(after.contents, is_content(other), q);
    } else {
        lemma_position_is(after.contents, is_content(other), after.contents.len() as int);
    }
    if well_formed(set) {
        assert forall|i: int, j: int| 0 <= i < j < after.contents.len() implies (
        #[trigger] after.contents[i]).uuid != (#[trigger] after.contents[j]).uuid by {
            if j < set.contents.len() {
                assert(set.contents[i].uuid != set.contents[j].uuid);
            } else {
                assert(!is_content(uuid)(set.contents[i]));
            }
        }
    }
}

/// The text that a thing was written with is the text that is read of it.
pub proof fn law_text_read_after_write(set: SetView, thing: Seq<char>, text: Seq<char>)
    ensures
        main_text(content_of(text_written(set, thing, text), thing)) == Some(text),
{
    let block = BlockView { id: "main"@, kind: "markdown"@, attrs_json: None, text: Some(text) };
    assert(thing.push('x').len() != thing.len());
    law_content_read_after_write(
        set,
        thing,
        thing,
        "markdown"@,
        ContentView::Blocks(seq![block]),
        thing.push('x'),
    );
    lemma_position_is(seq![block], is_block("main"@), 0);
}

/// The first splice of a text that is not there makes the text.
pub proof fn law_first_splice_makes_text(set: SetView, thing: Seq<char>, insert: Seq<char>)
    requires
        !has_content(set, thing),
    ensures
        splice_outcome(set, thing, "main"@, 0, 0, insert).0 == Some(text_events(set, thing)),
        main_text(content_of(splice_outcome(set, thing, "main"@, 0, 0, insert).1, thing)) == Some(
            insert,
        ),
{
    law_text_read_after_write(set, thing, insert);
}

/// A write that is refused changes nothing.
pub proof fn law_refused_write_changes_nothing(
    set: SetView,
    collection: Seq<char>,
    id: Seq<char>,
    text: Option<Seq<char>>,
    more: Option<Seq<char>>,
    attrs: Option<JsonView>,
    created: Option<Seq<char>>,
    updated: Option<Seq<char>>,
    now: Seq<char>,
    e: EntryView,
)
    ensures
        ({
            let out = coll_meta_outcome(set, collection, text, more, created, updated, now);
            out.0 is Err ==> out.1 == set
        }),
        ({
            let out = coll_attrs_outcome(set, collection, attrs, now);
            out.0 is Err ==> out.1 == set
        }),
        ({
            let out = thing_meta_outcome(
                set,
                collection,
                id,
                None,
                text,
                more,
                None,
                created,
                updated,
                now,
            );
            out.0 is Err ==> out.1 == set
        }),
        ({
            let out = thing_attrs_outcome(set, collection, id, attrs, now);
            out.0 is Err ==> out.1 == set
        }),
        ({
            let out = entry_added_outcome(set, collection, id, e);
            out.0 is Err ==> out.1 == set
        }),
        ({
            let out = entry_deleted_outcome(set, collection, id, e.id);
            out.0 is Err ==> out.1 == set
        }),
{
}

/// A content entry that was added is among the entries of the thing, and one that was deleted
/// is not.
pub proof fn law_entries_added_and_deleted(
    set: SetView,
    collection: Seq<char>,
    id: Seq<char>,
    e: EntryView,
)
    requires
        well_formed(set),
        entries_refusal(set, collection, id) is None,
    ensures
        thing_entries(entry_added_outcome(set, collection, id, e).1, collection, id).contains(e),
        !has_entry(
            thing_entries(entry_deleted_outcome(set, collection, id, e.id).1, collection, id),
            e.id,
        ),
        well_formed(entry_added_outcome(set, collection, id, e).1),
        well_formed(entry_deleted_outcome(set, collection, id, e.id).1),
{
    let things = coll(set, collection).things;
    let at = thing_at(things, id);
    let entries = thing_entries(set, collection, id);
    lemma_coll_things_ok(set, collection);
    lemma_position_of(things, is_thing(id));
    lemma_position_of(entries, is_entry(e.id));
    assert(thing_ok(things[at]));
    let p = entry_at(entries, e.id);
    let added = entry_added(entries, e);
    assert(added[p] == e);
    assert forall|i: int, j: int| 0 <= i < j < added.len() implies (#[trigger] added[i]).id != (
    #[trigger] added[j]).id by {
        if j < entries.len() {
            assert(entries[i].id != entries[j].id);
        } else {
            assert(!is_entry(e.id)(entries[i]));
        }
    }
    lemma_entries_put(set, collection, id, added);
    if has_entry(entries, e.id) {
        let left = entries.remove(p);
        assert forall|i: int, j: int| 0 <= i < j < left.len() implies (#[trigger] left[i]).id != (
        #[trigger] left[j]).id by {
            let a = if i < p { i } else { i + 1 };
            let b = if j < p { j } else { j + 1 };
            assert(left[i] == entries[a] && left[j] == entries[b]);
            assert(entries[a].id != entries[b].id);
        }
        assert forall|k: int| 0 <= k < left.len() implies !is_entry(e.id)(#[trigger] left[k]) by {
            if k < p {
                assert(left[k] == entries[k]);
                assert(entries[k].id != entries[p].id);
            } else {
                assert(left[k] == entries[k + 1]);
                assert(entries[p].id != entries[k + 1].id);
            }
        }
        lemma_position_is(left, is_entry(e.id), left.len() as int);
        lemma_entries_put(set, collection, id, left);
    }
}

proof fn lemma_entries_put(
    set: SetView,
    collection: Seq<char>,
    id: Seq<char>,
    entries: Seq<EntryView>,
)
    requires
        well_formed(set),
        has_coll(set, collection),
        has_thing(coll(set, collection).things, id),
        entries_apart(entries),
    ensures
        thing_entries(entries_put(set, collection, id, entries), collection, id) == entries,
        well_formed(entries_put(set, collection, id, entries)),
{
    let c = coll(set, collection);
    let things = c.things;
    let at = thing_at(things, id);
    lemma_coll_things_ok(set, collection);
    lemma_position_of(things, is_thing(id));
    let t = ThingDocView { entries, ..things[at] };
    let after = things.update(at, t);
    lemma_things_update(things, at, t);
    assert forall|k: int| 0 <= k < at implies !is_thing(id)(#[trigger] after[k]) by {
        assert(!is_thing(id)(things[k]));
    }
    lemma_position_is(after, is_thing(id), at);
    lemma_coll_put(set, collection, CollView { things: after, dirty: true, ..c });
}

/// Ids stay apart whatever is written: a collection, its attributes, a thing, its attributes,
/// or the deletion of a thing.
pub proof fn law_ids_stay_apart(
    set: SetView,
    collection: Seq<char>,
    id: Seq<char>,
    datatype: Option<Seq<char>>,
    status: Option<Seq<char>>,
    title: Option<Seq<char>>,
    parent: Option<Seq<char>>,
    attrs: Option<JsonView>,
    created: Option<Seq<char>>,
    updated: Option<Seq<char>>,
    now: Seq<char>,
)
    requires
        well_formed(set),
    ensures
        well_formed(coll_meta_outcome(set, collection, title, status, created, updated, now).1),
        well_formed(coll_attrs_outcome(set, collection, attrs, now).1),
        well_formed(
            thing_meta_outcome(
                set,
                collection,
                id,
                datatype,
                status,
                title,
                parent,
                created,
                updated,
                now,
            ).1,
        ),
        well_formed(thing_attrs_outcome(set, collection, id, attrs, now).1),
        thing_live(set, collection, id) ==> well_formed(thing_deleted(set, collection, id)),
{
    let s = with_coll(set, collection);
    lemma_with_coll(set, collection);
    lemma_coll_things_ok(s, collection);
    assert forall|w: CollView|
        w.id == collection && w.things == coll(s, collection).things implies #[trigger] well_formed(
        coll_put(s, collection, w),
    ) by {
        lemma_coll_put(s, collection, w);
    }
    if has_coll(set, collection) {
        let c = coll(set, collection);
        lemma_coll_things_ok(set, collection);
        assert forall|w: Seq<ThingDocView>| things_ok(w) implies #[trigger] well_formed(
            things_put(set, collection, w),
        ) by {
            lemma_coll_put(set, collection, CollView { things: w, dirty: true, ..c });
        }
        let existing = live_thing_attrs(set, collection, id);
        let existed = thing_live(set, collection, id);
        if let Ok(stamped) = stamped_attrs(existing, existing, created, updated, existed, now) {
            lemma_things_written(c.things, id, datatype, status, title, parent, stamped);
        }
        if let Ok(stamped) = stamped_attrs(
            thing_attrs(set, collection, id),
            kept_attrs(attrs),
            None,
            None,
            true,
            now,
        ) {
            lemma_things_written(c.things, id, None, None, None, None, stamped);
        }
        if thing_live(set, collection, id) {
            let at = position_of(c.things, is_live_thing(id));
            lemma_position_of(c.things, is_live_thing(id));
            assert(thing_ok(c.things[at]));
            lemma_things_update(c.things, at, ThingDocView { deleted: true, ..c.things[at] });
        }
    }
}

} // verus!
