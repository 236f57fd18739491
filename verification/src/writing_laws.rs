//! What a write to the documents of things changes, and what it leaves as it was.
use crate::bindings::{resolved_bindings, BindingView};
use crate::content_registry::{EntryView, PayloadView};
use crate::error::ErrorView;
use crate::json::{law_without_entry, lookup, object_entries, text_field, JsonView};
use crate::rows::ActionDefinition;
use crate::storage::triggers::is_action;
use crate::table::{first_data, law_first_data, lemma_position_of, position_of};
use crate::text::trimmed;
use crate::things_crdt::{
    coll, coll_at, coll_attrs_outcome, coll_live, coll_meta_outcome, entry_added, entry_at,
    entry_changed, has_coll, has_entry, has_thing, is_coll, is_entry, is_live_thing, is_thing,
    live_coll_attrs, live_thing_attrs, new_coll, new_thing, stamped_attrs, thing_at, thing_attrs,
    thing_attrs_outcome, thing_deleted, thing_live, thing_meta_outcome, things_written, with_coll,
    with_root_member,
};
use crate::things_docs::{CollView, SetView, ThingDocView};
use crate::things_laws::{lemma_coll_put, lemma_things_written, lemma_with_coll, thing_doc};
use crate::timestamps::{attrs_shown, created_of, law_attrs_hold_times, normal_time, resolved_times};
use vstd::prelude::*;

verus! {

/// Whether nothing but one collection differs between two sets of documents.
pub open spec fn others_stay(old: SetView, new: SetView, uuid: Seq<char>) -> bool {
    &&& new.device_id == old.device_id
    &&& new.root == old.root
    &&& new.contents == old.contents
    &&& new.collections.len() == old.collections.len()
    &&& forall|i: int|
        0 <= i < old.collections.len() && (#[trigger] old.collections[i]).id != uuid
            ==> new.collections[i] == old.collections[i]
}

/// Whether each thing but one is in a list as it is in another.
pub open spec fn other_things_stay(
    old: Seq<ThingDocView>,
    new: Seq<ThingDocView>,
    id: Seq<char>,
) -> bool {
    &&& old.len() <= new.len() <= old.len() + 1
    &&& forall|i: int|
        0 <= i < old.len() && (#[trigger] old[i]).id != id ==> new[i] == old[i]
    &&& new.len() > old.len() ==> new.last().id == id
}

proof fn lemma_thing_found(things: Seq<ThingDocView>, id: Seq<char>)
    ensures
        has_thing(things, id) ==> 0 <= thing_at(things, id) < things.len() && things[thing_at(
            things,
            id,
        )].id == id,
{
    lemma_position_of(things, is_thing(id));
}

proof fn lemma_coll_found(set: SetView, uuid: Seq<char>)
    ensures
        has_coll(set, uuid) ==> 0 <= coll_at(set, uuid) < set.collections.len()
            && set.collections[coll_at(set, uuid)].id == uuid,
{
    lemma_position_of(set.collections, is_coll(uuid));
}

proof fn lemma_written_here(
    things: Seq<ThingDocView>,
    id: Seq<char>,
    datatype: Option<Seq<char>>,
    status: Option<Seq<char>>,
    title: Option<Seq<char>>,
    parent: Option<Seq<char>>,
    attrs: JsonView,
)
    ensures
        ({
            let out = things_written(things, id, datatype, status, title, parent, attrs);
            let t = out[thing_at(out, id)];
            let before = things[thing_at(things, id)];
            &&& has_thing(out, id)
            &&& other_things_stay(things, out, id)
            &&& t.id == id
            &&& !t.deleted
            &&& t.attrs == Some(attrs)
            &&& title is Some ==> t.title == title
            &&& status is Some ==> Some(t.status) == status
            &&& datatype is Some ==> Some(t.datatype) == datatype
            &&& parent matches Some(p) ==> t.parent_id == if p.len() == 0 {
                None
            } else {
                Some(p)
            }
            &&& has_thing(things, id) ==> {
                &&& title is None ==> t.title == before.title
                &&& status is None ==> t.status == before.status
                &&& datatype is None ==> t.datatype == before.datatype
                &&& parent is None ==> t.parent_id == before.parent_id
                &&& t.entries == before.entries
                &&& t.extra == before.extra
                &&& t.status_timestamp_ms == before.status_timestamp_ms
            }
            &&& !has_thing(things, id) ==> t.entries.len() == 0 && (parent is None ==> t.parent_id
                is None)
        }),
{
    let all = if has_thing(things, id) {
        things
    } else {
        things.push(new_thing(id))
    };
    let out = things_written(things, id, datatype, status, title, parent, attrs);
    lemma_thing_found(things, id);
    lemma_thing_found(all, id);
    lemma_position_of(all, is_thing(id));
    if !has_thing(things, id) {
        assert(is_thing(id)(all[things.len() as int]));
        lemma_position_of(things, is_thing(id));
        assert(thing_at(all, id) == things.len()) by {
            let at = thing_at(all, id);
            if at < things.len() {
                assert(is_thing(id)(things[at]));
            }
        }
    }
    lemma_things_written(things, id, datatype, status, title, parent, attrs);
    lemma_thing_found(out, id);
    lemma_position_of(out, is_thing(id));
    let at = thing_at(all, id);
    assert(thing_at(out, id) == at) by {
        assert(is_thing(id)(out[at]));
        let p = thing_at(out, id);
        if p < at {
            assert(out[p] == all[p]);
            assert(!is_thing(id)(all[p]));
        }
    }
}

/// A thing that is written has the title, the status, the kind and the parent that are given, and
/// keeps what is not given. Its entries stay, and so does every other thing, every
/// other collection and every content.
pub proof fn law_thing_write_is_local(
    set: SetView,
    collection: Seq<char>,
    id: Seq<char>,
    datatype: Option<Seq<char>>,
    status: Option<Seq<char>>,
    title: Option<Seq<char>>,
    parent: Option<Seq<char>>,
    created: Option<Seq<char>>,
    updated: Option<Seq<char>>,
    now: Seq<char>,
)
    requires
        thing_meta_outcome(
            set,
            collection,
            id,
            datatype,
            status,
            title,
            parent,
            created,
            updated,
            now,
        ).0 is Ok,
    ensures
        ({
            let after = thing_meta_outcome(
                set,
                collection,
                id,
                datatype,
                status,
                title,
                parent,
                created,
                updated,
                now,
            ).1;
            let t = thing_doc(after, collection, id);
            let before = thing_doc(set, collection, id);
            let was = coll(set, collection);
            let is = coll(after, collection);
            &&& others_stay(set, after, collection)
            &&& other_things_stay(was.things, is.things, id)
            &&& is.title == was.title && is.status == was.status && is.attrs == was.attrs
                && is.deleted == was.deleted && is.dirty
            &&& t.id == id && !t.deleted
            &&& title is Some ==> t.title == title
            &&& status is Some ==> Some(t.status) == status
            &&& datatype is Some ==> Some(t.datatype) == datatype
            &&& parent matches Some(p) ==> t.parent_id == if p.len() == 0 {
                None
            } else {
                Some(p)
            }
            &&& has_thing(was.things, id) ==> {
                &&& title is None ==> t.title == before.title
                &&& status is None ==> t.status == before.status
                &&& datatype is None ==> t.datatype == before.datatype
                &&& parent is None ==> t.parent_id == before.parent_id
                &&& t.entries == before.entries
                &&& t.extra == before.extra
            }
        }),
{
    lemma_coll_found(set, collection);
    let existing = live_thing_attrs(set, collection, id);
    let attrs = stamped_attrs(
        existing,
        existing,
        created,
        updated,
        thing_live(set, collection, id),
        now,
    )->Ok_0;
    let was = coll(set, collection);
    let things = things_written(was.things, id, datatype, status, title, parent, attrs);
    lemma_written_here(was.things, id, datatype, status, title, parent, attrs);
    lemma_coll_put(set, collection, CollView { things, dirty: true, ..was });
}

/// A collection that is written has the title and the status that are given and keeps what is not
/// given. It is there, its things stay, and so does every other collection.
pub proof fn law_collection_write_is_local(
    set: SetView,
    uuid: Seq<char>,
    title: Option<Seq<char>>,
    status: Option<Seq<char>>,
    created: Option<Seq<char>>,
    updated: Option<Seq<char>>,
    now: Seq<char>,
)
    requires
        coll_meta_outcome(set, uuid, title, status, created, updated, now).0 is Ok,
    ensures
        ({
            let after = coll_meta_outcome(set, uuid, title, status, created, updated, now).1;
            let was = coll(set, uuid);
            let is = coll(after, uuid);
            &&& coll_live(after, uuid) && is.id == uuid && is.dirty
            &&& title is Some ==> Some(is.title) == title
            &&& status is Some ==> Some(is.status) == status
            &&& has_coll(set, uuid) ==> {
                &&& others_stay(set, after, uuid)
                &&& is.things == was.things
                &&& title is None ==> is.title == was.title
                &&& status is None ==> is.status == was.status
            }
            &&& !has_coll(set, uuid) ==> {
                &&& is.things.len() == 0
                &&& after.contents == set.contents
                &&& after.root is Some && after.root->0.collection_uuids.contains(uuid)
                &&& forall|i: int|
                    0 <= i < set.collections.len() ==> #[trigger] after.collections[i]
                        == set.collections[i]
            }
        }),
{
    lemma_with_coll(set, uuid);
    lemma_coll_found(set, uuid);
    let s = with_coll(set, uuid);
    lemma_coll_found(s, uuid);
    let after = coll_meta_outcome(set, uuid, title, status, created, updated, now).1;
    lemma_coll_put(s, uuid, coll_of_write(set, uuid, title, status, created, updated, now));
    if !has_coll(set, uuid) {
        lemma_position_of(s.collections, is_coll(uuid));
        lemma_position_of(set.collections, is_coll(uuid));
        let at = coll_at(s, uuid);
        assert(at == set.collections.len()) by {
            if at < set.collections.len() {
                assert(is_coll(uuid)(set.collections[at]));
            }
        }
        let root = with_root_member(
            SetView { collections: set.collections.push(new_coll(uuid)), ..set },
            uuid,
        ).root->0;
        let ids = root.collection_uuids;
        if !crate::things_crdt::with_root(set).root->0.collection_uuids.contains(uuid) {
            assert(ids[ids.len() - 1] == uuid);
        }
    }
}

spec fn coll_of_write(
    set: SetView,
    uuid: Seq<char>,
    title: Option<Seq<char>>,
    status: Option<Seq<char>>,
    created: Option<Seq<char>>,
    updated: Option<Seq<char>>,
    now: Seq<char>,
) -> CollView {
    let existing = live_coll_attrs(set, uuid);
    let attrs = stamped_attrs(
        existing,
        existing,
        created,
        updated,
        coll_live(set, uuid),
        now,
    )->Ok_0;
    let c = coll(with_coll(set, uuid), uuid);
    CollView {
        title: crate::things_crdt::or_keep(title, c.title),
        status: crate::things_crdt::or_keep(status, c.status),
        attrs: Some(attrs),
        deleted: false,
        dirty: true,
        ..c
    }
}

/// When a thing or a collection came to be and when it was last changed: the times that are given
/// stand; without them the first is the one it has or now, and the second is now for what
/// was there and the first for what is new.
pub proof fn law_times_of_a_write(
    attrs: Option<JsonView>,
    created: Option<Seq<char>>,
    updated: Option<Seq<char>>,
    existed: bool,
    now: Seq<char>,
)
    requires
        resolved_times(attrs, created, updated, existed, now) is Ok,
    ensures
        ({
            let (c, u) = resolved_times(attrs, created, updated, existed, now)->Ok_0;
            &&& created is Some && trimmed(created->0).len() > 0 ==> normal_time(created) == Ok::<
                Option<Seq<char>>,
                ErrorView,
            >(Some(c))
            &&& created is None && created_of(attrs) is Some ==> Some(c) == created_of(attrs)
            &&& created is None && created_of(attrs) is None ==> c == now
            &&& updated is Some && trimmed(updated->0).len() > 0 ==> normal_time(updated) == Ok::<
                Option<Seq<char>>,
                ErrorView,
            >(Some(u))
            &&& updated is None && existed ==> u == now
            &&& updated is None && !existed ==> u == c
        }),
{
}

/// What is shown of the attributes is what they hold but for the two times.
pub proof fn law_shown_attributes(
    entries: Seq<(Seq<char>, JsonView)>,
    key: Seq<char>,
)
    ensures
        ({
            let out = attrs_shown(Some(JsonView::Object(entries)));
            &&& key != "__remi_created_at"@ && key != "__remi_updated_at"@ && lookup(entries, key)
                is Some ==> out is Some && lookup(out->0->Object_0, key) == lookup(entries, key)
            &&& out is Some ==> lookup(out->0->Object_0, "__remi_created_at"@) is None && lookup(
                out->0->Object_0,
                "__remi_updated_at"@,
            ) is None
            &&& out is Some && lookup(out->0->Object_0, key) is Some ==> lookup(
                out->0->Object_0,
                key,
            ) == lookup(entries, key)
        }),
{
    let once = crate::json::without_entry(entries, "__remi_created_at"@);
    law_without_entry(entries, "__remi_created_at"@, key);
    law_without_entry(once, "__remi_updated_at"@, key);
    law_without_entry(once, "__remi_updated_at"@, "__remi_created_at"@);
}

/// Attributes that are written are those that are given, with the time of now; the title, the
/// status and the things of the collection stay.
pub proof fn law_written_attributes(
    set: SetView,
    uuid: Seq<char>,
    attrs: JsonView,
    now: Seq<char>,
    key: Seq<char>,
)
    requires
        coll_attrs_outcome(set, uuid, Some(attrs), now).0 is Ok,
        trimmed(now).len() > 0,
        key != "__remi_created_at"@,
        key != "__remi_updated_at"@,
    ensures
        ({
            let after = coll_attrs_outcome(set, uuid, Some(attrs), now).1;
            let was = coll(set, uuid);
            let is = coll(after, uuid);
            &&& coll_live(after, uuid)
            &&& others_stay(set, after, uuid)
            &&& is.title == was.title && is.status == was.status && is.things == was.things
            &&& is.attrs is Some && lookup(is.attrs->0->Object_0, key) == lookup(
                object_entries(Some(attrs)),
                key,
            )
            &&& normal_time(Some(now)) == Ok::<Option<Seq<char>>, ErrorView>(
                text_field(is.attrs->0, "__remi_updated_at"@),
            )
        }),
{
    lemma_coll_found(set, uuid);
    lemma_with_coll(set, uuid);
    let was = coll(set, uuid);
    let kept = crate::things_crdt::kept_attrs(Some(attrs));
    let (c, u) = resolved_times(was.attrs, None, None, true, now)->Ok_0;
    lemma_created_not_empty(was.attrs);
    law_attrs_hold_times(kept, c, u, key);
    let stamped = stamped_attrs(was.attrs, kept, None, None, true, now)->Ok_0;
    lemma_coll_put(
        set,
        uuid,
        CollView { attrs: Some(stamped), deleted: false, dirty: true, ..was },
    );
    assert(lookup(object_entries(kept), key) == lookup(object_entries(Some(attrs)), key));
}

proof fn lemma_created_not_empty(attrs: Option<JsonView>)
    ensures
        created_of(attrs) matches Some(c) ==> trimmed(c).len() > 0,
{
    if attrs is Some {
        if let Some(s) = text_field(attrs->0, "__remi_created_at"@) {
            crate::text::law_trimmed_once(s);
        }
    }
}

/// Attributes that are written to a thing are those that are given, with the time of now; the rest
/// of it stays.
pub proof fn law_written_thing_attributes(
    set: SetView,
    collection: Seq<char>,
    id: Seq<char>,
    attrs: JsonView,
    now: Seq<char>,
    key: Seq<char>,
)
    requires
        thing_attrs_outcome(set, collection, id, Some(attrs), now).0 is Ok,
        trimmed(now).len() > 0,
        key != "__remi_created_at"@,
        key != "__remi_updated_at"@,
    ensures
        ({
            let after = thing_attrs_outcome(set, collection, id, Some(attrs), now).1;
            let was = thing_doc(set, collection, id);
            let is = thing_doc(after, collection, id);
            &&& others_stay(set, after, collection)
            &&& other_things_stay(
                coll(set, collection).things,
                coll(after, collection).things,
                id,
            )
            &&& is.title == was.title && is.status == was.status && is.entries == was.entries
                && is.parent_id == was.parent_id && is.datatype == was.datatype
            &&& is.attrs is Some && lookup(is.attrs->0->Object_0, key) == lookup(
                object_entries(Some(attrs)),
                key,
            )
            &&& normal_time(Some(now)) == Ok::<Option<Seq<char>>, ErrorView>(
                text_field(is.attrs->0, "__remi_updated_at"@),
            )
        }),
{
    lemma_coll_found(set, collection);
    let was = coll(set, collection);
    let old = thing_attrs(set, collection, id);
    let kept = crate::things_crdt::kept_attrs(Some(attrs));
    let (c, u) = resolved_times(old, None, None, true, now)->Ok_0;
    lemma_created_not_empty(old);
    law_attrs_hold_times(kept, c, u, key);
    let stamped = stamped_attrs(old, kept, None, None, true, now)->Ok_0;
    lemma_written_here(was.things, id, None, None, None, None, stamped);
    let things = things_written(was.things, id, None, None, None, None, stamped);
    lemma_coll_put(set, collection, CollView { things, dirty: true, ..was });
    lemma_live_is_there(was.things, id);
    assert(lookup(object_entries(kept), key) == lookup(object_entries(Some(attrs)), key));
}

proof fn lemma_live_is_there(things: Seq<ThingDocView>, id: Seq<char>)
    ensures
        position_of(things, is_live_thing(id)) < things.len() ==> has_thing(things, id),
{
    lemma_position_of(things, is_live_thing(id));
    lemma_position_of(things, is_thing(id));
    let at = position_of(things, is_live_thing(id));
    if at < things.len() && !has_thing(things, id) {
        assert(!is_thing(id)(things[at]));
    }
}

/// Deleting a thing marks it as deleted and changes nothing else: no other thing, no other
/// collection and no content.
pub proof fn law_deletion_is_local(set: SetView, collection: Seq<char>, id: Seq<char>, i: int)
    requires
        thing_live(set, collection, id),
        0 <= i < coll(set, collection).things.len(),
    ensures
        ({
            let after = thing_deleted(set, collection, id);
            let was = coll(set, collection).things;
            let is = coll(after, collection).things;
            let at = position_of(was, is_live_thing(id));
            &&& others_stay(set, after, collection)
            &&& is.len() == was.len()
            &&& was[at].id == id && is[at] == (ThingDocView { deleted: true, ..was[at] })
            &&& i != at ==> is[i] == was[i]
        }),
{
    lemma_coll_found(set, collection);
    let was = coll(set, collection);
    lemma_position_of(was.things, is_live_thing(id));
    let at = position_of(was.things, is_live_thing(id));
    let things = was.things.update(at, ThingDocView { deleted: true, ..was.things[at] });
    lemma_coll_put(set, collection, CollView { things, dirty: true, ..was });
}

/// An entry that is changed has the title, the order and the payload that are given and keeps what
/// is not given; the other entries stay. One that is added stands in the place of the one
/// with its id, or comes last.
pub proof fn law_entries_change_alone(
    entries: Seq<EntryView>,
    e: EntryView,
    title: Option<Option<Seq<char>>>,
    order: Option<Seq<char>>,
    payload: Option<PayloadView>,
    i: int,
)
    requires
        0 <= i < entries.len(),
    ensures
        ({
            let at = entry_at(entries, e.id);
            let changed = entry_changed(entries, e.id, title, order, payload);
            let added = entry_added(entries, e);
            &&& changed.len() == entries.len()
            &&& i != at ==> changed[i] == entries[i] && added[i] == entries[i]
            &&& has_entry(entries, e.id) ==> {
                &&& changed[at].id == e.id
                &&& title is Some ==> Some(changed[at].title) == title
                &&& title is None ==> changed[at].title == entries[at].title
                &&& order is Some ==> Some(changed[at].order) == order
                &&& order is None ==> changed[at].order == entries[at].order
                &&& payload is Some ==> Some(changed[at].payload) == payload
                &&& payload is None ==> changed[at].payload == entries[at].payload
                &&& added.len() == entries.len() && added[at] == e
            }
            &&& !has_entry(entries, e.id) ==> changed == entries && added == entries.push(e)
        }),
{
    lemma_position_of(entries, is_entry(e.id));
}

/// A binding is resolved to the action that it names: the title, the description and whether it is
/// on are those of the action, and it is missing only where no action has the id. The
/// bindings stay in their order.
pub proof fn law_bindings_are_resolved(
    list: Seq<BindingView>,
    actions: Seq<ActionDefinition>,
    i: int,
)
    requires
        0 <= i < list.len(),
    ensures
        ({
            let out = resolved_bindings(list, actions);
            let r = out[i];
            &&& out.len() == list.len()
            &&& r.binding == list[i]
            &&& r.action_missing <==> forall|k: int|
                0 <= k < actions.len() ==> (#[trigger] actions[k]).action_uuid@
                    != list[i].action_uuid
            &&& !r.action_missing ==> exists|k: int|
                0 <= k < actions.len() && (#[trigger] actions[k]).action_uuid@
                    == list[i].action_uuid && r.action_title == Some(actions[k].title@)
                    && r.action_description == Some(actions[k].description@) && r.action_enabled
                    == Some(actions[k].enabled)
            &&& r.action_missing ==> r.action_title is None && r.action_description is None
                && r.action_enabled is None
        }),
{
    let id = list[i].action_uuid;
    law_first_data(actions, is_action(id));
    if let Some(a) = first_data(actions, is_action(id)) {
        let k = choose|k: int| 0 <= k < actions.len() && actions[k] == a;
        assert(actions[k].action_uuid@ == id);
    } else {
        assert forall|k: int| 0 <= k < actions.len() implies (#[trigger] actions[k]).action_uuid@
            != id by {
            assert(!is_action(id)(actions[k]));
        }
    }
}

} // verus!
