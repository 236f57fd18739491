//! Reading and changing the documents of things. Every change reports which documents
//! it touched, and marks them as not yet synchronised.
use crate::clock::clock_text;
use crate::content_registry::{entry_views, EntryView};
use crate::error::{failure, ErrorView, SdkError};
use crate::json::{copy_opt_json, json_opt_view, opt_view, Json, JsonView};
use crate::table::{lemma_position_is, lemma_position_of, position_of};
use crate::text::{cat3, owned, same, views};
use crate::things_docs::{
    coll_views, content_views, thing_views, CollView, CollectionDoc, ContentDocView, RootDoc,
    RootView, SetView, ThingDoc, ThingDocView, ThingsDocumentSet,
};
use crate::things_events::{
    collection_event, content_entry_event, events_view, root_event, thing_event, EventView,
    ThingsDocumentChangeKind, ThingsDocumentEvent,
};
use crate::things_types::{datatype_name, ThingDatatype};
use crate::timestamps::{
    attrs_with_times, merge_entity_timestamps_into_attrs, now_timestamp_rfc3339,
    resolve_entity_timestamps, resolved_times,
};
use vstd::prelude::*;

verus! {

/// The collections with a uuid.
pub open spec fn is_coll(uuid: Seq<char>) -> spec_fn(CollView) -> bool {
    |c: CollView| c.id == uuid
}

/// The place of the document of a collection.
pub open spec fn coll_at(set: SetView, uuid: Seq<char>) -> int {
    position_of(set.collections, is_coll(uuid))
}

pub open spec fn has_coll(set: SetView, uuid: Seq<char>) -> bool {
    coll_at(set, uuid) < set.collections.len()
}

/// The document of a collection.
pub open spec fn coll(set: SetView, uuid: Seq<char>) -> CollView {
    set.collections[coll_at(set, uuid)]
}

/// Whether there is a collection that is not deleted.
pub open spec fn coll_live(set: SetView, uuid: Seq<char>) -> bool {
    has_coll(set, uuid) && !coll(set, uuid).deleted
}

/// The things with an id.
pub open spec fn is_thing(id: Seq<char>) -> spec_fn(ThingDocView) -> bool {
    |t: ThingDocView| t.id == id
}

/// The things with an id that are not deleted.
pub open spec fn is_live_thing(id: Seq<char>) -> spec_fn(ThingDocView) -> bool {
    |t: ThingDocView| t.id == id && !t.deleted
}

/// The place of a thing in the document of its collection.
pub open spec fn thing_at(things: Seq<ThingDocView>, id: Seq<char>) -> int {
    position_of(things, is_thing(id))
}

pub open spec fn has_thing(things: Seq<ThingDocView>, id: Seq<char>) -> bool {
    thing_at(things, id) < things.len()
}

/// Whether a thing that is not deleted belongs to a collection that is not deleted.
pub open spec fn thing_live(set: SetView, collection: Seq<char>, id: Seq<char>) -> bool {
    coll_live(set, collection) && position_of(coll(set, collection).things, is_live_thing(id))
        < coll(set, collection).things.len()
}

/// The attributes of a thing.
pub open spec fn thing_attrs(set: SetView, collection: Seq<char>, id: Seq<char>) -> Option<
    JsonView,
> {
    let things = coll(set, collection).things;
    if has_thing(things, id) {
        things[thing_at(things, id)].attrs
    } else {
        None
    }
}

/// A root document without collections.
pub open spec fn empty_root() -> RootView {
    RootView { collection_uuids: Seq::empty(), dirty: true, last_sync_at: None }
}

/// The documents with a root document among them.
pub open spec fn with_root(set: SetView) -> SetView {
    SetView {
        root: Some(
            match set.root {
                Some(root) => root,
                None => empty_root(),
            },
        ),
        ..set
    }
}

/// The documents with a collection listed in the root document.
pub open spec fn with_root_member(set: SetView, uuid: Seq<char>) -> SetView {
    let root = with_root(set).root->0;
    SetView {
        root: Some(
            RootView {
                collection_uuids: if root.collection_uuids.contains(uuid) {
                    root.collection_uuids
                } else {
                    root.collection_uuids.push(uuid)
                },
                dirty: true,
                ..root
            },
        ),
        ..set
    }
}

/// The document of a collection that was just made.
pub open spec fn new_coll(uuid: Seq<char>) -> CollView {
    CollView {
        id: uuid,
        title: ""@,
        status: "active"@,
        deleted: false,
        attrs: None,
        things: Seq::empty(),
        dirty: true,
        last_sync_at: None,
    }
}

/// The documents with one for a collection among them.
pub open spec fn with_coll(set: SetView, uuid: Seq<char>) -> SetView {
    if has_coll(set, uuid) {
        set
    } else {
        with_root_member(
            SetView { collections: set.collections.push(new_coll(uuid)), ..set },
            uuid,
        )
    }
}

/// The documents with another document in the place of a collection's.
pub open spec fn coll_put(set: SetView, uuid: Seq<char>, c: CollView) -> SetView {
    SetView { collections: set.collections.update(coll_at(set, uuid), c), ..set }
}

pub open spec fn or_keep<T>(new: Option<T>, old: T) -> T {
    match new {
        Some(v) => v,
        None => old,
    }
}

/// The documents after the title, status and attributes of a collection were written;
/// what is not given stays.
pub open spec fn coll_written(
    set: SetView,
    uuid: Seq<char>,
    title: Option<Seq<char>>,
    status: Option<Seq<char>>,
    attrs: JsonView,
) -> SetView {
    let s = with_coll(set, uuid);
    let c = coll(s, uuid);
    coll_put(
        s,
        uuid,
        CollView {
            title: or_keep(title, c.title),
            status: or_keep(status, c.status),
            attrs: Some(attrs),
            deleted: false,
            dirty: true,
            ..c
        },
    )
}

/// The attributes that a collection or thing is written with at `now`.
pub open spec fn stamped_attrs(
    existing: Option<JsonView>,
    attrs: Option<JsonView>,
    created: Option<Seq<char>>,
    updated: Option<Seq<char>>,
    existed: bool,
    now: Seq<char>,
) -> Result<JsonView, ErrorView> {
    match resolved_times(existing, created, updated, existed, now) {
        Err(e) => Err(e),
        Ok(times) => attrs_with_times(attrs, Some(times.0), Some(times.1)),
    }
}

/// The attributes of a collection that is not deleted.
pub open spec fn live_coll_attrs(set: SetView, uuid: Seq<char>) -> Option<JsonView> {
    if coll_live(set, uuid) {
        coll(set, uuid).attrs
    } else {
        None
    }
}

/// The attributes of a thing that is not deleted.
pub open spec fn live_thing_attrs(set: SetView, collection: Seq<char>, id: Seq<char>) -> Option<
    JsonView,
> {
    if thing_live(set, collection, id) {
        thing_attrs(set, collection, id)
    } else {
        None
    }
}

/// What is reported of a written collection.
pub open spec fn coll_events(set: SetView, uuid: Seq<char>) -> Seq<EventView> {
    if coll_live(set, uuid) {
        seq![collection_event(ThingsDocumentChangeKind::Updated, uuid)]
    } else {
        seq![
            root_event(ThingsDocumentChangeKind::Updated),
            collection_event(ThingsDocumentChangeKind::Created, uuid),
        ]
    }
}

/// Whether something was made or only changed.
pub open spec fn made_or_changed(existed: bool) -> ThingsDocumentChangeKind {
    if existed {
        ThingsDocumentChangeKind::Updated
    } else {
        ThingsDocumentChangeKind::Created
    }
}

/// What writing a collection at `now` answers and leaves.
pub open spec fn coll_meta_outcome(
    set: SetView,
    uuid: Seq<char>,
    title: Option<Seq<char>>,
    status: Option<Seq<char>>,
    created: Option<Seq<char>>,
    updated: Option<Seq<char>>,
    now: Seq<char>,
) -> (Result<Seq<EventView>, ErrorView>, SetView) {
    let existing = live_coll_attrs(set, uuid);
    match stamped_attrs(existing, existing, created, updated, coll_live(set, uuid), now) {
        Err(e) => (Err(e), set),
        Ok(attrs) => (Ok(coll_events(set, uuid)), coll_written(set, uuid, title, status, attrs)),
    }
}

/// The refusal of a change to a collection that is not there.
pub open spec fn no_collection(uuid: Seq<char>) -> ErrorView {
    ErrorView::Failure { message: "Collection not found: "@ + uuid }
}

/// The refusal of a change to a thing that is not there.
pub open spec fn no_thing(id: Seq<char>) -> ErrorView {
    ErrorView::Failure { message: "Thing not found: "@ + id }
}

/// Attributes as they are kept: none in place of an empty object.
pub open spec fn kept_attrs(attrs: Option<JsonView>) -> Option<JsonView> {
    match attrs {
        Some(JsonView::Object(entries)) => if entries.len() == 0 { None } else { attrs },
        _ => attrs,
    }
}

/// What replacing the attributes of a collection at `now` answers and leaves.
pub open spec fn coll_attrs_outcome(
    set: SetView,
    uuid: Seq<char>,
    attrs: Option<JsonView>,
    now: Seq<char>,
) -> (Result<Seq<EventView>, ErrorView>, SetView) {
    if !coll_live(set, uuid) {
        (Err(no_collection(uuid)), set)
    } else {
        match stamped_attrs(coll(set, uuid).attrs, kept_attrs(attrs), None, None, true, now) {
            Err(e) => (Err(e), set),
            Ok(stamped) => (
                Ok(seq![collection_event(ThingsDocumentChangeKind::Updated, uuid)]),
                coll_written(set, uuid, None, None, stamped),
            ),
        }
    }
}

/// A thing that was just made.
pub open spec fn new_thing(id: Seq<char>) -> ThingDocView {
    ThingDocView {
        id,
        title: None,
        status: "none"@,
        status_timestamp_ms: None,
        datatype: "markdown"@,
        parent_id: None,
        deleted: false,
        attrs: None,
        entries: Seq::empty(),
        extra: None,
    }
}

/// The parent of a thing after a change: an empty id takes the parent away, and a
/// missing one keeps it.
pub open spec fn patched_parent(parent: Option<Seq<char>>, old: Option<Seq<char>>) -> Option<
    Seq<char>,
> {
    match parent {
        None => old,
        Some(p) => if p.len() == 0 { None } else { Some(p) },
    }
}

/// Things after one of them was written; one that was missing is added at the end.
pub open spec fn things_written(
    things: Seq<ThingDocView>,
    id: Seq<char>,
    datatype: Option<Seq<char>>,
    status: Option<Seq<char>>,
    title: Option<Seq<char>>,
    parent: Option<Seq<char>>,
    attrs: JsonView,
) -> Seq<ThingDocView> {
    let all = if has_thing(things, id) { things } else { things.push(new_thing(id)) };
    let t = all[thing_at(all, id)];
    all.update(
        thing_at(all, id),
        ThingDocView {
            title: match title {
                Some(title) => Some(title),
                None => t.title,
            },
            status: or_keep(status, t.status),
            datatype: or_keep(datatype, t.datatype),
            parent_id: patched_parent(parent, t.parent_id),
            attrs: Some(attrs),
            deleted: false,
            ..t
        },
    )
}

/// The documents with other things in a collection.
pub open spec fn things_put(set: SetView, uuid: Seq<char>, things: Seq<ThingDocView>) -> SetView {
    coll_put(set, uuid, CollView { things, dirty: true, ..coll(set, uuid) })
}

/// Why things cannot be put into a collection.
pub open spec fn coll_refusal(set: SetView, uuid: Seq<char>) -> Option<ErrorView> {
    if !has_coll(set, uuid) {
        Some(
            ErrorView::Failure {
                message: "collection '"@ + uuid
                    + "' must exist before adding or reparenting things"@,
            },
        )
    } else if coll(set, uuid).deleted {
        Some(ErrorView::Failure { message: "collection '"@ + uuid + "' is deleted"@ })
    } else {
        None
    }
}

/// What writing a thing at `now` answers and leaves.
pub open spec fn thing_meta_outcome(
    set: SetView,
    collection: Seq<char>,
    id: Seq<char>,
    datatype: Option<Seq<char>>,
    status: Option<Seq<char>>,
    title: Option<Seq<char>>,
    parent: Option<Seq<char>>,
    created: Option<Seq<char>>,
    updated: Option<Seq<char>>,
    now: Seq<char>,
) -> (Result<Seq<EventView>, ErrorView>, SetView) {
    let existing = live_thing_attrs(set, collection, id);
    let existed = thing_live(set, collection, id);
    match stamped_attrs(existing, existing, created, updated, existed, now) {
        Err(e) => (Err(e), set),
        Ok(attrs) => match coll_refusal(set, collection) {
            Some(e) => (Err(e), set),
            None => (
                Ok(seq![thing_event(made_or_changed(existed), collection, id)]),
                things_put(
                    set,
                    collection,
                    things_written(
                        coll(set, collection).things,
                        id,
                        datatype,
                        status,
                        title,
                        parent,
                        attrs,
                    ),
                ),
            ),
        },
    }
}

/// What replacing the attributes of a thing at `now` answers and leaves.
pub open spec fn thing_attrs_outcome(
    set: SetView,
    collection: Seq<char>,
    id: Seq<char>,
    attrs: Option<JsonView>,
    now: Seq<char>,
) -> (Result<Seq<EventView>, ErrorView>, SetView) {
    if !thing_live(set, collection, id) {
        (Err(no_thing(id)), set)
    } else {
        match stamped_attrs(
            thing_attrs(set, collection, id),
            kept_attrs(attrs),
            None,
            None,
            true,
            now,
        ) {
            Err(e) => (Err(e), set),
            Ok(stamped) => (
                Ok(seq![thing_event(ThingsDocumentChangeKind::Updated, collection, id)]),
                things_put(
                    set,
                    collection,
                    things_written(
                        coll(set, collection).things,
                        id,
                        None,
                        None,
                        None,
                        None,
                        stamped,
                    ),
                ),
            ),
        }
    }
}

/// The documents after a thing was deleted.
pub open spec fn thing_deleted(set: SetView, collection: Seq<char>, id: Seq<char>) -> SetView {
    let things = coll(set, collection).things;
    let at = position_of(things, is_live_thing(id));
    things_put(set, collection, things.update(at, ThingDocView { deleted: true, ..things[at] }))
}

/// The content entries with an id.
pub open spec fn is_entry(id: Seq<char>) -> spec_fn(EntryView) -> bool {
    |e: EntryView| e.id == id
}

pub open spec fn entry_at(entries: Seq<EntryView>, id: Seq<char>) -> int {
    position_of(entries, is_entry(id))
}

pub open spec fn has_entry(entries: Seq<EntryView>, id: Seq<char>) -> bool {
    entry_at(entries, id) < entries.len()
}

/// Why the content entries of a thing cannot be reached.
pub open spec fn entries_refusal(set: SetView, collection: Seq<char>, id: Seq<char>) -> Option<
    ErrorView,
> {
    if !has_coll(set, collection) {
        Some(ErrorView::Failure { message: "Collection not found"@ })
    } else if coll(set, collection).deleted || !has_thing(coll(set, collection).things, id)
        || coll(set, collection).things[thing_at(coll(set, collection).things, id)].deleted {
        Some(ErrorView::Failure { message: "Thing not found"@ })
    } else {
        None
    }
}

/// The content entries of a thing.
pub open spec fn thing_entries(set: SetView, collection: Seq<char>, id: Seq<char>) -> Seq<
    EntryView,
> {
    let things = coll(set, collection).things;
    things[thing_at(things, id)].entries
}

/// The documents with other content entries for a thing.
pub open spec fn entries_put(
    set: SetView,
    collection: Seq<char>,
    id: Seq<char>,
    entries: Seq<EntryView>,
) -> SetView {
    let things = coll(set, collection).things;
    let at = thing_at(things, id);
    things_put(set, collection, things.update(at, ThingDocView { entries, ..things[at] }))
}

/// Entries with one put in: in the place of the one with its id, or at the end.
pub open spec fn entry_added(entries: Seq<EntryView>, e: EntryView) -> Seq<EntryView> {
    if has_entry(entries, e.id) {
        entries.update(entry_at(entries, e.id), e)
    } else {
        entries.push(e)
    }
}

/// Entries with one of them changed in the given parts.
pub open spec fn entry_changed(
    entries: Seq<EntryView>,
    id: Seq<char>,
    title: Option<Option<Seq<char>>>,
    order: Option<Seq<char>>,
    payload: Option<crate::content_registry::PayloadView>,
) -> Seq<EntryView> {
    if has_entry(entries, id) {
        let e = entries[entry_at(entries, id)];
        entries.update(
            entry_at(entries, id),
            EntryView {
                title: or_keep(title, e.title),
                order: or_keep(order, e.order),
                payload: or_keep(payload, e.payload),
                ..e
            },
        )
    } else {
        entries
    }
}

/// What adding a content entry answers and leaves.
pub open spec fn entry_added_outcome(
    set: SetView,
    collection: Seq<char>,
    id: Seq<char>,
    e: EntryView,
) -> (Result<Seq<EventView>, ErrorView>, SetView) {
    match entries_refusal(set, collection, id) {
        Some(error) => (Err(error), set),
        None => {
            let entries = thing_entries(set, collection, id);
            (
                Ok(
                    seq![
                        content_entry_event(
                            made_or_changed(has_entry(entries, e.id)),
                            collection,
                            id,
                            e.id,
                        ),
                    ],
                ),
                entries_put(set, collection, id, entry_added(entries, e)),
            )
        },
    }
}

/// What changing a content entry answers and leaves.
pub open spec fn entry_changed_outcome(
    set: SetView,
    collection: Seq<char>,
    id: Seq<char>,
    entry: Seq<char>,
    title: Option<Option<Seq<char>>>,
    order: Option<Seq<char>>,
    payload: Option<crate::content_registry::PayloadView>,
) -> (Result<Seq<EventView>, ErrorView>, SetView) {
    match entries_refusal(set, collection, id) {
        Some(error) => (Err(error), set),
        None => {
            let entries = thing_entries(set, collection, id);
            (
                Ok(
                    seq![
                        content_entry_event(
                            made_or_changed(has_entry(entries, entry)),
                            collection,
                            id,
                            entry,
                        ),
                    ],
                ),
                entries_put(
                    set,
                    collection,
                    id,
                    entry_changed(entries, entry, title, order, payload),
                ),
            )
        },
    }
}

/// What deleting a content entry answers and leaves.
pub open spec fn entry_deleted_outcome(
    set: SetView,
    collection: Seq<char>,
    id: Seq<char>,
    entry: Seq<char>,
) -> (Result<Seq<EventView>, ErrorView>, SetView) {
    match entries_refusal(set, collection, id) {
        Some(error) => (Err(error), set),
        None => {
            let entries = thing_entries(set, collection, id);
            if has_entry(entries, entry) {
                (
                    Ok(
                        seq![
                            content_entry_event(
                                ThingsDocumentChangeKind::Deleted,
                                collection,
                                id,
                                entry,
                            ),
                        ],
                    ),
                    entries_put(set, collection, id, entries.remove(entry_at(entries, entry))),
                )
            } else {
                (Ok(Seq::empty()), set)
            }
        },
    }
}

/// The view of the outcome of a change.
pub open spec fn outcome_view(out: Result<Vec<ThingsDocumentEvent>, SdkError>) -> Result<
    Seq<EventView>,
    ErrorView,
> {
    match out {
        Ok(events) => Ok(events_view(events@)),
        Err(e) => Err(e@),
    }
}

impl ThingsDocumentSet {
    /// No documents yet.
    pub fn new(device_id: &str) -> (set: Self)
        ensures
            set@ == (SetView {
                device_id: device_id@,
                root: None,
                collections: Seq::empty(),
                contents: Seq::empty(),
            }),
    {
        let set = ThingsDocumentSet {
            device_id: owned(device_id),
            root: None,
            collections: Vec::new(),
            contents: Vec::new(),
        };
        proof {
            assert(coll_views(set.collections@) =~= Seq::<CollView>::empty());
            assert(content_views(set.contents@) =~= Seq::<ContentDocView>::empty());
        }
        set
    }

    /// Makes the root document where there is none.
    pub fn init_root(&mut self)
        ensures
            final(self)@ == with_root(old(self)@),
    {
        if self.root.is_none() {
            let root = RootDoc { collection_uuids: Vec::new(), dirty: true, last_sync_at: None };
            proof {
                assert(views(root.collection_uuids@) =~= Seq::<Seq<char>>::empty());
            }
            self.root = Some(root);
        }
    }

    /// Whether there is a root document.
    pub fn has_root_document(&self) -> (r: bool)
        ensures
            r == (self@.root is Some),
    {
        self.root.is_some()
    }

    /// The place of the document of a collection.
    pub(crate) fn find_collection(&self, uuid: &str) -> (at: usize)
        ensures
            at == coll_at(self@, uuid@),
            at <= self.collections@.len(),
    {
        let mut i: usize = 0;
        while i < self.collections.len() && !same(self.collections[i].id.as_str(), uuid)
            invariant
                i <= self.collections@.len(),
                forall|k: int| 0 <= k < i ==> (#[trigger] self@.collections[k]).id != uuid@,
            ensures
                i < self.collections@.len() ==> self@.collections[i as int].id == uuid@,
            decreases self.collections@.len() - i,
        {
            i = i + 1;
        }
        proof {
            lemma_position_is(self@.collections, is_coll(uuid@), i as int);
        }
        i
    }

    /// Makes the document of a collection where there is none, and lists it in the root
    /// document.
    pub fn get_or_init_collection(&mut self, collection_uuid: &str)
        ensures
            final(self)@ == with_coll(old(self)@, collection_uuid@),
            has_coll(final(self)@, collection_uuid@),
    {
        let ghost before = self@;
        let at: usize = self.find_collection(collection_uuid);
        if at < self.collections.len() {
            return;
        }
        let doc = CollectionDoc {
            id: owned(collection_uuid),
            title: owned(""),
            status: owned("active"),
            deleted: false,
            attrs: None,
            things: Vec::new(),
            dirty: true,
            last_sync_at: None,
        };
        proof {
            lemma_position_of(before.collections, is_coll(collection_uuid@));
            assert(thing_views(doc.things@) =~= Seq::<ThingDocView>::empty());
            assert(doc@ == new_coll(collection_uuid@));
        }
        self.collections.push(doc);
        proof {
            assert(self@.collections =~= before.collections.push(new_coll(collection_uuid@)));
            assert(is_coll(collection_uuid@)(self@.collections[at as int]));
            assert forall|k: int| 0 <= k < at implies !is_coll(collection_uuid@)(
                #[trigger] self@.collections[k],
            ) by {
                assert(!is_coll(collection_uuid@)(before.collections[k]));
            }
            lemma_position_is(self@.collections, is_coll(collection_uuid@), at as int);
        }
        self.add_root_collection_membership(collection_uuid);
    }

    /// Lists a collection in the root document.
    fn add_root_collection_membership(&mut self, collection_uuid: &str)
        ensures
            final(self)@ == with_root_member(old(self)@, collection_uuid@),
    {
        let ghost before = self@;
        let mut uuids: Vec<String> = Vec::new();
        let mut last_sync_at: Option<String> = None;
        let old_root = self.root.take();
        if let Some(root) = old_root {
            uuids = root.collection_uuids;
            last_sync_at = root.last_sync_at;
        }
        proof {
            assert(views(Seq::<String>::empty()) =~= Seq::<Seq<char>>::empty());
            assert(views(uuids@) == with_root(before).root->0.collection_uuids);
        }
        let mut found = false;
        let mut i: usize = 0;
        while i < uuids.len()
            invariant
                i <= uuids@.len(),
                found <==> exists|k: int| 0 <= k < i && (#[trigger] uuids@[k])@ == collection_uuid@,
            decreases uuids@.len() - i,
        {
            if same(uuids[i].as_str(), collection_uuid) {
                found = true;
            }
            i = i + 1;
        }
        let ghost listed = views(uuids@);
        proof {
            if found {
                let k = choose|k: int| 0 <= k < uuids@.len() && (#[trigger] uuids@[k])@
                    == collection_uuid@;
                assert(listed[k] == collection_uuid@);
            } else if listed.contains(collection_uuid@) {
                let k = choose|k: int| 0 <= k < listed.len() && listed[k] == collection_uuid@;
                assert(uuids@[k]@ == collection_uuid@);
            }
        }
        if !found {
            let uuid = owned(collection_uuid);
            proof {
                assert(views(uuids@.push(uuid)) =~= listed.push(collection_uuid@));
            }
            uuids.push(uuid);
        }
        self.root = Some(RootDoc { collection_uuids: uuids, dirty: true, last_sync_at });
    }

    /// Whether there is a collection that is not deleted.
    pub fn collection_is_live(&self, collection_uuid: &str) -> (r: bool)
        ensures
            r == coll_live(self@, collection_uuid@),
    {
        let at: usize = self.find_collection(collection_uuid);
        at < self.collections.len() && !self.collections[at].deleted
    }

    /// Writes title, status and attributes of a collection.
    fn write_collection(
        &mut self,
        collection_uuid: &str,
        title: Option<String>,
        status: Option<String>,
        attrs: Json,
    )
        ensures
            final(self)@ == coll_written(
                old(self)@,
                collection_uuid@,
                opt_view(title),
                opt_view(status),
                attrs@,
            ),
    {
        self.get_or_init_collection(collection_uuid);
        let at: usize = self.find_collection(collection_uuid);
        let ghost middle = self@;
        if let Some(title) = title {
            self.collections[at].title = title;
        }
        if let Some(status) = status {
            self.collections[at].status = status;
        }
        self.collections[at].attrs = Some(attrs);
        self.collections[at].deleted = false;
        self.collections[at].dirty = true;
        proof {
            assert(self@.collections =~= coll_written(
                old(self)@,
                collection_uuid@,
                opt_view(title),
                opt_view(status),
                attrs@,
            ).collections);
        }
    }

    /// Writes a collection at the time `now`: its title, its status and its times.
    pub fn update_collection_meta_at(
        &mut self,
        collection_uuid: &str,
        title: Option<String>,
        status: Option<String>,
        created_at: Option<String>,
        updated_at: Option<String>,
        now: &String,
    ) -> (out: Result<Vec<ThingsDocumentEvent>, SdkError>)
        ensures
            (outcome_view(out), final(self)@) == coll_meta_outcome(
                old(self)@,
                collection_uuid@,
                opt_view(title),
                opt_view(status),
                opt_view(created_at),
                opt_view(updated_at),
                now@,
            ),
    {
        let existed = self.collection_is_live(collection_uuid);
        let existing_attrs = if existed {
            let at: usize = self.find_collection(collection_uuid);
            copy_opt_json(&self.collections[at].attrs)
        } else {
            None
        };
        let times = match resolve_entity_timestamps(
            &existing_attrs,
            created_at,
            updated_at,
            existed,
            now,
        ) {
            Ok(times) => times,
            Err(e) => return Err(e),
        };
        let attrs = match merge_entity_timestamps_into_attrs(
            &existing_attrs,
            Some(times.0),
            Some(times.1),
        ) {
            Ok(attrs) => attrs,
            Err(e) => return Err(e),
        };
        let ghost before = self@;
        self.write_collection(collection_uuid, title, status, attrs);
        let mut events: Vec<ThingsDocumentEvent> = Vec::new();
        if existed {
            events.push(
                ThingsDocumentEvent::collection(ThingsDocumentChangeKind::Updated, collection_uuid),
            );
        } else {
            events.push(ThingsDocumentEvent::root(ThingsDocumentChangeKind::Updated));
            events.push(
                ThingsDocumentEvent::collection(ThingsDocumentChangeKind::Created, collection_uuid),
            );
        }
        proof {
            assert(events_view(events@) =~= coll_events(before, collection_uuid@));
        }
        Ok(events)
    }

    /// Writes a collection now.
    pub fn update_collection_meta_with_timestamps(
        &mut self,
        collection_uuid: &str,
        title: Option<String>,
        status: Option<String>,
        created_at: Option<String>,
        updated_at: Option<String>,
    ) -> (out: Result<Vec<ThingsDocumentEvent>, SdkError>)
        ensures
            exists|now: Seq<char>|
                clock_text(now) && (outcome_view(out), final(self)@)
                    == #[trigger] coll_meta_outcome(
                    old(self)@,
                    collection_uuid@,
                    opt_view(title),
                    opt_view(status),
                    opt_view(created_at),
                    opt_view(updated_at),
                    now,
                ),
    {
        let now = now_timestamp_rfc3339();
        self.update_collection_meta_at(
            collection_uuid,
            title,
            status,
            created_at,
            updated_at,
            &now,
        )
    }

    /// Writes title and status of a collection now.
    pub fn update_collection_meta(
        &mut self,
        collection_uuid: &str,
        title: Option<String>,
        status: Option<String>,
    ) -> (out: Result<Vec<ThingsDocumentEvent>, SdkError>)
        ensures
            exists|now: Seq<char>|
                clock_text(now) && (outcome_view(out), final(self)@)
                    == #[trigger] coll_meta_outcome(
                    old(self)@,
                    collection_uuid@,
                    opt_view(title),
                    opt_view(status),
                    None,
                    None,
                    now,
                ),
    {
        self.update_collection_meta_with_timestamps(collection_uuid, title, status, None, None)
    }

    /// Replaces the attributes of a collection at the time `now`. Its times stay with it.
    pub fn update_collection_attrs_at(
        &mut self,
        collection_uuid: &str,
        attrs: Option<Json>,
        now: &String,
    ) -> (out: Result<Vec<ThingsDocumentEvent>, SdkError>)
        ensures
            (outcome_view(out), final(self)@) == coll_attrs_outcome(
                old(self)@,
                collection_uuid@,
                json_opt_view(attrs),
                now@,
            ),
    {
        if !self.collection_is_live(collection_uuid) {
            let message = crate::text::cat("Collection not found: ", collection_uuid);
            return Err(failure(message.as_str()));
        }
        let at: usize = self.find_collection(collection_uuid);
        let existing_attrs = copy_opt_json(&self.collections[at].attrs);
        let attrs = match stamp_attrs(&existing_attrs, attrs, now) {
            Ok(attrs) => attrs,
            Err(e) => return Err(e),
        };
        self.write_collection(collection_uuid, None, None, attrs);
        let events = vec![
            ThingsDocumentEvent::collection(ThingsDocumentChangeKind::Updated, collection_uuid),
        ];
        proof {
            assert(events_view(events@) =~= seq![
                collection_event(ThingsDocumentChangeKind::Updated, collection_uuid@),
            ]);
        }
        Ok(events)
    }

    /// Replaces the attributes of a collection now.
    pub fn update_collection_attrs(&mut self, collection_uuid: &str, attrs: Option<Json>) -> (out:
        Result<Vec<ThingsDocumentEvent>, SdkError>)
        ensures
            exists|now: Seq<char>|
                clock_text(now) && (outcome_view(out), final(self)@)
                    == #[trigger] coll_attrs_outcome(
                    old(self)@,
                    collection_uuid@,
                    json_opt_view(attrs),
                    now,
                ),
    {
        let now = now_timestamp_rfc3339();
        self.update_collection_attrs_at(collection_uuid, attrs, &now)
    }

    /// The place of the first thing with an id.
    pub(crate) fn find_thing(&self, at: usize, id: &str) -> (r: usize)
        requires
            at < self.collections@.len(),
        ensures
            r == thing_at(self@.collections[at as int].things, id@),
            r <= self.collections@[at as int].things@.len(),
    {
        let things = &self.collections[at].things;
        let ghost all = thing_views(things@);
        let mut i: usize = 0;
        while i < things.len() && !same(things[i].id.as_str(), id)
            invariant
                i <= things@.len(),
                all == thing_views(things@),
                forall|k: int| 0 <= k < i ==> (#[trigger] all[k]).id != id@,
            ensures
                i < things@.len() ==> all[i as int].id == id@,
            decreases things@.len() - i,
        {
            i = i + 1;
        }
        proof {
            lemma_position_is(all, is_thing(id@), i as int);
        }
        i
    }

    /// The place of the first thing with an id that is not deleted.
    pub(crate) fn find_live_thing(&self, at: usize, id: &str) -> (r: usize)
        requires
            at < self.collections@.len(),
        ensures
            r == position_of(self@.collections[at as int].things, is_live_thing(id@)),
            r <= self.collections@[at as int].things@.len(),
    {
        let things = &self.collections[at].things;
        let ghost all = thing_views(things@);
        let mut i: usize = 0;
        while i < things.len() && !(same(things[i].id.as_str(), id) && !things[i].deleted)
            invariant
                i <= things@.len(),
                all == thing_views(things@),
                forall|k: int| 0 <= k < i ==> !is_live_thing(id@)(#[trigger] all[k]),
            ensures
                i < things@.len() ==> is_live_thing(id@)(all[i as int]),
            decreases things@.len() - i,
        {
            i = i + 1;
        }
        proof {
            lemma_position_is(all, is_live_thing(id@), i as int);
        }
        i
    }

    /// Whether a thing that is not deleted belongs to a collection that is not deleted.
    pub fn thing_is_live_in_collection(&self, collection_uuid: &str, thing_uuid: &str) -> (r: bool)
        ensures
            r == thing_live(self@, collection_uuid@, thing_uuid@),
    {
        let at: usize = self.find_collection(collection_uuid);
        if at == self.collections.len() || self.collections[at].deleted {
            return false;
        }
        self.find_live_thing(at, thing_uuid) < self.collections[at].things.len()
    }

    /// Writes a thing of a collection that is there.
    fn write_thing(
        &mut self,
        collection_uuid: &str,
        thing_uuid: &str,
        datatype: Option<ThingDatatype>,
        status: Option<String>,
        title: Option<String>,
        parent_uuid: Option<String>,
        attrs: Json,
    )
        requires
            has_coll(old(self)@, collection_uuid@),
        ensures
            final(self)@ == things_put(
                old(self)@,
                collection_uuid@,
                things_written(
                    coll(old(self)@, collection_uuid@).things,
                    thing_uuid@,
                    datatype_opt_view(datatype),
                    opt_view(status),
                    opt_view(title),
                    opt_view(parent_uuid),
                    attrs@,
                ),
            ),
    {
        let ghost before = self@;
        let at: usize = self.find_collection(collection_uuid);
        let ghost things = self@.collections[at as int].things;
        let i: usize = self.find_thing(at, thing_uuid);
        if i == self.collections[at].things.len() {
            let t = ThingDoc {
                id: owned(thing_uuid),
                title: None,
                status: owned("none"),
                status_timestamp_ms: None,
                datatype: ThingDatatype::Markdown,
                parent_id: None,
                deleted: false,
                attrs: None,
                entries: Vec::new(),
                extra: None,
            };
            proof {
                assert(entry_views(t.entries@) =~= Seq::<EntryView>::empty());
                assert(t@ == new_thing(thing_uuid@));
            }
            self.collections[at].things.push(t);
        }
        let ghost all = if has_thing(things, thing_uuid@) {
            things
        } else {
            things.push(new_thing(thing_uuid@))
        };
        proof {
            lemma_position_of(things, is_thing(thing_uuid@));
            assert(thing_views(self.collections@[at as int].things@) =~= all);
            assert forall|k: int| 0 <= k < i implies !is_thing(thing_uuid@)(#[trigger] all[k]) by {
                assert(!is_thing(thing_uuid@)(things[k]));
            }
            lemma_position_is(all, is_thing(thing_uuid@), i as int);
        }
        if let Some(title) = title {
            self.collections[at].things[i].title = Some(title);
        }
        if let Some(status) = status {
            self.collections[at].things[i].status = status;
        }
        if let Some(datatype) = datatype {
            self.collections[at].things[i].datatype = datatype;
        }
        if let Some(parent) = parent_uuid {
            if parent.as_str().is_empty() {
                self.collections[at].things[i].parent_id = None;
            } else {
                self.collections[at].things[i].parent_id = Some(parent);
            }
        }
        self.collections[at].things[i].attrs = Some(attrs);
        self.collections[at].things[i].deleted = false;
        self.collections[at].dirty = true;
        proof {
            let written = things_written(
                things,
                thing_uuid@,
                datatype_opt_view(datatype),
                opt_view(status),
                opt_view(title),
                opt_view(parent_uuid),
                attrs@,
            );
            assert(thing_views(self.collections@[at as int].things@) =~= written);
            assert(self@.collections =~= things_put(before, collection_uuid@, written).collections);
        }
    }

    /// Writes a thing at the time `now`.
    pub fn upsert_thing_meta_at(
        &mut self,
        collection_uuid: &str,
        thing_uuid: &str,
        datatype: Option<ThingDatatype>,
        status: Option<String>,
        title: Option<String>,
        parent_uuid: Option<String>,
        created_at: Option<String>,
        updated_at: Option<String>,
        now: &String,
    ) -> (out: Result<Vec<ThingsDocumentEvent>, SdkError>)
        ensures
            (outcome_view(out), final(self)@) == thing_meta_outcome(
                old(self)@,
                collection_uuid@,
                thing_uuid@,
                datatype_opt_view(datatype),
                opt_view(status),
                opt_view(title),
                opt_view(parent_uuid),
                opt_view(created_at),
                opt_view(updated_at),
                now@,
            ),
    {
        let existed = self.thing_is_live_in_collection(collection_uuid, thing_uuid);
        let existing_attrs = if existed {
            let at: usize = self.find_collection(collection_uuid);
            let i: usize = self.find_thing(at, thing_uuid);
            if i < self.collections[at].things.len() {
                copy_opt_json(&self.collections[at].things[i].attrs)
            } else {
                None
            }
        } else {
            None
        };
        let times = match resolve_entity_timestamps(
            &existing_attrs,
            created_at,
            updated_at,
            existed,
            now,
        ) {
            Ok(times) => times,
            Err(e) => return Err(e),
        };
        let attrs = match merge_entity_timestamps_into_attrs(
            &existing_attrs,
            Some(times.0),
            Some(times.1),
        ) {
            Ok(attrs) => attrs,
            Err(e) => return Err(e),
        };
        if let Some(e) = self.collection_refusal(collection_uuid) {
            return Err(e);
        }
        self.write_thing(
            collection_uuid,
            thing_uuid,
            datatype,
            status,
            title,
            parent_uuid,
            attrs,
        );
        let kind = if existed {
            ThingsDocumentChangeKind::Updated
        } else {
            ThingsDocumentChangeKind::Created
        };
        let events = vec![ThingsDocumentEvent::thing(kind, collection_uuid, thing_uuid)];
        proof {
            assert(events_view(events@) =~= seq![
                thing_event(made_or_changed(existed), collection_uuid@, thing_uuid@),
            ]);
        }
        Ok(events)
    }

    /// Why things cannot be put into a collection.
    fn collection_refusal(&self, collection_uuid: &str) -> (out: Option<SdkError>)
        ensures
            match out {
                Some(e) => coll_refusal(self@, collection_uuid@) == Some(e@),
                None => coll_refusal(self@, collection_uuid@) is None,
            },
    {
        let at: usize = self.find_collection(collection_uuid);
        if at == self.collections.len() {
            let message = cat3(
                "collection '",
                collection_uuid,
                "' must exist before adding or reparenting things",
            );
            return Some(failure(message.as_str()));
        }
        if self.collections[at].deleted {
            let message = cat3("collection '", collection_uuid, "' is deleted");
            return Some(failure(message.as_str()));
        }
        None
    }

    /// Writes a thing now.
    pub fn upsert_thing_meta_with_timestamps(
        &mut self,
        collection_uuid: &str,
        thing_uuid: &str,
        datatype: Option<ThingDatatype>,
        status: Option<String>,
        title: Option<String>,
        parent_uuid: Option<String>,
        created_at: Option<String>,
        updated_at: Option<String>,
    ) -> (out: Result<Vec<ThingsDocumentEvent>, SdkError>)
        ensures
            exists|now: Seq<char>|
                clock_text(now) && (outcome_view(out), final(self)@)
                    == #[trigger] thing_meta_outcome(
                    old(self)@,
                    collection_uuid@,
                    thing_uuid@,
                    datatype_opt_view(datatype),
                    opt_view(status),
                    opt_view(title),
                    opt_view(parent_uuid),
                    opt_view(created_at),
                    opt_view(updated_at),
                    now,
                ),
    {
        let now = now_timestamp_rfc3339();
        self.upsert_thing_meta_at(
            collection_uuid,
            thing_uuid,
            datatype,
            status,
            title,
            parent_uuid,
            created_at,
            updated_at,
            &now,
        )
    }

    /// Writes a thing now, without times of its own.
    pub fn upsert_thing_meta(
        &mut self,
        collection_uuid: &str,
        thing_uuid: &str,
        datatype: Option<ThingDatatype>,
        status: Option<String>,
        title: Option<String>,
        parent_uuid: Option<String>,
    ) -> (out: Result<Vec<ThingsDocumentEvent>, SdkError>)
        ensures
            exists|now: Seq<char>|
                clock_text(now) && (outcome_view(out), final(self)@)
                    == #[trigger] thing_meta_outcome(
                    old(self)@,
                    collection_uuid@,
                    thing_uuid@,
                    datatype_opt_view(datatype),
                    opt_view(status),
                    opt_view(title),
                    opt_view(parent_uuid),
                    None,
                    None,
                    now,
                ),
    {
        self.upsert_thing_meta_with_timestamps(
            collection_uuid,
            thing_uuid,
            datatype,
            status,
            title,
            parent_uuid,
            None,
            None,
        )
    }

    /// Replaces the attributes of a thing at the time `now`. Its times stay with it.
    pub fn update_thing_attrs_at(
        &mut self,
        collection_uuid: &str,
        thing_uuid: &str,
        attrs: Option<Json>,
        now: &String,
    ) -> (out: Result<Vec<ThingsDocumentEvent>, SdkError>)
        ensures
            (outcome_view(out), final(self)@) == thing_attrs_outcome(
                old(self)@,
                collection_uuid@,
                thing_uuid@,
                json_opt_view(attrs),
                now@,
            ),
    {
        if !self.thing_is_live_in_collection(collection_uuid, thing_uuid) {
            let message = crate::text::cat("Thing not found: ", thing_uuid);
            return Err(failure(message.as_str()));
        }
        let at: usize = self.find_collection(collection_uuid);
        let i: usize = self.find_thing(at, thing_uuid);
        let existing_attrs = if i < self.collections[at].things.len() {
            copy_opt_json(&self.collections[at].things[i].attrs)
        } else {
            None
        };
        let attrs = match stamp_attrs(&existing_attrs, attrs, now) {
            Ok(attrs) => attrs,
            Err(e) => return Err(e),
        };
        self.write_thing(collection_uuid, thing_uuid, None, None, None, None, attrs);
        let events = vec![
            ThingsDocumentEvent::thing(
                ThingsDocumentChangeKind::Updated,
                collection_uuid,
                thing_uuid,
            ),
        ];
        proof {
            assert(events_view(events@) =~= seq![
                thing_event(ThingsDocumentChangeKind::Updated, collection_uuid@, thing_uuid@),
            ]);
        }
        Ok(events)
    }

    /// Replaces the attributes of a thing now.
    pub fn update_thing_attrs(
        &mut self,
        collection_uuid: &str,
        thing_uuid: &str,
        attrs: Option<Json>,
    ) -> (out: Result<Vec<ThingsDocumentEvent>, SdkError>)
        ensures
            exists|now: Seq<char>|
                clock_text(now) && (outcome_view(out), final(self)@)
                    == #[trigger] thing_attrs_outcome(
                    old(self)@,
                    collection_uuid@,
                    thing_uuid@,
                    json_opt_view(attrs),
                    now,
                ),
    {
        let now = now_timestamp_rfc3339();
        self.update_thing_attrs_at(collection_uuid, thing_uuid, attrs, &now)
    }

    /// Deletes a thing; nothing happens where there is none.
    pub fn delete_thing(&mut self, collection_uuid: &str, thing_uuid: &str) -> (events: Vec<
        ThingsDocumentEvent,
    >)
        ensures
            if thing_live(old(self)@, collection_uuid@, thing_uuid@) {
                &&& events_view(events@) == seq![
                    thing_event(ThingsDocumentChangeKind::Deleted, collection_uuid@, thing_uuid@),
                ]
                &&& final(self)@ == thing_deleted(old(self)@, collection_uuid@, thing_uuid@)
            } else {
                events@.len() == 0 && final(self)@ == old(self)@
            },
    {
        let ghost before = self@;
        if !self.thing_is_live_in_collection(collection_uuid, thing_uuid) {
            return Vec::new();
        }
        let at: usize = self.find_collection(collection_uuid);
        let i: usize = self.find_live_thing(at, thing_uuid);
        self.collections[at].things[i].deleted = true;
        self.collections[at].dirty = true;
        let events = vec![
            ThingsDocumentEvent::thing(
                ThingsDocumentChangeKind::Deleted,
                collection_uuid,
                thing_uuid,
            ),
        ];
        proof {
            let after = thing_deleted(before, collection_uuid@, thing_uuid@);
            assert(thing_views(self.collections@[at as int].things@)
                =~= after.collections[at as int].things);
            assert(self@.collections =~= after.collections);
            assert(events_view(events@) =~= seq![
                thing_event(ThingsDocumentChangeKind::Deleted, collection_uuid@, thing_uuid@),
            ]);
        }
        events
    }
}

/// The view of a kind of text that may be missing.
pub open spec fn datatype_opt_view(d: Option<ThingDatatype>) -> Option<Seq<char>> {
    match d {
        Some(d) => Some(datatype_name(d)),
        None => None,
    }
}

/// Attributes that are written at `now` in the place of others.
fn stamp_attrs(existing: &Option<Json>, attrs: Option<Json>, now: &String) -> (out: Result<
    Json,
    SdkError,
>)
    ensures
        match out {
            Ok(j) => stamped_attrs(
                json_opt_view(*existing),
                kept_attrs(json_opt_view(attrs)),
                None,
                None,
                true,
                now@,
            ) == Ok::<JsonView, ErrorView>(j@),
            Err(e) => stamped_attrs(
                json_opt_view(*existing),
                kept_attrs(json_opt_view(attrs)),
                None,
                None,
                true,
                now@,
            ) == Err::<JsonView, ErrorView>(e@),
        },
{
    broadcast use crate::json::lemma_json_object_view;

    let times = match resolve_entity_timestamps(existing, None, None, true, now) {
        Ok(times) => times,
        Err(e) => return Err(e),
    };
    let kept = match attrs {
        Some(Json::Object(entries)) => if entries.len() == 0 {
            None
        } else {
            Some(Json::Object(entries))
        },
        other => other,
    };
    merge_entity_timestamps_into_attrs(&kept, Some(times.0), Some(times.1))
}

} // verus!
