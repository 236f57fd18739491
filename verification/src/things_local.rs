//! Things and collections of this device: what is shown of them, and the collections that
//! the system keeps.
use crate::clock::clock_text;
use crate::content_registry::{entry_views, ContentEntry, ContentEntryPayload, EntryView};
use crate::error::{failure, ErrorView, SdkError};
use crate::json::{
    copy_entries, drop_entry, entries_view, json_opt_view, object_entries, opt_view, put_entry,
    with_entry, without_entry, Json, JsonView,
};
use crate::letters::{first_place, replace_text, replaced};
use crate::rows::ActorMetaEntry;
use crate::storage::documents::opt_str_view;
use crate::storage::things_log::is_actor_of;
use crate::storage::Storage;
use crate::table::{first_data, position_of};
use crate::text::{cat, cat3, decimal, decimal_text, owned, same, trim, trimmed};
use crate::things_content::{content_of, main_text};
use crate::things_crdt::{
    coll, coll_attrs_outcome, coll_meta_outcome, has_coll, is_live_thing, no_thing, outcome_view,
    with_root,
};
use crate::things_docs::{SetView, ThingDocView, ThingsDocumentSet};
use crate::things_events::{events_view, EventView, ThingsDocumentEvent};
use crate::things_reader::{
    snapshot_collections, snapshot_things, tree_coll_views, tree_collections, tree_thing_views,
    tree_things, ThingsTreeData,
};
use crate::things_store::dirty_keys;
use crate::things_types::{
    collection_entry_views, collection_type_name, thing_entry_views, CollectionEntryView,
    CollectionType, SnapshotOptions, ThingCollectionEntry, ThingEntry, ThingEntryView,
    ThingsSnapshotState,
};
use crate::timestamps::now_timestamp_rfc3339;
use crate::uuids::{is_uuid_text, name_uuid, uuid_for_name};
use vstd::prelude::*;

verus! {

/// The collection for things that have no other.
pub const SYSTEM_DEFAULT_COLLECTION_ID: &'static str = "00000000-0000-0000-0000-000000000000";

/// The collection for things that were thrown away.
pub const SYSTEM_TRASH_COLLECTION_ID: &'static str = "00000000-0000-0000-0000-000000000001";

/// Entries with a text under a key; without the key where the text is missing or blank.
pub open spec fn attr_put(
    entries: Seq<(Seq<char>, JsonView)>,
    key: Seq<char>,
    value: Option<Seq<char>>,
) -> Seq<(Seq<char>, JsonView)> {
    match value {
        Some(text) => if trimmed(text).len() == 0 {
            without_entry(entries, key)
        } else {
            with_entry(entries, key, JsonView::Text(trimmed(text)))
        },
        None => without_entry(entries, key),
    }
}

fn put_attr(entries: Vec<(String, Json)>, key: &str, value: Option<&str>) -> (out: Vec<
    (String, Json),
>)
    ensures
        entries_view(out@) == attr_put(entries_view(entries@), key@, opt_str_view(value)),
{
    match value {
        Some(text) => {
            let text = trim(text);
            if crate::search::fields::is_empty(text.as_str()) {
                drop_entry(entries, key)
            } else {
                let mut entries = entries;
                put_entry(&mut entries, key, Json::Text(text));
                entries
            }
        },
        None => drop_entry(entries, key),
    }
}

/// The attributes of a collection with its type, its app and the time it was archived.
pub open spec fn meta_attrs(
    existing: Option<JsonView>,
    collection_type: CollectionType,
    app_id: Option<Seq<char>>,
    archived_at: Option<Seq<char>>,
) -> JsonView {
    JsonView::Object(
        attr_put(
            attr_put(
                with_entry(
                    object_entries(existing),
                    "collection_type"@,
                    JsonView::Text(collection_type_name(collection_type)),
                ),
                "app_id"@,
                app_id,
            ),
            "archived_at"@,
            archived_at,
        ),
    )
}

/// The attributes of a collection with its type, its app and the time it was archived.
pub fn collection_metadata_attrs(
    existing_attrs: &Option<Json>,
    collection_type: CollectionType,
    app_id: Option<&str>,
    archived_at: Option<&str>,
) -> (attrs: Json)
    ensures
        attrs@ == meta_attrs(
            json_opt_view(*existing_attrs),
            collection_type,
            opt_str_view(app_id),
            opt_str_view(archived_at),
        ),
{
    let mut entries = copy_entries(existing_attrs);
    put_entry(&mut entries, "collection_type", Json::text(collection_type.as_str()));
    let entries = put_attr(entries, "app_id", app_id);
    let entries = put_attr(entries, "archived_at", archived_at);
    Json::object(entries)
}

/// The attributes of a thing with the time it was archived and where it was before.
pub open spec fn archive_attrs(
    existing: Option<JsonView>,
    archived_at: Option<Seq<char>>,
    archived_from: Option<Seq<char>>,
) -> JsonView {
    JsonView::Object(
        attr_put(
            attr_put(object_entries(existing), "archived_at"@, archived_at),
            "archived_from_collection_uuid"@,
            archived_from,
        ),
    )
}

/// The attributes of a thing with the time it was archived and where it was before.
pub fn thing_archive_attrs(
    existing_attrs: &Option<Json>,
    archived_at: Option<&str>,
    archived_from_collection_uuid: Option<&str>,
) -> (attrs: Json)
    ensures
        attrs@ == archive_attrs(
            json_opt_view(*existing_attrs),
            opt_str_view(archived_at),
            opt_str_view(archived_from_collection_uuid),
        ),
{
    let entries = copy_entries(existing_attrs);
    let entries = put_attr(entries, "archived_at", archived_at);
    let entries = put_attr(
        entries,
        "archived_from_collection_uuid",
        archived_from_collection_uuid,
    );
    Json::object(entries)
}

/// What two changes in a row answer and leave: the second is tried where the first was
/// not refused.
pub open spec fn events_then(
    first: Seq<EventView>,
    second: (Result<Seq<EventView>, ErrorView>, SetView),
) -> (Result<Seq<EventView>, ErrorView>, SetView) {
    match second.0 {
        Ok(events) => (Ok(first + events), second.1),
        Err(e) => (Err(e), second.1),
    }
}

/// Puts the events of one change behind those of another.
pub fn append_events(
    first: Vec<ThingsDocumentEvent>,
    second: Vec<ThingsDocumentEvent>,
) -> (events: Vec<ThingsDocumentEvent>)
    ensures
        events_view(events@) == events_view(first@) + events_view(second@),
{
    let mut events = first;
    let mut second = second;
    proof {
        assert(events_view(first@ + second@) =~= events_view(first@) + events_view(second@));
    }
    events.append(&mut second);
    events
}

pub open spec fn has_entry_uuid(uuid: Seq<char>) -> spec_fn(CollectionEntryView) -> bool {
    |c: CollectionEntryView| c.uuid == uuid
}

pub open spec fn has_thing_uuid(uuid: Seq<char>) -> spec_fn(ThingEntryView) -> bool {
    |t: ThingEntryView| t.uuid == uuid
}

/// The collection with a uuid in a snapshot.
pub open spec fn collection_in(list: Seq<CollectionEntryView>, uuid: Seq<char>) -> Option<
    CollectionEntryView,
> {
    first_data(list, has_entry_uuid(uuid))
}

/// The thing with a uuid in a snapshot.
pub open spec fn thing_in(list: Seq<ThingEntryView>, uuid: Seq<char>) -> Option<ThingEntryView> {
    first_data(list, has_thing_uuid(uuid))
}

/// The place of the collection with a uuid in a snapshot.
pub fn find_collection_entry(list: &Vec<ThingCollectionEntry>, uuid: &str) -> (out: Option<usize>)
    ensures
        match out {
            Some(at) => at < list@.len() && collection_in(collection_entry_views(list@), uuid@)
                == Some(list@[at as int]@),
            None => collection_in(collection_entry_views(list@), uuid@) is None,
        },
{
    let ghost all = collection_entry_views(list@);
    let mut i: usize = 0;
    proof {
        assert(all.skip(0) =~= all);
    }
    while i < list.len()
        invariant
            i <= list@.len(),
            all == collection_entry_views(list@),
            first_data(all, has_entry_uuid(uuid@)) == first_data(
                all.skip(i as int),
                has_entry_uuid(uuid@),
            ),
        decreases list@.len() - i,
    {
        proof {
            assert(all.skip(i as int)[0] == list@[i as int]@);
            assert(all.skip(i as int).drop_first() =~= all.skip(i + 1));
            reveal_with_fuel(first_data, 2);
        }
        if same(list[i].uuid.as_str(), uuid) {
            return Some(i);
        }
        i = i + 1;
    }
    None
}

/// The place of the thing with a uuid in a snapshot.
pub fn find_thing_entry(list: &Vec<ThingEntry>, uuid: &str) -> (out: Option<usize>)
    ensures
        match out {
            Some(at) => at < list@.len() && thing_in(thing_entry_views(list@), uuid@) == Some(
                list@[at as int]@,
            ),
            None => thing_in(thing_entry_views(list@), uuid@) is None,
        },
{
    let ghost all = thing_entry_views(list@);
    let mut i: usize = 0;
    proof {
        assert(all.skip(0) =~= all);
    }
    while i < list.len()
        invariant
            i <= list@.len(),
            all == thing_entry_views(list@),
            first_data(all, has_thing_uuid(uuid@)) == first_data(
                all.skip(i as int),
                has_thing_uuid(uuid@),
            ),
        decreases list@.len() - i,
    {
        proof {
            assert(all.skip(i as int)[0] == list@[i as int]@);
            assert(all.skip(i as int).drop_first() =~= all.skip(i + 1));
            reveal_with_fuel(first_data, 2);
        }
        if same(list[i].uuid.as_str(), uuid) {
            return Some(i);
        }
        i = i + 1;
    }
    None
}

/// The attributes of a collection, deleted or not.
pub open spec fn any_coll_attrs(set: SetView, uuid: Seq<char>) -> Option<JsonView> {
    if has_coll(set, uuid) {
        coll(set, uuid).attrs
    } else {
        None
    }
}

/// Whether a collection of the system is missing or not as it should be.
pub open spec fn system_outdated(
    set: SetView,
    uuid: Seq<char>,
    title: Seq<char>,
    collection_type: CollectionType,
) -> bool {
    match collection_in(snapshot_collections(set), uuid) {
        None => true,
        Some(c) => c.title != title || c.collection_type != collection_type || c.archived_at is Some
            || c.app_id is Some,
    }
}

/// What writing the title and the type of a collection at `now` answers and leaves.
pub open spec fn typed_outcome(
    set: SetView,
    uuid: Seq<char>,
    title: Seq<char>,
    collection_type: CollectionType,
    app_id: Option<Seq<char>>,
    now: Seq<char>,
) -> (Result<Seq<EventView>, ErrorView>, SetView) {
    let attrs = meta_attrs(any_coll_attrs(set, uuid), collection_type, app_id, None);
    let first = coll_meta_outcome(set, uuid, Some(title), None, None, None, now);
    match first.0 {
        Err(e) => (Err(e), first.1),
        Ok(events) => events_then(
            events,
            coll_attrs_outcome(first.1, uuid, Some(attrs), now),
        ),
    }
}

/// What seeing to a collection of the system at `now` answers and leaves.
pub open spec fn system_outcome(
    set: SetView,
    uuid: Seq<char>,
    title: Seq<char>,
    collection_type: CollectionType,
    now: Seq<char>,
) -> (Result<Seq<EventView>, ErrorView>, SetView) {
    if system_outdated(set, uuid, title, collection_type) {
        typed_outcome(set, uuid, title, collection_type, None, now)
    } else {
        (Ok(Seq::empty()), set)
    }
}

pub open spec fn default_outcome(set: SetView, now: Seq<char>) -> (
    Result<Seq<EventView>, ErrorView>,
    SetView,
) {
    system_outcome(
        set,
        "00000000-0000-0000-0000-000000000000"@,
        "Drafts"@,
        CollectionType::Default,
        now,
    )
}

pub open spec fn trash_outcome(set: SetView, now: Seq<char>) -> (
    Result<Seq<EventView>, ErrorView>,
    SetView,
) {
    system_outcome(
        set,
        "00000000-0000-0000-0000-000000000001"@,
        "Trash"@,
        CollectionType::Trash,
        now,
    )
}

/// What seeing to both collections of the system at `now` answers and leaves.
pub open spec fn systems_outcome(set: SetView, now: Seq<char>) -> (
    Result<Seq<EventView>, ErrorView>,
    SetView,
) {
    let first = default_outcome(set, now);
    match first.0 {
        Err(e) => (Err(e), first.1),
        Ok(events) => events_then(events, trash_outcome(first.1, now)),
    }
}

/// Writes the title and the type of a collection at `now`.
fn write_typed_collection(
    set: &mut ThingsDocumentSet,
    uuid: &str,
    title: &str,
    collection_type: CollectionType,
    app_id: Option<&str>,
    now: &String,
) -> (out: Result<Vec<ThingsDocumentEvent>, SdkError>)
    ensures
        (outcome_view(out), final(set)@) == typed_outcome(
            old(set)@,
            uuid@,
            title@,
            collection_type,
            opt_str_view(app_id),
            now@,
        ),
{
    let existing = match set.collection_view(uuid) {
        Some(c) => crate::json::copy_opt_json(&c.attrs),
        None => None,
    };
    let attrs = collection_metadata_attrs(&existing, collection_type, app_id, None);
    let first = match set.update_collection_meta_at(
        uuid,
        Some(owned(title)),
        None,
        None,
        None,
        now,
    ) {
        Ok(events) => events,
        Err(e) => return Err(e),
    };
    match set.update_collection_attrs_at(uuid, Some(attrs), now) {
        Ok(events) => Ok(append_events(first, events)),
        Err(e) => Err(e),
    }
}

/// Sees to a collection of the system at `now`.
pub fn ensure_system_collection_in_doc_set(
    set: &mut ThingsDocumentSet,
    uuid: &str,
    title: &str,
    collection_type: CollectionType,
    now: &String,
) -> (out: Result<Vec<ThingsDocumentEvent>, SdkError>)
    ensures
        (outcome_view(out), final(set)@) == system_outcome(
            old(set)@,
            uuid@,
            title@,
            collection_type,
            now@,
        ),
{
    let snapshot = set.extract_snapshot_with_options(SnapshotOptions { include_content: false });
    let outdated = match find_collection_entry(&snapshot.collections, uuid) {
        None => true,
        Some(at) => {
            let c = &snapshot.collections[at];
            !same(c.title.as_str(), title) || c.collection_type != collection_type
                || c.archived_at.is_some() || c.app_id.is_some()
        },
    };
    if outdated {
        write_typed_collection(set, uuid, title, collection_type, None, now)
    } else {
        let events: Vec<ThingsDocumentEvent> = Vec::new();
        proof {
            assert(events_view(events@) =~= Seq::empty());
        }
        Ok(events)
    }
}

/// Sees to the collection of drafts at `now`.
pub fn ensure_default_collection_in_doc_set(set: &mut ThingsDocumentSet, now: &String) -> (out:
    Result<Vec<ThingsDocumentEvent>, SdkError>)
    ensures
        (outcome_view(out), final(set)@) == default_outcome(old(set)@, now@),
{
    ensure_system_collection_in_doc_set(
        set,
        "00000000-0000-0000-0000-000000000000",
        "Drafts",
        CollectionType::Default,
        now,
    )
}

/// Sees to the trash at `now`.
pub fn ensure_trash_collection_in_doc_set(set: &mut ThingsDocumentSet, now: &String) -> (out:
    Result<Vec<ThingsDocumentEvent>, SdkError>)
    ensures
        (outcome_view(out), final(set)@) == trash_outcome(old(set)@, now@),
{
    ensure_system_collection_in_doc_set(
        set,
        "00000000-0000-0000-0000-000000000001",
        "Trash",
        CollectionType::Trash,
        now,
    )
}

/// Sees to both collections of the system at `now`.
pub fn ensure_system_collections_in_doc_set(set: &mut ThingsDocumentSet, now: &String) -> (out:
    Result<Vec<ThingsDocumentEvent>, SdkError>)
    ensures
        (outcome_view(out), final(set)@) == systems_outcome(old(set)@, now@),
{
    let first = match ensure_default_collection_in_doc_set(set, now) {
        Ok(events) => events,
        Err(e) => return Err(e),
    };
    match ensure_trash_collection_in_doc_set(set, now) {
        Ok(events) => Ok(append_events(first, events)),
        Err(e) => Err(e),
    }
}

/// Sees to a collection at `now` where it is one of the system's.
pub fn ensure_target_system_collection_in_doc_set(
    set: &mut ThingsDocumentSet,
    collection_uuid: &str,
    now: &String,
) -> (out: Result<Vec<ThingsDocumentEvent>, SdkError>)
    ensures
        (outcome_view(out), final(set)@) == if collection_uuid@
            == "00000000-0000-0000-0000-000000000000"@ {
            default_outcome(old(set)@, now@)
        } else if collection_uuid@ == "00000000-0000-0000-0000-000000000001"@ {
            trash_outcome(old(set)@, now@)
        } else {
            (Ok(Seq::empty()), old(set)@)
        },
{
    if same(collection_uuid, "00000000-0000-0000-0000-000000000000") {
        ensure_default_collection_in_doc_set(set, now)
    } else if same(collection_uuid, "00000000-0000-0000-0000-000000000001") {
        ensure_trash_collection_in_doc_set(set, now)
    } else {
        let events: Vec<ThingsDocumentEvent> = Vec::new();
        proof {
            assert(events_view(events@) =~= Seq::empty());
        }
        Ok(events)
    }
}

/// A collection with who made it.
pub open spec fn with_collection_actor(
    c: CollectionEntryView,
    actors: Seq<ActorMetaEntry>,
) -> CollectionEntryView {
    match first_data(actors, is_actor_of(c.uuid)) {
        Some(a) => CollectionEntryView {
            actor_type: Some(a.actor_type@),
            actor_app_id: opt_view(a.actor_app_id),
            actor_display_name: opt_view(a.actor_display_name),
            ..c
        },
        None => c,
    }
}

/// A thing with who made it.
pub open spec fn with_thing_actor(t: ThingEntryView, actors: Seq<ActorMetaEntry>) -> ThingEntryView {
    match first_data(actors, is_actor_of(t.uuid)) {
        Some(a) => ThingEntryView {
            actor_type: Some(a.actor_type@),
            actor_app_id: opt_view(a.actor_app_id),
            actor_display_name: opt_view(a.actor_display_name),
            ..t
        },
        None => t,
    }
}

/// What is shown of the collections and things.
pub struct SnapshotView {
    pub collections: Seq<CollectionEntryView>,
    pub things: Seq<ThingEntryView>,
    pub dirty: bool,
    pub last_sync_at: Option<Seq<char>>,
}

/// What is shown at `now`: the documents with the collections of the system among them,
/// and with who made each entity.
pub open spec fn snapshot_result(
    actors: Seq<ActorMetaEntry>,
    set: SetView,
    options: SnapshotOptions,
    now: Seq<char>,
) -> Result<SnapshotView, ErrorView> {
    let seen = systems_outcome(with_root(set), now);
    match seen.0 {
        Err(e) => Err(e),
        Ok(_) => Ok(
            SnapshotView {
                collections: snapshot_collections(seen.1).map_values(
                    |c: CollectionEntryView| with_collection_actor(c, actors),
                ),
                things: snapshot_things(seen.1, options).map_values(
                    |t: ThingEntryView| with_thing_actor(t, actors),
                ),
                dirty: dirty_keys(set).len() > 0,
                last_sync_at: None,
            },
        ),
    }
}

impl View for ThingsSnapshotState {
    type V = SnapshotView;

    open spec fn view(&self) -> SnapshotView {
        SnapshotView {
            collections: collection_entry_views(self.collections@),
            things: thing_entry_views(self.things@),
            dirty: self.dirty,
            last_sync_at: opt_view(self.last_sync_at),
        }
    }
}

pub open spec fn snapshot_view(out: Result<ThingsSnapshotState, SdkError>) -> Result<
    SnapshotView,
    ErrorView,
> {
    match out {
        Ok(s) => Ok(s@),
        Err(e) => Err(e@),
    }
}

fn find_actor(actors: &Vec<ActorMetaEntry>, uuid: &str) -> (out: Option<usize>)
    ensures
        match out {
            Some(at) => at < actors@.len() && first_data(actors@, is_actor_of(uuid@)) == Some(
                actors@[at as int],
            ),
            None => first_data(actors@, is_actor_of(uuid@)) is None,
        },
{
    let mut i: usize = 0;
    proof {
        assert(actors@.skip(0) =~= actors@);
    }
    while i < actors.len()
        invariant
            i <= actors@.len(),
            first_data(actors@, is_actor_of(uuid@)) == first_data(
                actors@.skip(i as int),
                is_actor_of(uuid@),
            ),
        decreases actors@.len() - i,
    {
        proof {
            assert(actors@.skip(i as int)[0] == actors@[i as int]);
            assert(actors@.skip(i as int).drop_first() =~= actors@.skip(i + 1));
            reveal_with_fuel(first_data, 2);
        }
        if same(actors[i].uuid.as_str(), uuid) {
            return Some(i);
        }
        i = i + 1;
    }
    None
}

/// The changes that are to be committed together, and what is answered.
#[derive(Debug)]
pub struct ThingsMutationDraft<T> {
    pub documents: ThingsDocumentSet,
    pub events: Vec<ThingsDocumentEvent>,
    pub value: T,
}

/// A collection that was deleted, or not.
#[derive(Debug)]
pub struct ThingsDeleteCollectionOutcome {
    pub deleted: bool,
}

/// A document as it is put aside before the first synchronisation.
#[derive(Debug)]
pub struct BootstrapStashedDocument {
    pub uuid: String,
    pub data_type: String,
    pub automerge_doc_base64: String,
}

/// The identifier of the collection of an app.
pub open spec fn app_uuid(app_id: Seq<char>) -> Seq<char> {
    name_uuid("remi:things:app:"@ + app_id)
}

/// What making sure of the collection of an app at `now` answers.
pub open spec fn app_outcome(
    set: SetView,
    app_id: Seq<char>,
    title: Option<Seq<char>>,
    now: Seq<char>,
) -> Result<(Seq<EventView>, SetView, CollectionEntryView), ErrorView> {
    let app = trimmed(app_id);
    if app.len() == 0 {
        Err(ErrorView::Failure { message: "app_id must not be empty"@ })
    } else {
        let written = typed_outcome(
            with_root(set),
            app_uuid(app),
            match title {
                Some(t) => t,
                None => app,
            },
            CollectionType::App,
            Some(app),
            now,
        );
        match written.0 {
            Err(e) => Err(e),
            Ok(events) => match collection_in(snapshot_collections(written.1), app_uuid(app)) {
                Some(c) => Ok((events, written.1, c)),
                None => Err(
                    ErrorView::Failure { message: "App collection not found after ensure"@ },
                ),
            },
        }
    }
}

pub open spec fn draft_view(
    out: Result<ThingsMutationDraft<ThingCollectionEntry>, SdkError>,
) -> Result<(Seq<EventView>, SetView, CollectionEntryView), ErrorView> {
    match out {
        Ok(d) => Ok((events_view(d.events@), d.documents@, d.value@)),
        Err(e) => Err(e@),
    }
}

/// The first thing with an id that is not deleted, in a collection that may be.
pub open spec fn live_thing_in(set: SetView, collection: Seq<char>, id: Seq<char>) -> Option<
    ThingDocView,
> {
    if has_coll(set, collection) {
        let things = coll(set, collection).things;
        let at = position_of(things, is_live_thing(id));
        if at < things.len() {
            Some(things[at])
        } else {
            None
        }
    } else {
        None
    }
}

/// What stands for a reference to a content entry in a text.
pub open spec fn entry_link(
    collection: Seq<char>,
    thing: Seq<char>,
    index: nat,
    e: EntryView,
) -> Seq<char> {
    "["@ + (if e.payload is Image {
        "IMG"@
    } else {
        "内容"@
    }) + "]("@ + ("/collection/"@ + collection + "/things/"@ + thing + "/entries."@ + decimal(
        index,
    )) + ")"@
}

/// A text with the references to an entry replaced: as an image, as a named link and as a
/// bare link, in this order.
pub open spec fn reference_replaced(text: Seq<char>, id: Seq<char>, link: Seq<char>) -> Seq<char> {
    let target = "remi-entry://"@ + id;
    let first = replaced(text, "![]("@ + target + ")"@, link);
    let second = replaced(first, "[remi-entry]("@ + target + ")"@, link);
    replaced(second, "<"@ + target + ">"@, link)
}

/// Whether an entry is the last one with its id.
pub open spec fn last_with_id(entries: Seq<EntryView>, i: int) -> bool {
    forall|k: int| i < k < entries.len() ==> (#[trigger] entries[k]).id != entries[i].id
}

/// A text with the references to the first `n` entries replaced.
pub open spec fn references_replaced(
    text: Seq<char>,
    collection: Seq<char>,
    thing: Seq<char>,
    entries: Seq<EntryView>,
    n: int,
) -> Seq<char>
    decreases n,
{
    if n <= 0 {
        text
    } else {
        let before = references_replaced(text, collection, thing, entries, n - 1);
        if last_with_id(entries, n - 1) {
            reference_replaced(
                before,
                entries[n - 1].id,
                entry_link(collection, thing, (n - 1) as nat, entries[n - 1]),
            )
        } else {
            before
        }
    }
}

/// Replaces the references to an entry.
pub fn replace_entry_reference_target(markdown: &str, id: &str, replacement: &str) -> (out: String)
    ensures
        out@ == reference_replaced(markdown@, id@, replacement@),
{
    let target = cat("remi-entry://", id);
    let image = cat3("![](", target.as_str(), ")");
    let named = cat3("[remi-entry](", target.as_str(), ")");
    let bare = cat3("<", target.as_str(), ">");
    proof {
        reveal_strlit("![](");
        reveal_strlit("[remi-entry](");
        reveal_strlit("<");
    }
    let next = replace_text(markdown, image.as_str(), replacement);
    let next = replace_text(next.as_str(), named.as_str(), replacement);
    replace_text(next.as_str(), bare.as_str(), replacement)
}

/// Replaces the references to content entries in a text by links to their paths.
pub fn rewrite_embedded_entry_references(
    markdown: &str,
    collection_uuid: &str,
    thing_uuid: &str,
    entries: &Vec<ContentEntry>,
) -> (out: String)
    ensures
        out@ == references_replaced(
            markdown@,
            collection_uuid@,
            thing_uuid@,
            entry_views(entries@),
            entries@.len() as int,
        ),
{
    let ghost all = entry_views(entries@);
    let mut out = owned(markdown);
    let mut i: usize = 0;
    while i < entries.len()
        invariant
            i <= entries@.len(),
            all == entry_views(entries@),
            out@ == references_replaced(
                markdown@,
                collection_uuid@,
                thing_uuid@,
                all,
                i as int,
            ),
        decreases entries@.len() - i,
    {
        let mut last = true;
        let mut k: usize = i + 1;
        while k < entries.len()
            invariant
                i < k <= entries@.len(),
                all == entry_views(entries@),
                last == forall|m: int| i < m < k ==> (#[trigger] all[m]).id != all[i as int].id,
            decreases entries@.len() - k,
        {
            if same(entries[k].id.as_str(), entries[i].id.as_str()) {
                last = false;
                proof {
                    assert(all[k as int].id == all[i as int].id);
                }
            }
            k = k + 1;
        }
        if last {
            let number = decimal_text(i as u64);
            let start = cat3("/collection/", collection_uuid, "/things/");
            let path = cat3(start.as_str(), thing_uuid, "/entries.");
            let path = cat(path.as_str(), number.as_str());
            let label = match &entries[i].payload {
                ContentEntryPayload::Image(_) => "IMG",
                _ => "内容",
            };
            let link = cat3("[", label, "](");
            let link = cat3(link.as_str(), path.as_str(), ")");
            proof {
                assert(link@ =~= entry_link(
                    collection_uuid@,
                    thing_uuid@,
                    i as nat,
                    all[i as int],
                ));
            }
            out =
            replace_entry_reference_target(
                out.as_str(),
                entries[i].id.as_str(),
                link.as_str(),
            );
        }
        i = i + 1;
    }
    out
}

/// Whether a text holds a reference to an entry.
pub open spec fn refers_to(text: Seq<char>, id: Seq<char>) -> bool {
    let target = "remi-entry://"@ + id;
    ||| first_place(text, "![]("@ + target + ")"@) is Some
    ||| first_place(text, "[remi-entry]("@ + target + ")"@) is Some
    ||| first_place(text, "<"@ + target + ">"@) is Some
}

/// A text without references to entries stays as it is.
pub proof fn law_plain_text_stays(
    text: Seq<char>,
    collection: Seq<char>,
    thing: Seq<char>,
    entries: Seq<EntryView>,
    n: int,
)
    requires
        forall|i: int| 0 <= i < entries.len() ==> !refers_to(text, (#[trigger] entries[i]).id),
        n <= entries.len(),
    ensures
        references_replaced(text, collection, thing, entries, n) == text,
    decreases n,
{
    if n > 0 {
        law_plain_text_stays(text, collection, thing, entries, n - 1);
        let e = entries[n - 1];
        let link = entry_link(collection, thing, (n - 1) as nat, e);
        let target = "remi-entry://"@ + e.id;
        assert(!refers_to(text, e.id));
        reveal_strlit("![](");
        reveal_strlit("[remi-entry](");
        reveal_strlit("<");
        crate::letters::law_replaced_absent(text, "![]("@ + target + ")"@, link);
        crate::letters::law_replaced_absent(text, "[remi-entry]("@ + target + ")"@, link);
        crate::letters::law_replaced_absent(text, "<"@ + target + ">"@, link);
    }
}

/// Things and collections of this device.
pub struct ThingsLocalService<'a> {
    pub storage: &'a Storage,
    pub documents: &'a ThingsDocumentSet,
}

pub open spec fn listed_collections(s: Result<SnapshotView, ErrorView>) -> Result<
    Seq<CollectionEntryView>,
    ErrorView,
> {
    match s {
        Ok(s) => Ok(s.collections),
        Err(e) => Err(e),
    }
}

pub open spec fn listed_things(s: Result<SnapshotView, ErrorView>) -> Result<
    Seq<ThingEntryView>,
    ErrorView,
> {
    match s {
        Ok(s) => Ok(s.things),
        Err(e) => Err(e),
    }
}

pub open spec fn found_collection(s: Result<SnapshotView, ErrorView>, uuid: Seq<char>) -> Result<
    Option<CollectionEntryView>,
    ErrorView,
> {
    match s {
        Ok(s) => Ok(collection_in(s.collections, uuid)),
        Err(e) => Err(e),
    }
}

pub open spec fn found_thing(s: Result<SnapshotView, ErrorView>, uuid: Seq<char>) -> Result<
    Option<ThingEntryView>,
    ErrorView,
> {
    match s {
        Ok(s) => Ok(thing_in(s.things, uuid)),
        Err(e) => Err(e),
    }
}

pub open spec fn collections_out(out: Result<Vec<ThingCollectionEntry>, SdkError>) -> Result<
    Seq<CollectionEntryView>,
    ErrorView,
> {
    match out {
        Ok(list) => Ok(collection_entry_views(list@)),
        Err(e) => Err(e@),
    }
}

pub open spec fn things_out(out: Result<Vec<ThingEntry>, SdkError>) -> Result<
    Seq<ThingEntryView>,
    ErrorView,
> {
    match out {
        Ok(list) => Ok(thing_entry_views(list@)),
        Err(e) => Err(e@),
    }
}

pub open spec fn collection_out(out: Result<Option<ThingCollectionEntry>, SdkError>) -> Result<
    Option<CollectionEntryView>,
    ErrorView,
> {
    match out {
        Ok(Some(c)) => Ok(Some(c@)),
        Ok(None) => Ok(None),
        Err(e) => Err(e@),
    }
}

pub open spec fn thing_out(out: Result<Option<ThingEntry>, SdkError>) -> Result<
    Option<ThingEntryView>,
    ErrorView,
> {
    match out {
        Ok(Some(t)) => Ok(Some(t@)),
        Ok(None) => Ok(None),
        Err(e) => Err(e@),
    }
}

impl<'a> ThingsLocalService<'a> {
    /// The service for a store and its documents.
    pub fn new(storage: &'a Storage, documents: &'a ThingsDocumentSet) -> (s: Self)
        ensures
            s.storage == storage,
            s.documents == documents,
    {
        ThingsLocalService { storage, documents }
    }

    /// The identifier of the collection of an app.
    pub fn app_collection_uuid(app_id: &str) -> (out: Result<String, SdkError>)
        ensures
            match out {
                Ok(uuid) => trimmed(app_id@).len() > 0 && uuid@ == app_uuid(trimmed(app_id@))
                    && is_uuid_text(uuid@),
                Err(e) => trimmed(app_id@).len() == 0 && e@ == (ErrorView::Failure {
                    message: "app_id must not be empty"@,
                }),
            },
    {
        let app_id = trim(app_id);
        if crate::search::fields::is_empty(app_id.as_str()) {
            return Err(failure("app_id must not be empty"));
        }
        let name = cat("remi:things:app:", app_id.as_str());
        Ok(uuid_for_name(name.as_str()))
    }

    /// Makes sure of the collection of an app at `now`.
    pub fn ensure_app_collection_at(
        &self,
        app_id: &str,
        title: Option<String>,
        now: &String,
    ) -> (out: Result<ThingsMutationDraft<ThingCollectionEntry>, SdkError>)
        ensures
            draft_view(out) == app_outcome(self.documents@, app_id@, opt_view(title), now@),
    {
        let app = trim(app_id);
        let uuid = match Self::app_collection_uuid(app_id) {
            Ok(uuid) => uuid,
            Err(e) => return Err(e),
        };
        let title = match title {
            Some(t) => t,
            None => app.clone(),
        };
        let mut documents = self.documents.duplicate_set().loaded_or_init();
        let events = match write_typed_collection(
            &mut documents,
            uuid.as_str(),
            title.as_str(),
            CollectionType::App,
            Some(app.as_str()),
            now,
        ) {
            Ok(events) => events,
            Err(e) => return Err(e),
        };
        let mut snapshot = documents.extract_snapshot();
        match find_collection_entry(&snapshot.collections, uuid.as_str()) {
            Some(at) => {
                let value = snapshot.collections.remove(at);
                Ok(ThingsMutationDraft { documents, events, value })
            },
            None => Err(failure("App collection not found after ensure")),
        }
    }

    /// Makes sure of the collection of an app now.
    pub fn ensure_app_collection(&self, app_id: &str, title: Option<String>) -> (out: Result<
        ThingsMutationDraft<ThingCollectionEntry>,
        SdkError,
    >)
        ensures
            exists|now: Seq<char>|
                clock_text(now) && draft_view(out) == #[trigger] app_outcome(
                    self.documents@,
                    app_id@,
                    opt_view(title),
                    now,
                ),
    {
        let now = now_timestamp_rfc3339();
        self.ensure_app_collection_at(app_id, title, &now)
    }

    /// What is shown at `now`.
    pub fn snapshot_with_options_at(&self, options: SnapshotOptions, now: &String) -> (out: Result<
        ThingsSnapshotState,
        SdkError,
    >)
        ensures
            snapshot_view(out) == snapshot_result(
                self.storage.things_actor_meta.data(),
                self.documents@,
                options,
                now@,
            ),
    {
        let dirty = self.documents.has_pending_changes();
        let mut set = self.documents.duplicate_set().loaded_or_init();
        match ensure_system_collections_in_doc_set(&mut set, now) {
            Ok(_) => {},
            Err(e) => return Err(e),
        }
        let snapshot = set.extract_snapshot_with_options(options);
        let actors = self.storage.load_things_actor_meta_map();
        let mut collections = snapshot.collections;
        let ghost shown = collection_entry_views(collections@);
        let ghost mark = |c: CollectionEntryView| with_collection_actor(c, actors@);
        let mut i: usize = 0;
        while i < collections.len()
            invariant
                i <= collections@.len(),
                collections@.len() == shown.len(),
                mark == (|c: CollectionEntryView| with_collection_actor(c, actors@)),
                forall|k: int| 0 <= k < i ==> (#[trigger] collections@[k])@ == mark(shown[k]),
                forall|k: int| i <= k < shown.len() ==> (#[trigger] collections@[k])@ == shown[k],
            decreases collections@.len() - i,
        {
            let found = find_actor(&actors, collections[i].uuid.as_str());
            if let Some(at) = found {
                collections[i].actor_type = Some(actors[at].actor_type.clone());
                collections[i].actor_app_id = actors[at].actor_app_id.clone();
                collections[i].actor_display_name = actors[at].actor_display_name.clone();
            }
            i = i + 1;
        }
        let mut things = snapshot.things;
        let ghost shown_things = thing_entry_views(things@);
        let ghost mark_thing = |t: ThingEntryView| with_thing_actor(t, actors@);
        let mut j: usize = 0;
        while j < things.len()
            invariant
                j <= things@.len(),
                things@.len() == shown_things.len(),
                mark_thing == (|t: ThingEntryView| with_thing_actor(t, actors@)),
                forall|k: int|
                    0 <= k < j ==> (#[trigger] things@[k])@ == mark_thing(shown_things[k]),
                forall|k: int|
                    j <= k < shown_things.len() ==> (#[trigger] things@[k])@ == shown_things[k],
            decreases things@.len() - j,
        {
            let found = find_actor(&actors, things[j].uuid.as_str());
            if let Some(at) = found {
                things[j].actor_type = Some(actors[at].actor_type.clone());
                things[j].actor_app_id = actors[at].actor_app_id.clone();
                things[j].actor_display_name = actors[at].actor_display_name.clone();
            }
            j = j + 1;
        }
        proof {
            assert(collection_entry_views(collections@) =~= shown.map_values(mark));
            assert(thing_entry_views(things@) =~= shown_things.map_values(mark_thing));
        }
        Ok(ThingsSnapshotState { collections, things, dirty, last_sync_at: None })
    }

    /// What is shown now.
    pub fn snapshot_with_options(&self, snapshot_options: SnapshotOptions) -> (out: Result<
        ThingsSnapshotState,
        SdkError,
    >)
        ensures
            exists|now: Seq<char>|
                clock_text(now) && snapshot_view(out) == #[trigger] snapshot_result(
                    self.storage.things_actor_meta.data(),
                    self.documents@,
                    snapshot_options,
                    now,
                ),
    {
        let now = now_timestamp_rfc3339();
        self.snapshot_with_options_at(snapshot_options, &now)
    }

    /// What is shown now, with the content of things.
    pub fn snapshot(&self) -> (out: Result<ThingsSnapshotState, SdkError>)
        ensures
            exists|now: Seq<char>|
                clock_text(now) && snapshot_view(out) == #[trigger] snapshot_result(
                    self.storage.things_actor_meta.data(),
                    self.documents@,
                    (SnapshotOptions { include_content: true }),
                    now,
                ),
    {
        self.snapshot_with_options(SnapshotOptions { include_content: true })
    }

    /// What is shown now, without the content of things.
    pub fn snapshot_lite(&self) -> (out: Result<ThingsSnapshotState, SdkError>)
        ensures
            exists|now: Seq<char>|
                clock_text(now) && snapshot_view(out) == #[trigger] snapshot_result(
                    self.storage.things_actor_meta.data(),
                    self.documents@,
                    (SnapshotOptions { include_content: false }),
                    now,
                ),
    {
        self.snapshot_with_options(SnapshotOptions { include_content: false })
    }

    /// Whether a document waits to be saved. A root document that has to be made does.
    pub fn has_pending_changes(&self) -> (r: bool)
        ensures
            r == (dirty_keys(with_root(self.documents@)).len() > 0),
    {
        self.documents.duplicate_set().loaded_or_init().has_pending_changes()
    }

    /// The collections that are shown now.
    pub fn list_collections(&self) -> (out: Result<Vec<ThingCollectionEntry>, SdkError>)
        ensures
            exists|now: Seq<char>|
                clock_text(now) && collections_out(out) == listed_collections(
                    #[trigger] snapshot_result(
                        self.storage.things_actor_meta.data(),
                        self.documents@,
                        (SnapshotOptions { include_content: false }),
                        now,
                    ),
                ),
    {
        match self.snapshot_lite() {
            Ok(s) => Ok(s.collections),
            Err(e) => Err(e),
        }
    }

    /// A collection that is shown now.
    pub fn get_collection(&self, collection_uuid: &str) -> (out: Result<
        Option<ThingCollectionEntry>,
        SdkError,
    >)
        ensures
            exists|now: Seq<char>|
                clock_text(now) && collection_out(out) == found_collection(
                    #[trigger] snapshot_result(
                        self.storage.things_actor_meta.data(),
                        self.documents@,
                        (SnapshotOptions { include_content: false }),
                        now,
                    ),
                    collection_uuid@,
                ),
    {
        match self.list_collections() {
            Ok(list) => {
                let mut list = list;
                match find_collection_entry(&list, collection_uuid) {
                    Some(at) => Ok(Some(list.remove(at))),
                    None => Ok(None),
                }
            },
            Err(e) => Err(e),
        }
    }

    /// The things that are shown now.
    pub fn list_things(&self, include_content: bool) -> (out: Result<Vec<ThingEntry>, SdkError>)
        ensures
            exists|now: Seq<char>|
                clock_text(now) && things_out(out) == listed_things(
                    #[trigger] snapshot_result(
                        self.storage.things_actor_meta.data(),
                        self.documents@,
                        (SnapshotOptions { include_content }),
                        now,
                    ),
                ),
    {
        match self.snapshot_with_options(SnapshotOptions { include_content }) {
            Ok(s) => Ok(s.things),
            Err(e) => Err(e),
        }
    }

    /// A thing that is shown now.
    pub fn get_thing(&self, thing_uuid: &str, include_content: bool) -> (out: Result<
        Option<ThingEntry>,
        SdkError,
    >)
        ensures
            exists|now: Seq<char>|
                clock_text(now) && thing_out(out) == found_thing(
                    #[trigger] snapshot_result(
                        self.storage.things_actor_meta.data(),
                        self.documents@,
                        (SnapshotOptions { include_content }),
                        now,
                    ),
                    thing_uuid@,
                ),
    {
        match self.list_things(include_content) {
            Ok(list) => {
                let mut list = list;
                match find_thing_entry(&list, thing_uuid) {
                    Some(at) => Ok(Some(list.remove(at))),
                    None => Ok(None),
                }
            },
            Err(e) => Err(e),
        }
    }

    /// The markdown text of a thing that is not deleted.
    pub fn get_thing_markdown(&self, thing_uuid: &str) -> (out: Option<String>)
        ensures
            opt_view(out) == if thing_in(
                snapshot_things(self.documents@, (SnapshotOptions { include_content: false })),
                thing_uuid@,
            ) is Some {
                main_text(content_of(self.documents@, thing_uuid@))
            } else {
                None
            },
    {
        let snapshot = self.documents.extract_snapshot_with_options(
            SnapshotOptions { include_content: false },
        );
        match find_thing_entry(&snapshot.things, thing_uuid) {
            Some(_) => self.documents.get_thing_markdown_text(thing_uuid),
            None => None,
        }
    }

    /// What the tree shows.
    pub fn tree_data(&self) -> (tree: ThingsTreeData)
        ensures
            tree_coll_views(tree.collections@) == tree_collections(self.documents@),
            tree_thing_views(tree.things@) == tree_things(self.documents@),
    {
        self.documents.extract_tree_data()
    }

    /// The markdown text of a thing, with links in place of the references to its content
    /// entries.
    pub fn render_thing_content_markdown(&self, collection_uuid: &str, thing_uuid: &str) -> (out:
        Result<String, SdkError>)
        ensures
            match live_thing_in(self.documents@, collection_uuid@, thing_uuid@) {
                None => out matches Err(e) && e@ == no_thing(thing_uuid@),
                Some(t) => out matches Ok(text) && text@ == references_replaced(
                    match main_text(content_of(self.documents@, thing_uuid@)) {
                        Some(text) => text,
                        None => ""@,
                    },
                    collection_uuid@,
                    thing_uuid@,
                    t.entries,
                    t.entries.len() as int,
                ),
            },
    {
        let at: usize = self.documents.find_collection(collection_uuid);
        let found = if at < self.documents.collections.len() {
            let k: usize = self.documents.find_live_thing(at, thing_uuid);
            if k < self.documents.collections[at].things.len() {
                Some(&self.documents.collections[at].things[k])
            } else {
                None
            }
        } else {
            None
        };
        match found {
            None => {
                let message = cat("Thing not found: ", thing_uuid);
                Err(failure(message.as_str()))
            },
            Some(t) => {
                let markdown = match self.documents.get_thing_markdown_text(thing_uuid) {
                    Some(text) => text,
                    None => owned(""),
                };
                Ok(
                    rewrite_embedded_entry_references(
                        markdown.as_str(),
                        collection_uuid,
                        thing_uuid,
                        &t.entries,
                    ),
                )
            },
        }
    }
}

} // verus!
