//! Bringing things back: what stands against undoing a change, and writing a snapshot into
//! documents that lack parts of it.
use crate::clock::{
    clock_time, format_domain_datetime, now, rfc3339_offset_text, rfc3339_text,
    write_rfc3339_offset, DomainTime,
};
use crate::content_registry::{
    entries_fault, entries_read, entry_views, snapshot_markdown, ContentEntry, ContentTypeRegistry,
    EntryView,
};
use crate::document_store::{CrdtDataType, DocumentKey, KeyView};
use crate::equality::{same_collection_entry, same_opt, same_payload, same_thing_entry};
use crate::error::{failure, ErrorView, SdkError};
use crate::json::{
    copy_opt_json, entries_view, entry, field, list_view, opt_view, text_field, Json, JsonView,
};
use crate::rows::{ThingsChangeLogEntry, ThingsOperationType};
use crate::search::documents::{read_stored_json, stored_json};
use crate::storage::documents::opt_str_view;
use crate::text::{cat, cat3, owned, same};
use crate::things_content::{text_events, text_written, thing_collection};
use crate::things_crdt::{
    coll, coll_attrs_outcome, coll_meta_outcome, entries_refusal, entry_added_outcome,
    entry_changed_outcome, entry_deleted_outcome, has_coll, has_thing, no_thing, outcome_view,
    thing_at, thing_attrs_outcome, thing_entries, thing_meta_outcome, with_coll,
};
use crate::things_docs::{SetView, ThingsDocumentSet};
use crate::things_events::{
    collection_event, events_view, markdown_event, root_event, thing_event, EventView,
    ThingsDocumentChangeKind, ThingsDocumentEvent,
};
use crate::things_local::{
    any_coll_attrs, append_events, archive_attrs, collection_in, collection_metadata_attrs,
    events_then, find_collection_entry, find_thing_entry, meta_attrs, thing_archive_attrs, thing_in,
};
use crate::things_reader::{snapshot_collections, snapshot_things};
use crate::things_types::{
    collection_entry_views, thing_entry_views, CollectionEntryView, SnapshotOptions,
    ThingCollectionEntry, ThingEntry, ThingEntryView, ThingsSnapshot,
};
use vstd::prelude::*;

verus! {

/// The collection of a thing: that of the first one in a snapshot, or else that of the
/// first one in the documents.
pub open spec fn resolved_collection(set: SetView, thing: Seq<char>) -> Option<Seq<char>> {
    match thing_in(snapshot_things(set, (SnapshotOptions { include_content: true })), thing) {
        Some(t) => Some(t.collection_uuid),
        None => thing_collection(set, thing),
    }
}

/// The collection of a thing.
pub fn resolve_thing_collection_uuid(set: &ThingsDocumentSet, thing_uuid: &str) -> (out: Result<
    String,
    SdkError,
>)
    ensures
        match resolved_collection(set@, thing_uuid@) {
            Some(uuid) => out matches Ok(s) && s@ == uuid,
            None => out matches Err(e) && e@ == no_thing(thing_uuid@),
        },
{
    let snapshot = set.extract_snapshot();
    match find_thing_entry(&snapshot.things, thing_uuid) {
        Some(at) => Ok(snapshot.things[at].collection_uuid.clone()),
        None => match set.find_thing_collection_uuid(thing_uuid) {
            Some(uuid) => Ok(uuid),
            None => {
                let message = cat("Thing not found: ", thing_uuid);
                Err(failure(message.as_str()))
            },
        },
    }
}

/// Why a change cannot be undone as it stands.
#[derive(Clone, Copy, Debug, PartialEq, Eq, Structural)]
pub enum ThingsUndoConflictType {
    EntityModified,
    EntityExists,
    ParentDeleted,
}

/// A way out of a conflict.
#[derive(Debug)]
pub struct ThingsUndoResolutionOption {
    pub id: String,
    pub label: String,
    pub description: String,
}

/// What stands against undoing a change.
#[derive(Debug)]
pub struct ThingsUndoConflict {
    pub conflict_type: ThingsUndoConflictType,
    pub description: String,
    pub options: Vec<ThingsUndoResolutionOption>,
}

/// What stands against undoing a change, over character sequences.
pub struct ConflictView {
    pub conflict_type: ThingsUndoConflictType,
    pub description: Seq<char>,
    pub options: Seq<(Seq<char>, Seq<char>, Seq<char>)>,
}

impl View for ThingsUndoConflict {
    type V = ConflictView;

    open spec fn view(&self) -> ConflictView {
        ConflictView {
            conflict_type: self.conflict_type,
            description: self.description@,
            options: self.options@.map_values(
                |o: ThingsUndoResolutionOption| (o.id@, o.label@, o.description@),
            ),
        }
    }
}

pub open spec fn bare_conflict(
    conflict_type: ThingsUndoConflictType,
    description: Seq<char>,
) -> ConflictView {
    ConflictView { conflict_type, description, options: Seq::empty() }
}

/// The ways out where the collection of a thing was deleted.
pub open spec fn parent_options() -> Seq<(Seq<char>, Seq<char>, Seq<char>)> {
    seq![
        (
            "cascade_restore"@,
            "Restore parent collection too"@,
            "Restore the parent collection and then restore this thing"@,
        ),
        (
            "move_to_other"@,
            "Move to another collection"@,
            "Restore this thing to a different collection"@,
        ),
        ("cancel"@, "Cancel"@, "Do not restore this thing"@),
    ]
}

/// The collection that a logged deletion of a thing names.
pub open spec fn logged_collection(details_json: Seq<char>) -> Seq<char> {
    match text_field(stored_json(Some(details_json)), "collection_uuid"@) {
        Some(uuid) => uuid,
        None => ""@,
    }
}

/// What stands against undoing a logged change, in the light of what there is now.
pub open spec fn undo_conflict(
    op: ThingsOperationType,
    uuid: Seq<char>,
    details_json: Seq<char>,
    collections: Seq<CollectionEntryView>,
    things: Seq<ThingEntryView>,
) -> Option<ConflictView> {
    match op {
        ThingsOperationType::CreateCollection => if collection_in(collections, uuid) is None {
            Some(
                bare_conflict(
                    ThingsUndoConflictType::EntityModified,
                    "Collection no longer exists"@,
                ),
            )
        } else {
            None
        },
        ThingsOperationType::CreateThing => if thing_in(things, uuid) is None {
            Some(
                bare_conflict(ThingsUndoConflictType::EntityModified, "Thing no longer exists"@),
            )
        } else {
            None
        },
        ThingsOperationType::DeleteCollection => if collection_in(collections, uuid) is Some {
            Some(
                bare_conflict(ThingsUndoConflictType::EntityExists, "Collection already exists"@),
            )
        } else {
            None
        },
        ThingsOperationType::DeleteThing => if thing_in(things, uuid) is Some {
            Some(bare_conflict(ThingsUndoConflictType::EntityExists, "Thing already exists"@))
        } else if collection_in(collections, logged_collection(details_json)) is None
            && logged_collection(details_json).len() > 0 {
            Some(
                ConflictView {
                    conflict_type: ThingsUndoConflictType::ParentDeleted,
                    description: "Parent collection '"@ + logged_collection(details_json)
                        + "' has been deleted"@,
                    options: parent_options(),
                },
            )
        } else {
            None
        },
        _ => None,
    }
}

fn conflict(conflict_type: ThingsUndoConflictType, description: &str) -> (c: ThingsUndoConflict)
    ensures
        c@ == bare_conflict(conflict_type, description@),
{
    let c = ThingsUndoConflict {
        conflict_type,
        description: owned(description),
        options: Vec::new(),
    };
    proof {
        assert(c@.options =~= Seq::empty());
    }
    c
}

fn way_out(id: &str, label: &str, description: &str) -> (o: ThingsUndoResolutionOption)
    ensures
        o.id@ == id@,
        o.label@ == label@,
        o.description@ == description@,
{
    ThingsUndoResolutionOption {
        id: owned(id),
        label: owned(label),
        description: owned(description),
    }
}

/// What stands against undoing a logged change, in the light of what there is now.
pub fn check_undo_conflict(log_entry: &ThingsChangeLogEntry, snapshot: &ThingsSnapshot) -> (out:
    Option<ThingsUndoConflict>)
    ensures
        match undo_conflict(
            log_entry.op_type,
            log_entry.entity_uuid@,
            log_entry.details_json@,
            collection_entry_views(snapshot.collections@),
            thing_entry_views(snapshot.things@),
        ) {
            Some(c) => out matches Some(found) && found@ == c,
            None => out is None,
        },
{
    match log_entry.op_type {
        ThingsOperationType::CreateCollection => {
            if find_collection_entry(
                &snapshot.collections,
                log_entry.entity_uuid.as_str(),
            ).is_none() {
                Some(
                    conflict(ThingsUndoConflictType::EntityModified, "Collection no longer exists"),
                )
            } else {
                None
            }
        },
        ThingsOperationType::CreateThing => {
            if find_thing_entry(&snapshot.things, log_entry.entity_uuid.as_str()).is_none() {
                Some(conflict(ThingsUndoConflictType::EntityModified, "Thing no longer exists"))
            } else {
                None
            }
        },
        ThingsOperationType::DeleteCollection => {
            if find_collection_entry(
                &snapshot.collections,
                log_entry.entity_uuid.as_str(),
            ).is_some() {
                Some(conflict(ThingsUndoConflictType::EntityExists, "Collection already exists"))
            } else {
                None
            }
        },
        ThingsOperationType::DeleteThing => {
            if find_thing_entry(&snapshot.things, log_entry.entity_uuid.as_str()).is_some() {
                return Some(
                    conflict(ThingsUndoConflictType::EntityExists, "Thing already exists"),
                );
            }
            let text = Some(log_entry.details_json.clone());
            let details = read_stored_json(&text);
            let uuid = match details.get_text("collection_uuid") {
                Some(uuid) => uuid,
                None => owned(""),
            };
            let missing = find_collection_entry(&snapshot.collections, uuid.as_str()).is_none();
            if missing && !crate::search::fields::is_empty(uuid.as_str()) {
                let options = vec![
                    way_out(
                        "cascade_restore",
                        "Restore parent collection too",
                        "Restore the parent collection and then restore this thing",
                    ),
                    way_out(
                        "move_to_other",
                        "Move to another collection",
                        "Restore this thing to a different collection",
                    ),
                    way_out("cancel", "Cancel", "Do not restore this thing"),
                ];
                let found = ThingsUndoConflict {
                    conflict_type: ThingsUndoConflictType::ParentDeleted,
                    description: cat3(
                        "Parent collection '",
                        uuid.as_str(),
                        "' has been deleted",
                    ),
                    options,
                };
                proof {
                    assert(found@.options =~= parent_options());
                }
                Some(found)
            } else {
                None
            }
        },
        _ => None,
    }
}

/// The RFC 3339 form of a time that may be missing.
pub open spec fn opt_time_text(t: Option<DomainTime>) -> Option<Seq<char>> {
    match t {
        Some(t) => Some(rfc3339_text(t)),
        None => None,
    }
}

fn format_opt(t: Option<DomainTime>) -> (out: Option<String>)
    ensures
        opt_view(out) == opt_time_text(t),
{
    match t {
        Some(t) => Some(format_domain_datetime(t)),
        None => None,
    }
}

fn str_of(s: &Option<String>) -> (out: Option<&str>)
    ensures
        opt_str_view(out) == opt_view(*s),
{
    match s {
        Some(s) => Some(s.as_str()),
        None => None,
    }
}

/// What writing a collection of a snapshot at `now` answers and leaves.
pub open spec fn replay_collection(set: SetView, c: CollectionEntryView, now: Seq<char>) -> (
    Result<Seq<EventView>, ErrorView>,
    SetView,
) {
    let first = coll_meta_outcome(
        with_coll(set, c.uuid),
        c.uuid,
        Some(c.title),
        None,
        Some(rfc3339_text(c.created_at)),
        Some(rfc3339_text(c.updated_at)),
        now,
    );
    match first.0 {
        Err(e) => (Err(e), first.1),
        Ok(events) => events_then(
            events,
            coll_attrs_outcome(
                first.1,
                c.uuid,
                Some(
                    meta_attrs(
                        any_coll_attrs(first.1, c.uuid),
                        c.collection_type,
                        c.app_id,
                        opt_time_text(c.archived_at),
                    ),
                ),
                now,
            ),
        ),
    }
}

/// What writing the collections of a snapshot that are not known answers and leaves.
pub open spec fn replay_collections(
    set: SetView,
    known: Seq<CollectionEntryView>,
    list: Seq<CollectionEntryView>,
    now: Seq<char>,
) -> (Result<Seq<EventView>, ErrorView>, SetView)
    decreases list.len(),
{
    if list.len() == 0 {
        (Ok(Seq::empty()), set)
    } else {
        let before = replay_collections(set, known, list.drop_last(), now);
        match before.0 {
            Err(e) => before,
            Ok(events) => if collection_in(known, list.last().uuid) is Some {
                before
            } else {
                events_then(events, replay_collection(before.1, list.last(), now))
            },
        }
    }
}

fn write_snapshot_collection(
    set: &mut ThingsDocumentSet,
    collection: &ThingCollectionEntry,
    now: &String,
) -> (out: Result<Vec<ThingsDocumentEvent>, SdkError>)
    ensures
        (outcome_view(out), final(set)@) == replay_collection(old(set)@, collection@, now@),
{
    let uuid = collection.uuid.as_str();
    set.get_or_init_collection(uuid);
    let first = match set.update_collection_meta_at(
        uuid,
        Some(collection.title.clone()),
        None,
        Some(format_domain_datetime(collection.created_at)),
        Some(format_domain_datetime(collection.updated_at)),
        now,
    ) {
        Ok(events) => events,
        Err(e) => return Err(e),
    };
    let existing = match set.collection_view(uuid) {
        Some(c) => copy_opt_json(&c.attrs),
        None => None,
    };
    let archived_at = format_opt(collection.archived_at);
    let attrs = collection_metadata_attrs(
        &existing,
        collection.collection_type,
        str_of(&collection.app_id),
        str_of(&archived_at),
    );
    match set.update_collection_attrs_at(uuid, Some(attrs), now) {
        Ok(events) => Ok(append_events(first, events)),
        Err(e) => Err(e),
    }
}

/// The markdown text and the content entries that the snapshot of a thing holds, or what
/// is wrong with it.
pub type ThingParts = Result<(Option<String>, Vec<ContentEntry>), SdkError>;

pub type PartsView = Result<(Option<Seq<char>>, Seq<EntryView>), ErrorView>;

pub open spec fn parts_view(p: ThingParts) -> PartsView {
    match p {
        Ok(parts) => Ok((opt_view(parts.0), entry_views(parts.1@))),
        Err(e) => Err(e@),
    }
}

/// Whether parts were read from the snapshot of a thing. A document that an entry does not
/// name gets an identifier by chance.
pub open spec fn parts_read(data: JsonView, p: PartsView) -> bool {
    match p {
        Ok(parts) => entries_fault(data) is None && parts.0 == snapshot_markdown(data)
            && entries_read(data, parts.1),
        Err(e) => entries_fault(data) is Some && e == (ErrorView::Failure {
            message: entries_fault(data)->0,
        }),
    }
}

/// The attributes of the first thing with an id, deleted or not.
pub open spec fn any_thing_attrs(set: SetView, collection: Seq<char>, id: Seq<char>) -> Option<
    JsonView,
> {
    if has_coll(set, collection) && has_thing(coll(set, collection).things, id) {
        let things = coll(set, collection).things;
        things[thing_at(things, id)].attrs
    } else {
        None
    }
}

/// What adding content entries answers and leaves.
pub open spec fn entries_added(
    set: SetView,
    collection: Seq<char>,
    id: Seq<char>,
    entries: Seq<EntryView>,
) -> (Result<Seq<EventView>, ErrorView>, SetView)
    decreases entries.len(),
{
    if entries.len() == 0 {
        (Ok(Seq::empty()), set)
    } else {
        let before = entries_added(set, collection, id, entries.drop_last());
        match before.0 {
            Err(e) => before,
            Ok(events) => events_then(
                events,
                entry_added_outcome(before.1, collection, id, entries.last()),
            ),
        }
    }
}

/// What writing the text of a thing answers and leaves, where there is one.
pub open spec fn text_replayed(set: SetView, thing: Seq<char>, text: Option<Seq<char>>) -> (
    Seq<EventView>,
    SetView,
) {
    match text {
        Some(text) => (text_events(set, thing), text_written(set, thing, text)),
        None => (Seq::empty(), set),
    }
}

/// What writing a thing of a snapshot at `now` answers and leaves.
pub open spec fn replay_thing(set: SetView, t: ThingEntryView, p: PartsView, now: Seq<char>) -> (
    Result<Seq<EventView>, ErrorView>,
    SetView,
) {
    match p {
        Err(e) => (Err(e), set),
        Ok(parts) => {
            let first = thing_meta_outcome(
                set,
                t.collection_uuid,
                t.uuid,
                Some(t.datatype),
                Some(t.status),
                Some(t.title),
                t.parent_uuid,
                Some(rfc3339_text(t.created_at)),
                Some(rfc3339_text(t.updated_at)),
                now,
            );
            match first.0 {
                Err(e) => (Err(e), first.1),
                Ok(written) => {
                    let second = thing_attrs_outcome(
                        first.1,
                        t.collection_uuid,
                        t.uuid,
                        Some(
                            archive_attrs(
                                any_thing_attrs(first.1, t.collection_uuid, t.uuid),
                                opt_time_text(t.archived_at),
                                t.archived_from_collection_uuid,
                            ),
                        ),
                        now,
                    );
                    match second.0 {
                        Err(e) => (Err(e), second.1),
                        Ok(marked) => {
                            let third = text_replayed(second.1, t.uuid, parts.0);
                            events_then(
                                written + marked + third.0,
                                entries_added(third.1, t.collection_uuid, t.uuid, parts.1),
                            )
                        },
                    }
                },
            }
        },
    }
}

/// Whether a collection has a thing, deleted or not.
pub open spec fn thing_known(set: SetView, collection: Seq<char>, id: Seq<char>) -> bool {
    has_coll(set, collection) && has_thing(coll(set, collection).things, id)
}

/// Whether a collection has a thing, deleted or not.
pub fn thing_is_known_in_collection(
    set: &ThingsDocumentSet,
    collection_uuid: &str,
    thing_uuid: &str,
) -> (r: bool)
    ensures
        r == thing_known(set@, collection_uuid@, thing_uuid@),
{
    let at: usize = set.find_collection(collection_uuid);
    if at < set.collections.len() {
        let k: usize = set.find_thing(at, thing_uuid);
        k < set.collections[at].things.len()
    } else {
        false
    }
}

/// What writing the things of a snapshot that are not known answers and leaves.
pub open spec fn replay_things(
    set: SetView,
    known: Seq<ThingEntryView>,
    list: Seq<ThingEntryView>,
    parts: Seq<PartsView>,
    now: Seq<char>,
) -> (Result<Seq<EventView>, ErrorView>, SetView)
    decreases list.len(),
{
    if list.len() == 0 {
        (Ok(Seq::empty()), set)
    } else {
        let before = replay_things(set, known, list.drop_last(), parts, now);
        let t = list.last();
        match before.0 {
            Err(e) => before,
            Ok(events) => if thing_in(known, t.uuid) is Some || thing_known(
                before.1,
                t.collection_uuid,
                t.uuid,
            ) {
                before
            } else {
                events_then(events, replay_thing(before.1, t, parts[list.len() - 1], now))
            },
        }
    }
}

/// What writing everything of a snapshot that is not known answers and leaves.
pub open spec fn replay_outcome(
    set: SetView,
    collections: Seq<CollectionEntryView>,
    things: Seq<ThingEntryView>,
    parts: Seq<PartsView>,
    now: Seq<char>,
) -> (Result<Seq<EventView>, ErrorView>, SetView) {
    let first = replay_collections(set, snapshot_collections(set), collections, now);
    match first.0 {
        Err(e) => first,
        Ok(events) => events_then(
            events,
            replay_things(
                first.1,
                snapshot_things(set, (SnapshotOptions { include_content: true })),
                things,
                parts,
                now,
            ),
        ),
    }
}

/// Writes a thing of a snapshot at `now`, with the parts that its data holds.
pub fn replay_thing_parts(
    set: &mut ThingsDocumentSet,
    thing: &ThingEntry,
    parts: &ThingParts,
    now: &String,
) -> (out: Result<Vec<ThingsDocumentEvent>, SdkError>)
    ensures
        (outcome_view(out), final(set)@) == replay_thing(
            old(set)@,
            thing@,
            parts_view(*parts),
            now@,
        ),
{
    let (markdown, entries) = match parts {
        Ok(parts) => (&parts.0, &parts.1),
        Err(e) => return Err(e.duplicate_error()),
    };
    let collection = thing.collection_uuid.as_str();
    let uuid = thing.uuid.as_str();
    let first = match set.upsert_thing_meta_at(
        collection,
        uuid,
        Some(thing.datatype.duplicate_datatype()),
        Some(thing.status.clone()),
        Some(thing.title.clone()),
        thing.parent_uuid.clone(),
        Some(format_domain_datetime(thing.created_at)),
        Some(format_domain_datetime(thing.updated_at)),
        now,
    ) {
        Ok(events) => events,
        Err(e) => return Err(e),
    };
    let at: usize = set.find_collection(collection);
    let existing = if at < set.collections.len() {
        let k: usize = set.find_thing(at, uuid);
        if k < set.collections[at].things.len() {
            copy_opt_json(&set.collections[at].things[k].attrs)
        } else {
            None
        }
    } else {
        None
    };
    let archived_at = format_opt(thing.archived_at);
    let attrs = thing_archive_attrs(
        &existing,
        str_of(&archived_at),
        str_of(&thing.archived_from_collection_uuid),
    );
    let second = match set.update_thing_attrs_at(collection, uuid, Some(attrs), now) {
        Ok(events) => events,
        Err(e) => return Err(e),
    };
    let events = append_events(first, second);
    let ghost middle = set@;
    let events = match markdown {
        Some(text) => {
            let more = set.set_thing_markdown_text(uuid, text.as_str());
            append_events(events, more)
        },
        None => events,
    };
    let ghost third = text_replayed(middle, uuid@, opt_view(*markdown));
    let ghost head = events_view(events@);
    proof {
        assert(events_view(events@) =~= events_view(first@) + events_view(second@) + third.0);
    }
    let ghost all = entry_views(entries@);
    let mut added: Vec<ThingsDocumentEvent> = Vec::new();
    let mut i: usize = 0;
    proof {
        assert(all.take(0) =~= Seq::empty());
        assert(events_view(added@) =~= Seq::empty());
        assert(replay_thing(old(set)@, thing@, parts_view(*parts), now@) == events_then(
            head,
            entries_added(third.1, thing@.collection_uuid, thing@.uuid, all),
        ));
    }
    while i < entries.len()
        invariant
            i <= entries@.len(),
            all == entry_views(entries@),
            replay_thing(old(set)@, thing@, parts_view(*parts), now@) == events_then(
                head,
                entries_added(third.1, thing@.collection_uuid, thing@.uuid, all),
            ),
            collection@ == thing@.collection_uuid,
            uuid@ == thing@.uuid,
            (Ok::<Seq<EventView>, ErrorView>(events_view(added@)), set@) == entries_added(
                third.1,
                thing@.collection_uuid,
                thing@.uuid,
                all.take(i as int),
            ),
        decreases entries@.len() - i,
    {
        proof {
            assert(all.take(i + 1).drop_last() =~= all.take(i as int));
            assert(all.take(i + 1).last() == entries@[i as int]@);
        }
        let new_entry = entries[i].duplicate_entry();
        match set.add_content_entry(collection, uuid, new_entry) {
            Ok(more) => {
                added = append_events(added, more);
            },
            Err(e) => {
                proof {
                    lemma_added_error(
                        third.1,
                        thing@.collection_uuid,
                        thing@.uuid,
                        all,
                        i + 1,
                    );
                }
                return Err(e);
            },
        }
        i = i + 1;
    }
    proof {
        assert(all.take(i as int) =~= all);
    }
    Ok(append_events(events, added))
}

/// A refusal stops the adding of entries.
proof fn lemma_added_error(
    set: SetView,
    collection: Seq<char>,
    id: Seq<char>,
    entries: Seq<EntryView>,
    n: int,
)
    requires
        0 <= n <= entries.len(),
        entries_added(set, collection, id, entries.take(n)).0 is Err,
    ensures
        entries_added(set, collection, id, entries) == entries_added(
            set,
            collection,
            id,
            entries.take(n),
        ),
    decreases entries.len() - n,
{
    if n < entries.len() {
        assert(entries.take(n + 1).drop_last() =~= entries.take(n));
        lemma_added_error(set, collection, id, entries, n + 1);
    } else {
        assert(entries.take(n) =~= entries);
    }
}

/// Writes a thing of a snapshot at `now`.
pub fn replay_snapshot_thing_into_document_set(
    set: &mut ThingsDocumentSet,
    thing: &ThingEntry,
    now: &String,
) -> (out: Result<Vec<ThingsDocumentEvent>, SdkError>)
    ensures
        exists|p: PartsView|
            parts_read(thing@.data, p) && (outcome_view(out), final(set)@)
                == #[trigger] replay_thing(old(set)@, thing@, p, now@),
{
    let parts = ContentTypeRegistry::new().extract_thing_snapshot_parts(&thing.data);
    proof {
        assert(parts_read(thing@.data, parts_view(parts)));
    }
    replay_thing_parts(set, thing, &parts, now)
}

proof fn lemma_collections_error(
    set: SetView,
    known: Seq<CollectionEntryView>,
    list: Seq<CollectionEntryView>,
    now: Seq<char>,
    n: int,
)
    requires
        0 <= n <= list.len(),
        replay_collections(set, known, list.take(n), now).0 is Err,
    ensures
        replay_collections(set, known, list, now) == replay_collections(
            set,
            known,
            list.take(n),
            now,
        ),
    decreases list.len() - n,
{
    if n < list.len() {
        assert(list.take(n + 1).drop_last() =~= list.take(n));
        lemma_collections_error(set, known, list, now, n + 1);
    } else {
        assert(list.take(n) =~= list);
    }
}

proof fn lemma_things_error(
    set: SetView,
    known: Seq<ThingEntryView>,
    list: Seq<ThingEntryView>,
    parts: Seq<PartsView>,
    now: Seq<char>,
    n: int,
)
    requires
        0 <= n <= list.len(),
        replay_things(set, known, list.take(n), parts, now).0 is Err,
    ensures
        replay_things(set, known, list, parts, now) == replay_things(
            set,
            known,
            list.take(n),
            parts,
            now,
        ),
    decreases list.len() - n,
{
    if n < list.len() {
        assert(list.take(n + 1).drop_last() =~= list.take(n));
        lemma_things_error(set, known, list, parts, now, n + 1);
    } else {
        assert(list.take(n) =~= list);
    }
}

pub open spec fn all_parts(parts: Seq<ThingParts>) -> Seq<PartsView> {
    parts.map_values(|p: ThingParts| parts_view(p))
}

/// Whether parts were read from the snapshots of things, one for one.
pub open spec fn all_parts_read(things: Seq<ThingEntryView>, parts: Seq<PartsView>) -> bool {
    &&& parts.len() == things.len()
    &&& forall|i: int|
        0 <= i < things.len() ==> parts_read((#[trigger] things[i]).data, parts[i])
}

/// Writes what is not known of a snapshot at `now`, with the parts that the data of its
/// things hold.
pub fn replay_missing_parts(
    set: &mut ThingsDocumentSet,
    snapshot: &ThingsSnapshot,
    parts: &Vec<ThingParts>,
    now: &String,
) -> (out: Result<Vec<ThingsDocumentEvent>, SdkError>)
    requires
        parts@.len() == snapshot.things@.len(),
    ensures
        (outcome_view(out), final(set)@) == replay_outcome(
            old(set)@,
            collection_entry_views(snapshot.collections@),
            thing_entry_views(snapshot.things@),
            all_parts(parts@),
            now@,
        ),
{
    let ghost start = set@;
    let current = set.extract_snapshot();
    let ghost known = collection_entry_views(current.collections@);
    let ghost colls = collection_entry_views(snapshot.collections@);
    let mut events: Vec<ThingsDocumentEvent> = Vec::new();
    let mut i: usize = 0;
    proof {
        assert(colls.take(0) =~= Seq::empty());
        assert(events_view(events@) =~= Seq::empty());
    }
    while i < snapshot.collections.len()
        invariant
            i <= snapshot.collections@.len(),
            colls == collection_entry_views(snapshot.collections@),
            known == collection_entry_views(current.collections@),
            (Ok::<Seq<EventView>, ErrorView>(events_view(events@)), set@) == replay_collections(
                start,
                known,
                colls.take(i as int),
                now@,
            ),
            known == snapshot_collections(start),
            start == old(set)@,
        decreases snapshot.collections@.len() - i,
    {
        let c = &snapshot.collections[i];
        proof {
            assert(colls.take(i + 1).drop_last() =~= colls.take(i as int));
            assert(colls.take(i + 1).last() == c@);
        }
        if find_collection_entry(&current.collections, c.uuid.as_str()).is_none() {
            match write_snapshot_collection(set, c, now) {
                Ok(more) => {
                    events = append_events(events, more);
                },
                Err(e) => {
                    proof {
                        lemma_collections_error(start, known, colls, now@, i + 1);
                    }
                    return Err(e);
                },
            }
        }
        i = i + 1;
    }
    let ghost middle = set@;
    let ghost first = events_view(events@);
    let ghost known_things = thing_entry_views(current.things@);
    let ghost things = thing_entry_views(snapshot.things@);
    let ghost read = all_parts(parts@);
    let mut written: Vec<ThingsDocumentEvent> = Vec::new();
    let mut j: usize = 0;
    proof {
        assert(colls.take(i as int) =~= colls);
        assert(things.take(0) =~= Seq::empty());
        assert(events_view(written@) =~= Seq::empty());
    }
    while j < snapshot.things.len()
        invariant
            j <= snapshot.things@.len(),
            parts@.len() == snapshot.things@.len(),
            things == thing_entry_views(snapshot.things@),
            known_things == thing_entry_views(current.things@),
            read == all_parts(parts@),
            (Ok::<Seq<EventView>, ErrorView>(events_view(written@)), set@) == replay_things(
                middle,
                known_things,
                things.take(j as int),
                read,
                now@,
            ),
            (Ok::<Seq<EventView>, ErrorView>(first), middle) == replay_collections(
                start,
                snapshot_collections(start),
                colls,
                now@,
            ),
            known_things == snapshot_things(start, (SnapshotOptions { include_content: true })),
            start == old(set)@,
            colls == collection_entry_views(snapshot.collections@),
        decreases snapshot.things@.len() - j,
    {
        let t = &snapshot.things[j];
        proof {
            assert(things.take(j + 1).drop_last() =~= things.take(j as int));
            assert(things.take(j + 1).last() == t@);
            assert(read[j as int] == parts_view(parts@[j as int]));
        }
        if find_thing_entry(&current.things, t.uuid.as_str()).is_none()
            && !thing_is_known_in_collection(set, t.collection_uuid.as_str(), t.uuid.as_str()) {
            match replay_thing_parts(set, t, &parts[j], now) {
                Ok(more) => {
                    written = append_events(written, more);
                },
                Err(e) => {
                    proof {
                        lemma_things_error(middle, known_things, things, read, now@, j + 1);
                    }
                    return Err(e);
                },
            }
        }
        j = j + 1;
    }
    proof {
        assert(things.take(j as int) =~= things);
    }
    Ok(append_events(events, written))
}

/// Writes what is not known of a snapshot at `now`.
pub fn replay_missing_snapshot_into_document_set(
    set: &mut ThingsDocumentSet,
    snapshot: &ThingsSnapshot,
    now: &String,
) -> (out: Result<Vec<ThingsDocumentEvent>, SdkError>)
    ensures
        exists|parts: Seq<PartsView>|
            all_parts_read(thing_entry_views(snapshot.things@), parts) && (
            outcome_view(out),
            final(set)@,
        ) == #[trigger] replay_outcome(
            old(set)@,
            collection_entry_views(snapshot.collections@),
            thing_entry_views(snapshot.things@),
            parts,
            now@,
        ),
{
    let mut parts: Vec<ThingParts> = Vec::new();
    let mut i: usize = 0;
    while i < snapshot.things.len()
        invariant
            i <= snapshot.things@.len(),
            parts@.len() == i,
            forall|k: int|
                0 <= k < i ==> parts_read(
                    snapshot.things@[k]@.data,
                    parts_view(#[trigger] parts@[k]),
                ),
        decreases snapshot.things@.len() - i,
    {
        parts.push(
            ContentTypeRegistry::new().extract_thing_snapshot_parts(&snapshot.things[i].data),
        );
        i = i + 1;
    }
    proof {
        let things = thing_entry_views(snapshot.things@);
        assert forall|k: int| 0 <= k < things.len() implies parts_read(
            (#[trigger] things[k]).data,
            all_parts(parts@)[k],
        ) by {
            assert(parts_read(snapshot.things@[k]@.data, parts_view(parts@[k])));
        }
        assert(all_parts_read(things, all_parts(parts@)));
    }
    replay_missing_parts(set, snapshot, &parts, now)
}

/// A snapshot of the documents themselves brings nothing new.
pub proof fn law_replay_of_own_collections(set: SetView, now: Seq<char>)
    ensures
        replay_collections(set, snapshot_collections(set), snapshot_collections(set), now) == (
            Ok::<Seq<EventView>, ErrorView>(Seq::empty()),
            set,
        ),
{
    lemma_known_collections(
        set,
        snapshot_collections(set),
        snapshot_collections(set),
        now,
    );
}

proof fn lemma_known_collections(
    set: SetView,
    known: Seq<CollectionEntryView>,
    list: Seq<CollectionEntryView>,
    now: Seq<char>,
)
    requires
        forall|i: int| 0 <= i < list.len() ==> known.contains(#[trigger] list[i]),
    ensures
        replay_collections(set, known, list, now) == (
            Ok::<Seq<EventView>, ErrorView>(Seq::empty()),
            set,
        ),
    decreases list.len(),
{
    if list.len() > 0 {
        assert forall|i: int| 0 <= i < list.drop_last().len() implies known.contains(
            #[trigger] list.drop_last()[i],
        ) by {
            assert(known.contains(list[i]));
        }
        lemma_known_collections(set, known, list.drop_last(), now);
        let c = list.last();
        assert(known.contains(list[list.len() - 1]));
        crate::table::law_first_data(known, crate::things_local::has_entry_uuid(c.uuid));
        let at = choose|at: int| 0 <= at < known.len() && known[at] == c;
        assert(crate::things_local::has_entry_uuid(c.uuid)(known[at]));
    }
}

/// The least and the greatest of some numbers.
pub open spec fn spans(ids: Seq<i64>, range: Option<(i64, i64)>) -> bool {
    match range {
        None => ids.len() == 0,
        Some((low, high)) => {
            &&& ids.contains(low)
            &&& ids.contains(high)
            &&& forall|i: int| 0 <= i < ids.len() ==> low <= #[trigger] ids[i] <= high
        },
    }
}

/// The least and the greatest of some numbers.
pub fn event_range(ids: &Vec<i64>) -> (range: Option<(i64, i64)>)
    ensures
        spans(ids@, range),
{
    if ids.len() == 0 {
        return None;
    }
    let mut low: i64 = ids[0];
    let mut high: i64 = ids[0];
    let mut i: usize = 1;
    while i < ids.len()
        invariant
            1 <= i <= ids@.len(),
            ids@.contains(low),
            ids@.contains(high),
            forall|k: int| 0 <= k < i ==> low <= #[trigger] ids@[k] <= high,
        decreases ids@.len() - i,
    {
        if ids[i] < low {
            low = ids[i];
        }
        if ids[i] > high {
            high = ids[i];
        }
        i = i + 1;
    }
    Some((low, high))
}

/// What two ranges span together.
pub open spec fn merged_range(a: Option<(i64, i64)>, b: Option<(i64, i64)>) -> Option<(i64, i64)> {
    match (a, b) {
        (Some(a), Some(b)) => Some(
            (
                if a.0 <= b.0 {
                    a.0
                } else {
                    b.0
                },
                if a.1 >= b.1 {
                    a.1
                } else {
                    b.1
                },
            ),
        ),
        (Some(a), None) => Some(a),
        (None, b) => b,
    }
}

/// What two ranges span together.
pub fn merge_event_ranges(left: Option<(i64, i64)>, right: Option<(i64, i64)>) -> (range: Option<
    (i64, i64),
>)
    ensures
        range == merged_range(left, right),
{
    match (left, right) {
        (Some(a), Some(b)) => Some(
            (
                if a.0 <= b.0 {
                    a.0
                } else {
                    b.0
                },
                if a.1 >= b.1 {
                    a.1
                } else {
                    b.1
                },
            ),
        ),
        (Some(a), None) => Some(a),
        (None, b) => b,
    }
}

/// The range of numbers that come in two parts is what the ranges of the parts span
/// together.
pub proof fn law_merged_range_spans(
    a: Seq<i64>,
    b: Seq<i64>,
    left: Option<(i64, i64)>,
    right: Option<(i64, i64)>,
)
    requires
        spans(a, left),
        spans(b, right),
    ensures
        spans(a + b, merged_range(left, right)),
{
    let all = a + b;
    assert forall|x: i64| #[trigger] a.contains(x) implies all.contains(x) by {
        let i = choose|i: int| 0 <= i < a.len() && a[i] == x;
        assert(all[i] == x);
    }
    assert forall|x: i64| #[trigger] b.contains(x) implies all.contains(x) by {
        let i = choose|i: int| 0 <= i < b.len() && b[i] == x;
        assert(all[a.len() + i] == x);
    }
    if let Some(range) = merged_range(left, right) {
        assert forall|i: int|
            0 <= i < all.len() implies range.0 <= #[trigger] all[i] <= range.1 by {
            if i < a.len() {
                assert(all[i] == a[i]);
            } else {
                assert(all[i] == b[i - a.len()]);
            }
        }
    }
}

/// What is reported of a document.
pub open spec fn key_event(key: KeyView, change_kind: ThingsDocumentChangeKind) -> EventView {
    match key.data_type {
        CrdtDataType::Root => root_event(change_kind),
        CrdtDataType::Collection => collection_event(change_kind, key.uuid),
        CrdtDataType::ThingMarkdown => markdown_event(change_kind, None, key.uuid),
    }
}

/// What is reported of a document.
pub fn document_event_for_key(key: &DocumentKey, change_kind: ThingsDocumentChangeKind) -> (event:
    ThingsDocumentEvent)
    ensures
        event@ == key_event(key@, change_kind),
{
    match key.data_type {
        CrdtDataType::Root => ThingsDocumentEvent::root(change_kind),
        CrdtDataType::Collection => ThingsDocumentEvent::collection(
            change_kind,
            key.uuid.as_str(),
        ),
        CrdtDataType::ThingMarkdown => ThingsDocumentEvent::thing_markdown(
            change_kind,
            None,
            key.uuid.as_str(),
        ),
    }
}

/// The last collection with a uuid.
pub open spec fn last_collection_in(list: Seq<CollectionEntryView>, uuid: Seq<char>) -> Option<
    CollectionEntryView,
>
    decreases list.len(),
{
    if list.len() == 0 {
        None
    } else if list.last().uuid == uuid {
        Some(list.last())
    } else {
        last_collection_in(list.drop_last(), uuid)
    }
}

/// The last thing with a uuid.
pub open spec fn last_thing_in(list: Seq<ThingEntryView>, uuid: Seq<char>) -> Option<ThingEntryView>
    decreases list.len(),
{
    if list.len() == 0 {
        None
    } else if list.last().uuid == uuid {
        Some(list.last())
    } else {
        last_thing_in(list.drop_last(), uuid)
    }
}

fn find_last_collection(list: &Vec<ThingCollectionEntry>, uuid: &str) -> (out: Option<usize>)
    ensures
        match out {
            Some(at) => at < list@.len() && last_collection_in(
                collection_entry_views(list@),
                uuid@,
            ) == Some(list@[at as int]@),
            None => last_collection_in(collection_entry_views(list@), uuid@) is None,
        },
{
    let ghost all = collection_entry_views(list@);
    let mut i: usize = list.len();
    proof {
        assert(all.take(i as int) =~= all);
    }
    while i > 0
        invariant
            i <= list@.len(),
            all == collection_entry_views(list@),
            last_collection_in(all, uuid@) == last_collection_in(all.take(i as int), uuid@),
        decreases i,
    {
        i = i - 1;
        proof {
            assert(all.take(i + 1).last() == list@[i as int]@);
            assert(all.take(i + 1).drop_last() =~= all.take(i as int));
        }
        if same(list[i].uuid.as_str(), uuid) {
            return Some(i);
        }
    }
    None
}

fn find_last_thing(list: &Vec<ThingEntry>, uuid: &str) -> (out: Option<usize>)
    ensures
        match out {
            Some(at) => at < list@.len() && last_thing_in(thing_entry_views(list@), uuid@) == Some(
                list@[at as int]@,
            ),
            None => last_thing_in(thing_entry_views(list@), uuid@) is None,
        },
{
    let ghost all = thing_entry_views(list@);
    let mut i: usize = list.len();
    proof {
        assert(all.take(i as int) =~= all);
    }
    while i > 0
        invariant
            i <= list@.len(),
            all == thing_entry_views(list@),
            last_thing_in(all, uuid@) == last_thing_in(all.take(i as int), uuid@),
        decreases i,
    {
        i = i - 1;
        proof {
            assert(all.take(i + 1).last() == list@[i as int]@);
            assert(all.take(i + 1).drop_last() =~= all.take(i as int));
        }
        if same(list[i].uuid.as_str(), uuid) {
            return Some(i);
        }
    }
    None
}

/// What is reported of the collections that are new or changed.
pub open spec fn new_collections(
    before: Seq<CollectionEntryView>,
    after: Seq<CollectionEntryView>,
) -> Seq<EventView>
    decreases after.len(),
{
    if after.len() == 0 {
        Seq::empty()
    } else {
        let rest = new_collections(before, after.drop_last());
        let c = after.last();
        match last_collection_in(before, c.uuid) {
            None => rest.push(collection_event(ThingsDocumentChangeKind::Created, c.uuid)),
            Some(old) => if old != c {
                rest.push(collection_event(ThingsDocumentChangeKind::Updated, c.uuid))
            } else {
                rest
            },
        }
    }
}

/// What is reported of the collections that are gone.
pub open spec fn gone_collections(
    before: Seq<CollectionEntryView>,
    after: Seq<CollectionEntryView>,
) -> Seq<EventView>
    decreases before.len(),
{
    if before.len() == 0 {
        Seq::empty()
    } else {
        let rest = gone_collections(before.drop_last(), after);
        let c = before.last();
        if last_collection_in(after, c.uuid) is None {
            rest.push(collection_event(ThingsDocumentChangeKind::Deleted, c.uuid))
        } else {
            rest
        }
    }
}

/// What is reported of the things that are new or changed.
pub open spec fn new_things(before: Seq<ThingEntryView>, after: Seq<ThingEntryView>) -> Seq<
    EventView,
>
    decreases after.len(),
{
    if after.len() == 0 {
        Seq::empty()
    } else {
        let rest = new_things(before, after.drop_last());
        let t = after.last();
        match last_thing_in(before, t.uuid) {
            None => rest.push(
                thing_event(ThingsDocumentChangeKind::Created, t.collection_uuid, t.uuid),
            ),
            Some(old) => if old != t {
                rest.push(
                    thing_event(ThingsDocumentChangeKind::Updated, t.collection_uuid, t.uuid),
                )
            } else {
                rest
            },
        }
    }
}

/// What is reported of the things that are gone.
pub open spec fn gone_things(before: Seq<ThingEntryView>, after: Seq<ThingEntryView>) -> Seq<
    EventView,
>
    decreases before.len(),
{
    if before.len() == 0 {
        Seq::empty()
    } else {
        let rest = gone_things(before.drop_last(), after);
        let t = before.last();
        if last_thing_in(after, t.uuid) is None {
            rest.push(thing_event(ThingsDocumentChangeKind::Deleted, t.collection_uuid, t.uuid))
        } else {
            rest
        }
    }
}

proof fn lemma_event_push(events: Seq<ThingsDocumentEvent>, e: ThingsDocumentEvent)
    ensures
        events_view(events.push(e)) == events_view(events).push(e@),
{
    assert(events_view(events.push(e)) =~= events_view(events).push(e@));
}

fn report_new_collections(before: &ThingsSnapshot, after: &ThingsSnapshot) -> (events: Vec<
    ThingsDocumentEvent,
>)
    ensures
        events_view(events@) == new_collections(
            collection_entry_views(before.collections@),
            collection_entry_views(after.collections@),
        ),
{
    let ghost old_list = collection_entry_views(before.collections@);
    let ghost all = collection_entry_views(after.collections@);
    let mut events: Vec<ThingsDocumentEvent> = Vec::new();
    let mut i: usize = 0;
    proof {
        assert(all.take(0) =~= Seq::empty());
        assert(events_view(events@) =~= Seq::empty());
    }
    while i < after.collections.len()
        invariant
            i <= after.collections@.len(),
            old_list == collection_entry_views(before.collections@),
            all == collection_entry_views(after.collections@),
            events_view(events@) == new_collections(old_list, all.take(i as int)),
        decreases after.collections@.len() - i,
    {
        let c = &after.collections[i];
        proof {
            assert(all.take(i + 1).drop_last() =~= all.take(i as int));
            assert(all.take(i + 1).last() == c@);
        }
        let kind = match find_last_collection(&before.collections, c.uuid.as_str()) {
            None => Some(ThingsDocumentChangeKind::Created),
            Some(at) => if same_collection_entry(&before.collections[at], c) {
                None
            } else {
                Some(ThingsDocumentChangeKind::Updated)
            },
        };
        if let Some(kind) = kind {
            let e = ThingsDocumentEvent::collection(kind, c.uuid.as_str());
            proof {
                lemma_event_push(events@, e);
            }
            events.push(e);
        }
        i = i + 1;
    }
    proof {
        assert(all.take(i as int) =~= all);
    }
    events
}

fn report_gone_collections(before: &ThingsSnapshot, after: &ThingsSnapshot) -> (events: Vec<
    ThingsDocumentEvent,
>)
    ensures
        events_view(events@) == gone_collections(
            collection_entry_views(before.collections@),
            collection_entry_views(after.collections@),
        ),
{
    let ghost all = collection_entry_views(before.collections@);
    let ghost new_list = collection_entry_views(after.collections@);
    let mut events: Vec<ThingsDocumentEvent> = Vec::new();
    let mut i: usize = 0;
    proof {
        assert(all.take(0) =~= Seq::empty());
        assert(events_view(events@) =~= Seq::empty());
    }
    while i < before.collections.len()
        invariant
            i <= before.collections@.len(),
            all == collection_entry_views(before.collections@),
            new_list == collection_entry_views(after.collections@),
            events_view(events@) == gone_collections(all.take(i as int), new_list),
        decreases before.collections@.len() - i,
    {
        let c = &before.collections[i];
        proof {
            assert(all.take(i + 1).drop_last() =~= all.take(i as int));
            assert(all.take(i + 1).last() == c@);
        }
        if find_last_collection(&after.collections, c.uuid.as_str()).is_none() {
            let e = ThingsDocumentEvent::collection(
                ThingsDocumentChangeKind::Deleted,
                c.uuid.as_str(),
            );
            proof {
                lemma_event_push(events@, e);
            }
            events.push(e);
        }
        i = i + 1;
    }
    proof {
        assert(all.take(i as int) =~= all);
    }
    events
}

fn report_new_things(before: &ThingsSnapshot, after: &ThingsSnapshot) -> (events: Vec<
    ThingsDocumentEvent,
>)
    ensures
        events_view(events@) == new_things(
            thing_entry_views(before.things@),
            thing_entry_views(after.things@),
        ),
{
    let ghost old_list = thing_entry_views(before.things@);
    let ghost all = thing_entry_views(after.things@);
    let mut events: Vec<ThingsDocumentEvent> = Vec::new();
    let mut i: usize = 0;
    proof {
        assert(all.take(0) =~= Seq::empty());
        assert(events_view(events@) =~= Seq::empty());
    }
    while i < after.things.len()
        invariant
            i <= after.things@.len(),
            old_list == thing_entry_views(before.things@),
            all == thing_entry_views(after.things@),
            events_view(events@) == new_things(old_list, all.take(i as int)),
        decreases after.things@.len() - i,
    {
        let t = &after.things[i];
        proof {
            assert(all.take(i + 1).drop_last() =~= all.take(i as int));
            assert(all.take(i + 1).last() == t@);
        }
        let kind = match find_last_thing(&before.things, t.uuid.as_str()) {
            None => Some(ThingsDocumentChangeKind::Created),
            Some(at) => if same_thing_entry(&before.things[at], t) {
                None
            } else {
                Some(ThingsDocumentChangeKind::Updated)
            },
        };
        if let Some(kind) = kind {
            let e = ThingsDocumentEvent::thing(
                kind,
                t.collection_uuid.as_str(),
                t.uuid.as_str(),
            );
            proof {
                lemma_event_push(events@, e);
            }
            events.push(e);
        }
        i = i + 1;
    }
    proof {
        assert(all.take(i as int) =~= all);
    }
    events
}

fn report_gone_things(before: &ThingsSnapshot, after: &ThingsSnapshot) -> (events: Vec<
    ThingsDocumentEvent,
>)
    ensures
        events_view(events@) == gone_things(
            thing_entry_views(before.things@),
            thing_entry_views(after.things@),
        ),
{
    let ghost all = thing_entry_views(before.things@);
    let ghost new_list = thing_entry_views(after.things@);
    let mut events: Vec<ThingsDocumentEvent> = Vec::new();
    let mut i: usize = 0;
    proof {
        assert(all.take(0) =~= Seq::empty());
        assert(events_view(events@) =~= Seq::empty());
    }
    while i < before.things.len()
        invariant
            i <= before.things@.len(),
            all == thing_entry_views(before.things@),
            new_list == thing_entry_views(after.things@),
            events_view(events@) == gone_things(all.take(i as int), new_list),
        decreases before.things@.len() - i,
    {
        let t = &before.things[i];
        proof {
            assert(all.take(i + 1).drop_last() =~= all.take(i as int));
            assert(all.take(i + 1).last() == t@);
        }
        if find_last_thing(&after.things, t.uuid.as_str()).is_none() {
            let e = ThingsDocumentEvent::thing(
                ThingsDocumentChangeKind::Deleted,
                t.collection_uuid.as_str(),
                t.uuid.as_str(),
            );
            proof {
                lemma_event_push(events@, e);
            }
            events.push(e);
        }
        i = i + 1;
    }
    proof {
        assert(all.take(i as int) =~= all);
    }
    events
}

/// What is reported of the difference between two snapshots.
pub fn diff_snapshot_document_events(before: &ThingsSnapshot, after: &ThingsSnapshot) -> (events:
    Vec<ThingsDocumentEvent>)
    ensures
        events_view(events@) == new_collections(
            collection_entry_views(before.collections@),
            collection_entry_views(after.collections@),
        ) + gone_collections(
            collection_entry_views(before.collections@),
            collection_entry_views(after.collections@),
        ) + new_things(thing_entry_views(before.things@), thing_entry_views(after.things@))
            + gone_things(thing_entry_views(before.things@), thing_entry_views(after.things@)),
{
    let events = append_events(
        report_new_collections(before, after),
        report_gone_collections(before, after),
    );
    let events = append_events(events, report_new_things(before, after));
    append_events(events, report_gone_things(before, after))
}

/// Whether no two collections have the same uuid.
pub open spec fn uuids_differ(list: Seq<CollectionEntryView>) -> bool {
    forall|i: int, j: int|
        0 <= i < j < list.len() ==> (#[trigger] list[i]).uuid != (#[trigger] list[j]).uuid
}

/// Nothing is reported of collections that stayed as they were.
pub proof fn law_no_difference(list: Seq<CollectionEntryView>)
    requires
        uuids_differ(list),
    ensures
        new_collections(list, list) == Seq::<EventView>::empty(),
        gone_collections(list, list) == Seq::<EventView>::empty(),
{
    lemma_same_new(list, list.len() as int);
    lemma_same_gone(list, list.len() as int);
    assert(list.take(list.len() as int) =~= list);
}

proof fn lemma_last_is(list: Seq<CollectionEntryView>, at: int)
    requires
        uuids_differ(list),
        0 <= at < list.len(),
    ensures
        last_collection_in(list, list[at].uuid) == Some(list[at]),
    decreases list.len(),
{
    if at < list.len() - 1 {
        assert(list[at].uuid != list[list.len() - 1].uuid);
        assert(uuids_differ(list.drop_last())) by {
            assert forall|i: int, j: int| 0 <= i < j < list.drop_last().len() implies (
            #[trigger] list.drop_last()[i]).uuid != (#[trigger] list.drop_last()[j]).uuid by {
                assert(list[i].uuid != list[j].uuid);
            }
        }
        lemma_last_is(list.drop_last(), at);
    }
}

proof fn lemma_same_new(list: Seq<CollectionEntryView>, n: int)
    requires
        uuids_differ(list),
        0 <= n <= list.len(),
    ensures
        new_collections(list, list.take(n)) == Seq::<EventView>::empty(),
    decreases n,
{
    if n > 0 {
        lemma_same_new(list, n - 1);
        assert(list.take(n).drop_last() =~= list.take(n - 1));
        lemma_last_is(list, n - 1);
    }
}

proof fn lemma_same_gone(list: Seq<CollectionEntryView>, n: int)
    requires
        uuids_differ(list),
        0 <= n <= list.len(),
    ensures
        gone_collections(list.take(n), list) == Seq::<EventView>::empty(),
    decreases n,
{
    if n > 0 {
        lemma_same_gone(list, n - 1);
        assert(list.take(n).drop_last() =~= list.take(n - 1));
        lemma_last_is(list, n - 1);
    }
}

/// The JSON form of a range.
pub open spec fn range_json(range: Option<(i64, i64)>) -> JsonView {
    match range {
        Some((low, high)) => JsonView::List(
            seq![
                JsonView::Number(crate::json::int_text(low as int)),
                JsonView::Number(crate::json::int_text(high as int)),
            ],
        ),
        None => JsonView::Null,
    }
}

/// What is sent when changes from elsewhere were applied.
pub open spec fn applied_payload(range: Option<(i64, i64)>, created_at: Seq<char>) -> JsonView {
    JsonView::Object(
        seq![
            ("created_at"@, JsonView::Text(created_at)),
            ("event_range"@, range_json(range)),
            ("type"@, JsonView::Text("sync_applied"@)),
        ],
    )
}

/// What is sent when changes from elsewhere were applied at a time.
pub fn sync_applied_payload_at(range: Option<(i64, i64)>, created_at: &str) -> (payload: Json)
    ensures
        payload@ == applied_payload(range, created_at@),
{
    let shown = match range {
        Some(r) => {
            let items = vec![Json::signed(r.0), Json::signed(r.1)];
            proof {
                assert(list_view(items@) =~= seq![
                    JsonView::Number(crate::json::int_text(r.0 as int)),
                    JsonView::Number(crate::json::int_text(r.1 as int)),
                ]);
            }
            Json::list(items)
        },
        None => Json::Null,
    };
    let entries = vec![
        entry("created_at", Json::text(created_at)),
        entry("event_range", shown),
        entry("type", Json::text("sync_applied")),
    ];
    proof {
        assert(entries_view(entries@) =~= applied_payload(range, created_at@)->Object_0);
    }
    Json::object(entries)
}

/// What is sent when changes from elsewhere were applied now.
pub fn sync_applied_payload(range: Option<(i64, i64)>) -> (payload: Json)
    ensures
        exists|t: DomainTime|
            clock_time(t) && payload@ == applied_payload(range, #[trigger] rfc3339_offset_text(t)),
{
    let t = now();
    let text = write_rfc3339_offset(t);
    sync_applied_payload_at(range, text.as_str())
}

/// The last entry with an id.
pub open spec fn last_entry_in(list: Seq<EntryView>, id: Seq<char>) -> Option<EntryView>
    decreases list.len(),
{
    if list.len() == 0 {
        None
    } else if list.last().id == id {
        Some(list.last())
    } else {
        last_entry_in(list.drop_last(), id)
    }
}

fn find_last_entry(list: &Vec<ContentEntry>, id: &str) -> (out: Option<usize>)
    ensures
        match out {
            Some(at) => at < list@.len() && last_entry_in(entry_views(list@), id@) == Some(
                list@[at as int]@,
            ),
            None => last_entry_in(entry_views(list@), id@) is None,
        },
{
    let ghost all = entry_views(list@);
    let mut i: usize = list.len();
    proof {
        assert(all.take(i as int) =~= all);
    }
    while i > 0
        invariant
            i <= list@.len(),
            all == entry_views(list@),
            last_entry_in(all, id@) == last_entry_in(all.take(i as int), id@),
        decreases i,
    {
        i = i - 1;
        proof {
            assert(all.take(i + 1).last() == list@[i as int]@);
            assert(all.take(i + 1).drop_last() =~= all.take(i as int));
        }
        if same(list[i].id.as_str(), id) {
            return Some(i);
        }
    }
    None
}

/// What deleting the first `n` entries that are not wanted answers and leaves.
pub open spec fn unwanted_deleted(
    set: SetView,
    collection: Seq<char>,
    id: Seq<char>,
    existing: Seq<EntryView>,
    wanted: Seq<EntryView>,
) -> (Result<Seq<EventView>, ErrorView>, SetView)
    decreases existing.len(),
{
    if existing.len() == 0 {
        (Ok(Seq::empty()), set)
    } else {
        let before = unwanted_deleted(set, collection, id, existing.drop_last(), wanted);
        match before.0 {
            Err(e) => before,
            Ok(events) => if last_entry_in(wanted, existing.last().id) is Some {
                before
            } else {
                events_then(
                    events,
                    entry_deleted_outcome(before.1, collection, id, existing.last().id),
                )
            },
        }
    }
}

/// A value where it differs from the one before.
pub open spec fn if_changed<T>(old: T, new: T) -> Option<T> {
    if old == new {
        None
    } else {
        Some(new)
    }
}

/// What bringing an entry up to date answers and leaves.
pub open spec fn entry_synced(
    set: SetView,
    collection: Seq<char>,
    id: Seq<char>,
    existing: Seq<EntryView>,
    e: EntryView,
) -> (Result<Seq<EventView>, ErrorView>, SetView) {
    match last_entry_in(existing, e.id) {
        None => entry_added_outcome(set, collection, id, e),
        Some(old) => if old.title == e.title && old.order == e.order && old.payload == e.payload {
            (Ok(Seq::empty()), set)
        } else {
            entry_changed_outcome(
                set,
                collection,
                id,
                e.id,
                if_changed(old.title, e.title),
                if_changed(old.order, e.order),
                if_changed(old.payload, e.payload),
            )
        },
    }
}

/// What bringing entries up to date answers and leaves.
pub open spec fn wanted_synced(
    set: SetView,
    collection: Seq<char>,
    id: Seq<char>,
    existing: Seq<EntryView>,
    wanted: Seq<EntryView>,
) -> (Result<Seq<EventView>, ErrorView>, SetView)
    decreases wanted.len(),
{
    if wanted.len() == 0 {
        (Ok(Seq::empty()), set)
    } else {
        let before = wanted_synced(set, collection, id, existing, wanted.drop_last());
        match before.0 {
            Err(e) => before,
            Ok(events) => events_then(
                events,
                entry_synced(before.1, collection, id, existing, wanted.last()),
            ),
        }
    }
}

/// What making the entries of a thing those that are wanted answers and leaves.
pub open spec fn sync_outcome(
    set: SetView,
    collection: Seq<char>,
    id: Seq<char>,
    wanted: Seq<EntryView>,
) -> (Result<Seq<EventView>, ErrorView>, SetView) {
    match entries_refusal(set, collection, id) {
        Some(e) => (Err(e), set),
        None => {
            let existing = thing_entries(set, collection, id);
            let first = unwanted_deleted(set, collection, id, existing, wanted);
            match first.0 {
                Err(e) => first,
                Ok(events) => events_then(
                    events,
                    wanted_synced(first.1, collection, id, existing, wanted),
                ),
            }
        },
    }
}

proof fn lemma_deleted_error(
    set: SetView,
    collection: Seq<char>,
    id: Seq<char>,
    existing: Seq<EntryView>,
    wanted: Seq<EntryView>,
    n: int,
)
    requires
        0 <= n <= existing.len(),
        unwanted_deleted(set, collection, id, existing.take(n), wanted).0 is Err,
    ensures
        unwanted_deleted(set, collection, id, existing, wanted) == unwanted_deleted(
            set,
            collection,
            id,
            existing.take(n),
            wanted,
        ),
    decreases existing.len() - n,
{
    if n < existing.len() {
        assert(existing.take(n + 1).drop_last() =~= existing.take(n));
        lemma_deleted_error(set, collection, id, existing, wanted, n + 1);
    } else {
        assert(existing.take(n) =~= existing);
    }
}

proof fn lemma_synced_error(
    set: SetView,
    collection: Seq<char>,
    id: Seq<char>,
    existing: Seq<EntryView>,
    wanted: Seq<EntryView>,
    n: int,
)
    requires
        0 <= n <= wanted.len(),
        wanted_synced(set, collection, id, existing, wanted.take(n)).0 is Err,
    ensures
        wanted_synced(set, collection, id, existing, wanted) == wanted_synced(
            set,
            collection,
            id,
            existing,
            wanted.take(n),
        ),
    decreases wanted.len() - n,
{
    if n < wanted.len() {
        assert(wanted.take(n + 1).drop_last() =~= wanted.take(n));
        lemma_synced_error(set, collection, id, existing, wanted, n + 1);
    } else {
        assert(wanted.take(n) =~= wanted);
    }
}

fn sync_entry(
    set: &mut ThingsDocumentSet,
    collection_uuid: &str,
    thing_uuid: &str,
    existing: &Vec<ContentEntry>,
    wanted: &ContentEntry,
) -> (out: Result<Vec<ThingsDocumentEvent>, SdkError>)
    ensures
        (outcome_view(out), final(set)@) == entry_synced(
            old(set)@,
            collection_uuid@,
            thing_uuid@,
            entry_views(existing@),
            wanted@,
        ),
{
    match find_last_entry(existing, wanted.id.as_str()) {
        None => set.add_content_entry(collection_uuid, thing_uuid, wanted.duplicate_entry()),
        Some(at) => {
            let old_entry = &existing[at];
            let title = if same_opt(&old_entry.title, &wanted.title) {
                None
            } else {
                Some(wanted.title.clone())
            };
            let order = if same(old_entry.order.as_str(), wanted.order.as_str()) {
                None
            } else {
                Some(wanted.order.clone())
            };
            let payload = if same_payload(&old_entry.payload, &wanted.payload) {
                None
            } else {
                Some(wanted.payload.duplicate_payload())
            };
            if title.is_none() && order.is_none() && payload.is_none() {
                let events: Vec<ThingsDocumentEvent> = Vec::new();
                proof {
                    assert(events_view(events@) =~= Seq::empty());
                }
                Ok(events)
            } else {
                set.update_content_entry(
                    collection_uuid,
                    thing_uuid,
                    wanted.id.as_str(),
                    title,
                    order,
                    payload,
                )
            }
        },
    }
}

/// Makes the entries of a thing those that are wanted.
pub fn sync_content_entries(
    set: &mut ThingsDocumentSet,
    collection_uuid: &str,
    thing_uuid: &str,
    wanted: &Vec<ContentEntry>,
) -> (out: Result<Vec<ThingsDocumentEvent>, SdkError>)
    ensures
        (outcome_view(out), final(set)@) == sync_outcome(
            old(set)@,
            collection_uuid@,
            thing_uuid@,
            entry_views(wanted@),
        ),
{
    let ghost start = set@;
    let existing = match set.get_content_entries(collection_uuid, thing_uuid) {
        Ok(entries) => entries,
        Err(e) => return Err(e),
    };
    let ghost held = entry_views(existing@);
    let ghost all = entry_views(wanted@);
    let mut events: Vec<ThingsDocumentEvent> = Vec::new();
    let mut i: usize = 0;
    proof {
        assert(held.take(0) =~= Seq::empty());
        assert(events_view(events@) =~= Seq::empty());
    }
    while i < existing.len()
        invariant
            i <= existing@.len(),
            held == entry_views(existing@),
            all == entry_views(wanted@),
            start == old(set)@,
            entries_refusal(start, collection_uuid@, thing_uuid@) is None,
            held == thing_entries(start, collection_uuid@, thing_uuid@),
            (Ok::<Seq<EventView>, ErrorView>(events_view(events@)), set@) == unwanted_deleted(
                start,
                collection_uuid@,
                thing_uuid@,
                held.take(i as int),
                all,
            ),
        decreases existing@.len() - i,
    {
        proof {
            assert(held.take(i + 1).drop_last() =~= held.take(i as int));
            assert(held.take(i + 1).last() == existing@[i as int]@);
        }
        if find_last_entry(wanted, existing[i].id.as_str()).is_none() {
            match set.delete_content_entry(
                collection_uuid,
                thing_uuid,
                existing[i].id.as_str(),
            ) {
                Ok(more) => {
                    events = append_events(events, more);
                },
                Err(e) => {
                    proof {
                        lemma_deleted_error(
                            start,
                            collection_uuid@,
                            thing_uuid@,
                            held,
                            all,
                            i + 1,
                        );
                    }
                    return Err(e);
                },
            }
        }
        i = i + 1;
    }
    let ghost middle = set@;
    let ghost first = events_view(events@);
    let mut written: Vec<ThingsDocumentEvent> = Vec::new();
    let mut j: usize = 0;
    proof {
        assert(held.take(i as int) =~= held);
        assert(all.take(0) =~= Seq::empty());
        assert(events_view(written@) =~= Seq::empty());
    }
    while j < wanted.len()
        invariant
            j <= wanted@.len(),
            held == entry_views(existing@),
            all == entry_views(wanted@),
            start == old(set)@,
            entries_refusal(start, collection_uuid@, thing_uuid@) is None,
            held == thing_entries(start, collection_uuid@, thing_uuid@),
            (Ok::<Seq<EventView>, ErrorView>(first), middle) == unwanted_deleted(
                start,
                collection_uuid@,
                thing_uuid@,
                held,
                all,
            ),
            (Ok::<Seq<EventView>, ErrorView>(events_view(written@)), set@) == wanted_synced(
                middle,
                collection_uuid@,
                thing_uuid@,
                held,
                all.take(j as int),
            ),
        decreases wanted@.len() - j,
    {
        proof {
            assert(all.take(j + 1).drop_last() =~= all.take(j as int));
            assert(all.take(j + 1).last() == wanted@[j as int]@);
        }
        match sync_entry(set, collection_uuid, thing_uuid, &existing, &wanted[j]) {
            Ok(more) => {
                written = append_events(written, more);
            },
            Err(e) => {
                proof {
                    lemma_synced_error(
                        middle,
                        collection_uuid@,
                        thing_uuid@,
                        held,
                        all,
                        j + 1,
                    );
                }
                return Err(e);
            },
        }
        j = j + 1;
    }
    proof {
        assert(all.take(j as int) =~= all);
    }
    Ok(append_events(events, written))
}

/// The entries that a payload says a thing has; none where it says nothing of them.
pub open spec fn payload_entries(payload: JsonView) -> Option<JsonView> {
    match field(payload, "built_in"@) {
        Some(built_in) => field(built_in, "content_entries"@),
        None => None,
    }
}

/// Makes the entries of a thing those that a snapshot says it has, where it speaks of
/// them. A document that an entry does not name gets an identifier by chance.
pub fn sync_content_entries_from_snapshot_payload(
    set: &mut ThingsDocumentSet,
    collection_uuid: &str,
    thing_uuid: &str,
    payload: &Json,
) -> (out: Result<Vec<ThingsDocumentEvent>, SdkError>)
    ensures
        match payload_entries(payload@) {
            None => outcome_view(out) == Ok::<Seq<EventView>, ErrorView>(Seq::empty())
                && final(set)@ == old(set)@,
            Some(JsonView::List(_)) => match entries_fault(payload@) {
                Some(message) => outcome_view(out) == Err::<Seq<EventView>, ErrorView>(
                    ErrorView::Failure { message },
                ) && final(set)@ == old(set)@,
                None => exists|wanted: Seq<EntryView>|
                    entries_read(payload@, wanted) && (outcome_view(out), final(set)@)
                        == #[trigger] sync_outcome(
                        old(set)@,
                        collection_uuid@,
                        thing_uuid@,
                        wanted,
                    ),
            },
            Some(_) => outcome_view(out) == Err::<Seq<EventView>, ErrorView>(
                ErrorView::Failure {
                    message: "built_in.content_entries must be an array when present"@,
                },
            ) && final(set)@ == old(set)@,
        },
{
    broadcast use {
        crate::json::lemma_json_list_view,
        crate::json::lemma_json_object_view,
    };

    let entries = match payload.get("built_in") {
        Some(built_in) => built_in.get("content_entries"),
        None => None,
    };
    match entries {
        None => {
            let events: Vec<ThingsDocumentEvent> = Vec::new();
            proof {
                assert(events_view(events@) =~= Seq::empty());
            }
            Ok(events)
        },
        Some(Json::List(_)) => {
            match ContentTypeRegistry::new().extract_content_entries_from_snapshot_data(payload) {
                Ok(wanted) => sync_content_entries(set, collection_uuid, thing_uuid, &wanted),
                Err(e) => Err(e),
            }
        },
        Some(_) => Err(failure("built_in.content_entries must be an array when present")),
    }
}

} // verus!
