//! What the library tells a user interface of changed things.
use crate::json::opt_view;
use crate::text::owned;
use crate::things_types::{ThingCollectionEntry, ThingEntry};
use vstd::prelude::*;

verus! {

/// What kind of document changed.
#[derive(Clone, Copy, Debug, PartialEq, Eq, Structural)]
pub enum ThingsDocumentKind {
    Root,
    Collection,
    Thing,
    ThingMarkdown,
    ContentEntry,
}

/// How a document changed.
#[derive(Clone, Copy, Debug, PartialEq, Eq, Structural)]
pub enum ThingsDocumentChangeKind {
    Created,
    Updated,
    Deleted,
}

/// One changed document and where it belongs.
#[derive(Debug, PartialEq, Eq)]
pub struct ThingsDocumentEvent {
    pub document_kind: ThingsDocumentKind,
    pub change_kind: ThingsDocumentChangeKind,
    pub document_uuid: String,
    pub collection_uuid: Option<String>,
    pub thing_uuid: Option<String>,
    pub entry_id: Option<String>,
}

/// One changed document over character sequences.
pub struct EventView {
    pub document_kind: ThingsDocumentKind,
    pub change_kind: ThingsDocumentChangeKind,
    pub document_uuid: Seq<char>,
    pub collection_uuid: Option<Seq<char>>,
    pub thing_uuid: Option<Seq<char>>,
    pub entry_id: Option<Seq<char>>,
}

impl View for ThingsDocumentEvent {
    type V = EventView;

    open spec fn view(&self) -> EventView {
        EventView {
            document_kind: self.document_kind,
            change_kind: self.change_kind,
            document_uuid: self.document_uuid@,
            collection_uuid: opt_view(self.collection_uuid),
            thing_uuid: opt_view(self.thing_uuid),
            entry_id: opt_view(self.entry_id),
        }
    }
}

pub open spec fn events_view(events: Seq<ThingsDocumentEvent>) -> Seq<EventView> {
    events.map_values(|e: ThingsDocumentEvent| e@)
}

pub open spec fn root_event(change_kind: ThingsDocumentChangeKind) -> EventView {
    EventView {
        document_kind: ThingsDocumentKind::Root,
        change_kind,
        document_uuid: "root"@,
        collection_uuid: None,
        thing_uuid: None,
        entry_id: None,
    }
}

pub open spec fn collection_event(
    change_kind: ThingsDocumentChangeKind,
    collection: Seq<char>,
) -> EventView {
    EventView {
        document_kind: ThingsDocumentKind::Collection,
        change_kind,
        document_uuid: collection,
        collection_uuid: Some(collection),
        thing_uuid: None,
        entry_id: None,
    }
}

pub open spec fn thing_event(
    change_kind: ThingsDocumentChangeKind,
    collection: Seq<char>,
    thing: Seq<char>,
) -> EventView {
    EventView {
        document_kind: ThingsDocumentKind::Thing,
        change_kind,
        document_uuid: thing,
        collection_uuid: Some(collection),
        thing_uuid: Some(thing),
        entry_id: None,
    }
}

pub open spec fn markdown_event(
    change_kind: ThingsDocumentChangeKind,
    collection: Option<Seq<char>>,
    thing: Seq<char>,
) -> EventView {
    EventView {
        document_kind: ThingsDocumentKind::ThingMarkdown,
        change_kind,
        document_uuid: thing,
        collection_uuid: collection,
        thing_uuid: Some(thing),
        entry_id: None,
    }
}

pub open spec fn content_entry_event(
    change_kind: ThingsDocumentChangeKind,
    collection: Seq<char>,
    thing: Seq<char>,
    entry: Seq<char>,
) -> EventView {
    EventView {
        document_kind: ThingsDocumentKind::ContentEntry,
        change_kind,
        document_uuid: entry,
        collection_uuid: Some(collection),
        thing_uuid: Some(thing),
        entry_id: Some(entry),
    }
}

impl ThingsDocumentEvent {
    /// The root document changed.
    pub fn root(change_kind: ThingsDocumentChangeKind) -> (event: Self)
        ensures
            event@ == root_event(change_kind),
    {
        ThingsDocumentEvent {
            document_kind: ThingsDocumentKind::Root,
            change_kind,
            document_uuid: owned("root"),
            collection_uuid: None,
            thing_uuid: None,
            entry_id: None,
        }
    }

    /// A collection changed.
    pub fn collection(change_kind: ThingsDocumentChangeKind, collection_uuid: &str) -> (event: Self)
        ensures
            event@ == collection_event(change_kind, collection_uuid@),
    {
        ThingsDocumentEvent {
            document_kind: ThingsDocumentKind::Collection,
            change_kind,
            document_uuid: owned(collection_uuid),
            collection_uuid: Some(owned(collection_uuid)),
            thing_uuid: None,
            entry_id: None,
        }
    }

    /// A thing changed.
    pub fn thing(
        change_kind: ThingsDocumentChangeKind,
        collection_uuid: &str,
        thing_uuid: &str,
    ) -> (event: Self)
        ensures
            event@ == thing_event(change_kind, collection_uuid@, thing_uuid@),
    {
        ThingsDocumentEvent {
            document_kind: ThingsDocumentKind::Thing,
            change_kind,
            document_uuid: owned(thing_uuid),
            collection_uuid: Some(owned(collection_uuid)),
            thing_uuid: Some(owned(thing_uuid)),
            entry_id: None,
        }
    }

    /// The markdown text of a thing changed.
    pub fn thing_markdown(
        change_kind: ThingsDocumentChangeKind,
        collection_uuid: Option<&str>,
        thing_uuid: &str,
    ) -> (event: Self)
        ensures
            event@ == markdown_event(
                change_kind,
                match collection_uuid {
                    Some(c) => Some(c@),
                    None => None,
                },
                thing_uuid@,
            ),
    {
        ThingsDocumentEvent {
            document_kind: ThingsDocumentKind::ThingMarkdown,
            change_kind,
            document_uuid: owned(thing_uuid),
            collection_uuid: match collection_uuid {
                Some(c) => Some(owned(c)),
                None => None,
            },
            thing_uuid: Some(owned(thing_uuid)),
            entry_id: None,
        }
    }

    /// A content entry of a thing changed.
    pub fn content_entry(
        change_kind: ThingsDocumentChangeKind,
        collection_uuid: &str,
        thing_uuid: &str,
        entry_id: &str,
    ) -> (event: Self)
        ensures
            event@ == content_entry_event(change_kind, collection_uuid@, thing_uuid@, entry_id@),
    {
        ThingsDocumentEvent {
            document_kind: ThingsDocumentKind::ContentEntry,
            change_kind,
            document_uuid: owned(entry_id),
            collection_uuid: Some(owned(collection_uuid)),
            thing_uuid: Some(owned(thing_uuid)),
            entry_id: Some(owned(entry_id)),
        }
    }

    /// The event as it is sent for a device.
    pub fn into_event(self, device_id: &str) -> (event: ThingsEvent)
        ensures
            event matches ThingsEvent::DocumentChanged { device_id: d, document } && d@
                == device_id@ && document == self,
    {
        ThingsEvent::DocumentChanged { device_id: owned(device_id), document: self }
    }

    /// The kind of thing that the event is about, as a word.
    pub fn entity_type(&self) -> (name: &'static str)
        ensures
            name@ == entity_type_name(self.document_kind),
    {
        match self.document_kind {
            ThingsDocumentKind::Root => "snapshot",
            ThingsDocumentKind::Collection => "collection",
            ThingsDocumentKind::Thing => "thing",
            ThingsDocumentKind::ThingMarkdown => "thing",
            ThingsDocumentKind::ContentEntry => "content_entry",
        }
    }

    /// The id of what the event is about: the narrowest one that is known.
    pub fn entity_uuid(&self) -> (id: String)
        ensures
            id@ == entity_uuid_of(self@),
    {
        match &self.entry_id {
            Some(id) => id.clone(),
            None => match &self.thing_uuid {
                Some(id) => id.clone(),
                None => match &self.collection_uuid {
                    Some(id) => id.clone(),
                    None => self.document_uuid.clone(),
                },
            },
        }
    }
}

pub open spec fn entity_type_name(kind: ThingsDocumentKind) -> Seq<char> {
    match kind {
        ThingsDocumentKind::Root => "snapshot"@,
        ThingsDocumentKind::Collection => "collection"@,
        ThingsDocumentKind::Thing => "thing"@,
        ThingsDocumentKind::ThingMarkdown => "thing"@,
        ThingsDocumentKind::ContentEntry => "content_entry"@,
    }
}

pub open spec fn entity_uuid_of(event: EventView) -> Seq<char> {
    if event.entry_id is Some {
        event.entry_id->0
    } else if event.thing_uuid is Some {
        event.thing_uuid->0
    } else if event.collection_uuid is Some {
        event.collection_uuid->0
    } else {
        event.document_uuid
    }
}

pub open spec fn change_kind_name(kind: ThingsDocumentChangeKind) -> Seq<char> {
    match kind {
        ThingsDocumentChangeKind::Created => "created"@,
        ThingsDocumentChangeKind::Updated => "updated"@,
        ThingsDocumentChangeKind::Deleted => "deleted"@,
    }
}

impl ThingsDocumentChangeKind {
    /// The change as a word.
    pub fn as_str(&self) -> (name: &'static str)
        ensures
            name@ == change_kind_name(*self),
    {
        match self {
            ThingsDocumentChangeKind::Created => "created",
            ThingsDocumentChangeKind::Updated => "updated",
            ThingsDocumentChangeKind::Deleted => "deleted",
        }
    }
}

/// What is sent to a user interface.
pub enum ThingsEvent {
    /// Everything may have changed: the whole state, as after a synchronisation.
    SnapshotReplaced {
        device_id: String,
        collections: Vec<ThingCollectionEntry>,
        things: Vec<ThingEntry>,
        dirty: bool,
        last_sync_at: Option<String>,
    },
    /// One document changed.
    DocumentChanged { device_id: String, document: ThingsDocumentEvent },
    /// All local data is gone.
    DataWiped,
}

impl ThingsEvent {
    /// The device that the event is for; empty where it is for all.
    pub fn device_id(&self) -> (id: &str)
        ensures
            id@ == match self {
                ThingsEvent::SnapshotReplaced { device_id, .. } => device_id@,
                ThingsEvent::DocumentChanged { device_id, .. } => device_id@,
                ThingsEvent::DataWiped => ""@,
            },
    {
        match self {
            ThingsEvent::SnapshotReplaced { device_id, .. } => device_id.as_str(),
            ThingsEvent::DocumentChanged { device_id, .. } => device_id.as_str(),
            ThingsEvent::DataWiped => "",
        }
    }
}

} // verus!
