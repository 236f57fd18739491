//! The decoded documents of things: the root, one document for each collection with
//! its things, and the content documents.
use crate::content_registry::{entry_views, ContentEntry, EntryView};
use crate::json::{copy_opt_json, json_opt_view, opt_view, Json, JsonView};
use crate::text::views;
use crate::things_types::{datatype_name, ThingDatatype};
use vstd::prelude::*;

verus! {

/// A thing in the document of its collection.
#[derive(Debug)]
pub struct ThingDoc {
    pub id: String,
    pub title: Option<String>,
    pub status: String,
    pub status_timestamp_ms: Option<i64>,
    pub datatype: ThingDatatype,
    pub parent_id: Option<String>,
    pub deleted: bool,
    pub attrs: Option<Json>,
    pub entries: Vec<ContentEntry>,
    pub extra: Option<Json>,
}

/// A thing in the document of its collection, over character sequences.
pub struct ThingDocView {
    pub id: Seq<char>,
    pub title: Option<Seq<char>>,
    pub status: Seq<char>,
    pub status_timestamp_ms: Option<i64>,
    pub datatype: Seq<char>,
    pub parent_id: Option<Seq<char>>,
    pub deleted: bool,
    pub attrs: Option<JsonView>,
    pub entries: Seq<EntryView>,
    pub extra: Option<JsonView>,
}

impl View for ThingDoc {
    type V = ThingDocView;

    open spec fn view(&self) -> ThingDocView {
        ThingDocView {
            id: self.id@,
            title: opt_view(self.title),
            status: self.status@,
            status_timestamp_ms: self.status_timestamp_ms,
            datatype: datatype_name(self.datatype),
            parent_id: opt_view(self.parent_id),
            deleted: self.deleted,
            attrs: json_opt_view(self.attrs),
            entries: entry_views(self.entries@),
            extra: json_opt_view(self.extra),
        }
    }
}

pub open spec fn thing_views(things: Seq<ThingDoc>) -> Seq<ThingDocView> {
    things.map_values(|t: ThingDoc| t@)
}

/// The document of a collection.
#[derive(Debug)]
pub struct CollectionDoc {
    pub id: String,
    pub title: String,
    pub status: String,
    pub deleted: bool,
    pub attrs: Option<Json>,
    pub things: Vec<ThingDoc>,
    pub dirty: bool,
    pub last_sync_at: Option<String>,
}

/// The document of a collection, over character sequences.
pub struct CollView {
    pub id: Seq<char>,
    pub title: Seq<char>,
    pub status: Seq<char>,
    pub deleted: bool,
    pub attrs: Option<JsonView>,
    pub things: Seq<ThingDocView>,
    pub dirty: bool,
    pub last_sync_at: Option<Seq<char>>,
}

impl View for CollectionDoc {
    type V = CollView;

    open spec fn view(&self) -> CollView {
        CollView {
            id: self.id@,
            title: self.title@,
            status: self.status@,
            deleted: self.deleted,
            attrs: json_opt_view(self.attrs),
            things: thing_views(self.things@),
            dirty: self.dirty,
            last_sync_at: opt_view(self.last_sync_at),
        }
    }
}

pub open spec fn coll_views(list: Seq<CollectionDoc>) -> Seq<CollView> {
    list.map_values(|c: CollectionDoc| c@)
}

/// One block of a text.
#[derive(Debug)]
pub struct Block {
    pub id: String,
    pub kind: String,
    pub attrs_json: Option<String>,
    pub text: Option<String>,
}

/// One block of a text, over character sequences.
pub struct BlockView {
    pub id: Seq<char>,
    pub kind: Seq<char>,
    pub attrs_json: Option<Seq<char>>,
    pub text: Option<Seq<char>>,
}

impl View for Block {
    type V = BlockView;

    open spec fn view(&self) -> BlockView {
        BlockView {
            id: self.id@,
            kind: self.kind@,
            attrs_json: opt_view(self.attrs_json),
            text: opt_view(self.text),
        }
    }
}

pub open spec fn block_views(list: Seq<Block>) -> Seq<BlockView> {
    list.map_values(|b: Block| b@)
}

/// What a content document holds.
#[derive(Debug)]
pub enum Content {
    Blocks(Vec<Block>),
    Payload(Json),
}

/// What a content document holds, over character sequences.
pub enum ContentView {
    Blocks(Seq<BlockView>),
    Payload(JsonView),
}

impl View for Content {
    type V = ContentView;

    open spec fn view(&self) -> ContentView {
        match self {
            Content::Blocks(blocks) => ContentView::Blocks(block_views(blocks@)),
            Content::Payload(j) => ContentView::Payload(j@),
        }
    }
}

pub open spec fn content_opt_view(c: Option<Content>) -> Option<ContentView> {
    match c {
        Some(c) => Some(c@),
        None => None,
    }
}

/// A content document of a thing.
#[derive(Debug)]
pub struct ContentDoc {
    pub uuid: String,
    pub thing_uuid: String,
    pub content_type: String,
    pub content: Option<Content>,
    pub dirty: bool,
    pub last_sync_at: Option<String>,
}

/// A content document of a thing, over character sequences.
pub struct ContentDocView {
    pub uuid: Seq<char>,
    pub thing_uuid: Seq<char>,
    pub content_type: Seq<char>,
    pub content: Option<ContentView>,
    pub dirty: bool,
    pub last_sync_at: Option<Seq<char>>,
}

impl View for ContentDoc {
    type V = ContentDocView;

    open spec fn view(&self) -> ContentDocView {
        ContentDocView {
            uuid: self.uuid@,
            thing_uuid: self.thing_uuid@,
            content_type: self.content_type@,
            content: content_opt_view(self.content),
            dirty: self.dirty,
            last_sync_at: opt_view(self.last_sync_at),
        }
    }
}

pub open spec fn content_views(list: Seq<ContentDoc>) -> Seq<ContentDocView> {
    list.map_values(|c: ContentDoc| c@)
}

/// The root document: which collections there are.
#[derive(Debug)]
pub struct RootDoc {
    pub collection_uuids: Vec<String>,
    pub dirty: bool,
    pub last_sync_at: Option<String>,
}

/// The root document, over character sequences.
pub struct RootView {
    pub collection_uuids: Seq<Seq<char>>,
    pub dirty: bool,
    pub last_sync_at: Option<Seq<char>>,
}

impl View for RootDoc {
    type V = RootView;

    open spec fn view(&self) -> RootView {
        RootView {
            collection_uuids: views(self.collection_uuids@),
            dirty: self.dirty,
            last_sync_at: opt_view(self.last_sync_at),
        }
    }
}

/// All documents of a device.
#[derive(Debug)]
pub struct ThingsDocumentSet {
    pub device_id: String,
    pub root: Option<RootDoc>,
    pub collections: Vec<CollectionDoc>,
    pub contents: Vec<ContentDoc>,
}

/// All documents of a device, over character sequences.
pub struct SetView {
    pub device_id: Seq<char>,
    pub root: Option<RootView>,
    pub collections: Seq<CollView>,
    pub contents: Seq<ContentDocView>,
}

impl View for ThingsDocumentSet {
    type V = SetView;

    open spec fn view(&self) -> SetView {
        SetView {
            device_id: self.device_id@,
            root: match self.root {
                Some(root) => Some(root@),
                None => None,
            },
            collections: coll_views(self.collections@),
            contents: content_views(self.contents@),
        }
    }
}

/// Copies content entries.
pub fn copy_content_entries(entries: &Vec<ContentEntry>) -> (out: Vec<ContentEntry>)
    ensures
        entry_views(out@) == entry_views(entries@),
{
    let mut out: Vec<ContentEntry> = Vec::new();
    let mut i: usize = 0;
    while i < entries.len()
        invariant
            i <= entries@.len(),
            out@.len() == i,
            forall|k: int| 0 <= k < i ==> (#[trigger] out@[k])@ == entries@[k]@,
        decreases entries@.len() - i,
    {
        out.push(entries[i].duplicate_entry());
        i = i + 1;
    }
    proof {
        assert(entry_views(out@) =~= entry_views(entries@));
    }
    out
}

impl ThingDoc {
    /// Copies the thing.
    pub fn duplicate_thing(&self) -> (copy: Self)
        ensures
            copy@ == self@,
    {
        ThingDoc {
            id: self.id.clone(),
            title: self.title.clone(),
            status: self.status.clone(),
            status_timestamp_ms: self.status_timestamp_ms,
            datatype: self.datatype.duplicate_datatype(),
            parent_id: self.parent_id.clone(),
            deleted: self.deleted,
            attrs: copy_opt_json(&self.attrs),
            entries: copy_content_entries(&self.entries),
            extra: copy_opt_json(&self.extra),
        }
    }
}

impl CollectionDoc {
    /// Copies the document.
    pub fn duplicate_collection(&self) -> (copy: Self)
        ensures
            copy@ == self@,
    {
        let mut things: Vec<ThingDoc> = Vec::new();
        let mut i: usize = 0;
        while i < self.things.len()
            invariant
                i <= self.things@.len(),
                things@.len() == i,
                forall|k: int| 0 <= k < i ==> (#[trigger] things@[k])@ == self.things@[k]@,
            decreases self.things@.len() - i,
        {
            things.push(self.things[i].duplicate_thing());
            i = i + 1;
        }
        proof {
            assert(thing_views(things@) =~= thing_views(self.things@));
        }
        CollectionDoc {
            id: self.id.clone(),
            title: self.title.clone(),
            status: self.status.clone(),
            deleted: self.deleted,
            attrs: copy_opt_json(&self.attrs),
            things,
            dirty: self.dirty,
            last_sync_at: self.last_sync_at.clone(),
        }
    }
}

} // verus!
