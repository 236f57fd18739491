//! The content of things: their entries, their markdown text, and the JSON documents
//! that belong to them.
use crate::content_registry::{
    entry_views, ContentEntry, ContentEntryPayload, ContentTypeRegistry, PayloadView,
};
use crate::error::{failure, SdkError};
use crate::json::{
    entries_view, entry, json_opt_view, json_text, opt_view, text_field, write_json, Json, JsonView,
};
use crate::table::{lemma_position_is, position_of};
use crate::text::{chars_of, owned, same, text_of};
use crate::things_crdt::{
    entries_put, entries_refusal, entry_added, entry_added_outcome, entry_at, entry_changed,
    entry_changed_outcome, entry_deleted_outcome, is_entry, is_live_thing, made_or_changed,
    outcome_view, thing_entries,
};
use crate::things_docs::{
    block_views, copy_content_entries, thing_views, Block, BlockView, CollView, Content, ContentDoc,
    ContentDocView, ContentView, SetView, ThingsDocumentSet,
};
use crate::things_events::{
    content_entry_event, events_view, markdown_event, EventView, ThingsDocumentChangeKind,
    ThingsDocumentEvent,
};
use crate::things_types::{datatype_name, ThingDatatype};
use vstd::prelude::*;
use vstd::string::StringExecFns;

verus! {

/// The view of a payload that may be missing.
pub open spec fn payload_opt_view(p: Option<ContentEntryPayload>) -> Option<PayloadView> {
    match p {
        Some(p) => Some(p@),
        None => None,
    }
}

/// The view of a change of a title.
pub open spec fn title_change_view(t: Option<Option<String>>) -> Option<Option<Seq<char>>> {
    match t {
        Some(t) => Some(opt_view(t)),
        None => None,
    }
}

/// The place of the first entry with an id.
pub(crate) fn find_entry(entries: &Vec<ContentEntry>, id: &str) -> (at: usize)
    ensures
        at == entry_at(entry_views(entries@), id@),
        at <= entries@.len(),
{
    let ghost all = entry_views(entries@);
    let mut i: usize = 0;
    while i < entries.len() && !same(entries[i].id.as_str(), id)
        invariant
            i <= entries@.len(),
            all == entry_views(entries@),
            forall|k: int| 0 <= k < i ==> (#[trigger] all[k]).id != id@,
        ensures
            i < entries@.len() ==> all[i as int].id == id@,
        decreases entries@.len() - i,
    {
        i = i + 1;
    }
    proof {
        lemma_position_is(all, is_entry(id@), i as int);
    }
    i
}

impl ThingsDocumentSet {
    /// Why the content entries of a thing cannot be reached.
    fn content_refusal(&self, collection_uuid: &str, thing_uuid: &str) -> (out: Option<SdkError>)
        ensures
            match out {
                Some(e) => entries_refusal(self@, collection_uuid@, thing_uuid@) == Some(e@),
                None => entries_refusal(self@, collection_uuid@, thing_uuid@) is None,
            },
    {
        let at: usize = self.find_collection(collection_uuid);
        if at == self.collections.len() {
            return Some(failure("Collection not found"));
        }
        if self.collections[at].deleted {
            return Some(failure("Thing not found"));
        }
        let i: usize = self.find_thing(at, thing_uuid);
        if i == self.collections[at].things.len() || self.collections[at].things[i].deleted {
            return Some(failure("Thing not found"));
        }
        None
    }

    /// The content entries of a thing.
    pub fn get_content_entries(&self, collection_uuid: &str, thing_uuid: &str) -> (out: Result<
        Vec<ContentEntry>,
        SdkError,
    >)
        ensures
            match out {
                Ok(entries) => entries_refusal(self@, collection_uuid@, thing_uuid@) is None
                    && entry_views(entries@) == thing_entries(
                    self@,
                    collection_uuid@,
                    thing_uuid@,
                ),
                Err(e) => entries_refusal(self@, collection_uuid@, thing_uuid@) == Some(e@),
            },
    {
        if let Some(e) = self.content_refusal(collection_uuid, thing_uuid) {
            return Err(e);
        }
        let at: usize = self.find_collection(collection_uuid);
        let i: usize = self.find_thing(at, thing_uuid);
        Ok(copy_content_entries(&self.collections[at].things[i].entries))
    }

    /// Puts a content entry into a thing: in the place of the one with its id, or at the
    /// end.
    pub fn add_content_entry(
        &mut self,
        collection_uuid: &str,
        thing_uuid: &str,
        new_entry: ContentEntry,
    ) -> (out: Result<Vec<ThingsDocumentEvent>, SdkError>)
        ensures
            (outcome_view(out), final(self)@) == entry_added_outcome(
                old(self)@,
                collection_uuid@,
                thing_uuid@,
                new_entry@,
            ),
    {
        if let Some(e) = self.content_refusal(collection_uuid, thing_uuid) {
            return Err(e);
        }
        let ghost before = self@;
        let at: usize = self.find_collection(collection_uuid);
        let i: usize = self.find_thing(at, thing_uuid);
        let id = new_entry.id.clone();
        let ghost entries = thing_entries(before, collection_uuid@, thing_uuid@);
        let k: usize = find_entry(&self.collections[at].things[i].entries, id.as_str());
        let existed = k < self.collections[at].things[i].entries.len();
        let ghost added = new_entry@;
        if existed {
            self.collections[at].things[i].entries[k] = new_entry;
        } else {
            self.collections[at].things[i].entries.push(new_entry);
        }
        self.collections[at].dirty = true;
        let kind = if existed {
            ThingsDocumentChangeKind::Updated
        } else {
            ThingsDocumentChangeKind::Created
        };
        let events = vec![
            ThingsDocumentEvent::content_entry(kind, collection_uuid, thing_uuid, id.as_str()),
        ];
        proof {
            let after = entries_put(
                before,
                collection_uuid@,
                thing_uuid@,
                entry_added(entries, added),
            );
            assert(entry_views(self.collections@[at as int].things@[i as int].entries@)
                =~= entry_added(entries, added));
            assert(thing_views(self.collections@[at as int].things@)
                =~= after.collections[at as int].things);
            assert(self@.collections =~= after.collections);
            assert(events_view(events@) =~= seq![
                content_entry_event(
                    made_or_changed(existed),
                    collection_uuid@,
                    thing_uuid@,
                    added.id,
                ),
            ]);
        }
        Ok(events)
    }

    /// Changes the given parts of a content entry.
    pub fn update_content_entry(
        &mut self,
        collection_uuid: &str,
        thing_uuid: &str,
        entry_id: &str,
        title: Option<Option<String>>,
        order: Option<String>,
        payload: Option<ContentEntryPayload>,
    ) -> (out: Result<Vec<ThingsDocumentEvent>, SdkError>)
        ensures
            (outcome_view(out), final(self)@) == entry_changed_outcome(
                old(self)@,
                collection_uuid@,
                thing_uuid@,
                entry_id@,
                title_change_view(title),
                opt_view(order),
                payload_opt_view(payload),
            ),
    {
        if let Some(e) = self.content_refusal(collection_uuid, thing_uuid) {
            return Err(e);
        }
        let ghost before = self@;
        let at: usize = self.find_collection(collection_uuid);
        let i: usize = self.find_thing(at, thing_uuid);
        let ghost entries = thing_entries(before, collection_uuid@, thing_uuid@);
        let k: usize = find_entry(&self.collections[at].things[i].entries, entry_id);
        let existed = k < self.collections[at].things[i].entries.len();
        if existed {
            if let Some(title) = title {
                self.collections[at].things[i].entries[k].title = title;
            }
            if let Some(order) = order {
                self.collections[at].things[i].entries[k].order = order;
            }
            if let Some(payload) = payload {
                self.collections[at].things[i].entries[k].payload = payload;
            }
        }
        self.collections[at].dirty = true;
        let kind = if existed {
            ThingsDocumentChangeKind::Updated
        } else {
            ThingsDocumentChangeKind::Created
        };
        let events = vec![
            ThingsDocumentEvent::content_entry(kind, collection_uuid, thing_uuid, entry_id),
        ];
        proof {
            let changed = entry_changed(
                entries,
                entry_id@,
                title_change_view(title),
                opt_view(order),
                payload_opt_view(payload),
            );
            let after = entries_put(before, collection_uuid@, thing_uuid@, changed);
            assert(entry_views(self.collections@[at as int].things@[i as int].entries@)
                =~= changed);
            assert(thing_views(self.collections@[at as int].things@)
                =~= after.collections[at as int].things);
            assert(self@.collections =~= after.collections);
            assert(events_view(events@) =~= seq![
                content_entry_event(
                    made_or_changed(existed),
                    collection_uuid@,
                    thing_uuid@,
                    entry_id@,
                ),
            ]);
        }
        Ok(events)
    }

    /// Deletes a content entry; nothing happens where there is none.
    pub fn delete_content_entry(
        &mut self,
        collection_uuid: &str,
        thing_uuid: &str,
        entry_id: &str,
    ) -> (out: Result<Vec<ThingsDocumentEvent>, SdkError>)
        ensures
            (outcome_view(out), final(self)@) == entry_deleted_outcome(
                old(self)@,
                collection_uuid@,
                thing_uuid@,
                entry_id@,
            ),
    {
        if let Some(e) = self.content_refusal(collection_uuid, thing_uuid) {
            return Err(e);
        }
        let ghost before = self@;
        let at: usize = self.find_collection(collection_uuid);
        let i: usize = self.find_thing(at, thing_uuid);
        let ghost entries = thing_entries(before, collection_uuid@, thing_uuid@);
        let k: usize = find_entry(&self.collections[at].things[i].entries, entry_id);
        if k == self.collections[at].things[i].entries.len() {
            let none: Vec<ThingsDocumentEvent> = Vec::new();
            proof {
                assert(events_view(none@) =~= Seq::<EventView>::empty());
            }
            return Ok(none);
        }
        let gone = self.collections[at].things[i].entries.remove(k);
        self.collections[at].dirty = true;
        let events = vec![
            ThingsDocumentEvent::content_entry(
                ThingsDocumentChangeKind::Deleted,
                collection_uuid,
                thing_uuid,
                entry_id,
            ),
        ];
        proof {
            let after = entries_put(
                before,
                collection_uuid@,
                thing_uuid@,
                entries.remove(k as int),
            );
            assert(entry_views(self.collections@[at as int].things@[i as int].entries@)
                =~= entries.remove(k as int));
            assert(thing_views(self.collections@[at as int].things@)
                =~= after.collections[at as int].things);
            assert(self@.collections =~= after.collections);
            assert(events_view(events@) =~= seq![
                content_entry_event(
                    ThingsDocumentChangeKind::Deleted,
                    collection_uuid@,
                    thing_uuid@,
                    entry_id@,
                ),
            ]);
        }
        Ok(events)
    }
}

/// The content documents with a uuid.
pub open spec fn is_content(uuid: Seq<char>) -> spec_fn(ContentDocView) -> bool {
    |c: ContentDocView| c.uuid == uuid
}

pub open spec fn content_at(set: SetView, uuid: Seq<char>) -> int {
    position_of(set.contents, is_content(uuid))
}

pub open spec fn has_content(set: SetView, uuid: Seq<char>) -> bool {
    content_at(set, uuid) < set.contents.len()
}

/// What a content document holds.
pub open spec fn content_of(set: SetView, uuid: Seq<char>) -> Option<ContentView> {
    if has_content(set, uuid) {
        set.contents[content_at(set, uuid)].content
    } else {
        None
    }
}

/// The documents after something was written into a content document; one that was
/// missing is made for the thing.
pub open spec fn content_written(
    set: SetView,
    uuid: Seq<char>,
    thing: Seq<char>,
    content_type: Seq<char>,
    content: ContentView,
) -> SetView {
    SetView {
        contents: if has_content(set, uuid) {
            set.contents.update(
                content_at(set, uuid),
                ContentDocView {
                    content: Some(content),
                    dirty: true,
                    ..set.contents[content_at(set, uuid)]
                },
            )
        } else {
            set.contents.push(
                ContentDocView {
                    uuid,
                    thing_uuid: thing,
                    content_type,
                    content: Some(content),
                    dirty: true,
                    last_sync_at: None,
                },
            )
        },
        ..set
    }
}

/// The collection of a thing that is not deleted: the first one that has it.
pub open spec fn holds_thing(id: Seq<char>) -> spec_fn(CollView) -> bool {
    |c: CollView| !c.deleted && position_of(c.things, is_live_thing(id)) < c.things.len()
}

pub open spec fn thing_collection(set: SetView, id: Seq<char>) -> Option<Seq<char>> {
    let at = position_of(set.collections, holds_thing(id));
    if at < set.collections.len() {
        Some(set.collections[at].id)
    } else {
        None
    }
}

/// The text of a markdown value: the value itself where it is a text, its field
/// `markdown`, or else the value as JSON.
pub open spec fn markdown_text_of(payload: JsonView) -> Seq<char> {
    match payload {
        JsonView::Text(s) => s,
        JsonView::Object(_) => match text_field(payload, "markdown"@) {
            Some(s) => s,
            None => json_text(payload),
        },
        _ => json_text(payload),
    }
}

/// The block in which a value is kept.
pub open spec fn block_from_value(datatype: ThingDatatype, payload: JsonView) -> BlockView {
    if datatype is Markdown {
        BlockView {
            id: "main"@,
            kind: "markdown"@,
            attrs_json: None,
            text: Some(markdown_text_of(payload)),
        }
    } else {
        BlockView {
            id: "main"@,
            kind: datatype_name(datatype),
            attrs_json: Some(
                json_text(
                    JsonView::Object(
                        seq![
                            ("embed_kind"@, JsonView::Text(datatype_name(datatype))),
                            ("payload"@, payload),
                        ],
                    ),
                ),
            ),
            text: None,
        }
    }
}

/// The blocks with an id.
pub open spec fn is_block(id: Seq<char>) -> spec_fn(BlockView) -> bool {
    |b: BlockView| b.id == id
}

pub open spec fn block_at(blocks: Seq<BlockView>, id: Seq<char>) -> int {
    position_of(blocks, is_block(id))
}

/// The text of the block `main`.
pub open spec fn main_text(content: Option<ContentView>) -> Option<Seq<char>> {
    match content {
        Some(ContentView::Blocks(blocks)) => if block_at(blocks, "main"@) < blocks.len() {
            blocks[block_at(blocks, "main"@)].text
        } else {
            None
        },
        _ => None,
    }
}

/// A text with `delete` characters from `index` on replaced by `insert`; both are cut
/// off at the end of the text.
pub open spec fn spliced(text: Seq<char>, index: nat, delete: nat, insert: Seq<char>) -> Seq<char> {
    let at: int = if index <= text.len() { index as int } else { text.len() as int };
    let end: int = if at + delete <= text.len() { at + delete } else { text.len() as int };
    text.take(at) + insert + text.skip(end)
}

/// The text of a block; empty where it has none.
pub open spec fn block_text(b: BlockView) -> Seq<char> {
    match b.text {
        Some(t) => t,
        None => Seq::empty(),
    }
}

/// Blocks with the text of one of them spliced.
pub open spec fn blocks_spliced(
    blocks: Seq<BlockView>,
    id: Seq<char>,
    index: nat,
    delete: nat,
    insert: Seq<char>,
) -> Seq<BlockView> {
    let at = block_at(blocks, id);
    if at < blocks.len() {
        blocks.update(
            at,
            BlockView {
                text: Some(spliced(block_text(blocks[at]), index, delete, insert)),
                ..blocks[at]
            },
        )
    } else {
        blocks
    }
}

/// Whether a content document lacks the block `main`.
pub open spec fn lacks_main(content: Option<ContentView>) -> bool {
    match content {
        Some(ContentView::Blocks(blocks)) => block_at(blocks, "main"@) == blocks.len(),
        _ => true,
    }
}

/// What is reported of the text of a thing.
pub open spec fn text_events(set: SetView, thing: Seq<char>) -> Seq<EventView> {
    seq![
        markdown_event(
            made_or_changed(has_content(set, thing)),
            thing_collection(set, thing),
            thing,
        ),
    ]
}

/// The documents after the text of a thing was replaced by a value.
pub open spec fn payload_written(
    set: SetView,
    thing: Seq<char>,
    datatype: ThingDatatype,
    payload: JsonView,
) -> SetView {
    content_written(
        set,
        thing,
        thing,
        "markdown"@,
        ContentView::Blocks(seq![block_from_value(datatype, payload)]),
    )
}

/// The documents after the text of a thing was replaced.
pub open spec fn text_written(set: SetView, thing: Seq<char>, text: Seq<char>) -> SetView {
    content_written(
        set,
        thing,
        thing,
        "markdown"@,
        ContentView::Blocks(
            seq![
                BlockView {
                    id: "main"@,
                    kind: "markdown"@,
                    attrs_json: None,
                    text: Some(text),
                },
            ],
        ),
    )
}

/// What splicing the text of a thing answers and leaves: nothing where the text stays as
/// it is. The first splice of a text that is not there makes it.
pub open spec fn splice_outcome(
    set: SetView,
    thing: Seq<char>,
    block: Seq<char>,
    index: nat,
    delete: nat,
    insert: Seq<char>,
) -> (Option<Seq<EventView>>, SetView) {
    let content = content_of(set, thing);
    if block == "main"@ && lacks_main(content) {
        if index == 0 && (delete == 0 || delete == usize::MAX) {
            (Some(text_events(set, thing)), text_written(set, thing, insert))
        } else {
            (None, set)
        }
    } else {
        match content {
            Some(ContentView::Blocks(blocks)) => {
                let after = blocks_spliced(blocks, block, index, delete, insert);
                (
                    if after != blocks {
                        Some(text_events(set, thing))
                    } else {
                        None
                    },
                    content_written(set, thing, thing, "markdown"@, ContentView::Blocks(after)),
                )
            },
            _ => (None, set),
        }
    }
}

fn find_block(blocks: &Vec<Block>, id: &str) -> (at: usize)
    ensures
        at == block_at(block_views(blocks@), id@),
        at <= blocks@.len(),
{
    let ghost all = block_views(blocks@);
    let mut i: usize = 0;
    while i < blocks.len() && !same(blocks[i].id.as_str(), id)
        invariant
            i <= blocks@.len(),
            all == block_views(blocks@),
            forall|k: int| 0 <= k < i ==> (#[trigger] all[k]).id != id@,
        ensures
            i < blocks@.len() ==> all[i as int].id == id@,
        decreases blocks@.len() - i,
    {
        i = i + 1;
    }
    proof {
        lemma_position_is(all, is_block(id@), i as int);
    }
    i
}

/// Replaces characters of a text.
pub fn splice_text(text: &str, index: usize, delete: usize, insert: &str) -> (out: String)
    ensures
        out@ == spliced(text@, index as nat, delete as nat, insert@),
{
    let chars = chars_of(text);
    let at: usize = if index <= chars.len() { index } else { chars.len() };
    let end: usize = if delete <= chars.len() - at { at + delete } else { chars.len() };
    let mut out = text_of(&chars, 0, at);
    let rest = text_of(&chars, end, chars.len());
    out.append(insert);
    out.append(rest.as_str());
    proof {
        assert(text@.subrange(0, at as int) =~= text@.take(at as int));
        assert(text@.subrange(end as int, text@.len() as int) =~= text@.skip(end as int));
    }
    out
}

impl ThingsDocumentSet {
    /// The place of a content document.
    pub(crate) fn find_content(&self, uuid: &str) -> (at: usize)
        ensures
            at == content_at(self@, uuid@),
            at <= self.contents@.len(),
    {
        let mut i: usize = 0;
        while i < self.contents.len() && !same(self.contents[i].uuid.as_str(), uuid)
            invariant
                i <= self.contents@.len(),
                forall|k: int| 0 <= k < i ==> (#[trigger] self@.contents[k]).uuid != uuid@,
            ensures
                i < self.contents@.len() ==> self@.contents[i as int].uuid == uuid@,
            decreases self.contents@.len() - i,
        {
            i = i + 1;
        }
        proof {
            lemma_position_is(self@.contents, is_content(uuid@), i as int);
        }
        i
    }

    /// Writes into a content document.
    fn write_content(
        &mut self,
        uuid: &str,
        thing_uuid: &str,
        content_type: &str,
        content: Content,
    )
        ensures
            final(self)@ == content_written(
                old(self)@,
                uuid@,
                thing_uuid@,
                content_type@,
                content@,
            ),
    {
        let ghost after = content_written(self@, uuid@, thing_uuid@, content_type@, content@);
        let at: usize = self.find_content(uuid);
        if at < self.contents.len() {
            self.contents[at].content = Some(content);
            self.contents[at].dirty = true;
        } else {
            self.contents.push(
                ContentDoc {
                    uuid: owned(uuid),
                    thing_uuid: owned(thing_uuid),
                    content_type: owned(content_type),
                    content: Some(content),
                    dirty: true,
                    last_sync_at: None,
                },
            );
        }
        proof {
            assert(self@.contents =~= after.contents);
        }
    }

    /// Which collection a thing belongs to, whatever the root document lists.
    pub fn find_thing_collection_uuid(&self, thing_uuid: &str) -> (out: Option<String>)
        ensures
            opt_view(out) == thing_collection(self@, thing_uuid@),
    {
        let mut i: usize = 0;
        while i < self.collections.len()
            invariant
                i <= self.collections@.len(),
                forall|k: int|
                    0 <= k < i ==> !holds_thing(thing_uuid@)(#[trigger] self@.collections[k]),
            decreases self.collections@.len() - i,
        {
            if !self.collections[i].deleted {
                let k: usize = self.find_live_thing(i, thing_uuid);
                if k < self.collections[i].things.len() {
                    proof {
                        assert(holds_thing(thing_uuid@)(self@.collections[i as int]));
                        lemma_position_is(self@.collections, holds_thing(thing_uuid@), i as int);
                    }
                    return Some(self.collections[i].id.clone());
                }
            }
            i = i + 1;
        }
        proof {
            lemma_position_is(self@.collections, holds_thing(thing_uuid@), i as int);
        }
        None
    }

    fn report_text(&self, existed: bool, thing_uuid: &str) -> (events: Vec<ThingsDocumentEvent>)
        ensures
            events_view(events@) == seq![
                markdown_event(
                    made_or_changed(existed),
                    thing_collection(self@, thing_uuid@),
                    thing_uuid@,
                ),
            ],
    {
        let kind = if existed {
            ThingsDocumentChangeKind::Updated
        } else {
            ThingsDocumentChangeKind::Created
        };
        let collection = self.find_thing_collection_uuid(thing_uuid);
        let event = match &collection {
            Some(c) => ThingsDocumentEvent::thing_markdown(kind, Some(c.as_str()), thing_uuid),
            None => ThingsDocumentEvent::thing_markdown(kind, None, thing_uuid),
        };
        let events = vec![event];
        proof {
            assert(events_view(events@) =~= seq![
                markdown_event(
                    made_or_changed(existed),
                    thing_collection(self@, thing_uuid@),
                    thing_uuid@,
                ),
            ]);
        }
        events
    }

    /// Replaces the text of a thing by a value.
    pub fn set_thing_content_from_payload(
        &mut self,
        thing_uuid: &str,
        datatype: &ThingDatatype,
        payload: &Json,
    ) -> (events: Vec<ThingsDocumentEvent>)
        ensures
            events_view(events@) == text_events(old(self)@, thing_uuid@),
            final(self)@ == payload_written(old(self)@, thing_uuid@, *datatype, payload@),
    {
        let existed = self.find_content(thing_uuid) < self.contents.len();
        let content = ContentTypeRegistry::new().markdown_content_from_value(datatype, payload);
        let events = self.report_text(existed, thing_uuid);
        self.write_content(thing_uuid, thing_uuid, "markdown", content);
        events
    }

    /// Replaces the markdown text of a thing.
    pub fn set_thing_markdown_text(&mut self, thing_uuid: &str, text: &str) -> (events: Vec<
        ThingsDocumentEvent,
    >)
        ensures
            events_view(events@) == text_events(old(self)@, thing_uuid@),
            final(self)@ == text_written(old(self)@, thing_uuid@, text@),
    {
        let value = Json::text(text);
        self.set_thing_content_from_payload(thing_uuid, &ThingDatatype::Markdown, &value)
    }

    /// Replaces the whole markdown text of a thing.
    pub fn replace_thing_markdown_text(&mut self, thing_uuid: &str, text: &str) -> (events: Vec<
        ThingsDocumentEvent,
    >)
        ensures
            events_view(events@) == text_events(old(self)@, thing_uuid@),
            final(self)@ == text_written(old(self)@, thing_uuid@, text@),
    {
        self.set_thing_markdown_text(thing_uuid, text)
    }

    /// The markdown text of a thing.
    pub fn get_thing_markdown_text(&self, thing_uuid: &str) -> (out: Option<String>)
        ensures
            opt_view(out) == main_text(content_of(self@, thing_uuid@)),
    {
        let at: usize = self.find_content(thing_uuid);
        if at == self.contents.len() {
            return None;
        }
        match &self.contents[at].content {
            Some(Content::Blocks(blocks)) => {
                let k: usize = find_block(blocks, "main");
                if k < blocks.len() {
                    blocks[k].text.clone()
                } else {
                    None
                }
            },
            _ => None,
        }
    }

    /// Splices the text of a block of a thing; reports nothing where the text stays as it
    /// is.
    pub fn try_splice_thing_text(
        &mut self,
        thing_uuid: &str,
        block_id: &str,
        index: usize,
        delete: usize,
        insert: &str,
    ) -> (out: Option<Vec<ThingsDocumentEvent>>)
        ensures
            (
                match out {
                    Some(events) => Some(events_view(events@)),
                    None => None,
                },
                final(self)@,
            ) == splice_outcome(
                old(self)@,
                thing_uuid@,
                block_id@,
                index as nat,
                delete as nat,
                insert@,
            ),
    {
        let ghost before = self@;
        let at: usize = self.find_content(thing_uuid);
        let existed = at < self.contents.len();
        let missing_main = same(block_id, "main") && self.main_is_missing(thing_uuid);
        if missing_main {
            if index == 0 && (delete == 0 || delete == usize::MAX) {
                return Some(self.replace_thing_markdown_text(thing_uuid, insert));
            }
            return None;
        }
        if !existed {
            return None;
        }
        let events = self.report_text(existed, thing_uuid);
        let k: usize = match &self.contents[at].content {
            Some(Content::Blocks(blocks)) => find_block(blocks, block_id),
            _ => return None,
        };
        let mut changed = false;
        if let Some(Content::Blocks(blocks)) = &mut self.contents[at].content {
            let ghost was = block_views(blocks@);
            if k < blocks.len() {
                let text = match &blocks[k].text {
                    Some(text) => text.clone(),
                    None => String::new(),
                };
                let new_text = splice_text(text.as_str(), index, delete, insert);
                changed = match &blocks[k].text {
                    Some(text) => !same(text.as_str(), new_text.as_str()),
                    None => true,
                };
                blocks[k].text = Some(new_text);
            }
            proof {
                let now = blocks_spliced(was, block_id@, index as nat, delete as nat, insert@);
                assert(block_views(blocks@) =~= now);
                if !changed {
                    assert(now =~= was);
                } else {
                    assert(now[k as int] != was[k as int]);
                }
            }
        }
        self.contents[at].dirty = true;
        proof {
            let after = splice_outcome(
                before,
                thing_uuid@,
                block_id@,
                index as nat,
                delete as nat,
                insert@,
            ).1;
            assert(self@.contents =~= after.contents);
        }
        if changed {
            Some(events)
        } else {
            None
        }
    }

    fn main_is_missing(&self, thing_uuid: &str) -> (r: bool)
        ensures
            r == lacks_main(content_of(self@, thing_uuid@)),
    {
        let at: usize = self.find_content(thing_uuid);
        if at == self.contents.len() {
            return true;
        }
        match &self.contents[at].content {
            Some(Content::Blocks(blocks)) => find_block(blocks, "main") == blocks.len(),
            _ => true,
        }
    }

    /// Writes a JSON value into a content document of a thing.
    pub fn set_thing_json_content(
        &mut self,
        document_uuid: &str,
        thing_uuid: &str,
        content_type: &str,
        value: &Json,
    )
        ensures
            final(self)@ == content_written(
                old(self)@,
                document_uuid@,
                thing_uuid@,
                content_type@,
                ContentView::Payload(value@),
            ),
    {
        self.write_content(
            document_uuid,
            thing_uuid,
            content_type,
            Content::Payload(value.duplicate_json()),
        );
    }

    /// The JSON value in a content document.
    pub fn get_thing_json_content(&self, document_uuid: &str) -> (out: Option<Json>)
        ensures
            json_opt_view(out) == match content_of(self@, document_uuid@) {
                Some(ContentView::Payload(j)) => Some(j),
                _ => None,
            },
    {
        let at: usize = self.find_content(document_uuid);
        if at == self.contents.len() {
            return None;
        }
        match &self.contents[at].content {
            Some(Content::Payload(j)) => Some(j.duplicate_json()),
            _ => None,
        }
    }
}

impl ContentTypeRegistry {
    /// The content in which a value is kept: one block with its text, or with the value beside
    /// the name of its type where the type is no text.
    pub fn markdown_content_from_value(&self, original_datatype: &ThingDatatype, payload: &Json) -> (
    content: Content)
        ensures
            content@ == ContentView::Blocks(seq![block_from_value(*original_datatype, payload@)]),
    {
        let blocks = vec![value_block(original_datatype, payload)];
        proof {
            assert(block_views(blocks@) =~= seq![block_from_value(*original_datatype, payload@)]);
        }
        Content::Blocks(blocks)
    }
}

/// The block in which a value is kept.
fn value_block(datatype: &ThingDatatype, payload: &Json) -> (b: Block)
    ensures
        b@ == block_from_value(*datatype, payload@),
{
    match datatype {
        ThingDatatype::Markdown => {
            let text = match payload {
                Json::Text(s) => s.clone(),
                Json::Object(_) => match payload.get_text("markdown") {
                    Some(s) => s,
                    None => write_json(payload),
                },
                _ => write_json(payload),
            };
            Block { id: owned("main"), kind: owned("markdown"), attrs_json: None, text: Some(text) }
        },
        ThingDatatype::Embedded(name) => {
            let entries = vec![
                entry("embed_kind", Json::text(name.as_str())),
                entry("payload", payload.duplicate_json()),
            ];
            proof {
                assert(entries_view(entries@) =~= seq![
                    ("embed_kind"@, JsonView::Text(name@)),
                    ("payload"@, payload@),
                ]);
            }
            let attrs = Json::object(entries);
            Block {
                id: owned("main"),
                kind: name.clone(),
                attrs_json: Some(write_json(&attrs)),
                text: None,
            }
        },
    }
}

} // verus!
