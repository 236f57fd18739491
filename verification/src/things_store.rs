//! The documents of things as a store: copies, what waits to be saved, and which content
//! documents are still reachable.
use crate::content_registry::{ContentEntry, ContentEntryPayload, EntryView, PayloadView};
use crate::document_store::{
    collection_key, content_key, root_key, sync_priority_of, CrdtDataType, DocumentKey, KeyView,
};
use crate::storage::documents::opt_str_view;
use crate::text::{owned, same, views};
use crate::things_content::{content_at, has_content};
use crate::things_crdt::{coll, coll_at, coll_put, has_coll, with_root};
use crate::things_docs::{
    coll_views, content_views, Block, CollView, CollectionDoc, Content, ContentDoc, ContentDocView,
    RootDoc, RootView, SetView, ThingDoc, ThingDocView, ThingsDocumentSet,
};
use vstd::prelude::*;

verus! {

impl Block {
    fn duplicate_block(&self) -> (copy: Self)
        ensures
            copy == *self,
    {
        Block {
            id: self.id.clone(),
            kind: self.kind.clone(),
            attrs_json: self.attrs_json.clone(),
            text: self.text.clone(),
        }
    }
}

impl Content {
    /// Copies what the document holds.
    pub fn duplicate_content(&self) -> (copy: Self)
        ensures
            copy@ == self@,
    {
        match self {
            Content::Blocks(blocks) => {
                let mut out: Vec<Block> = Vec::new();
                let mut i: usize = 0;
                while i < blocks.len()
                    invariant
                        i <= blocks@.len(),
                        out@ == blocks@.take(i as int),
                    decreases blocks@.len() - i,
                {
                    out.push(blocks[i].duplicate_block());
                    i = i + 1;
                    proof {
                        assert(out@ =~= blocks@.take(i as int));
                    }
                }
                proof {
                    assert(blocks@.take(i as int) =~= blocks@);
                }
                Content::Blocks(out)
            },
            Content::Payload(j) => Content::Payload(j.duplicate_json()),
        }
    }
}

impl ContentDoc {
    /// Copies the document.
    pub fn duplicate_content_doc(&self) -> (copy: Self)
        ensures
            copy@ == self@,
    {
        ContentDoc {
            uuid: self.uuid.clone(),
            thing_uuid: self.thing_uuid.clone(),
            content_type: self.content_type.clone(),
            content: match &self.content {
                Some(content) => Some(content.duplicate_content()),
                None => None,
            },
            dirty: self.dirty,
            last_sync_at: self.last_sync_at.clone(),
        }
    }
}

/// Copies texts.
pub fn copy_texts(list: &Vec<String>) -> (out: Vec<String>)
    ensures
        out@ == list@,
{
    let mut out: Vec<String> = Vec::new();
    let mut i: usize = 0;
    while i < list.len()
        invariant
            i <= list@.len(),
            out@ == list@.take(i as int),
        decreases list@.len() - i,
    {
        out.push(list[i].clone());
        i = i + 1;
        proof {
            assert(out@ =~= list@.take(i as int));
        }
    }
    proof {
        assert(list@.take(i as int) =~= list@);
    }
    out
}

pub open spec fn key_views(list: Seq<DocumentKey>) -> Seq<KeyView> {
    list.map_values(|k: DocumentKey| k@)
}

/// The keys of the documents of collections that wait to be saved.
pub open spec fn dirty_colls(colls: Seq<CollView>) -> Seq<KeyView>
    decreases colls.len(),
{
    if colls.len() == 0 {
        Seq::empty()
    } else {
        let rest = dirty_colls(colls.drop_last());
        if colls.last().dirty {
            rest.push(collection_key(colls.last().id))
        } else {
            rest
        }
    }
}

/// The keys of the content documents that wait to be saved.
pub open spec fn dirty_contents(contents: Seq<ContentDocView>) -> Seq<KeyView>
    decreases contents.len(),
{
    if contents.len() == 0 {
        Seq::empty()
    } else {
        let rest = dirty_contents(contents.drop_last());
        if contents.last().dirty {
            rest.push(content_key(contents.last().uuid))
        } else {
            rest
        }
    }
}

pub open spec fn dirty_root(root: Option<RootView>) -> Seq<KeyView> {
    match root {
        Some(root) => if root.dirty {
            seq![root_key()]
        } else {
            Seq::empty()
        },
        None => Seq::empty(),
    }
}

/// The keys of the documents that wait to be saved: the root first, then collections, then
/// content.
pub open spec fn dirty_keys(set: SetView) -> Seq<KeyView> {
    dirty_root(set.root) + dirty_colls(set.collections) + dirty_contents(set.contents)
}

/// What waits to be saved comes in the order in which documents are sent.
pub proof fn law_dirty_keys_by_priority(set: SetView)
    ensures
        forall|i: int, j: int|
            0 <= i < j < dirty_keys(set).len() ==> sync_priority_of(
                (#[trigger] dirty_keys(set)[i]).data_type,
            ) <= sync_priority_of((#[trigger] dirty_keys(set)[j]).data_type),
{
    lemma_dirty_colls_kind(set.collections);
    lemma_dirty_contents_kind(set.contents);
    let first = dirty_root(set.root);
    let second = dirty_colls(set.collections);
    let third = dirty_contents(set.contents);
    assert forall|i: int, j: int| 0 <= i < j < dirty_keys(set).len() implies sync_priority_of(
        (#[trigger] dirty_keys(set)[i]).data_type,
    ) <= sync_priority_of((#[trigger] dirty_keys(set)[j]).data_type) by {
        if i >= first.len() {
            if i < first.len() + second.len() {
                assert(dirty_keys(set)[i] == second[i - first.len()]);
            } else {
                assert(dirty_keys(set)[i] == third[i - first.len() - second.len()]);
            }
        }
        if j >= first.len() {
            if j < first.len() + second.len() {
                assert(dirty_keys(set)[j] == second[j - first.len()]);
            } else {
                assert(dirty_keys(set)[j] == third[j - first.len() - second.len()]);
            }
        }
    }
}

proof fn lemma_dirty_colls_kind(colls: Seq<CollView>)
    ensures
        forall|i: int|
            0 <= i < dirty_colls(colls).len() ==> (#[trigger] dirty_colls(colls)[i]).data_type
                == CrdtDataType::Collection,
    decreases colls.len(),
{
    if colls.len() > 0 {
        lemma_dirty_colls_kind(colls.drop_last());
        let rest = dirty_colls(colls.drop_last());
        assert forall|i: int| 0 <= i < dirty_colls(colls).len() implies (
        #[trigger] dirty_colls(colls)[i]).data_type == CrdtDataType::Collection by {
            if i < rest.len() {
                assert(dirty_colls(colls)[i] == rest[i]);
            }
        }
    }
}

proof fn lemma_dirty_contents_kind(contents: Seq<ContentDocView>)
    ensures
        forall|i: int|
            0 <= i < dirty_contents(contents).len() ==> (
            #[trigger] dirty_contents(contents)[i]).data_type == CrdtDataType::ThingMarkdown,
    decreases contents.len(),
{
    if contents.len() > 0 {
        lemma_dirty_contents_kind(contents.drop_last());
        let rest = dirty_contents(contents.drop_last());
        assert forall|i: int| 0 <= i < dirty_contents(contents).len() implies (
        #[trigger] dirty_contents(contents)[i]).data_type == CrdtDataType::ThingMarkdown by {
            if i < rest.len() {
                assert(dirty_contents(contents)[i] == rest[i]);
            }
        }
    }
}

/// The state of a document after it was saved: clean where that is asked for, and with a
/// new time of synchronisation where one is given.
pub open spec fn saved_sync(old: Option<Seq<char>>, new: Option<Seq<char>>) -> Option<Seq<char>> {
    match new {
        Some(t) => Some(t),
        None => old,
    }
}

/// The documents after one of them was saved.
pub open spec fn document_saved(
    set: SetView,
    key: KeyView,
    clean: bool,
    sync: Option<Seq<char>>,
) -> SetView {
    match key.data_type {
        CrdtDataType::Root => match set.root {
            Some(root) => if key.uuid == root_key().uuid {
                SetView {
                    root: Some(
                        RootView {
                            dirty: root.dirty && !clean,
                            last_sync_at: saved_sync(root.last_sync_at, sync),
                            ..root
                        },
                    ),
                    ..set
                }
            } else {
                set
            },
            None => set,
        },
        CrdtDataType::Collection => if has_coll(set, key.uuid) {
            let c = coll(set, key.uuid);
            coll_put(
                set,
                key.uuid,
                CollView {
                    dirty: c.dirty && !clean,
                    last_sync_at: saved_sync(c.last_sync_at, sync),
                    ..c
                },
            )
        } else {
            set
        },
        CrdtDataType::ThingMarkdown => if has_content(set, key.uuid) {
            let at = content_at(set, key.uuid);
            let c = set.contents[at];
            SetView {
                contents: set.contents.update(
                    at,
                    ContentDocView {
                        dirty: c.dirty && !clean,
                        last_sync_at: saved_sync(c.last_sync_at, sync),
                        ..c
                    },
                ),
                ..set
            }
        } else {
            set
        },
    }
}

/// The documents without one of them.
pub open spec fn document_removed(set: SetView, key: KeyView) -> SetView {
    match key.data_type {
        CrdtDataType::Root => if key.uuid == root_key().uuid {
            SetView { root: None, ..set }
        } else {
            set
        },
        CrdtDataType::Collection => if has_coll(set, key.uuid) {
            SetView { collections: set.collections.remove(coll_at(set, key.uuid)), ..set }
        } else {
            set
        },
        CrdtDataType::ThingMarkdown => if has_content(set, key.uuid) {
            SetView { contents: set.contents.remove(content_at(set, key.uuid)), ..set }
        } else {
            set
        },
    }
}

/// The content documents that an entry needs.
pub open spec fn entry_documents(e: EntryView) -> Seq<Seq<char>> {
    match e.payload {
        PayloadView::Markdown { doc_uuid } => seq![doc_uuid],
        PayloadView::JsonObject { data_doc_uuid, schema_doc_uuid } => match schema_doc_uuid {
            Some(schema) => seq![data_doc_uuid, schema],
            None => seq![data_doc_uuid],
        },
        _ => Seq::empty(),
    }
}

pub open spec fn entries_documents(entries: Seq<EntryView>) -> Seq<Seq<char>>
    decreases entries.len(),
{
    if entries.len() == 0 {
        Seq::empty()
    } else {
        entries_documents(entries.drop_last()) + entry_documents(entries.last())
    }
}

pub open spec fn things_documents(things: Seq<ThingDocView>) -> Seq<Seq<char>>
    decreases things.len(),
{
    if things.len() == 0 {
        Seq::empty()
    } else {
        let rest = things_documents(things.drop_last());
        if things.last().deleted {
            rest
        } else {
            rest + entries_documents(things.last().entries)
        }
    }
}

/// The content documents that the entries of things need, where neither the thing nor its
/// collection is deleted.
pub open spec fn live_documents(colls: Seq<CollView>) -> Seq<Seq<char>>
    decreases colls.len(),
{
    if colls.len() == 0 {
        Seq::empty()
    } else {
        let rest = live_documents(colls.drop_last());
        if colls.last().deleted {
            rest
        } else {
            rest + things_documents(colls.last().things)
        }
    }
}

fn push_entry_documents(out: &mut Vec<String>, e: &ContentEntry)
    ensures
        views(final(out)@) == views(old(out)@) + entry_documents(e@),
{
    let ghost start = out@;
    match &e.payload {
        ContentEntryPayload::Markdown { doc_uuid } => {
            out.push(doc_uuid.clone());
        },
        ContentEntryPayload::JsonObject(f) => {
            out.push(f.data_doc_uuid.clone());
            if let Some(schema) = &f.schema_doc_uuid {
                out.push(schema.clone());
            }
        },
        _ => {},
    }
    proof {
        assert(views(out@) =~= views(start) + entry_documents(e@));
    }
}

fn push_thing_documents(out: &mut Vec<String>, t: &ThingDoc)
    ensures
        views(final(out)@) == views(old(out)@) + entries_documents(t@.entries),
{
    let ghost start = views(out@);
    let ghost all = t@.entries;
    let mut i: usize = 0;
    proof {
        assert(all.take(0) =~= Seq::empty());
        assert(start + Seq::empty() =~= start);
    }
    while i < t.entries.len()
        invariant
            i <= t.entries@.len(),
            all == t@.entries,
            views(out@) == start + entries_documents(all.take(i as int)),
        decreases t.entries@.len() - i,
    {
        proof {
            assert(all.take(i + 1).drop_last() =~= all.take(i as int));
            assert(all.take(i + 1).last() == t.entries@[i as int]@);
            let so_far = entries_documents(all.take(i as int));
            let more = entry_documents(all[i as int]);
            assert(start + so_far + more =~= start + (so_far + more));
        }
        push_entry_documents(out, &t.entries[i]);
        i = i + 1;
    }
    proof {
        assert(all.take(i as int) =~= all);
    }
}

fn push_collection_documents(out: &mut Vec<String>, c: &CollectionDoc)
    ensures
        views(final(out)@) == views(old(out)@) + things_documents(c@.things),
{
    let ghost start = views(out@);
    let ghost all = c@.things;
    let mut i: usize = 0;
    proof {
        assert(all.take(0) =~= Seq::empty());
        assert(start + Seq::empty() =~= start);
    }
    while i < c.things.len()
        invariant
            i <= c.things@.len(),
            all == c@.things,
            views(out@) == start + things_documents(all.take(i as int)),
        decreases c.things@.len() - i,
    {
        proof {
            assert(all.take(i + 1).drop_last() =~= all.take(i as int));
            assert(all.take(i + 1).last() == c.things@[i as int]@);
            let so_far = things_documents(all.take(i as int));
            let more = entries_documents(all[i as int].entries);
            assert(start + so_far + more =~= start + (so_far + more));
        }
        if !c.things[i].deleted {
            push_thing_documents(out, &c.things[i]);
        }
        i = i + 1;
    }
    proof {
        assert(all.take(i as int) =~= all);
    }
}

impl ThingsDocumentSet {
    /// Copies all documents.
    pub fn duplicate_set(&self) -> (copy: Self)
        ensures
            copy@ == self@,
    {
        let mut collections: Vec<CollectionDoc> = Vec::new();
        let mut i: usize = 0;
        while i < self.collections.len()
            invariant
                i <= self.collections@.len(),
                collections@.len() == i,
                forall|k: int|
                    0 <= k < i ==> (#[trigger] collections@[k])@ == self.collections@[k]@,
            decreases self.collections@.len() - i,
        {
            collections.push(self.collections[i].duplicate_collection());
            i = i + 1;
        }
        let mut contents: Vec<ContentDoc> = Vec::new();
        let mut j: usize = 0;
        while j < self.contents.len()
            invariant
                j <= self.contents@.len(),
                contents@.len() == j,
                forall|k: int| 0 <= k < j ==> (#[trigger] contents@[k])@ == self.contents@[k]@,
            decreases self.contents@.len() - j,
        {
            contents.push(self.contents[j].duplicate_content_doc());
            j = j + 1;
        }
        let root = match &self.root {
            Some(root) => Some(
                RootDoc {
                    collection_uuids: copy_texts(&root.collection_uuids),
                    dirty: root.dirty,
                    last_sync_at: root.last_sync_at.clone(),
                },
            ),
            None => None,
        };
        proof {
            assert(coll_views(collections@) =~= coll_views(self.collections@));
            assert(content_views(contents@) =~= content_views(self.contents@));
        }
        ThingsDocumentSet { device_id: self.device_id.clone(), root, collections, contents }
    }

    /// The documents with a root document among them.
    pub fn loaded_or_init(self) -> (set: Self)
        ensures
            set@ == with_root(self@),
    {
        let mut set = self;
        if !set.has_root_document() {
            set.init_root();
        }
        set
    }

    /// The keys of the documents that wait to be saved, in the order in which documents
    /// are sent.
    pub fn dirty_document_keys_public(&self) -> (out: Vec<DocumentKey>)
        ensures
            key_views(out@) == dirty_keys(self@),
    {
        let mut out: Vec<DocumentKey> = Vec::new();
        if let Some(root) = &self.root {
            if root.dirty {
                out.push(DocumentKey::root());
            }
        }
        let ghost first = dirty_root(self@.root);
        let ghost colls = self@.collections;
        let ghost contents = self@.contents;
        let mut i: usize = 0;
        proof {
            assert(key_views(out@) =~= first);
            assert(colls.take(0) =~= Seq::empty());
            assert(first + Seq::empty() =~= first);
        }
        while i < self.collections.len()
            invariant
                i <= self.collections@.len(),
                colls == self@.collections,
                key_views(out@) == first + dirty_colls(colls.take(i as int)),
            decreases self.collections@.len() - i,
        {
            let ghost before = out@;
            proof {
                assert(colls.take(i + 1).drop_last() =~= colls.take(i as int));
                assert(colls.take(i + 1).last() == self.collections@[i as int]@);
            }
            if self.collections[i].dirty {
                out.push(DocumentKey::collection(self.collections[i].id.as_str()));
                proof {
                    let so_far = dirty_colls(colls.take(i as int));
                    let key = collection_key(colls[i as int].id);
                    assert(key_views(out@) =~= key_views(before).push(key));
                    assert((first + so_far).push(key) =~= first + so_far.push(key));
                }
            }
            i = i + 1;
        }
        let ghost second = first + dirty_colls(colls);
        let mut j: usize = 0;
        proof {
            assert(colls.take(i as int) =~= colls);
            assert(contents.take(0) =~= Seq::empty());
            assert(second + Seq::empty() =~= second);
        }
        while j < self.contents.len()
            invariant
                j <= self.contents@.len(),
                contents == self@.contents,
                key_views(out@) == second + dirty_contents(contents.take(j as int)),
            decreases self.contents@.len() - j,
        {
            let ghost before = out@;
            proof {
                assert(contents.take(j + 1).drop_last() =~= contents.take(j as int));
                assert(contents.take(j + 1).last() == self.contents@[j as int]@);
            }
            if self.contents[j].dirty {
                out.push(DocumentKey::thing_content(self.contents[j].uuid.as_str()));
                proof {
                    let so_far = dirty_contents(contents.take(j as int));
                    let key = content_key(contents[j as int].uuid);
                    assert(key_views(out@) =~= key_views(before).push(key));
                    assert((second + so_far).push(key) =~= second + so_far.push(key));
                }
            }
            j = j + 1;
        }
        proof {
            assert(contents.take(j as int) =~= contents);
        }
        out
    }

    /// Whether a document waits to be saved.
    pub fn has_pending_changes(&self) -> (r: bool)
        ensures
            r == (dirty_keys(self@).len() > 0),
    {
        let keys = self.dirty_document_keys_public();
        proof {
            assert(key_views(keys@).len() == keys@.len());
        }
        keys.len() > 0
    }

    /// The document of a collection.
    pub fn collection_view(&self, collection_uuid: &str) -> (out: Option<&CollectionDoc>)
        ensures
            match out {
                Some(c) => has_coll(self@, collection_uuid@) && c@ == coll(self@, collection_uuid@),
                None => !has_coll(self@, collection_uuid@),
            },
    {
        let at: usize = self.find_collection(collection_uuid);
        if at < self.collections.len() {
            Some(&self.collections[at])
        } else {
            None
        }
    }

    /// Notes that a document was saved.
    pub fn set_persisted_state(
        &mut self,
        key: &DocumentKey,
        mark_clean: bool,
        last_sync_at: Option<&str>,
    )
        ensures
            final(self)@ == document_saved(
                old(self)@,
                key@,
                mark_clean,
                opt_str_view(last_sync_at),
            ),
    {
        let ghost before = self@;
        let sync: Option<String> = match last_sync_at {
            Some(t) => Some(owned(t)),
            None => None,
        };
        match key.data_type {
            CrdtDataType::Root => {
                let is_root = same(key.uuid.as_str(), "root");
                if is_root {
                    let held = self.root.take();
                    if let Some(root) = held {
                        let mut root = root;
                        if mark_clean {
                            root.dirty = false;
                        }
                        if sync.is_some() {
                            root.last_sync_at = sync;
                        }
                        self.root = Some(root);
                    }
                }
            },
            CrdtDataType::Collection => {
                let at: usize = self.find_collection(key.uuid.as_str());
                if at < self.collections.len() {
                    if mark_clean {
                        self.collections[at].dirty = false;
                    }
                    if sync.is_some() {
                        self.collections[at].last_sync_at = sync;
                    }
                    proof {
                        assert(self@.collections =~= document_saved(
                            before,
                            key@,
                            mark_clean,
                            opt_str_view(last_sync_at),
                        ).collections);
                    }
                }
            },
            CrdtDataType::ThingMarkdown => {
                let at: usize = self.find_content(key.uuid.as_str());
                if at < self.contents.len() {
                    if mark_clean {
                        self.contents[at].dirty = false;
                    }
                    if sync.is_some() {
                        self.contents[at].last_sync_at = sync;
                    }
                    proof {
                        assert(self@.contents =~= document_saved(
                            before,
                            key@,
                            mark_clean,
                            opt_str_view(last_sync_at),
                        ).contents);
                    }
                }
            },
        }
    }

    /// Forgets a document.
    pub fn remove_document(&mut self, key: &DocumentKey)
        ensures
            final(self)@ == document_removed(old(self)@, key@),
    {
        let ghost before = self@;
        match key.data_type {
            CrdtDataType::Root => {
                if same(key.uuid.as_str(), "root") {
                    self.root = None;
                }
            },
            CrdtDataType::Collection => {
                let at: usize = self.find_collection(key.uuid.as_str());
                if at < self.collections.len() {
                    let gone = self.collections.remove(at);
                    proof {
                        assert(self@.collections =~= before.collections.remove(at as int));
                    }
                }
            },
            CrdtDataType::ThingMarkdown => {
                let at: usize = self.find_content(key.uuid.as_str());
                if at < self.contents.len() {
                    let gone = self.contents.remove(at);
                    proof {
                        assert(self@.contents =~= before.contents.remove(at as int));
                    }
                }
            },
        }
    }

    /// The content documents that are still reachable.
    pub fn active_content_document_uuids(&self) -> (out: Vec<String>)
        ensures
            views(out@) == live_documents(self@.collections),
    {
        let mut out: Vec<String> = Vec::new();
        let ghost all = self@.collections;
        let mut i: usize = 0;
        proof {
            assert(all.take(0) =~= Seq::empty());
            assert(views(out@) =~= Seq::<Seq<char>>::empty());
        }
        while i < self.collections.len()
            invariant
                i <= self.collections@.len(),
                all == self@.collections,
                views(out@) == live_documents(all.take(i as int)),
            decreases self.collections@.len() - i,
        {
            proof {
                assert(all.take(i + 1).drop_last() =~= all.take(i as int));
                assert(all.take(i + 1).last() == self.collections@[i as int]@);
            }
            if !self.collections[i].deleted {
                push_collection_documents(&mut out, &self.collections[i]);
            }
            i = i + 1;
        }
        proof {
            assert(all.take(i as int) =~= all);
        }
        out
    }
}

/// A document that was saved as clean does not wait to be saved any more.
pub proof fn law_saved_root_is_clean(set: SetView, sync: Option<Seq<char>>)
    ensures
        dirty_root(document_saved(set, root_key(), true, sync).root) == Seq::<KeyView>::empty(),
{
}

/// Saving changes nothing that can be read from the documents but what is known of their
/// synchronisation: the root lists the same collections.
pub proof fn law_saving_keeps_root(set: SetView, key: KeyView, clean: bool, sync: Option<Seq<char>>)
    ensures
        (document_saved(set, key, clean, sync).root is Some) == (set.root is Some),
        set.root is Some ==> document_saved(set, key, clean, sync).root->0.collection_uuids
            == set.root->0.collection_uuids,
{
}

} // verus!
