//! Which documents wait to be sent, what saving one does to it, and which content is still in use.
use crate::content_registry::{EntryView, PayloadView};
use crate::document_store::{
    collection_key, compaction, content_key, root_key, CrdtDataType, DocumentState, KeyView,
};
use crate::error::{ErrorView, SdkError};
use crate::table::{lemma_position_is, lemma_position_of};
use crate::things_content::{content_at, content_of, has_content, is_content};
use crate::things_crdt::{coll, coll_at, has_coll, is_coll};
use crate::things_docs::{CollView, ContentDocView, SetView, ThingDocView};
use crate::things_laws::lemma_coll_put;
use crate::things_store::{
    dirty_colls, dirty_contents, dirty_keys, dirty_root, document_removed, document_saved,
    entries_documents, entry_documents, live_documents, things_documents,
};
use vstd::prelude::*;

verus! {

proof fn lemma_dirty_colls(colls: Seq<CollView>, key: KeyView)
    ensures
        dirty_colls(colls).contains(key) <==> exists|i: int|
            0 <= i < colls.len() && (#[trigger] colls[i]).dirty && key == collection_key(
                colls[i].id,
            ),
    decreases colls.len(),
{
    let all = dirty_colls(colls);
    if colls.len() > 0 {
        let front = colls.drop_last();
        let rest = dirty_colls(front);
        lemma_dirty_colls(front, key);
        if all.contains(key) {
            let k = choose|k: int| 0 <= k < all.len() && all[k] == key;
            if k < rest.len() {
                assert(rest[k] == key);
                let i = choose|i: int|
                    0 <= i < front.len() && (#[trigger] front[i]).dirty && key == collection_key(
                        front[i].id,
                    );
                assert(colls[i] == front[i]);
            } else {
                assert(colls[colls.len() - 1].dirty);
            }
        }
        if exists|i: int|
            0 <= i < colls.len() && (#[trigger] colls[i]).dirty && key == collection_key(
                colls[i].id,
            ) {
            let i = choose|i: int|
                0 <= i < colls.len() && (#[trigger] colls[i]).dirty && key == collection_key(
                    colls[i].id,
                );
            if i < front.len() {
                assert(front[i] == colls[i]);
                let k = choose|k: int| 0 <= k < rest.len() && rest[k] == key;
                assert(all[k] == key);
            } else {
                assert(all[rest.len() as int] == key);
            }
        }
    }
}

proof fn lemma_dirty_contents(contents: Seq<ContentDocView>, key: KeyView)
    ensures
        dirty_contents(contents).contains(key) <==> exists|i: int|
            0 <= i < contents.len() && (#[trigger] contents[i]).dirty && key == content_key(
                contents[i].uuid,
            ),
    decreases contents.len(),
{
    let all = dirty_contents(contents);
    if contents.len() > 0 {
        let front = contents.drop_last();
        let rest = dirty_contents(front);
        lemma_dirty_contents(front, key);
        if all.contains(key) {
            let k = choose|k: int| 0 <= k < all.len() && all[k] == key;
            if k < rest.len() {
                assert(rest[k] == key);
                let i = choose|i: int|
                    0 <= i < front.len() && (#[trigger] front[i]).dirty && key == content_key(
                        front[i].uuid,
                    );
                assert(contents[i] == front[i]);
            } else {
                assert(contents[contents.len() - 1].dirty);
            }
        }
        if exists|i: int|
            0 <= i < contents.len() && (#[trigger] contents[i]).dirty && key == content_key(
                contents[i].uuid,
            ) {
            let i = choose|i: int|
                0 <= i < contents.len() && (#[trigger] contents[i]).dirty && key == content_key(
                    contents[i].uuid,
                );
            if i < front.len() {
                assert(front[i] == contents[i]);
                let k = choose|k: int| 0 <= k < rest.len() && rest[k] == key;
                assert(all[k] == key);
            } else {
                assert(all[rest.len() as int] == key);
            }
        }
    }
}

/// A document waits to be sent where it was changed, and no other does.
pub proof fn law_changed_documents_wait(set: SetView, uuid: Seq<char>)
    ensures
        dirty_keys(set).contains(KeyView { uuid, data_type: CrdtDataType::Collection })
            <==> exists|i: int|
            0 <= i < set.collections.len() && (#[trigger] set.collections[i]).dirty
                && set.collections[i].id == uuid,
        dirty_keys(set).contains(KeyView { uuid, data_type: CrdtDataType::ThingMarkdown })
            <==> exists|i: int|
            0 <= i < set.contents.len() && (#[trigger] set.contents[i]).dirty
                && set.contents[i].uuid == uuid,
        dirty_keys(set).contains(root_key()) <==> set.root is Some && set.root->0.dirty,
{
    let all = dirty_keys(set);
    let r = dirty_root(set.root);
    let c = dirty_colls(set.collections);
    let m = dirty_contents(set.contents);
    let ck = KeyView { uuid, data_type: CrdtDataType::Collection };
    let mk = KeyView { uuid, data_type: CrdtDataType::ThingMarkdown };
    lemma_dirty_colls(set.collections, ck);
    lemma_dirty_contents(set.contents, ck);
    lemma_dirty_colls(set.collections, mk);
    lemma_dirty_contents(set.contents, mk);
    lemma_dirty_colls(set.collections, root_key());
    lemma_dirty_contents(set.contents, root_key());
    lemma_three(r, c, m, ck);
    lemma_three(r, c, m, mk);
    lemma_three(r, c, m, root_key());
    if r.len() > 0 {
        assert(r[0] == root_key());
    }
}

proof fn lemma_three(a: Seq<KeyView>, b: Seq<KeyView>, c: Seq<KeyView>, x: KeyView)
    ensures
        (a + b + c).contains(x) <==> a.contains(x) || b.contains(x) || c.contains(x),
{
    let all = a + b + c;
    if all.contains(x) {
        let k = choose|k: int| 0 <= k < all.len() && all[k] == x;
        if k < a.len() {
            assert(a[k] == x);
        } else if k < a.len() + b.len() {
            assert(b[k - a.len()] == x);
        } else {
            assert(c[k - a.len() - b.len()] == x);
        }
    }
    if a.contains(x) {
        let k = choose|k: int| 0 <= k < a.len() && a[k] == x;
        assert(all[k] == x);
    }
    if b.contains(x) {
        let k = choose|k: int| 0 <= k < b.len() && b[k] == x;
        assert(all[a.len() + k] == x);
    }
    if c.contains(x) {
        let k = choose|k: int| 0 <= k < c.len() && c[k] == x;
        assert(all[a.len() + b.len() + k] == x);
    }
}

/// A collection that was saved clean does not wait any more, and what it holds stays; other
/// documents stay as they were. One that was not saved clean waits as before.
pub proof fn law_saved_collection_is_clean(
    set: SetView,
    uuid: Seq<char>,
    sync: Option<Seq<char>>,
)
    requires
        has_coll(set, uuid),
    ensures
        ({
            let key = KeyView { uuid, data_type: CrdtDataType::Collection };
            let clean = document_saved(set, key, true, sync);
            let kept = document_saved(set, key, false, sync);
            let was = coll(set, uuid);
            &&& has_coll(clean, uuid) && !coll(clean, uuid).dirty
            &&& has_coll(kept, uuid) && coll(kept, uuid).dirty == was.dirty
            &&& coll(clean, uuid).things == was.things && coll(clean, uuid).title == was.title
                && coll(clean, uuid).deleted == was.deleted && coll(clean, uuid).attrs
                == was.attrs
            &&& sync is Some ==> coll(clean, uuid).last_sync_at == sync
            &&& sync is None ==> coll(clean, uuid).last_sync_at == was.last_sync_at
            &&& clean.contents == set.contents && clean.root == set.root
            &&& forall|i: int|
                0 <= i < set.collections.len() && i != coll_at(set, uuid)
                    ==> #[trigger] clean.collections[i] == set.collections[i]
        }),
{
    lemma_position_of(set.collections, is_coll(uuid));
    let was = coll(set, uuid);
    let last = crate::things_store::saved_sync(was.last_sync_at, sync);
    lemma_coll_put(set, uuid, CollView { dirty: false, last_sync_at: last, ..was });
    lemma_coll_put(set, uuid, CollView { dirty: was.dirty, last_sync_at: last, ..was });
}

/// A content that was saved clean does not wait any more and is what it was; the other documents
/// stay.
pub proof fn law_saved_content_is_clean(set: SetView, uuid: Seq<char>, sync: Option<Seq<char>>)
    requires
        has_content(set, uuid),
    ensures
        ({
            let key = KeyView { uuid, data_type: CrdtDataType::ThingMarkdown };
            let clean = document_saved(set, key, true, sync);
            let at = content_at(set, uuid);
            &&& 0 <= at < set.contents.len()
            &&& clean.contents.len() == set.contents.len()
            &&& !clean.contents[at].dirty
            &&& clean.contents[at].content == set.contents[at].content
                && clean.contents[at].uuid == uuid
            &&& content_of(clean, uuid) == content_of(set, uuid)
            &&& clean.collections == set.collections && clean.root == set.root
            &&& forall|i: int|
                0 <= i < set.contents.len() && i != at ==> #[trigger] clean.contents[i]
                    == set.contents[i]
        }),
{
    let key = KeyView { uuid, data_type: CrdtDataType::ThingMarkdown };
    let clean = document_saved(set, key, true, sync);
    lemma_position_of(set.contents, is_content(uuid));
    let at = content_at(set, uuid);
    assert forall|k: int| 0 <= k < at implies !is_content(uuid)(#[trigger] clean.contents[k]) by {
        assert(clean.contents[k] == set.contents[k]);
    }
    assert(is_content(uuid)(clean.contents[at]));
    lemma_position_is(clean.contents, is_content(uuid), at);
}

/// A document that is removed is gone, and the others stay in their order.
pub proof fn law_removed_document_is_gone(set: SetView, uuid: Seq<char>)
    requires
        forall|i: int, j: int|
            0 <= i < j < set.collections.len() ==> (#[trigger] set.collections[i]).id != (
            #[trigger] set.collections[j]).id,
        forall|i: int, j: int|
            0 <= i < j < set.contents.len() ==> (#[trigger] set.contents[i]).uuid != (
            #[trigger] set.contents[j]).uuid,
    ensures
        ({
            let a = document_removed(set, KeyView { uuid, data_type: CrdtDataType::Collection });
            let b = document_removed(set, KeyView { uuid, data_type: CrdtDataType::ThingMarkdown });
            &&& !has_coll(a, uuid) && a.contents == set.contents && a.root == set.root
            &&& forall|i: int|
                0 <= i < set.collections.len() && (#[trigger] set.collections[i]).id != uuid
                    ==> a.collections.contains(set.collections[i])
            &&& !has_content(b, uuid) && b.collections == set.collections && b.root == set.root
            &&& forall|i: int|
                0 <= i < set.contents.len() && (#[trigger] set.contents[i]).uuid != uuid
                    ==> b.contents.contains(set.contents[i])
        }),
        document_removed(set, root_key()).root is None,
        document_removed(set, root_key()).collections == set.collections,
        document_removed(set, root_key()).contents == set.contents,
{
    let a = document_removed(set, KeyView { uuid, data_type: CrdtDataType::Collection });
    let b = document_removed(set, KeyView { uuid, data_type: CrdtDataType::ThingMarkdown });
    lemma_position_of(set.collections, is_coll(uuid));
    lemma_position_of(set.contents, is_content(uuid));
    lemma_position_of(a.collections, is_coll(uuid));
    lemma_position_of(b.contents, is_content(uuid));
    let at = coll_at(set, uuid);
    let place = content_at(set, uuid);
    if has_coll(a, uuid) {
        let k = coll_at(a, uuid);
        let old = if has_coll(set, uuid) && k >= at {
            k + 1
        } else {
            k
        };
        assert(a.collections[k] == set.collections[old]);
        assert(set.collections[old].id == set.collections[at].id);
    }
    if has_content(b, uuid) {
        let k = content_at(b, uuid);
        let old = if has_content(set, uuid) && k >= place {
            k + 1
        } else {
            k
        };
        assert(b.contents[k] == set.contents[old]);
        assert(set.contents[old].uuid == set.contents[place].uuid);
    }
    assert forall|i: int|
        0 <= i < set.collections.len() && (#[trigger] set.collections[i]).id
            != uuid implies a.collections.contains(set.collections[i]) by {
        if has_coll(set, uuid) {
            if i < at {
                assert(a.collections[i] == set.collections[i]);
            } else {
                assert(a.collections[i - 1] == set.collections[i]);
            }
        } else {
            assert(a.collections[i] == set.collections[i]);
        }
    }
    assert forall|i: int|
        0 <= i < set.contents.len() && (#[trigger] set.contents[i]).uuid
            != uuid implies b.contents.contains(set.contents[i]) by {
        if has_content(set, uuid) {
            if i < place {
                assert(b.contents[i] == set.contents[i]);
            } else {
                assert(b.contents[i - 1] == set.contents[i]);
            }
        } else {
            assert(b.contents[i] == set.contents[i]);
        }
    }
}

/// Whether an entry keeps its content in a document.
pub open spec fn keeps_in(e: EntryView, uuid: Seq<char>) -> bool {
    match e.payload {
        PayloadView::Markdown { doc_uuid } => doc_uuid == uuid,
        PayloadView::JsonObject { data_doc_uuid, schema_doc_uuid } => data_doc_uuid == uuid
            || schema_doc_uuid == Some(uuid),
        _ => false,
    }
}

proof fn lemma_entry_documents(e: EntryView, uuid: Seq<char>)
    ensures
        entry_documents(e).contains(uuid) <==> keeps_in(e, uuid),
{
    let docs = entry_documents(e);
    match e.payload {
        PayloadView::Markdown { doc_uuid } => {
            assert(docs[0] == doc_uuid);
        },
        PayloadView::JsonObject { data_doc_uuid, schema_doc_uuid } => {
            assert(docs[0] == data_doc_uuid);
            if schema_doc_uuid is Some {
                assert(docs[1] == schema_doc_uuid->0);
            }
        },
        _ => {},
    }
}

proof fn lemma_two(a: Seq<Seq<char>>, b: Seq<Seq<char>>, x: Seq<char>)
    ensures
        (a + b).contains(x) <==> a.contains(x) || b.contains(x),
{
    let all = a + b;
    if all.contains(x) {
        let k = choose|k: int| 0 <= k < all.len() && all[k] == x;
        if k < a.len() {
            assert(a[k] == x);
        } else {
            assert(b[k - a.len()] == x);
        }
    }
    if a.contains(x) {
        let k = choose|k: int| 0 <= k < a.len() && a[k] == x;
        assert(all[k] == x);
    }
    if b.contains(x) {
        let k = choose|k: int| 0 <= k < b.len() && b[k] == x;
        assert(all[a.len() + k] == x);
    }
}

proof fn lemma_entries_documents(entries: Seq<EntryView>, uuid: Seq<char>)
    ensures
        entries_documents(entries).contains(uuid) <==> exists|k: int|
            0 <= k < entries.len() && keeps_in(#[trigger] entries[k], uuid),
    decreases entries.len(),
{
    if entries.len() > 0 {
        let front = entries.drop_last();
        lemma_entries_documents(front, uuid);
        lemma_entry_documents(entries.last(), uuid);
        lemma_two(entries_documents(front), entry_documents(entries.last()), uuid);
        if exists|k: int| 0 <= k < entries.len() && keeps_in(#[trigger] entries[k], uuid) {
            let k = choose|k: int| 0 <= k < entries.len() && keeps_in(#[trigger] entries[k], uuid);
            if k < front.len() {
                assert(keeps_in(front[k], uuid));
            }
        }
        if exists|k: int| 0 <= k < front.len() && keeps_in(#[trigger] front[k], uuid) {
            let k = choose|k: int| 0 <= k < front.len() && keeps_in(#[trigger] front[k], uuid);
            assert(keeps_in(entries[k], uuid));
        }
        if keeps_in(entries.last(), uuid) {
            assert(keeps_in(entries[entries.len() - 1], uuid));
        }
    }
}

/// Whether a thing that is not deleted keeps content in a document.
pub open spec fn thing_keeps_in(t: ThingDocView, uuid: Seq<char>) -> bool {
    !t.deleted && exists|k: int|
        0 <= k < t.entries.len() && keeps_in(#[trigger] t.entries[k], uuid)
}

proof fn lemma_things_documents(things: Seq<ThingDocView>, uuid: Seq<char>)
    ensures
        things_documents(things).contains(uuid) <==> exists|j: int|
            0 <= j < things.len() && thing_keeps_in(#[trigger] things[j], uuid),
    decreases things.len(),
{
    if things.len() > 0 {
        let front = things.drop_last();
        let t = things.last();
        lemma_things_documents(front, uuid);
        lemma_entries_documents(t.entries, uuid);
        lemma_two(things_documents(front), entries_documents(t.entries), uuid);
        if exists|j: int| 0 <= j < things.len() && thing_keeps_in(#[trigger] things[j], uuid) {
            let j = choose|j: int|
                0 <= j < things.len() && thing_keeps_in(#[trigger] things[j], uuid);
            if j < front.len() {
                assert(thing_keeps_in(front[j], uuid));
            }
        }
        if exists|j: int| 0 <= j < front.len() && thing_keeps_in(#[trigger] front[j], uuid) {
            let j = choose|j: int|
                0 <= j < front.len() && thing_keeps_in(#[trigger] front[j], uuid);
            assert(thing_keeps_in(things[j], uuid));
        }
        if thing_keeps_in(t, uuid) {
            assert(thing_keeps_in(things[things.len() - 1], uuid));
        }
    }
}

/// Whether a collection that is not deleted has a thing that keeps content in a document.
pub open spec fn coll_keeps_in(c: CollView, uuid: Seq<char>) -> bool {
    !c.deleted && exists|j: int|
        0 <= j < c.things.len() && thing_keeps_in(#[trigger] c.things[j], uuid)
}

/// The content documents in use are those in which the entries of living things in living
/// collections keep their content.
pub proof fn law_documents_in_use(colls: Seq<CollView>, uuid: Seq<char>)
    ensures
        live_documents(colls).contains(uuid) <==> exists|i: int|
            0 <= i < colls.len() && coll_keeps_in(#[trigger] colls[i], uuid),
    decreases colls.len(),
{
    if colls.len() > 0 {
        let front = colls.drop_last();
        let c = colls.last();
        law_documents_in_use(front, uuid);
        lemma_things_documents(c.things, uuid);
        lemma_two(live_documents(front), things_documents(c.things), uuid);
        if exists|i: int| 0 <= i < colls.len() && coll_keeps_in(#[trigger] colls[i], uuid) {
            let i = choose|i: int|
                0 <= i < colls.len() && coll_keeps_in(#[trigger] colls[i], uuid);
            if i < front.len() {
                assert(coll_keeps_in(front[i], uuid));
            }
        }
        if exists|i: int| 0 <= i < front.len() && coll_keeps_in(#[trigger] front[i], uuid) {
            let i = choose|i: int|
                0 <= i < front.len() && coll_keeps_in(#[trigger] front[i], uuid);
            assert(coll_keeps_in(colls[i], uuid));
        }
        if coll_keeps_in(c, uuid) {
            assert(coll_keeps_in(colls[colls.len() - 1], uuid));
        }
    }
}

/// A document is compacted where it is larger than the limit: it has the compacted bytes then and
/// waits to be sent. A smaller one stays, and so does one that cannot be compacted.
pub proof fn law_large_documents_are_compacted(
    s: DocumentState,
    kind: CrdtDataType,
    threshold: usize,
    bytes: Vec<u8>,
    e: SdkError,
)
    ensures
        ({
            let done = compaction(Some(s), kind, threshold, Ok::<Vec<u8>, SdkError>(bytes));
            let failed = compaction(Some(s), kind, threshold, Err::<Vec<u8>, SdkError>(e));
            &&& s.automerge_doc@.len() > threshold ==> done.0 == Ok::<bool, ErrorView>(true)
                && done.1 is Some && done.1->0.automerge_doc == bytes && done.1->0.dirty
            &&& s.automerge_doc@.len() <= threshold ==> done.0 == Ok::<bool, ErrorView>(false)
                && done.1 == Some(s)
            &&& s.automerge_doc@.len() > threshold ==> failed.0 is Err && failed.1 == Some(s)
            &&& s.automerge_doc@.len() <= threshold ==> failed.0 is Ok && failed.1 == Some(s)
        }),
{
}

} // verus!
