//! The raw documents, and local changes that are put aside before the first synchronisation.
use super::{only_storage_changed, TriggerSdk};
use crate::clock::{clock_millis, clock_seconds, now_millis, now_seconds};
use crate::error::{ErrorView, SdkError, failure};
use crate::json::{
    Json, JsonView, NESTING_LIMIT, entries_view, entry, field, int_text, is_plain_number, json_read,
    json_text, law_int_round_trip, law_uint_round_trip, lemma_json_list_view,
    lemma_json_object_view, lemma_lookup_at, list_view, name_items, name_views, named_items,
    plain_json, read_json, text_field, uint_field, write_json,
};
use crate::rows::{CrdtDocumentRow, InternalKv};
use crate::storage::{document_key, Storage};
use crate::storage::documents::{
    by_type_priority, document_dirty, document_keys, document_saved, is_document, is_key, kv_value,
    kv_written, law_document_read_after_save, law_kv_read_after_write, law_write_raises_counter,
    opt_str_view, other_key, pair_views, write_counted, write_counter, write_reported,
};
use crate::text::text_less;
use crate::table::{
    any_data, first_data, law_first_data, law_listed_once, law_removal_leaves_others,
    law_removed_is_gone, page, ranked, rows_kept, Row,
};
use crate::things_local::BootstrapStashedDocument;
use base64::Engine;
use vstd::prelude::*;

verus! {

/// What the base64 crate writes for bytes, with the standard alphabet and padding.
pub uninterp spec fn base64_text(bytes: Seq<u8>) -> Seq<char>;

/// What the base64 crate reads from a text with the standard alphabet and padding; nothing
/// where the text has another form.
pub uninterp spec fn base64_bytes(text: Seq<char>) -> Option<Seq<u8>>;

/// `STANDARD.encode` of the base64 crate. The result is a function of the bytes alone, and
/// decoding it gives the bytes back.
#[verifier::external_body]
fn encode_base64(bytes: &Vec<u8>) -> (text: String)
    ensures
        text@ == base64_text(bytes@),
        base64_bytes(text@) == Some(bytes@),
{
    base64::engine::general_purpose::STANDARD.encode(bytes)
}

/// `STANDARD.decode` of the base64 crate. The result is a function of the text alone.
#[verifier::external_body]
fn decode_base64(text: &str) -> (bytes: Option<Vec<u8>>)
    ensures
        match bytes {
            Some(b) => base64_bytes(text@) == Some(b@),
            None => base64_bytes(text@) is None,
        },
{
    base64::engine::general_purpose::STANDARD.decode(text).ok()
}

/// A document that was put aside, over character sequences.
pub struct StashedView {
    pub uuid: Seq<char>,
    pub data_type: Seq<char>,
    pub automerge_doc_base64: Seq<char>,
}

impl View for BootstrapStashedDocument {
    type V = StashedView;

    open spec fn view(&self) -> StashedView {
        StashedView {
            uuid: self.uuid@,
            data_type: self.data_type@,
            automerge_doc_base64: self.automerge_doc_base64@,
        }
    }
}

pub open spec fn stashed_views(list: Seq<BootstrapStashedDocument>) -> Seq<StashedView> {
    list.map_values(|d: BootstrapStashedDocument| d@)
}

/// The JSON form of a document that was put aside.
pub open spec fn stashed_json(d: StashedView) -> JsonView {
    JsonView::Object(
        seq![
            ("automerge_doc_base64"@, JsonView::Text(d.automerge_doc_base64)),
            ("data_type"@, JsonView::Text(d.data_type)),
            ("uuid"@, JsonView::Text(d.uuid)),
        ],
    )
}

/// A row of the store as it is put aside.
pub open spec fn stashed_row(row: CrdtDocumentRow) -> StashedView {
    StashedView {
        uuid: row.uuid@,
        data_type: row.data_type@,
        automerge_doc_base64: base64_text((*row.automerge_doc)@),
    }
}

/// The JSON form of everything that was put aside.
pub open spec fn stash_json(documents: Seq<StashedView>) -> JsonView {
    JsonView::Object(
        seq![
            (
                "documents"@,
                JsonView::List(documents.map_values(|d: StashedView| stashed_json(d))),
            ),
            ("version"@, JsonView::Number(int_text(1))),
        ],
    )
}

/// The text that is kept of rows that are put aside.
pub open spec fn stash_text(rows: Seq<CrdtDocumentRow>) -> Seq<char> {
    json_text(stash_json(rows.map_values(|r: CrdtDocumentRow| stashed_row(r))))
}

/// The JSON form of what was put aside is one in which serde_json gives values.
proof fn lemma_stash_plain(documents: Seq<StashedView>)
    ensures
        plain_json(stash_json(documents), NESTING_LIMIT as nat),
{
    let items = documents.map_values(|d: StashedView| stashed_json(d));
    reveal_strlit("documents");
    reveal_strlit("version");
    reveal_strlit("uuid");
    reveal_strlit("data_type");
    reveal_strlit("automerge_doc_base64");
    assert("documents"@[0] == 'd' && "version"@[0] == 'v' && "uuid"@[0] == 'u');
    assert("data_type"@[0] == 'd' && "automerge_doc_base64"@[0] == 'a');
    assert(text_less("documents"@, "version"@));
    assert(text_less("automerge_doc_base64"@, "data_type"@));
    assert(text_less("automerge_doc_base64"@, "uuid"@));
    assert(text_less("data_type"@, "uuid"@));
    assert forall|i: int| 0 <= i < items.len() implies plain_json(
        #[trigger] items[i],
        (NESTING_LIMIT - 2) as nat,
    ) by {
        assert(items[i] == stashed_json(documents[i]));
        let entries = stashed_json(documents[i])->Object_0;
        assert(plain_json(entries[0].1, (NESTING_LIMIT - 3) as nat));
        assert(plain_json(entries[1].1, (NESTING_LIMIT - 3) as nat));
        assert(plain_json(entries[2].1, (NESTING_LIMIT - 3) as nat));
    }
    let entries = stash_json(documents)->Object_0;
    assert(is_plain_number(int_text(1)));
    assert(plain_json(entries[0].1, (NESTING_LIMIT - 1) as nat));
    assert(plain_json(entries[1].1, (NESTING_LIMIT - 1) as nat));
}

/// Whether the bytes of a row can be read back from their text.
pub open spec fn bytes_readable(row: CrdtDocumentRow) -> bool {
    base64_bytes(stashed_row(row).automerge_doc_base64) == Some((*row.automerge_doc)@)
}

/// Whether rows can be read back from the text that is kept of them.
pub open spec fn stash_readable(rows: Seq<CrdtDocumentRow>) -> bool {
    &&& stash_read(stash_text(rows)) == Some(rows.map_values(|r: CrdtDocumentRow| stashed_row(r)))
    &&& forall|i: int| 0 <= i < rows.len() ==> bytes_readable(#[trigger] rows[i])
}

/// The text that is kept of rows that are put aside.
pub fn serialize_bootstrap_stash_documents(rows: &Vec<CrdtDocumentRow>) -> (text: String)
    ensures
        text@ == stash_text(rows@),
        stash_readable(rows@),
{
    let mut items: Vec<Json> = Vec::new();
    let mut i: usize = 0;
    while i < rows.len()
        invariant
            i <= rows@.len(),
            items@.len() == i,
            forall|k: int|
                0 <= k < i ==> (#[trigger] items@[k])@ == stashed_json(stashed_row(rows@[k])),
            forall|k: int| 0 <= k < i ==> bytes_readable(#[trigger] rows@[k]),
        decreases rows@.len() - i,
    {
        let row = &rows[i];
        let code = encode_base64(&row.automerge_doc);
        let entries = vec![
            entry("automerge_doc_base64", Json::Text(code)),
            entry("data_type", Json::text(row.data_type.as_str())),
            entry("uuid", Json::text(row.uuid.as_str())),
        ];
        proof {
            assert(entries_view(entries@) =~= stashed_json(stashed_row(*row))->Object_0);
        }
        items.push(Json::object(entries));
        i = i + 1;
    }
    let ghost shown = rows@.map_values(|r: CrdtDocumentRow| stashed_row(r));
    proof {
        assert(list_view(items@) =~= shown.map_values(|d: StashedView| stashed_json(d)));
    }
    let entries = vec![entry("documents", Json::list(items)), entry("version", Json::signed(1))];
    proof {
        assert(entries_view(entries@) =~= stash_json(shown)->Object_0);
    }
    let payload = Json::object(entries);
    proof {
        lemma_stash_plain(shown);
        law_stash_round_trip(shown);
    }
    write_json(&payload)
}

/// The document that a JSON value stands for: an object, or a list of its fields.
pub open spec fn stashed_of(j: JsonView) -> Option<StashedView> {
    let j = named_items(j, seq!["uuid"@, "data_type"@, "automerge_doc_base64"@], 3);
    match (
        text_field(j, "uuid"@),
        text_field(j, "data_type"@),
        text_field(j, "automerge_doc_base64"@),
    ) {
        (Some(uuid), Some(data_type), Some(automerge_doc_base64)) => Some(
            StashedView { uuid, data_type, automerge_doc_base64 },
        ),
        _ => None,
    }
}

/// Whether every value stands for a document.
pub open spec fn all_stashed(items: Seq<JsonView>) -> bool {
    forall|i: int| 0 <= i < items.len() ==> stashed_of(#[trigger] items[i]) is Some
}

/// What was put aside, as JSON says it: an object, or a list of its fields; nothing where it
/// is not in the right form.
pub open spec fn stash_documents(j: JsonView) -> Option<Seq<StashedView>> {
    let j = named_items(j, seq!["version"@, "documents"@], 2);
    match (uint_field(j, "version"@), field(j, "documents"@)) {
        (Some(version), Some(JsonView::List(items))) => if version <= 255 && all_stashed(items) {
            Some(items.map_values(|i: JsonView| stashed_of(i)->0))
        } else {
            None
        },
        _ => None,
    }
}

/// What a text says was put aside; nothing where it is not in the right form.
pub open spec fn stash_read(text: Seq<char>) -> Option<Seq<StashedView>> {
    match json_read(text) {
        Ok(j) => stash_documents(j),
        Err(_) => None,
    }
}

fn read_stashed(j: &Json) -> (out: Option<BootstrapStashedDocument>)
    ensures
        match out {
            Some(d) => stashed_of(j@) == Some(d@),
            None => stashed_of(j@) is None,
        },
{
    let names = vec!["uuid", "data_type", "automerge_doc_base64"];
    let j = name_items(j, &names, 3);
    proof {
        assert(name_views(names@) =~= seq!["uuid"@, "data_type"@, "automerge_doc_base64"@]);
    }
    match (j.get_text("uuid"), j.get_text("data_type"), j.get_text("automerge_doc_base64")) {
        (Some(uuid), Some(data_type), Some(automerge_doc_base64)) => Some(
            BootstrapStashedDocument { uuid, data_type, automerge_doc_base64 },
        ),
        _ => None,
    }
}

/// The refusal of a text that does not say what was put aside.
pub open spec fn stash_broken() -> ErrorView {
    ErrorView::Failure { message: "Failed to parse bootstrap stash payload"@ }
}

pub open spec fn no_stash() -> ErrorView {
    ErrorView::Failure { message: "No bootstrap stash found"@ }
}

/// What a text says was put aside.
pub fn parse_bootstrap_replay_source(stash_text: &str) -> (out: Result<
    Vec<BootstrapStashedDocument>,
    SdkError,
>)
    ensures
        match stash_read(stash_text@) {
            Some(documents) => out matches Ok(list) && stashed_views(list@) == documents,
            None => out matches Err(e) && e@ == stash_broken(),
        },
{
    broadcast use {lemma_json_list_view, lemma_json_object_view};

    let broken = failure("Failed to parse bootstrap stash payload");
    let j = match read_json(stash_text) {
        Ok(j) => j,
        Err(_) => return Err(broken),
    };
    let ghost whole = j@;
    let names = vec!["version", "documents"];
    let j = name_items(&j, &names, 2);
    proof {
        assert(name_views(names@) =~= seq!["version"@, "documents"@]);
    }
    match j.get_uint("version") {
        Some(version) => if version > 255 {
            return Err(broken);
        },
        None => return Err(broken),
    }
    match j.get("documents") {
        Some(Json::List(items)) => {
            let ghost all = list_view(items@);
            let mut out: Vec<BootstrapStashedDocument> = Vec::new();
            let mut i: usize = 0;
            while i < items.len()
                invariant
                    i <= items@.len(),
                    all == list_view(items@),
                    out@.len() == i,
                    broken@ == stash_broken(),
                    json_read(stash_text@) == Ok::<JsonView, Seq<char>>(whole),
                    j@ == named_items(whole, seq!["version"@, "documents"@], 2),
                    field(j@, "documents"@) == Some(JsonView::List(all)),
                    forall|k: int|
                        0 <= k < i ==> stashed_of(#[trigger] all[k]) == Some(out@[k]@),
                decreases items@.len() - i,
            {
                match read_stashed(&items[i]) {
                    Some(d) => out.push(d),
                    None => {
                        proof {
                            assert(stashed_of(all[i as int]) is None);
                        }
                        return Err(broken);
                    },
                }
                i = i + 1;
            }
            proof {
                assert(all_stashed(all));
                assert(stashed_views(out@) =~= all.map_values(|i: JsonView| stashed_of(i)->0));
            }
            Ok(out)
        },
        _ => Err(broken),
    }
}

/// What was put aside is read back as it was.
pub proof fn law_stash_round_trip(documents: Seq<StashedView>)
    ensures
        stash_documents(stash_json(documents)) == Some(documents),
{
    let j = stash_json(documents);
    reveal_strlit("documents");
    reveal_strlit("version");
    reveal_strlit("uuid");
    reveal_strlit("data_type");
    reveal_strlit("automerge_doc_base64");
    assert("documents"@.len() == 9 && "version"@.len() == 7);
    assert("uuid"@.len() == 4 && "data_type"@.len() == 9 && "automerge_doc_base64"@.len() == 20);
    let entries = j->Object_0;
    lemma_lookup_at(entries, "documents"@, 0);
    lemma_lookup_at(entries, "version"@, 1);
    crate::json::law_int_round_trip(1);
    crate::json::law_uint_round_trip(1);
    let items = documents.map_values(|d: StashedView| stashed_json(d));
    assert forall|i: int| 0 <= i < items.len() implies stashed_of(#[trigger] items[i]) == Some(
        documents[i],
    ) by {
        let one = items[i]->Object_0;
        assert(items[i] == stashed_json(documents[i]));
        lemma_lookup_at(one, "automerge_doc_base64"@, 0);
        lemma_lookup_at(one, "data_type"@, 1);
        lemma_lookup_at(one, "uuid"@, 2);
    }
    assert(items.map_values(|i: JsonView| stashed_of(i)->0) =~= documents);
}

/// The key under which what was put aside is kept.
pub const STASH_KEY: &'static str = "things.bootstrap.stash_snapshot_json";

/// The key that says that the first synchronisation is done.
pub const DONE_KEY: &'static str = "things.bootstrap.done";

/// The rows that wait to be sent, in the order in which they are sent.
pub open spec fn dirty_rows(s: Storage) -> Seq<CrdtDocumentRow> {
    ranked(s.crdt_documents.data(), document_dirty(), by_type_priority(), false)
}

/// What is kept as put aside.
pub open spec fn kept_stash(s: Storage) -> Option<Seq<char>> {
    kv_value(s.internal_kv.data(), "things.bootstrap.stash_snapshot_json"@)
}

/// Whether local changes were put aside at `now`; nothing else was changed.
pub open spec fn stash_kept(old: Storage, new: Storage, now: i64) -> bool {
    &&& new == (Storage { internal_kv: new.internal_kv, ..old })
    &&& kv_written(
        old.internal_kv.rows@,
        new.internal_kv.rows@,
        "things.bootstrap.stash_snapshot_json"@,
        stash_text(dirty_rows(old)),
        now,
    )
    &&& stash_readable(dirty_rows(old))
}

/// The refusal of documents that cannot be brought back.
pub open spec fn restore_refused() -> ErrorView {
    ErrorView::Failure { message: "Failed to restore bootstrap-stashed CRDT documents"@ }
}

/// Whether documents that were put aside can be brought back: all of them can be read, and the
/// store can count the writes.
pub open spec fn restorable(s: Storage, documents: Seq<StashedView>) -> bool {
    &&& forall|i: int|
        0 <= i < documents.len() ==> base64_bytes(
            (#[trigger] documents[i]).automerge_doc_base64,
        ) is Some
    &&& documents.len() > 0 ==> -1 <= write_counter(s) && write_counter(s) + documents.len()
        <= i64::MAX
}

/// Whether each store in a row is the one before it after the next document was written, as
/// one that waits to be sent and was never sent before.
pub open spec fn saved_in_turn(
    steps: Seq<Storage>,
    documents: Seq<StashedView>,
    sync_state: Seq<u8>,
    now: i64,
    now_ms: i64,
) -> bool {
    &&& steps.len() == documents.len() + 1
    &&& forall|i: int|
        0 <= i < documents.len() ==> #[trigger] saved_next(
            steps,
            documents,
            sync_state,
            now,
            now_ms,
            i,
        )
}

pub open spec fn saved_next(
    steps: Seq<Storage>,
    documents: Seq<StashedView>,
    sync_state: Seq<u8>,
    now: i64,
    now_ms: i64,
    i: int,
) -> bool {
    let old = steps[i];
    let new = steps[i + 1];
    let d = documents[i];
    &&& new == (Storage {
        crdt_documents: new.crdt_documents,
        internal_kv: new.internal_kv,
        ..old
    })
    &&& write_counted(old, new, now_ms)
    &&& document_saved(
        old,
        new,
        d.uuid,
        d.data_type,
        base64_bytes(d.automerge_doc_base64)->0,
        sync_state,
        true,
        None,
        now,
    )
}

/// Whether a store is another one after documents were written in turn.
pub open spec fn documents_restored(
    old: Storage,
    new: Storage,
    documents: Seq<StashedView>,
    sync_state: Seq<u8>,
    now: i64,
    now_ms: i64,
) -> bool {
    exists|steps: Seq<Storage>| #[trigger]
        saved_in_turn(steps, documents, sync_state, now, now_ms) && steps[0] == old
            && steps.last() == new
}

/// Whether what was put aside was brought back, dropped, and the first synchronisation marked
/// as done at `now`.
pub open spec fn stash_restored(
    old: Storage,
    new: Storage,
    sync_state: Seq<u8>,
    now: i64,
    now_ms: i64,
) -> bool {
    exists|middle: Storage| #[trigger]
        documents_restored(
            old,
            middle,
            stash_read(kept_stash(old)->0)->0,
            sync_state,
            now,
            now_ms,
        ) && stash_dropped(middle, new, now)
}

/// Why what was put aside cannot be brought back onto fresh documents.
pub open spec fn restore_answer(s: Storage) -> Option<ErrorView> {
    match kept_stash(s) {
        None => Some(no_stash()),
        Some(text) => match stash_read(text) {
            None => Some(stash_broken()),
            Some(documents) => if restorable(s, documents) {
                None
            } else {
                Some(restore_refused())
            },
        },
    }
}

/// Whether what was put aside was dropped and the first synchronisation marked as done at
/// `now`; nothing else was changed.
pub open spec fn stash_dropped(old: Storage, new: Storage, now: i64) -> bool {
    &&& new == (Storage { internal_kv: new.internal_kv, ..old })
    &&& exists|middle: Seq<Row<InternalKv>>| #[trigger]
        kv_written(
            old.internal_kv.rows@,
            middle,
            "things.bootstrap.done"@,
            "1"@,
            now,
        ) && new.internal_kv.rows@ == rows_kept(
            middle,
            other_key("things.bootstrap.stash_snapshot_json"@),
        )
}

/// What bringing back what was put aside answers. `replayed` is how merging the documents
/// went.
pub open spec fn replay_answer(old: Storage, replayed: Option<ErrorView>) -> Option<ErrorView> {
    match kept_stash(old) {
        None => Some(no_stash()),
        Some(text) => match stash_read(text) {
            None => Some(stash_broken()),
            Some(_) => match replayed {
                Some(_) => Some(merge_refused()),
                None => None,
            },
        },
    }
}

/// The refusal of documents that cannot be merged.
pub open spec fn merge_refused() -> ErrorView {
    ErrorView::Failure { message: "Failed to merge bootstrap-stashed CRDT documents"@ }
}

pub open spec fn error_of(out: Result<(), SdkError>) -> Option<ErrorView> {
    match out {
        Ok(_) => None,
        Err(e) => Some(e@),
    }
}

impl TriggerSdk {
    /// A document.
    pub fn crdt_get_document(
        &self,
        uuid: &str,
        data_type: &str,
    ) -> (out: Option<CrdtDocumentRow>)
        ensures
            out == first_data(self.storage.crdt_documents.data(), is_document(uuid@, data_type@)),
    {
        self.storage.get_crdt_document(uuid, data_type)
    }

    /// Writes a document now.
    pub fn crdt_save_document(
        &mut self,
        uuid: &str,
        data_type: &str,
        automerge_doc: &[u8],
        sync_state: &[u8],
        dirty: bool,
        last_sync_at: Option<&str>,
    ) -> (out: Result<(), SdkError>)
        requires
            write_counter(old(self).storage) < i64::MAX,
        ensures
            only_storage_changed(*old(self), *final(self)),
            write_reported(old(self).storage, out),
            exists|now_ms: i64| clock_millis(now_ms) && #[trigger]
                write_counted(old(self).storage, final(self).storage, now_ms),
            exists|now: i64| clock_seconds(now) && #[trigger]
                document_saved(
                    old(self).storage,
                    final(self).storage,
                    uuid@,
                    data_type@,
                    automerge_doc@,
                    sync_state@,
                    dirty,
                    opt_str_view(last_sync_at),
                    now,
                ),
            final(self).storage == (Storage {
                crdt_documents: final(self).storage.crdt_documents,
                internal_kv: final(self).storage.internal_kv,
                ..old(self).storage
            }),
    {
        self.storage.save_crdt_document(
            uuid,
            data_type,
            automerge_doc,
            sync_state,
            dirty,
            last_sync_at,
        )
    }

    /// The documents that changed since they were sent, in the order in which they are sent.
    pub fn crdt_get_dirty_documents(&self) -> (out: Vec<CrdtDocumentRow>)
        ensures
            out@ == ranked(
                self.storage.crdt_documents.data(),
                document_dirty(),
                by_type_priority(),
                false,
            ),
    {
        self.storage.get_dirty_crdt_documents()
    }

    /// All documents.
    pub fn crdt_list_documents(&self) -> (out: Vec<CrdtDocumentRow>)
        ensures
            out@ == self.storage.crdt_documents.data(),
    {
        self.storage.list_crdt_documents()
    }

    /// The keys of all documents.
    pub fn crdt_list_document_keys(&self) -> (out: Vec<(String, String)>)
        ensures
            pair_views(out@) == document_keys(self.storage.crdt_documents.data()),
    {
        self.storage.list_crdt_document_keys()
    }

    /// Puts local changes aside at `now`, where there are some and none were put aside
    /// before. Says whether it did.
    pub fn things_bootstrap_stash_local_snapshot_if_needed_at(&mut self, now: i64) -> (done: bool)
        ensures
            only_storage_changed(*old(self), *final(self)),
            done == (kept_stash(old(self).storage) is None && dirty_rows(old(self).storage).len()
                > 0),
            if done {
                stash_kept(old(self).storage, final(self).storage, now)
            } else {
                final(self).storage == old(self).storage
            },
    {
        if self.storage.get_internal_kv("things.bootstrap.stash_snapshot_json").is_some() {
            return false;
        }
        let rows = self.storage.get_dirty_crdt_documents();
        if rows.len() == 0 {
            return false;
        }
        let payload = serialize_bootstrap_stash_documents(&rows);
        self.storage.set_internal_kv_at(
            "things.bootstrap.stash_snapshot_json",
            payload.as_str(),
            now,
        );
        true
    }

    /// Puts local changes aside now, where there are some and none were put aside before.
    /// Says whether it did.
    pub fn things_bootstrap_stash_local_snapshot_if_needed(&mut self) -> (done: bool)
        ensures
            only_storage_changed(*old(self), *final(self)),
            done == (kept_stash(old(self).storage) is None && dirty_rows(old(self).storage).len()
                > 0),
            if done {
                exists|now: i64| clock_seconds(now) && #[trigger]
                    stash_kept(old(self).storage, final(self).storage, now)
            } else {
                final(self).storage == old(self).storage
            },
    {
        let now: i64 = now_seconds();
        self.things_bootstrap_stash_local_snapshot_if_needed_at(now)
    }

    /// Whether local changes were put aside.
    pub fn things_bootstrap_has_stash(&self) -> (r: bool)
        ensures
            r == (kept_stash(self.storage) is Some),
    {
        self.storage.get_internal_kv("things.bootstrap.stash_snapshot_json").is_some()
    }

    /// What was put aside.
    pub fn things_bootstrap_replay_source(&self) -> (out: Result<
        Vec<BootstrapStashedDocument>,
        SdkError,
    >)
        ensures
            match kept_stash(self.storage) {
                None => out matches Err(e) && e@ == no_stash(),
                Some(text) => match stash_read(text) {
                    None => out matches Err(e) && e@ == stash_broken(),
                    Some(documents) => out matches Ok(list) && stashed_views(list@) == documents,
                },
            },
    {
        match self.storage.get_internal_kv("things.bootstrap.stash_snapshot_json") {
            None => Err(failure("No bootstrap stash found")),
            Some(text) => parse_bootstrap_replay_source(text.as_str()),
        }
    }

    /// Drops what was put aside, and marks the first synchronisation as done, at `now`.
    fn drop_stash_at(&mut self, now: i64)
        ensures
            only_storage_changed(*old(self), *final(self)),
            stash_dropped(old(self).storage, final(self).storage, now),
    {
        let ghost before = self.storage;
        self.storage.set_internal_kv_at("things.bootstrap.done", "1", now);
        let ghost middle = self.storage.internal_kv.rows@;
        self.storage.delete_internal_kv("things.bootstrap.stash_snapshot_json");
        proof {
            assert(kv_written(
                before.internal_kv.rows@,
                middle,
                "things.bootstrap.done"@,
                "1"@,
                now,
            ));
        }
    }

    /// Ends the bringing back of what was put aside at `now`.
    pub fn finish_bootstrap_replay_at(&mut self, replayed: Result<(), SdkError>, now: i64) -> (out:
        Result<(), SdkError>)
        ensures
            only_storage_changed(*old(self), *final(self)),
            error_of(out) == replay_answer(old(self).storage, error_of(replayed)),
            if out is Ok {
                stash_dropped(old(self).storage, final(self).storage, now)
            } else {
                final(self).storage == old(self).storage
            },
    {
        match self.things_bootstrap_replay_source() {
            Err(e) => return Err(e),
            Ok(_) => {},
        }
        match replayed {
            Err(_) => return Err(failure("Failed to merge bootstrap-stashed CRDT documents")),
            Ok(_) => {},
        }
        self.drop_stash_at(now);
        Ok(())
    }

    /// Writes documents that were put aside into the store at `now`, each as one that waits to
    /// be sent. `sync_state` is what a document starts to synchronise from.
    pub fn restore_stashed_documents_at(
        &mut self,
        documents: &Vec<BootstrapStashedDocument>,
        sync_state: &[u8],
        now: i64,
        now_ms: i64,
    ) -> (out: Result<(), SdkError>)
        ensures
            only_storage_changed(*old(self), *final(self)),
            out is Ok <==> restorable(old(self).storage, stashed_views(documents@)),
            match out {
                Ok(_) => documents_restored(
                    old(self).storage,
                    final(self).storage,
                    stashed_views(documents@),
                    sync_state@,
                    now,
                    now_ms,
                ),
                Err(e) => final(self).storage == old(self).storage && e@ == restore_refused(),
            },
    {
        let refused = failure("Failed to restore bootstrap-stashed CRDT documents");
        let ghost views = stashed_views(documents@);
        let mut decoded: Vec<Vec<u8>> = Vec::new();
        let mut i: usize = 0;
        while i < documents.len()
            invariant
                i <= documents@.len(),
                views == stashed_views(documents@),
                decoded@.len() == i,
                *self == *old(self),
                refused@ == restore_refused(),
                forall|k: int|
                    0 <= k < i ==> base64_bytes((#[trigger] views[k]).automerge_doc_base64) == Some(
                        decoded@[k]@,
                    ),
            decreases documents@.len() - i,
        {
            match decode_base64(documents[i].automerge_doc_base64.as_str()) {
                Some(bytes) => decoded.push(bytes),
                None => {
                    proof {
                        assert(base64_bytes(views[i as int].automerge_doc_base64) is None);
                    }
                    return Err(refused);
                },
            }
            i = i + 1;
        }
        let counter: i64 = self.storage.document_write_counter();
        if documents.len() > 0 && (counter < -1 || documents.len() as i128 > i64::MAX as i128
            - counter as i128) {
            return Err(refused);
        }
        let ghost mut steps = seq![self.storage];
        let mut i: usize = 0;
        while i < documents.len()
            invariant
                i <= documents@.len(),
                views == stashed_views(documents@),
                decoded@.len() == documents@.len(),
                forall|k: int|
                    0 <= k < views.len() ==> base64_bytes((#[trigger] views[k]).automerge_doc_base64)
                        == Some(decoded@[k]@),
                only_storage_changed(*old(self), *self),
                steps.len() == i + 1,
                steps[0] == old(self).storage,
                steps[i as int] == self.storage,
                i < documents@.len() ==> counter >= -1 && counter + documents@.len() <= i64::MAX,
                write_counter(self.storage) == counter + i,
                forall|k: int|
                    0 <= k < i ==> #[trigger] saved_next(steps, views, sync_state@, now, now_ms, k),
            decreases documents@.len() - i,
        {
            let ghost before = self.storage;
            let ghost taken = steps;
            let d = &documents[i];
            let saved = self.storage.save_crdt_document_at(
                d.uuid.as_str(),
                d.data_type.as_str(),
                decoded[i].as_slice(),
                sync_state,
                true,
                None,
                now,
                now_ms,
            );
            proof {
                law_write_raises_counter(before, self.storage, now_ms);
                steps = taken.push(self.storage);
                assert forall|k: int| 0 <= k < i + 1 implies #[trigger] saved_next(
                    steps,
                    views,
                    sync_state@,
                    now,
                    now_ms,
                    k,
                ) by {
                    if k < i {
                        assert(saved_next(taken, views, sync_state@, now, now_ms, k));
                    } else {
                        assert(views[k] == d@);
                    }
                }
            }
            i = i + 1;
        }
        proof {
            assert(saved_in_turn(steps, views, sync_state@, now, now_ms));
        }
        Ok(())
    }

    /// Brings back what was put aside onto fresh documents at `now`.
    pub fn replay_stash_onto_fresh_documents_at(
        &mut self,
        sync_state: &[u8],
        now: i64,
        now_ms: i64,
    ) -> (out: Result<(), SdkError>)
        ensures
            only_storage_changed(*old(self), *final(self)),
            error_of(out) == restore_answer(old(self).storage),
            if out is Ok {
                stash_restored(old(self).storage, final(self).storage, sync_state@, now, now_ms)
            } else {
                final(self).storage == old(self).storage
            },
    {
        let documents = match self.things_bootstrap_replay_source() {
            Err(e) => return Err(e),
            Ok(documents) => documents,
        };
        match self.restore_stashed_documents_at(&documents, sync_state, now, now_ms) {
            Err(e) => return Err(e),
            Ok(_) => {},
        }
        let ghost middle = self.storage;
        self.drop_stash_at(now);
        proof {
            assert(stashed_views(documents@) == stash_read(
                kept_stash(old(self).storage)->0,
            )->0);
        }
        Ok(())
    }

    /// Brings back what was put aside onto fresh documents now: each of them is stored, and
    /// waits to be sent. What the server has comes document by document, so a snapshot of it
    /// changes nothing here. `sync_state` is what a document starts to synchronise from.
    pub fn things_bootstrap_from_server_snapshot_and_replay_stash(
        &mut self,
        _server_snapshot_doc: Vec<u8>,
        _server_last_sync_at: Option<&str>,
        sync_state: &[u8],
    ) -> (out: Result<(), SdkError>)
        ensures
            only_storage_changed(*old(self), *final(self)),
            error_of(out) == restore_answer(old(self).storage),
            if out is Ok {
                exists|now: i64, now_ms: i64|
                    clock_seconds(now) && clock_millis(now_ms) && #[trigger] stash_restored(
                        old(self).storage,
                        final(self).storage,
                        sync_state@,
                        now,
                        now_ms,
                    )
            } else {
                final(self).storage == old(self).storage
            },
    {
        let now: i64 = now_seconds();
        let now_ms: i64 = now_millis();
        self.replay_stash_onto_fresh_documents_at(sync_state, now, now_ms)
    }

    /// Ends the bringing back of what was put aside onto the documents that are there.
    /// `merged` is how merging them went.
    pub fn things_bootstrap_replay_stash_onto_current_documents(
        &mut self,
        merged: Result<(), SdkError>,
    ) -> (out: Result<(), SdkError>)
        ensures
            only_storage_changed(*old(self), *final(self)),
            error_of(out) == replay_answer(old(self).storage, error_of(merged)),
            if out is Ok {
                exists|now: i64| clock_seconds(now) && #[trigger]
                    stash_dropped(old(self).storage, final(self).storage, now)
            } else {
                final(self).storage == old(self).storage
            },
    {
        let now: i64 = now_seconds();
        let out = self.finish_bootstrap_replay_at(merged, now);
        proof {
            if out is Ok {
                assert(stash_dropped(old(self).storage, self.storage, now));
            }
        }
        out
    }
}

/// Local changes are put aside once: what is put aside is kept until it was brought back.
pub proof fn law_stash_is_kept(old: Storage, new: Storage, now: i64)
    requires
        stash_kept(old, new, now),
    ensures
        kept_stash(new) == Some(stash_text(dirty_rows(old))),
{
    law_kv_read_after_write(
        old.internal_kv.rows@,
        new.internal_kv.rows@,
        "things.bootstrap.stash_snapshot_json"@,
        stash_text(dirty_rows(old)),
        now,
        "things.bootstrap.done"@,
    );
}

/// Once what was put aside was brought back, nothing is put aside and the first synchronisation
/// is done: bringing it back again is refused, however writing the documents would go.
pub proof fn law_replay_ends_stash(
    old: Storage,
    new: Storage,
    now: i64,
    replayed: Option<ErrorView>,
)
    requires
        stash_dropped(old, new, now),
    ensures
        kept_stash(new) is None,
        kv_value(new.internal_kv.data(), "things.bootstrap.done"@) == Some("1"@),
        replay_answer(new, replayed) == Some(no_stash()),
{
    let done = "things.bootstrap.done"@;
    let stash = "things.bootstrap.stash_snapshot_json"@;
    reveal_strlit("things.bootstrap.done");
    reveal_strlit("things.bootstrap.stash_snapshot_json");
    assert(done.len() == 21 && stash.len() == 36);
    let middle = choose|middle: Seq<Row<InternalKv>>| #[trigger]
        kv_written(old.internal_kv.rows@, middle, done, "1"@, now) && new.internal_kv.rows@
            == rows_kept(middle, other_key(stash));
    law_kv_read_after_write(old.internal_kv.rows@, middle, done, "1"@, now, done);
    law_removal_leaves_others(middle, other_key(stash), is_key(done));
    law_removed_is_gone(middle, other_key(stash));
    let data = new.internal_kv.data();
    law_first_data(data, is_key(stash));
    if any_data(data, is_key(stash)) {
        let i = choose|i: int| 0 <= i < data.len() && is_key(stash)(#[trigger] data[i]);
        assert((|d: InternalKv| !other_key(stash)(d))(data[i]));
    }
}

proof fn lemma_later_documents(
    steps: Seq<Storage>,
    documents: Seq<StashedView>,
    sync_state: Seq<u8>,
    now: i64,
    now_ms: i64,
    i: int,
    n: int,
)
    requires
        saved_in_turn(steps, documents, sync_state, now, now_ms),
        0 <= i < n <= documents.len(),
        forall|k: int|
            i < k < documents.len() ==> ((#[trigger] documents[k]).uuid, documents[k].data_type) != (
                documents[i].uuid,
                documents[i].data_type,
            ),
    ensures
        first_data(
            steps[n].crdt_documents.data(),
            is_document(documents[i].uuid, documents[i].data_type),
        ) matches Some(d) && d.dirty && Some(d.automerge_doc@) == Some(
            base64_bytes(documents[i].automerge_doc_base64)->0,
        ),
    decreases n,
{
    assert(saved_next(steps, documents, sync_state, now, now_ms, n - 1));
    let d = documents[n - 1];
    law_document_read_after_save(
        steps[n - 1],
        steps[n],
        d.uuid,
        d.data_type,
        base64_bytes(d.automerge_doc_base64)->0,
        sync_state,
        true,
        None,
        now,
        (documents[i].uuid, documents[i].data_type),
    );
    if n > i + 1 {
        lemma_later_documents(steps, documents, sync_state, now, now_ms, i, n - 1);
    }
}

/// What was brought back is stored and waits to be sent: every document that was put aside has
/// the bytes that it was put aside with. Where a key was put aside twice, the last one counts.
pub proof fn law_restored_documents_are_stored(
    old: Storage,
    new: Storage,
    sync_state: Seq<u8>,
    now: i64,
    now_ms: i64,
    i: int,
)
    requires
        restore_answer(old) is None,
        stash_restored(old, new, sync_state, now, now_ms),
        ({
            let documents = stash_read(kept_stash(old)->0)->0;
            &&& 0 <= i < documents.len()
            &&& forall|k: int|
                i < k < documents.len() ==> ((#[trigger] documents[k]).uuid, documents[k].data_type)
                    != (documents[i].uuid, documents[i].data_type)
        }),
    ensures
        ({
            let d = stash_read(kept_stash(old)->0)->0[i];
            first_data(new.crdt_documents.data(), is_document(d.uuid, d.data_type)) matches Some(row)
                && row.dirty && Some(row.automerge_doc@) == base64_bytes(d.automerge_doc_base64)
        }),
{
    let documents = stash_read(kept_stash(old)->0)->0;
    let middle = choose|middle: Storage| #[trigger]
        documents_restored(old, middle, documents, sync_state, now, now_ms) && stash_dropped(
            middle,
            new,
            now,
        );
    let steps = choose|steps: Seq<Storage>| #[trigger]
        saved_in_turn(steps, documents, sync_state, now, now_ms) && steps[0] == old
            && steps.last() == middle;
    lemma_later_documents(
        steps,
        documents,
        sync_state,
        now,
        now_ms,
        i,
        documents.len() as int,
    );
    assert(base64_bytes(documents[i].automerge_doc_base64) is Some);
}

/// Local changes that were put aside come back: whatever became of the documents in between,
/// each one that waited to be sent is stored again with the bytes that it had, and waits to be
/// sent.
pub proof fn law_stash_comes_back(
    before: Storage,
    stashed: Storage,
    at: i64,
    old: Storage,
    new: Storage,
    sync_state: Seq<u8>,
    now: i64,
    now_ms: i64,
    i: int,
)
    requires
        before.well_formed(),
        stash_kept(before, stashed, at),
        kept_stash(old) == kept_stash(stashed),
        restore_answer(old) is None,
        stash_restored(old, new, sync_state, now, now_ms),
        0 <= i < dirty_rows(before).len(),
    ensures
        ({
            let row = dirty_rows(before)[i];
            first_data(new.crdt_documents.data(), is_document(row.uuid@, row.data_type@)) matches Some(
                back,
            ) && back.dirty && back.automerge_doc@ == row.automerge_doc@
        }),
{
    law_stash_is_kept(before, stashed, at);
    let rows = dirty_rows(before);
    let documents = rows.map_values(|r: CrdtDocumentRow| stashed_row(r));
    let key = document_key();
    law_listed_once(
        before.crdt_documents.rows@,
        document_dirty(),
        by_type_priority(),
        false,
        None,
        0,
        key,
    );
    assert(page(rows, None, 0) =~= rows);
    assert forall|k: int| i < k < documents.len() implies (
        (#[trigger] documents[k]).uuid,
        documents[k].data_type,
    ) != (documents[i].uuid, documents[i].data_type) by {
        assert(key(rows[i]) != key(rows[k]));
    }
    law_restored_documents_are_stored(old, new, sync_state, now, now_ms, i);
    assert(bytes_readable(rows[i]));
}

/// Once what was put aside was brought back onto fresh documents nothing is put aside, and
/// bringing it back again is refused.
pub proof fn law_restore_ends_stash(
    old: Storage,
    new: Storage,
    sync_state: Seq<u8>,
    now: i64,
    now_ms: i64,
)
    requires
        stash_restored(old, new, sync_state, now, now_ms),
    ensures
        kept_stash(new) is None,
        restore_answer(new) == Some(no_stash()),
{
    let documents = stash_read(kept_stash(old)->0)->0;
    let middle = choose|middle: Storage| #[trigger]
        documents_restored(old, middle, documents, sync_state, now, now_ms) && stash_dropped(
            middle,
            new,
            now,
        );
    law_replay_ends_stash(middle, new, now, None);
}

} // verus!
