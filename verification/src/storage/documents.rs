//! The key-value pairs of the library, the stored state of things, and the documents.
use super::chat::every;
use super::Storage;
use crate::clock::{clock_millis, clock_seconds, now_millis, now_seconds};
use crate::error::{failure, ErrorView, SdkError};
use crate::json::{int_text, opt_view, signed_text};
use crate::rows::{CrdtDocumentRow, InternalKv, ThingsState};
use crate::table::{
    data_of, first_data, group_keyed, law_upsert_leaves_others, law_upsert_read_back, ranked,
    rows_kept, rows_updated, rows_upserted, Rank, Record, Row,
};
use crate::text::{
    cat, chars_of, digits_value, is_digit, owned, parse_unsigned, same, unsigned_digits,
    unsigned_value,
};
use std::sync::Arc;
use vstd::prelude::*;
use vstd::slice::slice_to_vec;

verus! {

/// The key under which the number of document writes is kept.
pub const CRDT_DOCUMENTS_REVISION_KEY: &'static str = "crdt_documents_revision";

pub open spec fn is_key(key: Seq<char>) -> spec_fn(InternalKv) -> bool {
    |kv: InternalKv| kv.key@ == key
}

pub open spec fn other_key(key: Seq<char>) -> spec_fn(InternalKv) -> bool {
    |kv: InternalKv| kv.key@ != key
}

pub open spec fn kv_taken_over(new: InternalKv) -> spec_fn(InternalKv) -> InternalKv {
    |kv: InternalKv| InternalKv { value: new.value, updated_at: new.updated_at, ..kv }
}

/// The value that a key has.
pub open spec fn kv_value(data: Seq<InternalKv>, key: Seq<char>) -> Option<Seq<char>> {
    match first_data(data, is_key(key)) {
        Some(kv) => Some(kv.value@),
        None => None,
    }
}

/// Whether a table is another one after a key got a value.
pub open spec fn kv_written(
    old: Seq<Row<InternalKv>>,
    new: Seq<Row<InternalKv>>,
    key: Seq<char>,
    value: Seq<char>,
    now: i64,
) -> bool {
    exists|row: InternalKv|
        row.key@ == key && row.value@ == value && row.updated_at == now
            && new == #[trigger] rows_upserted(old, is_key(key), kv_taken_over(row), row)
}

/// A key that got a value has that value; other keys keep theirs.
pub proof fn law_kv_read_after_write(
    old: Seq<Row<InternalKv>>,
    new: Seq<Row<InternalKv>>,
    key: Seq<char>,
    value: Seq<char>,
    now: i64,
    other: Seq<char>,
)
    requires
        kv_written(old, new, key, value, now),
    ensures
        kv_value(data_of(new), key) == Some(value),
        other != key ==> kv_value(data_of(new), other) == kv_value(data_of(old), other),
{
    let row = choose|row: InternalKv|
        row.key@ == key && row.value@ == value && row.updated_at == now
            && new == #[trigger] rows_upserted(old, is_key(key), kv_taken_over(row), row);
    law_upsert_read_back(old, is_key(key), kv_taken_over(row), row);
    if other != key {
        law_upsert_leaves_others(old, is_key(key), kv_taken_over(row), row, is_key(other));
    }
}

/// A blank as the store sees it.
pub open spec fn is_blank(c: char) -> bool {
    c == ' ' || ('\u{9}' <= c && c <= '\u{d}')
}

/// How many elements at the start satisfy `p`.
pub open spec fn run_length(s: Seq<char>, p: spec_fn(char) -> bool) -> int
    decreases s.len(),
{
    if s.len() == 0 || !p(s[0]) {
        0
    } else {
        1 + run_length(s.drop_first(), p)
    }
}

pub proof fn lemma_run_length(s: Seq<char>, p: spec_fn(char) -> bool, n: int)
    requires
        0 <= n <= s.len(),
        forall|k: int| 0 <= k < n ==> p(#[trigger] s[k]),
        n < s.len() ==> !p(s[n]),
    ensures
        run_length(s, p) == n,
    decreases s.len(),
{
    if n > 0 {
        assert forall|k: int| 0 <= k < n - 1 implies p(#[trigger] s.drop_first()[k]) by {
            assert(p(s[k + 1]));
        }
        lemma_run_length(s.drop_first(), p, n - 1);
    }
}

pub open spec fn blanks() -> spec_fn(char) -> bool {
    |c: char| is_blank(c)
}

pub open spec fn digits() -> spec_fn(char) -> bool {
    |c: char| is_digit(c)
}

/// The number of a run of digits, but no more than `cap`.
pub open spec fn capped_value(s: Seq<char>, cap: nat) -> nat
    decreases s.len(),
{
    if s.len() == 0 {
        0
    } else {
        let n = capped_value(s.drop_last(), cap) * 10 + (s.last() as int - '0' as int);
        if n > cap {
            cap
        } else {
            n as nat
        }
    }
}

/// The largest number that the store holds.
pub open spec fn int_cap() -> nat {
    i64::MAX as nat
}

/// The number that the store takes a text for: blanks, a sign at most, and digits at its
/// start; 0 where there are no digits, and the nearest number that it can hold.
pub open spec fn cast_integer(text: Seq<char>) -> int {
    let rest = text.skip(run_length(text, blanks()));
    let signed = rest.len() > 0 && (rest[0] == '-' || rest[0] == '+');
    let body = if signed { rest.skip(1) } else { rest };
    let run = body.take(run_length(body, digits()));
    if rest.len() > 0 && rest[0] == '-' {
        -(capped_value(run, int_cap() + 1) as int)
    } else {
        capped_value(run, int_cap()) as int
    }
}

/// The number that a counter has before it is raised; an absent one has 0.
pub open spec fn counter_of(value: Option<Seq<char>>) -> int {
    match value {
        Some(text) => cast_integer(text),
        None => 0,
    }
}

/// How many leading characters satisfy the test, and that they do.
fn leading_digits(chars: &Vec<char>, from: usize) -> (n: usize)
    requires
        from <= chars@.len(),
    ensures
        n == run_length(chars@.skip(from as int), digits()),
        from + n <= chars@.len(),
{
    let ghost rest = chars@.skip(from as int);
    let mut n: usize = 0;
    while n < chars.len() - from && '0' <= chars[from + n] && chars[from + n] <= '9'
        invariant
            from <= chars@.len(),
            n <= chars@.len() - from,
            rest == chars@.skip(from as int),
            forall|k: int| 0 <= k < n ==> digits()(#[trigger] rest[k]),
        decreases chars@.len() - from - n,
    {
        n = n + 1;
    }
    proof {
        lemma_run_length(rest, digits(), n as int);
    }
    n
}

fn leading_blanks(chars: &Vec<char>) -> (n: usize)
    ensures
        n == run_length(chars@, blanks()),
        n <= chars@.len(),
{
    let mut n: usize = 0;
    while n < chars.len() && (chars[n] == ' ' || ('\u{9}' <= chars[n] && chars[n] <= '\u{d}'))
        invariant
            n <= chars@.len(),
            forall|k: int| 0 <= k < n ==> blanks()(#[trigger] chars@[k]),
        decreases chars@.len() - n,
    {
        n = n + 1;
    }
    proof {
        lemma_run_length(chars@, blanks(), n as int);
    }
    n
}

fn capped_number(chars: &Vec<char>, from: usize, n: usize, cap: u64) -> (value: u64)
    requires
        from + n <= chars@.len(),
        n == run_length(chars@.skip(from as int), digits()),
    ensures
        value == capped_value(chars@.skip(from as int).take(n as int), cap as nat),
        value <= cap,
{
    let total: usize = chars.len();
    let ghost run = chars@.skip(from as int).take(n as int);
    let mut value: u64 = 0;
    let mut i: usize = 0;
    proof {
        lemma_run_holds(chars@.skip(from as int), digits());
        assert(run.take(0) =~= Seq::<char>::empty());
    }
    while i < n
        invariant
            i <= n,
            from + n <= total,
            total == chars@.len(),
            run == chars@.skip(from as int).take(n as int),
            forall|k: int| 0 <= k < n ==> digits()(#[trigger] run[k]),
            value == capped_value(run.take(i as int), cap as nat),
            value <= cap,
        decreases n - i,
    {
        let c = chars[from + i];
        proof {
            assert(c == run[i as int]);
            assert(digits()(run[i as int]));
            assert(run.take(i + 1).drop_last() =~= run.take(i as int));
        }
        let next: u128 = value as u128 * 10 + (c as u32 - '0' as u32) as u128;
        if next > cap as u128 {
            value = cap;
        } else {
            value = next as u64;
        }
        i = i + 1;
    }
    proof {
        assert(run.take(i as int) =~= run);
    }
    value
}

proof fn lemma_run_holds(s: Seq<char>, p: spec_fn(char) -> bool)
    ensures
        0 <= run_length(s, p) <= s.len(),
        forall|k: int| 0 <= k < run_length(s, p) ==> p(#[trigger] s[k]),
    decreases s.len(),
{
    if s.len() > 0 && p(s[0]) {
        lemma_run_holds(s.drop_first(), p);
        assert forall|k: int| 0 <= k < run_length(s, p) implies p(#[trigger] s[k]) by {
            if k > 0 {
                assert(s[k] == s.drop_first()[k - 1]);
            }
        }
    }
}

/// The number that the store takes a text for.
pub fn cast_to_integer(text: &str) -> (n: i64)
    ensures
        n == cast_integer(text@),
{
    let chars = chars_of(text);
    let blank: usize = leading_blanks(&chars);
    let ghost rest = text@.skip(blank as int);
    let signed = blank < chars.len() && (chars[blank] == '-' || chars[blank] == '+');
    let negative = blank < chars.len() && chars[blank] == '-';
    let from: usize = if signed { blank + 1 } else { blank };
    let run: usize = leading_digits(&chars, from);
    proof {
        if signed {
            assert(rest.skip(1) =~= text@.skip(from as int));
        }
    }
    if negative {
        let size: u64 = capped_number(&chars, from, run, 0x8000_0000_0000_0000);
        if size == 0x8000_0000_0000_0000 {
            i64::MIN
        } else {
            -(size as i64)
        }
    } else {
        let size: u64 = capped_number(&chars, from, run, 0x7fff_ffff_ffff_ffff);
        size as i64
    }
}

proof fn lemma_capped_is_value(s: Seq<char>, cap: nat)
    requires
        digits_value(s) is Some,
        digits_value(s)->0 <= cap,
    ensures
        capped_value(s, cap) == digits_value(s)->0,
        forall|k: int| 0 <= k < s.len() ==> digits()(#[trigger] s[k]),
    decreases s.len(),
{
    if s.len() > 0 {
        lemma_capped_is_value(s.drop_last(), cap);
        assert forall|k: int| 0 <= k < s.len() implies digits()(#[trigger] s[k]) by {
            if k < s.len() - 1 {
                assert(s[k] == s.drop_last()[k]);
            }
        }
    }
}

/// A text that reads as an unsigned number which the store can hold is taken for that
/// number.
pub proof fn law_cast_reads_numbers(text: Seq<char>, n: nat)
    requires
        unsigned_value(text, u64::MAX as nat) == Some(n),
        n <= i64::MAX,
    ensures
        cast_integer(text) == n,
{
    let body = unsigned_digits(text);
    lemma_capped_is_value(body, int_cap());
    assert(body[0] == body.take(1)[0]);
    assert(digits()(body[0]));
    lemma_run_length(text, blanks(), 0);
    assert(text.skip(0) =~= text);
    lemma_run_length(body, digits(), body.len() as int);
    assert(body.take(body.len() as int) =~= body);
}

/// The number of document writes.
pub open spec fn revision_of(data: Seq<InternalKv>) -> Option<nat> {
    match kv_value(data, "crdt_documents_revision"@) {
        Some(text) => unsigned_value(text, u64::MAX as nat),
        None => Some(0),
    }
}

pub open spec fn revision_fault(value: Seq<char>) -> ErrorView {
    ErrorView::Failure { message: "Invalid CRDT documents revision value: "@ + value }
}

/// The counter of document writes before a write.
pub open spec fn write_counter(s: Storage) -> int {
    counter_of(kv_value(s.internal_kv.data(), "crdt_documents_revision"@))
}

/// Whether the counter of document writes went up by one.
pub open spec fn write_counted(old: Storage, new: Storage, now_ms: i64) -> bool {
    kv_written(
        old.internal_kv.rows@,
        new.internal_kv.rows@,
        "crdt_documents_revision"@,
        int_text(write_counter(old) + 1),
        now_ms,
    )
}

/// A document write raises the revision by one, wherever there was one that the store
/// can still count up from.
pub proof fn law_write_raises_revision(old: Storage, new: Storage, now_ms: i64)
    requires
        write_counted(old, new, now_ms),
        revision_of(old.internal_kv.data()) matches Some(n) && n < i64::MAX,
    ensures
        revision_of(new.internal_kv.data()) == Some(
            (revision_of(old.internal_kv.data())->0 + 1) as nat,
        ),
{
    let n = revision_of(old.internal_kv.data())->0;
    match kv_value(old.internal_kv.data(), "crdt_documents_revision"@) {
        Some(text) => {
            law_cast_reads_numbers(text, n);
        },
        None => {},
    }
    law_kv_read_after_write(
        old.internal_kv.rows@,
        new.internal_kv.rows@,
        "crdt_documents_revision"@,
        int_text(write_counter(old) + 1),
        now_ms,
        "crdt_documents_revision"@,
    );
    crate::text::law_decimal_round_trip((n + 1) as nat, u64::MAX as nat);
}

/// After a write the counter is one higher, as long as it can be counted.
pub proof fn law_write_raises_counter(old: Storage, new: Storage, now_ms: i64)
    requires
        write_counted(old, new, now_ms),
        -1 <= write_counter(old) < i64::MAX,
    ensures
        write_counter(new) == write_counter(old) + 1,
{
    let raised = write_counter(old) + 1;
    law_kv_read_after_write(
        old.internal_kv.rows@,
        new.internal_kv.rows@,
        "crdt_documents_revision"@,
        int_text(raised),
        now_ms,
        "crdt_documents_revision"@,
    );
    crate::text::law_decimal_round_trip(raised as nat, u64::MAX as nat);
    law_cast_reads_numbers(int_text(raised), raised as nat);
}

pub open spec fn state_replaced(new: ThingsState) -> spec_fn(ThingsState) -> ThingsState {
    |s: ThingsState| new
}

/// Whether a store is another one after the state of things was written.
pub open spec fn things_state_written(
    old: Storage,
    new: Storage,
    doc: Seq<u8>,
    sync_state: Seq<u8>,
    dirty: bool,
    last_sync_at: Option<Seq<char>>,
) -> bool {
    exists|row: ThingsState|
        row.automerge_doc@ == doc && row.sync_state@ == sync_state && row.dirty == dirty
            && opt_view(row.last_sync_at) == last_sync_at
            && new.things_state.rows@ == #[trigger] rows_upserted(
            old.things_state.rows@,
            every(),
            state_replaced(row),
            row,
        )
}

/// The state of things that was written is the one that is there.
pub proof fn law_things_state_read_after_write(
    old: Storage,
    new: Storage,
    doc: Seq<u8>,
    sync_state: Seq<u8>,
    dirty: bool,
    last_sync_at: Option<Seq<char>>,
)
    requires
        things_state_written(old, new, doc, sync_state, dirty, last_sync_at),
    ensures
        first_data(new.things_state.data(), every()) matches Some(s) && s.automerge_doc@ == doc
            && s.sync_state@ == sync_state && s.dirty == dirty && opt_view(s.last_sync_at)
            == last_sync_at,
{
    let row = choose|row: ThingsState|
        row.automerge_doc@ == doc && row.sync_state@ == sync_state && row.dirty == dirty
            && opt_view(row.last_sync_at) == last_sync_at
            && new.things_state.rows@ == #[trigger] rows_upserted(
            old.things_state.rows@,
            every(),
            state_replaced(row),
            row,
        );
    law_upsert_read_back(old.things_state.rows@, every(), state_replaced(row), row);
}

pub open spec fn opt_str_view(s: Option<&str>) -> Option<Seq<char>> {
    match s {
        Some(s) => Some(s@),
        None => None,
    }
}

/// The pairs that are left after keys were removed.
pub open spec fn without_keys(keys: Seq<&str>) -> spec_fn(InternalKv) -> bool {
    |kv: InternalKv| forall|i: int| 0 <= i < keys.len() ==> kv.key@ != (#[trigger] keys[i])@
}

pub open spec fn is_document(uuid: Seq<char>, data_type: Seq<char>) -> spec_fn(
    CrdtDocumentRow,
) -> bool {
    |d: CrdtDocumentRow| d.uuid@ == uuid && d.data_type@ == data_type
}

pub open spec fn other_document(uuid: Seq<char>, data_type: Seq<char>) -> spec_fn(
    CrdtDocumentRow,
) -> bool {
    |d: CrdtDocumentRow| !(d.uuid@ == uuid && d.data_type@ == data_type)
}

pub open spec fn document_of_type(data_type: Seq<char>) -> spec_fn(CrdtDocumentRow) -> bool {
    |d: CrdtDocumentRow| d.data_type@ == data_type
}

pub open spec fn document_dirty() -> spec_fn(CrdtDocumentRow) -> bool {
    |d: CrdtDocumentRow| d.dirty
}

/// The place of a kind of documents in the order in which they are sent.
pub open spec fn type_priority(data_type: Seq<char>) -> i64 {
    if data_type == "root"@ {
        0
    } else if data_type == "collection"@ {
        1
    } else if data_type == "thing_markdown"@ {
        2
    } else {
        3
    }
}

pub open spec fn by_type_priority() -> spec_fn(CrdtDocumentRow) -> Rank {
    |d: CrdtDocumentRow| (type_priority(d.data_type@), 0i64)
}

pub open spec fn document_taken_over(new: CrdtDocumentRow) -> spec_fn(
    CrdtDocumentRow,
) -> CrdtDocumentRow {
    |d: CrdtDocumentRow|
        CrdtDocumentRow {
            automerge_doc: new.automerge_doc,
            sync_state: new.sync_state,
            dirty: new.dirty,
            last_sync_at: new.last_sync_at,
            updated_at: new.updated_at,
            ..d
        }
}

pub open spec fn document_marked(dirty: bool, now: i64) -> spec_fn(
    CrdtDocumentRow,
) -> CrdtDocumentRow {
    |d: CrdtDocumentRow| CrdtDocumentRow { dirty, updated_at: now, ..d }
}

/// What a document write returns: an error where the raised counter is no revision.
pub open spec fn write_reported(old: Storage, out: Result<(), SdkError>) -> bool {
    let raised = write_counter(old) + 1;
    &&& out is Ok <==> raised >= 0
    &&& out matches Err(e) ==> e@ == revision_fault(int_text(raised))
}

/// Whether the documents of a store are those of another one after a document was
/// written.
pub open spec fn document_saved(
    old: Storage,
    new: Storage,
    uuid: Seq<char>,
    data_type: Seq<char>,
    doc: Seq<u8>,
    sync_state: Seq<u8>,
    dirty: bool,
    last_sync_at: Option<Seq<char>>,
    now: i64,
) -> bool {
    exists|row: CrdtDocumentRow|
        row.uuid@ == uuid && row.data_type@ == data_type && row.automerge_doc@ == doc
            && row.sync_state@ == sync_state && row.dirty == dirty && opt_view(row.last_sync_at)
            == last_sync_at && row.created_at == now && row.updated_at == now
            && new.crdt_documents.rows@ == #[trigger] rows_upserted(
            old.crdt_documents.rows@,
            is_document(uuid, data_type),
            document_taken_over(row),
            row,
        )
}

/// A document that was saved is there as it was saved, and every other one as it was.
pub proof fn law_document_read_after_save(
    old: Storage,
    new: Storage,
    uuid: Seq<char>,
    data_type: Seq<char>,
    doc: Seq<u8>,
    sync_state: Seq<u8>,
    dirty: bool,
    last_sync_at: Option<Seq<char>>,
    now: i64,
    other: (Seq<char>, Seq<char>),
)
    requires
        document_saved(old, new, uuid, data_type, doc, sync_state, dirty, last_sync_at, now),
    ensures
        first_data(new.crdt_documents.data(), is_document(uuid, data_type)) matches Some(d)
            && d.automerge_doc@ == doc && d.sync_state@ == sync_state && d.dirty == dirty
            && opt_view(d.last_sync_at) == last_sync_at && d.updated_at == now,
        other != (uuid, data_type) ==> first_data(
            new.crdt_documents.data(),
            is_document(other.0, other.1),
        ) == first_data(old.crdt_documents.data(), is_document(other.0, other.1)),
{
    let row = choose|row: CrdtDocumentRow|
        row.uuid@ == uuid && row.data_type@ == data_type && row.automerge_doc@ == doc
            && row.sync_state@ == sync_state && row.dirty == dirty && opt_view(row.last_sync_at)
            == last_sync_at && row.created_at == now && row.updated_at == now
            && new.crdt_documents.rows@ == #[trigger] rows_upserted(
            old.crdt_documents.rows@,
            is_document(uuid, data_type),
            document_taken_over(row),
            row,
        );
    let rows = old.crdt_documents.rows@;
    law_upsert_read_back(rows, is_document(uuid, data_type), document_taken_over(row), row);
    if other != (uuid, data_type) {
        law_upsert_leaves_others(
            rows,
            is_document(uuid, data_type),
            document_taken_over(row),
            row,
            is_document(other.0, other.1),
        );
    }
}

pub open spec fn document_keys(data: Seq<CrdtDocumentRow>) -> Seq<(Seq<char>, Seq<char>)> {
    data.map_values(|d: CrdtDocumentRow| (d.uuid@, d.data_type@))
}

pub open spec fn pair_views(pairs: Seq<(String, String)>) -> Seq<(Seq<char>, Seq<char>)> {
    pairs.map_values(|p: (String, String)| (p.0@, p.1@))
}

fn type_rank(data_type: &str) -> (n: i64)
    ensures
        n == type_priority(data_type@),
{
    if same(data_type, "root") {
        0
    } else if same(data_type, "collection") {
        1
    } else if same(data_type, "thing_markdown") {
        2
    } else {
        3
    }
}

proof fn lemma_negative_is_no_revision(n: int)
    requires
        n < 0,
    ensures
        unsigned_value(int_text(n), u64::MAX as nat) is None,
{
    let text = int_text(n);
    assert(text[0] == '-');
    lemma_first_not_digit(text);
}

proof fn lemma_first_not_digit(s: Seq<char>)
    requires
        s.len() > 0,
        !is_digit(s[0]),
    ensures
        digits_value(s) is None,
    decreases s.len(),
{
    if s.len() > 1 {
        assert(s.drop_last()[0] == s[0]);
        lemma_first_not_digit(s.drop_last());
    }
}

fn opt_owned(s: Option<&str>) -> (out: Option<String>)
    ensures
        opt_view(out) == opt_str_view(s),
{
    match s {
        Some(s) => Some(owned(s)),
        None => None,
    }
}

impl Storage {
    /// The value of a key.
    pub fn get_internal_kv(&self, key: &str) -> (out: Option<String>)
        ensures
            opt_view(out) == kv_value(self.internal_kv.data(), key@),
    {
        let hit = |kv: &InternalKv| -> (b: bool)
            ensures
                b == is_key(key@)(*kv),
            { same(kv.key.as_str(), key) };
        match self.internal_kv.first(hit, Ghost(is_key(key@))) {
            Some(kv) => Some(kv.value),
            None => None,
        }
    }

    /// Gives a key a value at the time `now`.
    pub fn set_internal_kv_at(&mut self, key: &str, value: &str, now: i64)
        ensures
            *final(self) == (Storage { internal_kv: final(self).internal_kv, ..*old(self) }),
            kv_written(
                old(self).internal_kv.rows@,
                final(self).internal_kv.rows@,
                key@,
                value@,
                now,
            ),
            old(self).well_formed() ==> final(self).well_formed(),
    {
        broadcast use group_keyed;

        let row = InternalKv { key: owned(key), value: owned(value), updated_at: now };
        let new = row.duplicate();
        let held = &row;
        let hit = |kv: &InternalKv| -> (b: bool)
            ensures
                b == is_key(key@)(*kv),
            { same(kv.key.as_str(), key) };
        let change = |kv: &InternalKv| -> (out: InternalKv)
            ensures
                out == kv_taken_over(*held)(*kv),
            {
                InternalKv {
                    key: kv.key.clone(),
                    value: held.value.clone(),
                    updated_at: held.updated_at,
                }
            };
        self.internal_kv.upsert(hit, change, new, Ghost(is_key(key@)), Ghost(kv_taken_over(*held)));
    }

    /// Gives a key a value now.
    pub fn set_internal_kv(&mut self, key: &str, value: &str)
        ensures
            *final(self) == (Storage { internal_kv: final(self).internal_kv, ..*old(self) }),
            exists|now: i64| clock_seconds(now) && #[trigger]
                kv_written(
                    old(self).internal_kv.rows@,
                    final(self).internal_kv.rows@,
                    key@,
                    value@,
                    now,
                ),
            old(self).well_formed() ==> final(self).well_formed(),
    {
        let now: i64 = now_seconds();
        self.set_internal_kv_at(key, value, now);
    }

    /// Removes a key.
    pub fn delete_internal_kv(&mut self, key: &str)
        ensures
            *final(self) == (Storage { internal_kv: final(self).internal_kv, ..*old(self) }),
            final(self).internal_kv.rows@ == rows_kept(
                old(self).internal_kv.rows@,
                other_key(key@),
            ),
            old(self).well_formed() ==> final(self).well_formed(),
    {
        broadcast use group_keyed;

        let keep = |kv: &InternalKv| -> (b: bool)
            ensures
                b == other_key(key@)(*kv),
            { !same(kv.key.as_str(), key) };
        self.internal_kv.retain(keep, Ghost(other_key(key@)));
    }

    /// How many document writes there were.
    pub fn get_crdt_documents_revision(&self) -> (out: Result<u64, SdkError>)
        ensures
            match revision_of(self.internal_kv.data()) {
                Some(n) => out matches Ok(r) && r == n,
                None => out matches Err(e) && e@ == revision_fault(
                    kv_value(self.internal_kv.data(), "crdt_documents_revision"@)->0,
                ),
            },
    {
        match self.get_internal_kv(CRDT_DOCUMENTS_REVISION_KEY) {
            Some(value) => match parse_unsigned(value.as_str(), u64::MAX) {
                Some(n) => Ok(n),
                None => {
                    let message = cat("Invalid CRDT documents revision value: ", value.as_str());
                    Err(failure(message.as_str()))
                },
            },
            None => Ok(0),
        }
    }

    /// The counter of document writes.
    pub fn document_write_counter(&self) -> (n: i64)
        ensures
            n == write_counter(*self),
    {
        match self.get_internal_kv(CRDT_DOCUMENTS_REVISION_KEY) {
            Some(value) => cast_to_integer(value.as_str()),
            None => 0,
        }
    }

    /// Raises the counter of document writes and reports the revision.
    fn count_document_write(&mut self, now_ms: i64) -> (out: Result<(), SdkError>)
        requires
            write_counter(*old(self)) < i64::MAX,
        ensures
            *final(self) == (Storage { internal_kv: final(self).internal_kv, ..*old(self) }),
            write_counted(*old(self), *final(self), now_ms),
            write_reported(*old(self), out),
    {
        let raised: i64 = self.document_write_counter() + 1;
        let text = signed_text(raised);
        let ghost old_rows = self.internal_kv.rows@;
        self.set_internal_kv_at(CRDT_DOCUMENTS_REVISION_KEY, text.as_str(), now_ms);
        proof {
            law_kv_read_after_write(
                old_rows,
                self.internal_kv.rows@,
                "crdt_documents_revision"@,
                text@,
                now_ms,
                "crdt_documents_revision"@,
            );
            if raised >= 0 {
                crate::text::law_decimal_round_trip(raised as nat, u64::MAX as nat);
            } else {
                lemma_negative_is_no_revision(raised as int);
            }
        }
        match self.get_crdt_documents_revision() {
            Ok(_) => Ok(()),
            Err(e) => Err(e),
        }
    }

    /// The state of things.
    pub fn get_things_state(&self) -> (out: Option<ThingsState>)
        ensures
            out == first_data(self.things_state.data(), every()),
    {
        let hit = |s: &ThingsState| -> (b: bool)
            ensures
                b == every::<ThingsState>()(*s),
            { true };
        self.things_state.first(hit, Ghost(every()))
    }

    /// Writes the state of things.
    pub fn save_things_state(
        &mut self,
        doc: &[u8],
        sync_state: &[u8],
        dirty: bool,
        last_sync_at: Option<&str>,
    )
        ensures
            *final(self) == (Storage { things_state: final(self).things_state, ..*old(self) }),
            things_state_written(
                *old(self),
                *final(self),
                doc@,
                sync_state@,
                dirty,
                opt_str_view(last_sync_at),
            ),
            old(self).well_formed() ==> final(self).well_formed(),
    {
        broadcast use group_keyed;

        let row = ThingsState {
            automerge_doc: Arc::new(slice_to_vec(doc)),
            sync_state: Arc::new(slice_to_vec(sync_state)),
            dirty,
            last_sync_at: opt_owned(last_sync_at),
        };
        let new = row.duplicate();
        let held = &row;
        let hit = |s: &ThingsState| -> (b: bool)
            ensures
                b == every::<ThingsState>()(*s),
            { true };
        let change = |s: &ThingsState| -> (out: ThingsState)
            ensures
                out == state_replaced(*held)(*s),
            { held.duplicate() };
        self.things_state.upsert(hit, change, new, Ghost(every()), Ghost(state_replaced(*held)));
    }

    /// Writes the state of things and removes keys.
    pub fn save_things_state_and_clear_kv(
        &mut self,
        doc: &[u8],
        sync_state: &[u8],
        dirty: bool,
        last_sync_at: Option<&str>,
        kv_keys_to_delete: &[&str],
    )
        ensures
            *final(self) == (Storage {
                things_state: final(self).things_state,
                internal_kv: final(self).internal_kv,
                ..*old(self)
            }),
            things_state_written(
                *old(self),
                *final(self),
                doc@,
                sync_state@,
                dirty,
                opt_str_view(last_sync_at),
            ),
            final(self).internal_kv.rows@ == rows_kept(
                old(self).internal_kv.rows@,
                without_keys(kv_keys_to_delete@),
            ),
            old(self).well_formed() ==> final(self).well_formed(),
    {
        broadcast use group_keyed;

        self.save_things_state(doc, sync_state, dirty, last_sync_at);
        let keep = |kv: &InternalKv| -> (b: bool)
            ensures
                b == without_keys(kv_keys_to_delete@)(*kv),
            {
                let mut i: usize = 0;
                while i < kv_keys_to_delete.len()
                    invariant
                        i <= kv_keys_to_delete@.len(),
                        forall|k: int|
                            0 <= k < i ==> kv.key@ != (#[trigger] kv_keys_to_delete@[k])@,
                    decreases kv_keys_to_delete@.len() - i,
                {
                    if same(kv.key.as_str(), kv_keys_to_delete[i]) {
                        return false;
                    }
                    i = i + 1;
                }
                true
            };
        self.internal_kv.retain(keep, Ghost(without_keys(kv_keys_to_delete@)));
    }

    /// Marks the state of things as changed or not; an absent state becomes an empty one.
    pub fn set_things_dirty(&mut self, dirty: bool)
        ensures
            *final(self) == (Storage { things_state: final(self).things_state, ..*old(self) }),
            match first_data(old(self).things_state.data(), every()) {
                Some(s) => things_state_written(
                    *old(self),
                    *final(self),
                    s.automerge_doc@,
                    s.sync_state@,
                    dirty,
                    opt_view(s.last_sync_at),
                ),
                None => things_state_written(
                    *old(self),
                    *final(self),
                    Seq::empty(),
                    Seq::empty(),
                    dirty,
                    None,
                ),
            },
            old(self).well_formed() ==> final(self).well_formed(),
    {
        match self.get_things_state() {
            Some(s) => {
                let last: Option<&str> = match &s.last_sync_at {
                    Some(at) => Some(at.as_str()),
                    None => None,
                };
                self.save_things_state(
                    s.automerge_doc.as_slice(),
                    s.sync_state.as_slice(),
                    dirty,
                    last,
                );
            },
            None => {
                let empty: Vec<u8> = Vec::new();
                self.save_things_state(empty.as_slice(), empty.as_slice(), dirty, None);
            },
        }
    }

    /// A document.
    pub fn get_crdt_document(
        &self,
        uuid: &str,
        data_type: &str,
    ) -> (out: Option<CrdtDocumentRow>)
        ensures
            out == first_data(self.crdt_documents.data(), is_document(uuid@, data_type@)),
    {
        let hit = |d: &CrdtDocumentRow| -> (b: bool)
            ensures
                b == is_document(uuid@, data_type@)(*d),
            { same(d.uuid.as_str(), uuid) && same(d.data_type.as_str(), data_type) };
        self.crdt_documents.first(hit, Ghost(is_document(uuid@, data_type@)))
    }

    /// Writes a document at the time `now`; one that is there keeps the time of its creation.
    pub fn save_crdt_document_at(
        &mut self,
        uuid: &str,
        data_type: &str,
        automerge_doc: &[u8],
        sync_state: &[u8],
        dirty: bool,
        last_sync_at: Option<&str>,
        now: i64,
        now_ms: i64,
    ) -> (out: Result<(), SdkError>)
        requires
            write_counter(*old(self)) < i64::MAX,
        ensures
            *final(self) == (Storage {
                crdt_documents: final(self).crdt_documents,
                internal_kv: final(self).internal_kv,
                ..*old(self)
            }),
            write_reported(*old(self), out),
            write_counted(*old(self), *final(self), now_ms),
            document_saved(
                *old(self),
                *final(self),
                uuid@,
                data_type@,
                automerge_doc@,
                sync_state@,
                dirty,
                opt_str_view(last_sync_at),
                now,
            ),
            old(self).well_formed() ==> final(self).well_formed(),
    {
        broadcast use group_keyed;

        let row = CrdtDocumentRow {
            uuid: owned(uuid),
            data_type: owned(data_type),
            automerge_doc: Arc::new(slice_to_vec(automerge_doc)),
            sync_state: Arc::new(slice_to_vec(sync_state)),
            dirty,
            last_sync_at: opt_owned(last_sync_at),
            created_at: now,
            updated_at: now,
        };
        let new = row.duplicate();
        let held = &row;
        let hit = |d: &CrdtDocumentRow| -> (b: bool)
            ensures
                b == is_document(uuid@, data_type@)(*d),
            { same(d.uuid.as_str(), uuid) && same(d.data_type.as_str(), data_type) };
        let change = |d: &CrdtDocumentRow| -> (out: CrdtDocumentRow)
            ensures
                out == document_taken_over(*held)(*d),
            {
                CrdtDocumentRow {
                    uuid: d.uuid.clone(),
                    data_type: d.data_type.clone(),
                    automerge_doc: held.automerge_doc.clone(),
                    sync_state: held.sync_state.clone(),
                    dirty: held.dirty,
                    last_sync_at: held.last_sync_at.clone(),
                    created_at: d.created_at,
                    updated_at: held.updated_at,
                }
            };
        self.crdt_documents.upsert(
            hit,
            change,
            new,
            Ghost(is_document(uuid@, data_type@)),
            Ghost(document_taken_over(*held)),
        );
        self.count_document_write(now_ms)
    }

    /// Writes a document now.
    pub fn save_crdt_document(
        &mut self,
        uuid: &str,
        data_type: &str,
        automerge_doc: &[u8],
        sync_state: &[u8],
        dirty: bool,
        last_sync_at: Option<&str>,
    ) -> (out: Result<(), SdkError>)
        requires
            write_counter(*old(self)) < i64::MAX,
        ensures
            *final(self) == (Storage {
                crdt_documents: final(self).crdt_documents,
                internal_kv: final(self).internal_kv,
                ..*old(self)
            }),
            write_reported(*old(self), out),
            exists|now_ms: i64| clock_millis(now_ms) && #[trigger] write_counted(
                *old(self),
                *final(self),
                now_ms,
            ),
            exists|now: i64| clock_seconds(now) && #[trigger]
                document_saved(
                    *old(self),
                    *final(self),
                    uuid@,
                    data_type@,
                    automerge_doc@,
                    sync_state@,
                    dirty,
                    opt_str_view(last_sync_at),
                    now,
                ),
            old(self).well_formed() ==> final(self).well_formed(),
    {
        let now: i64 = now_seconds();
        let now_ms: i64 = now_millis();
        self.save_crdt_document_at(
            uuid,
            data_type,
            automerge_doc,
            sync_state,
            dirty,
            last_sync_at,
            now,
            now_ms,
        )
    }

    /// The documents that changed since they were sent, in the order in which they are sent.
    pub fn get_dirty_crdt_documents(&self) -> (out: Vec<CrdtDocumentRow>)
        ensures
            out@ == ranked(self.crdt_documents.data(), document_dirty(), by_type_priority(), false),
    {
        let keep = |d: &CrdtDocumentRow| -> (b: bool)
            ensures
                b == document_dirty()(*d),
            { d.dirty };
        let rank = |d: &CrdtDocumentRow| -> (k: Rank)
            ensures
                k == by_type_priority()(*d),
            { (type_rank(d.data_type.as_str()), 0) };
        let all = self.crdt_documents.select(
            keep,
            rank,
            false,
            Ghost(document_dirty()),
            Ghost(by_type_priority()),
        );
        all
    }

    /// The documents of one kind.
    pub fn get_crdt_documents_by_type(&self, data_type: &str) -> (out: Vec<CrdtDocumentRow>)
        ensures
            out@ == self.crdt_documents.data().filter(document_of_type(data_type@)),
    {
        let keep = |d: &CrdtDocumentRow| -> (b: bool)
            ensures
                b == document_of_type(data_type@)(*d),
            { same(d.data_type.as_str(), data_type) };
        self.crdt_documents.pick(keep, Ghost(document_of_type(data_type@)))
    }

    /// All documents.
    pub fn list_crdt_documents(&self) -> (out: Vec<CrdtDocumentRow>)
        ensures
            out@ == self.crdt_documents.data(),
    {
        let mut out: Vec<CrdtDocumentRow> = Vec::new();
        let mut i: usize = 0;
        while i < self.crdt_documents.rows.len()
            invariant
                i <= self.crdt_documents.rows@.len(),
                out@ == self.crdt_documents.data().take(i as int),
            decreases self.crdt_documents.rows@.len() - i,
        {
            out.push(self.crdt_documents.rows[i].data.duplicate());
            proof {
                assert(out@ =~= self.crdt_documents.data().take(i + 1));
            }
            i = i + 1;
        }
        proof {
            assert(self.crdt_documents.data().take(i as int) =~= self.crdt_documents.data());
        }
        out
    }

    /// Marks a document as changed or not at the time `now`.
    pub fn set_crdt_document_dirty_at(
        &mut self,
        uuid: &str,
        data_type: &str,
        dirty: bool,
        now: i64,
        now_ms: i64,
    ) -> (out: Result<(), SdkError>)
        requires
            write_counter(*old(self)) < i64::MAX,
        ensures
            *final(self) == (Storage {
                crdt_documents: final(self).crdt_documents,
                internal_kv: final(self).internal_kv,
                ..*old(self)
            }),
            write_reported(*old(self), out),
            write_counted(*old(self), *final(self), now_ms),
            final(self).crdt_documents.rows@ == rows_updated(
                old(self).crdt_documents.rows@,
                is_document(uuid@, data_type@),
                document_marked(dirty, now),
            ),
            old(self).well_formed() ==> final(self).well_formed(),
    {
        broadcast use group_keyed;

        let hit = |d: &CrdtDocumentRow| -> (b: bool)
            ensures
                b == is_document(uuid@, data_type@)(*d),
            { same(d.uuid.as_str(), uuid) && same(d.data_type.as_str(), data_type) };
        let change = |d: &CrdtDocumentRow| -> (out: CrdtDocumentRow)
            ensures
                out == document_marked(dirty, now)(*d),
            {
                CrdtDocumentRow {
                    uuid: d.uuid.clone(),
                    data_type: d.data_type.clone(),
                    automerge_doc: d.automerge_doc.clone(),
                    sync_state: d.sync_state.clone(),
                    dirty: dirty,
                    last_sync_at: d.last_sync_at.clone(),
                    created_at: d.created_at,
                    updated_at: now,
                }
            };
        self.crdt_documents.update(
            hit,
            change,
            Ghost(is_document(uuid@, data_type@)),
            Ghost(document_marked(dirty, now)),
        );
        self.count_document_write(now_ms)
    }

    /// Marks a document as changed or not now.
    pub fn set_crdt_document_dirty(
        &mut self,
        uuid: &str,
        data_type: &str,
        dirty: bool,
    ) -> (out: Result<(), SdkError>)
        requires
            write_counter(*old(self)) < i64::MAX,
        ensures
            *final(self) == (Storage {
                crdt_documents: final(self).crdt_documents,
                internal_kv: final(self).internal_kv,
                ..*old(self)
            }),
            write_reported(*old(self), out),
            exists|now_ms: i64| clock_millis(now_ms) && #[trigger] write_counted(
                *old(self),
                *final(self),
                now_ms,
            ),
            exists|now: i64|
                clock_seconds(now) && final(self).crdt_documents.rows@ == #[trigger] rows_updated(
                    old(self).crdt_documents.rows@,
                    is_document(uuid@, data_type@),
                    document_marked(dirty, now),
                ),
            old(self).well_formed() ==> final(self).well_formed(),
    {
        let now: i64 = now_seconds();
        let now_ms: i64 = now_millis();
        self.set_crdt_document_dirty_at(uuid, data_type, dirty, now, now_ms)
    }

    /// Removes a document.
    pub fn delete_crdt_document(
        &mut self,
        uuid: &str,
        data_type: &str,
    ) -> (out: Result<(), SdkError>)
        requires
            write_counter(*old(self)) < i64::MAX,
        ensures
            *final(self) == (Storage {
                crdt_documents: final(self).crdt_documents,
                internal_kv: final(self).internal_kv,
                ..*old(self)
            }),
            write_reported(*old(self), out),
            exists|now_ms: i64| clock_millis(now_ms) && #[trigger] write_counted(
                *old(self),
                *final(self),
                now_ms,
            ),
            final(self).crdt_documents.rows@ == rows_kept(
                old(self).crdt_documents.rows@,
                other_document(uuid@, data_type@),
            ),
            old(self).well_formed() ==> final(self).well_formed(),
    {
        broadcast use group_keyed;

        let keep = |d: &CrdtDocumentRow| -> (b: bool)
            ensures
                b == other_document(uuid@, data_type@)(*d),
            { !(same(d.uuid.as_str(), uuid) && same(d.data_type.as_str(), data_type)) };
        self.crdt_documents.retain(keep, Ghost(other_document(uuid@, data_type@)));
        let now_ms: i64 = now_millis();
        let out = self.count_document_write(now_ms);
        assert(write_counted(*old(self), *self, now_ms));
        out
    }

    /// Removes all documents.
    pub fn delete_all_crdt_documents(&mut self) -> (out: Result<(), SdkError>)
        requires
            write_counter(*old(self)) < i64::MAX,
        ensures
            *final(self) == (Storage {
                crdt_documents: final(self).crdt_documents,
                internal_kv: final(self).internal_kv,
                ..*old(self)
            }),
            write_reported(*old(self), out),
            exists|now_ms: i64| clock_millis(now_ms) && #[trigger] write_counted(
                *old(self),
                *final(self),
                now_ms,
            ),
            final(self).crdt_documents.rows@.len() == 0,
            old(self).well_formed() ==> final(self).well_formed(),
    {
        broadcast use group_keyed;

        self.crdt_documents.clear();
        let now_ms: i64 = now_millis();
        let out = self.count_document_write(now_ms);
        assert(write_counted(*old(self), *self, now_ms));
        out
    }

    /// The keys of all documents.
    pub fn list_crdt_document_keys(&self) -> (out: Vec<(String, String)>)
        ensures
            pair_views(out@) == document_keys(self.crdt_documents.data()),
    {
        let mut out: Vec<(String, String)> = Vec::new();
        let mut i: usize = 0;
        while i < self.crdt_documents.rows.len()
            invariant
                i <= self.crdt_documents.rows@.len(),
                pair_views(out@) == document_keys(self.crdt_documents.data().take(i as int)),
            decreases self.crdt_documents.rows@.len() - i,
        {
            let d = &self.crdt_documents.rows[i].data;
            let ghost before = out@;
            out.push((d.uuid.clone(), d.data_type.clone()));
            proof {
                let data = self.crdt_documents.data();
                assert(data.take(i + 1) =~= data.take(i as int).push(data[i as int]));
                assert(pair_views(out@) =~= pair_views(before).push((d.uuid@, d.data_type@)));
                assert(document_keys(data.take(i + 1)) =~= document_keys(data.take(i as int)).push(
                    (d.uuid@, d.data_type@),
                ));
                assert(pair_views(out@) =~= document_keys(self.crdt_documents.data().take(i + 1)));
            }
            i = i + 1;
        }
        proof {
            assert(self.crdt_documents.data().take(i as int) =~= self.crdt_documents.data());
        }
        out
    }
}

} // verus!
