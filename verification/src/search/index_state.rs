//! Where the index stands: what the search service knows of it and what its worker does
//! next.
use crate::clock::{clock_millis, now_millis};
use crate::json::opt_view;
use crate::storage::Storage;
use crate::text::{cat, owned, same};
use crate::things_docs::ThingsDocumentSet;
use vstd::prelude::*;

verus! {

/// The phases of the index.
#[derive(Clone, Copy, Debug, PartialEq, Eq, Structural)]
pub enum SearchIndexPhase {
    NotBuilt,
    Queued,
    Building,
    Updating,
    Ready,
    Error,
}

pub open spec fn phase_in_progress(phase: SearchIndexPhase) -> bool {
    phase is Queued || phase is Building || phase is Updating
}

impl SearchIndexPhase {
    /// Whether work on the index is under way.
    pub fn is_in_progress(self) -> (r: bool)
        ensures
            r == phase_in_progress(self),
    {
        matches!(
            self,
            SearchIndexPhase::Queued | SearchIndexPhase::Building | SearchIndexPhase::Updating
        )
    }
}

/// How the search is set up.
#[derive(Debug)]
pub struct SearchConfig {
    pub index_path: Option<String>,
    pub writer_heap_bytes: usize,
    pub auto_rebuild: bool,
}

impl Default for SearchConfig {
    fn default() -> (c: Self)
        ensures
            c.index_path is None,
            c.writer_heap_bytes == 50_000_000,
            c.auto_rebuild,
    {
        SearchConfig { index_path: None, writer_heap_bytes: 50_000_000, auto_rebuild: true }
    }
}

/// Where the index of a store is kept when nothing else is said.
pub fn default_search_index_path(db_path: &str) -> (path: String)
    ensures
        path@ == db_path@ + ".search"@,
{
    cat(db_path, ".search")
}

impl SearchConfig {
    /// Where the index of a store is kept.
    pub fn index_path_for_db_path(&self, db_path: &str) -> (path: String)
        ensures
            path@ == match self.index_path {
                Some(p) => p@,
                None => db_path@ + ".search"@,
            },
    {
        match &self.index_path {
            Some(p) => p.clone(),
            None => default_search_index_path(db_path),
        }
    }

    /// How much memory the writer gets: what is set, but at least fifteen million bytes.
    pub fn writer_heap(&self) -> (bytes: usize)
        ensures
            bytes == if self.writer_heap_bytes < 15_000_000 {
                15_000_000
            } else {
                self.writer_heap_bytes
            },
    {
        if self.writer_heap_bytes < 15_000_000 {
            15_000_000
        } else {
            self.writer_heap_bytes
        }
    }
}

/// What documents are collected from: a store, and its documents of things where they
/// could be read.
pub struct SearchIngestContext<'a> {
    pub storage: &'a Storage,
    pub documents: Option<&'a ThingsDocumentSet>,
}

impl<'a> SearchIngestContext<'a> {
    /// The context of a store.
    pub fn new(storage: &'a Storage, documents: Option<&'a ThingsDocumentSet>) -> (c: Self)
        ensures
            c.storage == storage,
            c.documents == documents,
    {
        SearchIngestContext { storage, documents }
    }

    /// Where the store is kept.
    pub fn db_path(&self) -> (path: &str)
        ensures
            path@ == self.storage.db_path@,
    {
        self.storage.db_path()
    }
}

/// What is known of the index.
#[derive(Debug)]
pub struct SearchIndexState {
    pub phase: SearchIndexPhase,
    pub index_path: String,
    pub generation: u64,
    pub progress_done: Option<u64>,
    pub progress_total: Option<u64>,
    pub current_stage: Option<String>,
    pub last_started_at_ms: Option<i64>,
    pub last_finished_at_ms: Option<i64>,
    pub last_error: Option<String>,
}

/// What is known of the index, over character sequences.
pub struct IndexStateView {
    pub phase: SearchIndexPhase,
    pub index_path: Seq<char>,
    pub generation: u64,
    pub progress_done: Option<u64>,
    pub progress_total: Option<u64>,
    pub current_stage: Option<Seq<char>>,
    pub last_started_at_ms: Option<i64>,
    pub last_finished_at_ms: Option<i64>,
    pub last_error: Option<Seq<char>>,
}

impl View for SearchIndexState {
    type V = IndexStateView;

    open spec fn view(&self) -> IndexStateView {
        IndexStateView {
            phase: self.phase,
            index_path: self.index_path@,
            generation: self.generation,
            progress_done: self.progress_done,
            progress_total: self.progress_total,
            current_stage: opt_view(self.current_stage),
            last_started_at_ms: self.last_started_at_ms,
            last_finished_at_ms: self.last_finished_at_ms,
            last_error: opt_view(self.last_error),
        }
    }
}

/// The state when work was asked for at `now`.
pub open spec fn queued_state(s: IndexStateView, now: i64) -> IndexStateView {
    IndexStateView {
        phase: SearchIndexPhase::Queued,
        last_started_at_ms: Some(now),
        progress_done: None,
        progress_total: None,
        current_stage: Some("Queued"@),
        last_error: None,
        ..s
    }
}

/// The name of the first stage of a phase.
pub open spec fn first_stage(phase: SearchIndexPhase) -> Seq<char> {
    match phase {
        SearchIndexPhase::Building => "Starting rebuild"@,
        SearchIndexPhase::Updating => "Starting update"@,
        SearchIndexPhase::Queued => "Queued"@,
        SearchIndexPhase::NotBuilt => "Not built"@,
        SearchIndexPhase::Ready => "Ready"@,
        SearchIndexPhase::Error => "Error"@,
    }
}

/// The state when a phase began at `now`.
pub open spec fn begun_state(s: IndexStateView, phase: SearchIndexPhase, now: i64) -> IndexStateView {
    IndexStateView {
        phase,
        last_started_at_ms: Some(now),
        progress_done: Some(0),
        progress_total: None,
        current_stage: Some(first_stage(phase)),
        last_error: None,
        ..s
    }
}

pub open spec fn progressed_state(
    s: IndexStateView,
    done: u64,
    total: Option<u64>,
    stage: Seq<char>,
) -> IndexStateView {
    IndexStateView {
        progress_done: Some(done),
        progress_total: total,
        current_stage: Some(stage),
        ..s
    }
}

/// The state when work was done at `now`.
pub open spec fn finished_state(s: IndexStateView, now: i64) -> IndexStateView {
    IndexStateView {
        phase: SearchIndexPhase::Ready,
        generation: if s.generation == u64::MAX {
            u64::MAX
        } else {
            (s.generation + 1) as u64
        },
        progress_done: None,
        progress_total: None,
        current_stage: None,
        last_finished_at_ms: Some(now),
        last_error: None,
        ..s
    }
}

/// The state when work failed at `now`.
pub open spec fn failed_state(s: IndexStateView, error: Seq<char>, now: i64) -> IndexStateView {
    IndexStateView {
        phase: SearchIndexPhase::Error,
        progress_done: None,
        progress_total: None,
        current_stage: None,
        last_finished_at_ms: Some(now),
        last_error: Some(error),
        ..s
    }
}

/// What the time that work still takes is estimated from.
#[derive(Clone, Copy, Debug, PartialEq, Eq, Structural)]
pub enum Remaining {
    /// Nothing is left.
    Nothing,
    /// `elapsed` milliseconds for `done` parts, and `left` parts are left.
    Rate { elapsed: i64, done: u64, left: u64 },
}

/// What an estimate of the time that is left rests on.
pub open spec fn remaining_of(
    started: Option<i64>,
    done: Option<u64>,
    total: Option<u64>,
    now: i64,
) -> Option<Remaining> {
    match (started, done, total) {
        (Some(started), Some(done), Some(total)) => {
            if done == 0 || total == 0 || done >= total {
                Some(Remaining::Nothing)
            } else {
                let gap = now - started;
                let elapsed = if gap > i64::MAX {
                    i64::MAX as int
                } else if gap < i64::MIN {
                    i64::MIN as int
                } else {
                    gap
                };
                if elapsed <= 0 {
                    None
                } else {
                    Some(
                        Remaining::Rate {
                            elapsed: elapsed as i64,
                            done,
                            left: (total - done) as u64,
                        },
                    )
                }
            }
        },
        _ => None,
    }
}

/// What an estimate of the time that is left rests on.
pub fn estimate_remaining(
    started_at_ms: Option<i64>,
    done: Option<u64>,
    total: Option<u64>,
    now: i64,
) -> (out: Option<Remaining>)
    ensures
        out == remaining_of(started_at_ms, done, total, now),
{
    match (started_at_ms, done, total) {
        (Some(started), Some(done), Some(total)) => {
            if done == 0 || total == 0 || done >= total {
                return Some(Remaining::Nothing);
            }
            let gap: i128 = now as i128 - started as i128;
            let elapsed: i64 = if gap > i64::MAX as i128 {
                i64::MAX
            } else if gap < i64::MIN as i128 {
                i64::MIN
            } else {
                gap as i64
            };
            if elapsed <= 0 {
                None
            } else {
                Some(Remaining::Rate { elapsed, done, left: total - done })
            }
        },
        _ => None,
    }
}

impl SearchIndexState {
    /// The state of an index that is there, or of one that has to be built.
    pub fn new(index_path: &str, meta_exists: bool) -> (s: Self)
        ensures
            s@ == (IndexStateView {
                phase: if meta_exists {
                    SearchIndexPhase::Ready
                } else {
                    SearchIndexPhase::NotBuilt
                },
                index_path: index_path@,
                generation: 0,
                progress_done: None,
                progress_total: None,
                current_stage: None,
                last_started_at_ms: None,
                last_finished_at_ms: None,
                last_error: None,
            }),
    {
        SearchIndexState {
            phase: if meta_exists {
                SearchIndexPhase::Ready
            } else {
                SearchIndexPhase::NotBuilt
            },
            index_path: owned(index_path),
            generation: 0,
            progress_done: None,
            progress_total: None,
            current_stage: None,
            last_started_at_ms: None,
            last_finished_at_ms: None,
            last_error: None,
        }
    }

    /// Work was asked for at `now`.
    pub fn queued_at(&mut self, now: i64)
        ensures
            final(self)@ == queued_state(old(self)@, now),
    {
        self.phase = SearchIndexPhase::Queued;
        self.last_started_at_ms = Some(now);
        self.progress_done = None;
        self.progress_total = None;
        self.current_stage = Some(owned("Queued"));
        self.last_error = None;
    }

    /// Work was asked for now.
    pub fn queued(&mut self)
        ensures
            exists|now: i64| clock_millis(now) && final(self)@ == #[trigger] queued_state(
                old(self)@,
                now,
            ),
    {
        let now: i64 = now_millis();
        self.queued_at(now);
    }

    /// A phase began at `now`.
    pub fn begin_at(&mut self, phase: SearchIndexPhase, now: i64)
        ensures
            final(self)@ == begun_state(old(self)@, phase, now),
    {
        self.phase = phase;
        self.last_started_at_ms = Some(now);
        self.progress_done = Some(0);
        self.progress_total = None;
        self.current_stage = Some(
            owned(
                match phase {
                    SearchIndexPhase::Building => "Starting rebuild",
                    SearchIndexPhase::Updating => "Starting update",
                    SearchIndexPhase::Queued => "Queued",
                    SearchIndexPhase::NotBuilt => "Not built",
                    SearchIndexPhase::Ready => "Ready",
                    SearchIndexPhase::Error => "Error",
                },
            ),
        );
        self.last_error = None;
    }

    /// A phase began now.
    pub fn begin(&mut self, phase: SearchIndexPhase)
        ensures
            exists|now: i64| clock_millis(now) && final(self)@ == #[trigger] begun_state(
                old(self)@,
                phase,
                now,
            ),
    {
        let now: i64 = now_millis();
        self.begin_at(phase, now);
    }

    /// Work went on.
    pub fn progress(&mut self, done: u64, total: Option<u64>, stage: &str)
        ensures
            final(self)@ == progressed_state(old(self)@, done, total, stage@),
    {
        self.progress_done = Some(done);
        self.progress_total = total;
        self.current_stage = Some(owned(stage));
    }

    /// Work was done at `now`.
    pub fn finish_ok_at(&mut self, now: i64)
        ensures
            final(self)@ == finished_state(old(self)@, now),
    {
        self.phase = SearchIndexPhase::Ready;
        if self.generation < u64::MAX {
            self.generation = self.generation + 1;
        }
        self.progress_done = None;
        self.progress_total = None;
        self.current_stage = None;
        self.last_finished_at_ms = Some(now);
        self.last_error = None;
    }

    /// Work was done now.
    pub fn finish_ok(&mut self)
        ensures
            exists|now: i64| clock_millis(now) && final(self)@ == #[trigger] finished_state(
                old(self)@,
                now,
            ),
    {
        let now: i64 = now_millis();
        self.finish_ok_at(now);
    }

    /// Work failed at `now`.
    pub fn finish_error_at(&mut self, error: &str, now: i64)
        ensures
            final(self)@ == failed_state(old(self)@, error@, now),
    {
        self.phase = SearchIndexPhase::Error;
        self.progress_done = None;
        self.progress_total = None;
        self.current_stage = None;
        self.last_finished_at_ms = Some(now);
        self.last_error = Some(owned(error));
    }

    /// Work failed now.
    pub fn finish_error(&mut self, error: &str)
        ensures
            exists|now: i64| clock_millis(now) && final(self)@ == #[trigger] failed_state(
                old(self)@,
                error@,
                now,
            ),
    {
        let now: i64 = now_millis();
        self.finish_error_at(error, now);
    }

    /// The state as it is shown at `now`, with the number of documents in the index.
    pub fn to_status(&self, indexed_doc_count: u64, now: i64) -> (status: SearchIndexStatus)
        ensures
            status.state@ == self@,
            status.in_progress == phase_in_progress(self.phase),
            status.indexed_doc_count == indexed_doc_count,
            status.progress == progress_of(self@),
            status.remaining == remaining_of(
                self.last_started_at_ms,
                self.progress_done,
                self.progress_total,
                now,
            ),
    {
        let progress = match (self.progress_done, self.progress_total) {
            (Some(done), Some(total)) => if total > 0 {
                Some((done, total))
            } else {
                None
            },
            _ => None,
        };
        SearchIndexStatus {
            in_progress: self.phase.is_in_progress(),
            indexed_doc_count,
            progress,
            remaining: estimate_remaining(
                self.last_started_at_ms,
                self.progress_done,
                self.progress_total,
                now,
            ),
            state: SearchIndexState {
                phase: self.phase,
                index_path: self.index_path.clone(),
                generation: self.generation,
                progress_done: self.progress_done,
                progress_total: self.progress_total,
                current_stage: self.current_stage.clone(),
                last_started_at_ms: self.last_started_at_ms,
                last_finished_at_ms: self.last_finished_at_ms,
                last_error: self.last_error.clone(),
            },
        }
    }
}

/// How much of how much is done, where a total is known.
pub open spec fn progress_of(s: IndexStateView) -> Option<(u64, u64)> {
    match (s.progress_done, s.progress_total) {
        (Some(done), Some(total)) => if total > 0 {
            Some((done, total))
        } else {
            None
        },
        _ => None,
    }
}

/// The state of the index as it is shown. The share that is done and the time that is left
/// are quotients of the numbers here.
#[derive(Debug)]
pub struct SearchIndexStatus {
    pub state: SearchIndexState,
    pub in_progress: bool,
    pub indexed_doc_count: u64,
    pub progress: Option<(u64, u64)>,
    pub remaining: Option<Remaining>,
}

/// After work was done nothing is in progress and no error is left, whatever went before;
/// every round counts up the generation until it cannot be counted any more.
pub proof fn law_finished_work_leaves_nothing(
    s: IndexStateView,
    phase: SearchIndexPhase,
    start: i64,
    end: i64,
)
    ensures
        !phase_in_progress(finished_state(begun_state(s, phase, start), end).phase),
        finished_state(begun_state(s, phase, start), end).last_error is None,
        s.generation < u64::MAX ==> finished_state(begun_state(s, phase, start), end).generation
            == s.generation + 1,
{
}

/// A failure is kept until the next round begins, and leaves the generation as it was.
pub proof fn law_failure_is_kept(s: IndexStateView, error: Seq<char>, end: i64, next: i64)
    ensures
        failed_state(s, error, end).last_error == Some(error),
        failed_state(s, error, end).generation == s.generation,
        queued_state(failed_state(s, error, end), next).last_error is None,
{
}

/// Whether progress is reported: at the end, for the first ten, and for every hundredth.
pub fn should_update_progress(done: u64, total: u64) -> (r: bool)
    ensures
        r == (done == total || done <= 10 || done % 100 == 0),
{
    done == total || done <= 10 || done % 100 == 0
}

/// A field of the index.
#[derive(Debug)]
pub struct SchemaField {
    pub name: &'static str,
    pub kind: FieldKind,
}

/// How a field is indexed.
#[derive(Clone, Copy, Debug, PartialEq, Eq, Structural)]
pub enum FieldKind {
    /// As one word, and kept.
    Exact,
    /// Word by word, and kept.
    Words,
    /// As one word, and not kept.
    Fragment,
    /// As a number, kept, and fast to read.
    Number,
}

pub open spec fn schema_names(list: Seq<SchemaField>) -> Seq<Seq<char>> {
    list.map_values(|f: SchemaField| f.name@)
}

fn exact(name: &'static str) -> (f: SchemaField)
    ensures
        f.name@ == name@,
        f.kind is Exact,
{
    SchemaField { name, kind: FieldKind::Exact }
}

fn words(name: &'static str) -> (f: SchemaField)
    ensures
        f.name@ == name@,
        f.kind is Words,
{
    SchemaField { name, kind: FieldKind::Words }
}

pub open spec fn schema_kinds(list: Seq<SchemaField>) -> Seq<FieldKind> {
    list.map_values(|f: SchemaField| f.kind)
}

/// The names of the fields of the index.
pub open spec fn all_field_names() -> Seq<Seq<char>> {
    seq![
        "index_version"@,
        "doc_id"@,
        "kind"@,
        "entity_id"@,
        "parent_id"@,
        "parent_key"@,
        "title"@,
        "body"@,
        "metadata"@,
        "content_field"@,
        "content"@,
        "numeric_fragments"@,
        "created_at_ms"@,
        "updated_at_ms"@,
        "status"@,
        "datatype"@,
        "category"@,
        "source"@,
        "app_id"@,
        "agent_id"@,
        "session_id"@,
        "collection_uuid"@,
        "collection_type"@,
        "archived"@,
    ]
}

/// How each of the fields of the index is indexed.
pub open spec fn all_field_kinds() -> Seq<FieldKind> {
    seq![
        FieldKind::Exact,
        FieldKind::Exact,
        FieldKind::Exact,
        FieldKind::Exact,
        FieldKind::Exact,
        FieldKind::Exact,
        FieldKind::Words,
        FieldKind::Words,
        FieldKind::Exact,
        FieldKind::Exact,
        FieldKind::Words,
        FieldKind::Fragment,
        FieldKind::Number,
        FieldKind::Number,
        FieldKind::Exact,
        FieldKind::Exact,
        FieldKind::Exact,
        FieldKind::Exact,
        FieldKind::Exact,
        FieldKind::Exact,
        FieldKind::Exact,
        FieldKind::Exact,
        FieldKind::Exact,
        FieldKind::Exact,
    ]
}

/// The fields of the index.
pub fn build_search_schema() -> (out: Vec<SchemaField>)
    ensures
        schema_names(out@) == all_field_names(),
        schema_kinds(out@) == all_field_kinds(),
{
    let out = vec![
        exact("index_version"),
        exact("doc_id"),
        exact("kind"),
        exact("entity_id"),
        exact("parent_id"),
        exact("parent_key"),
        words("title"),
        words("body"),
        exact("metadata"),
        exact("content_field"),
        words("content"),
        SchemaField { name: "numeric_fragments", kind: FieldKind::Fragment },
        SchemaField { name: "created_at_ms", kind: FieldKind::Number },
        SchemaField { name: "updated_at_ms", kind: FieldKind::Number },
        exact("status"),
        exact("datatype"),
        exact("category"),
        exact("source"),
        exact("app_id"),
        exact("agent_id"),
        exact("session_id"),
        exact("collection_uuid"),
        exact("collection_type"),
        exact("archived"),
    ];
    proof {
        assert(schema_names(out@) =~= all_field_names());
        assert(schema_kinds(out@) =~= all_field_kinds());
    }
    out
}

/// A field of an index that was found on disk.
#[derive(Debug)]
pub struct FoundField {
    pub name: String,
    pub tokenizer: Option<String>,
}

pub open spec fn has_field(found: Seq<FoundField>, name: Seq<char>) -> bool {
    exists|i: int| 0 <= i < found.len() && (#[trigger] found[i]).name@ == name
}

pub open spec fn has_tokenized(found: Seq<FoundField>, name: Seq<char>) -> bool {
    exists|i: int|
        0 <= i < found.len() && (#[trigger] found[i]).name@ == name && opt_view(
            found[i].tokenizer,
        ) == Some("remi_charabia"@)
}

/// Whether an index that was found has every field but that of parents, and cuts texts
/// into words as it should.
pub open spec fn schema_fits(found: Seq<FoundField>) -> bool {
    &&& forall|i: int|
        0 <= i < all_field_names().len() && i != 4 ==> has_field(
            found,
            #[trigger] all_field_names()[i],
        )
    &&& has_tokenized(found, "title"@)
    &&& has_tokenized(found, "body"@)
    &&& has_tokenized(found, "content"@)
}

fn finds(found: &Vec<FoundField>, name: &str) -> (r: bool)
    ensures
        r == has_field(found@, name@),
{
    let mut i: usize = 0;
    while i < found.len()
        invariant
            i <= found@.len(),
            forall|k: int| 0 <= k < i ==> (#[trigger] found@[k]).name@ != name@,
        decreases found@.len() - i,
    {
        if same(found[i].name.as_str(), name) {
            return true;
        }
        i = i + 1;
    }
    false
}

fn finds_tokenized(found: &Vec<FoundField>, name: &str) -> (r: bool)
    ensures
        r == has_tokenized(found@, name@),
{
    let mut i: usize = 0;
    while i < found.len()
        invariant
            i <= found@.len(),
            forall|k: int|
                0 <= k < i ==> !((#[trigger] found@[k]).name@ == name@ && opt_view(
                    found@[k].tokenizer,
                ) == Some("remi_charabia"@)),
        decreases found@.len() - i,
    {
        let cut = match &found[i].tokenizer {
            Some(t) => same(t.as_str(), "remi_charabia"),
            None => false,
        };
        if cut && same(found[i].name.as_str(), name) {
            return true;
        }
        i = i + 1;
    }
    false
}

/// Whether an index that was found can be used.
pub fn search_schema_has_required_fields(found: &Vec<FoundField>) -> (r: bool)
    ensures
        r == schema_fits(found@),
{
    let fields = build_search_schema();
    let mut i: usize = 0;
    while i < fields.len()
        invariant
            i <= fields@.len(),
            schema_names(fields@) == all_field_names(),
            forall|k: int|
                0 <= k < i && k != 4 ==> has_field(found@, #[trigger] all_field_names()[k]),
        decreases fields@.len() - i,
    {
        proof {
            assert(schema_names(fields@)[i as int] == fields@[i as int].name@);
        }
        if i != 4 && !finds(found, fields[i].name) {
            assert(!has_field(found@, all_field_names()[i as int]));
            return false;
        }
        i = i + 1;
    }
    proof {
        assert(schema_names(fields@).len() == fields@.len());
    }
    finds_tokenized(found, "title") && finds_tokenized(found, "body") && finds_tokenized(
        found,
        "content",
    )
}

/// How an index is opened.
#[derive(Clone, Copy, Debug, PartialEq, Eq, Structural)]
pub enum IndexOpening {
    /// There is none: make one.
    Create,
    /// Use the one that is there.
    Open,
    /// Remove the one that is there and make one.
    Recreate,
}

/// How an index is opened, from the fields of the one that is there.
pub fn plan_index_opening(found: &Option<Vec<FoundField>>) -> (out: IndexOpening)
    ensures
        out == match found {
            None => IndexOpening::Create,
            Some(fields) => if schema_fits(fields@) {
                IndexOpening::Open
            } else {
                IndexOpening::Recreate
            },
        },
{
    match found {
        None => IndexOpening::Create,
        Some(fields) => if search_schema_has_required_fields(fields) {
            IndexOpening::Open
        } else {
            IndexOpening::Recreate
        },
    }
}

/// Whether the index is built at once after it was opened.
pub fn rebuild_after_opening(config: &SearchConfig, opening: IndexOpening) -> (r: bool)
    ensures
        r == (config.auto_rebuild && !(opening is Open)),
{
    config.auto_rebuild && !matches!(opening, IndexOpening::Open)
}

} // verus!
