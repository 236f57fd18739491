//! The work on the index: what is asked for, and the steps that it takes.
use super::documents::{
    ingest_views, DocumentView, IngestView, SearchDocument, SearchEntityKind, SearchIngestAction,
};
use super::index_state::{
    begun_state, failed_state, finished_state, queued_state, should_update_progress, IndexStateView,
    SearchIndexPhase, SearchIndexState,
};
use super::segments::{
    document_to_segments, indexed_fields, parent_key, parent_key_of, segment_of, segment_view,
    Segment, ValueView,
};
use crate::clock::{clock_millis, now_millis};
use crate::json::{opt_view, Json, JsonView};
use crate::text::cat;
use vstd::prelude::*;

verus! {

/// A change that providers of documents are told of.
#[derive(Debug)]
pub struct SearchChange {
    pub source: String,
    pub kind: SearchEntityKind,
    pub entity_id: String,
    pub parent_id: Option<String>,
    pub metadata: Json,
}

/// A change that providers of documents are told of, over character sequences.
pub struct ChangeView {
    pub source: Seq<char>,
    pub kind: SearchEntityKind,
    pub entity_id: Seq<char>,
    pub parent_id: Option<Seq<char>>,
    pub metadata: JsonView,
}

impl View for SearchChange {
    type V = ChangeView;

    open spec fn view(&self) -> ChangeView {
        ChangeView {
            source: self.source@,
            kind: self.kind,
            entity_id: self.entity_id@,
            parent_id: opt_view(self.parent_id),
            metadata: self.metadata@,
        }
    }
}

/// What the worker is asked for.
#[derive(Debug)]
pub enum SearchCommand {
    Apply(Vec<SearchIngestAction>),
    Change(SearchChange),
    Rebuild,
    Flush,
}

/// What the worker is asked for, over character sequences.
pub enum CommandView {
    Apply(Seq<IngestView>),
    Change(ChangeView),
    Rebuild,
    Flush,
}

impl View for SearchCommand {
    type V = CommandView;

    open spec fn view(&self) -> CommandView {
        match self {
            SearchCommand::Apply(actions) => CommandView::Apply(ingest_views(actions@)),
            SearchCommand::Change(change) => CommandView::Change(change@),
            SearchCommand::Rebuild => CommandView::Rebuild,
            SearchCommand::Flush => CommandView::Flush,
        }
    }
}

pub open spec fn command_views(list: Seq<SearchCommand>) -> Seq<CommandView> {
    list.map_values(|c: SearchCommand| c@)
}

/// The phase in which a command is worked on.
pub open spec fn phase_for(command: CommandView) -> SearchIndexPhase {
    if command is Rebuild {
        SearchIndexPhase::Building
    } else {
        SearchIndexPhase::Updating
    }
}

impl SearchCommand {
    /// The phase in which the command is worked on.
    pub fn phase(&self) -> (phase: SearchIndexPhase)
        ensures
            phase == phase_for(self@),
    {
        match self {
            SearchCommand::Rebuild => SearchIndexPhase::Building,
            _ => SearchIndexPhase::Updating,
        }
    }
}

/// The state of the index and the commands that wait for the worker.
#[derive(Debug)]
pub struct SearchService {
    pub state: SearchIndexState,
    pub commands: Vec<SearchCommand>,
}

/// The state of the index and the commands that wait, over character sequences.
pub struct ServiceView {
    pub state: IndexStateView,
    pub commands: Seq<CommandView>,
}

impl View for SearchService {
    type V = ServiceView;

    open spec fn view(&self) -> ServiceView {
        ServiceView { state: self.state@, commands: command_views(self.commands@) }
    }
}

/// The service after a command was asked for at `now`.
pub open spec fn asked(s: ServiceView, command: CommandView, now: i64) -> ServiceView {
    ServiceView { state: queued_state(s.state, now), commands: s.commands.push(command) }
}

/// The service after actions were asked for at `now`; nothing happens where there are none.
pub open spec fn asked_actions(s: ServiceView, actions: Seq<IngestView>, now: i64) -> ServiceView {
    if actions.len() == 0 {
        s
    } else {
        asked(s, CommandView::Apply(actions), now)
    }
}

impl SearchService {
    /// A service with nothing to do.
    pub fn new(state: SearchIndexState) -> (s: Self)
        ensures
            s@ == (ServiceView { state: state@, commands: Seq::empty() }),
    {
        let s = SearchService { state, commands: Vec::new() };
        proof {
            assert(command_views(s.commands@) =~= Seq::empty());
        }
        s
    }

    fn ask(&mut self, command: SearchCommand, now: i64)
        ensures
            final(self)@ == asked(old(self)@, command@, now),
    {
        self.state.queued_at(now);
        let ghost before = self.commands@;
        let ghost added = command@;
        self.commands.push(command);
        proof {
            assert(command_views(self.commands@) =~= command_views(before).push(added));
        }
    }

    /// Asks for actions at `now`.
    pub fn enqueue_actions_at(&mut self, actions: Vec<SearchIngestAction>, now: i64)
        ensures
            final(self)@ == asked_actions(old(self)@, ingest_views(actions@), now),
    {
        if actions.len() > 0 {
            self.ask(SearchCommand::Apply(actions), now);
        }
    }

    /// Asks for actions now.
    pub fn enqueue_actions(&mut self, actions: Vec<SearchIngestAction>)
        ensures
            exists|now: i64|
                clock_millis(now) && final(self)@ == #[trigger] asked_actions(
                    old(self)@,
                    ingest_views(actions@),
                    now,
                ),
    {
        let now: i64 = now_millis();
        self.enqueue_actions_at(actions, now);
    }

    /// Asks for a document to be put into the index.
    pub fn enqueue_document(&mut self, document: SearchDocument)
        ensures
            exists|now: i64|
                clock_millis(now) && final(self)@ == #[trigger] asked_actions(
                    old(self)@,
                    seq![IngestView::Upsert { document: document@ }],
                    now,
                ),
    {
        let actions = vec![SearchIngestAction::upsert(document)];
        proof {
            assert(ingest_views(actions@) =~= seq![IngestView::Upsert { document: document@ }]);
        }
        self.enqueue_actions(actions);
    }

    /// Tells the providers of a change.
    pub fn enqueue_change(&mut self, change: SearchChange)
        ensures
            exists|now: i64|
                clock_millis(now) && final(self)@ == #[trigger] asked(
                    old(self)@,
                    CommandView::Change(change@),
                    now,
                ),
    {
        let now: i64 = now_millis();
        self.ask(SearchCommand::Change(change), now);
    }

    /// Asks for the index to be built anew.
    pub fn enqueue_rebuild(&mut self)
        ensures
            exists|now: i64|
                clock_millis(now) && final(self)@ == #[trigger] asked(
                    old(self)@,
                    CommandView::Rebuild,
                    now,
                ),
    {
        let now: i64 = now_millis();
        self.ask(SearchCommand::Rebuild, now);
    }

    /// Asks to be told when everything that was asked for is done.
    pub fn flush(&mut self)
        ensures
            exists|now: i64| clock_millis(now) && final(self)@ == #[trigger] asked(
                old(self)@,
                CommandView::Flush,
                now,
            ),
    {
        let now: i64 = now_millis();
        self.ask(SearchCommand::Flush, now);
    }

    /// Takes the command that was asked for first, and begins with it at `now`.
    pub fn next_command_at(&mut self, now: i64) -> (out: Option<SearchCommand>)
        ensures
            match out {
                None => old(self)@.commands.len() == 0 && final(self)@ == old(self)@,
                Some(command) => {
                    &&& old(self)@.commands.len() > 0
                    &&& command@ == old(self)@.commands[0]
                    &&& final(self)@ == (ServiceView {
                        state: begun_state(old(self)@.state, phase_for(command@), now),
                        commands: old(self)@.commands.drop_first(),
                    })
                },
            },
    {
        if self.commands.len() == 0 {
            return None;
        }
        let ghost before = self.commands@;
        let command = self.commands.remove(0);
        proof {
            assert(command_views(self.commands@) =~= command_views(before).drop_first());
        }
        self.state.begin_at(command.phase(), now);
        Some(command)
    }

    /// Notes at `now` how the work on a command ended.
    pub fn finish_command_at(&mut self, error: &Option<String>, now: i64)
        ensures
            final(self)@ == (ServiceView {
                state: match error {
                    None => finished_state(old(self)@.state, now),
                    Some(error) => failed_state(old(self)@.state, error@, now),
                },
                commands: old(self)@.commands,
            }),
    {
        match error {
            None => self.state.finish_ok_at(now),
            Some(error) => self.state.finish_error_at(error.as_str(), now),
        }
    }

    /// Notes at `now` that there is no worker, and says so.
    pub fn worker_unavailable_error(&mut self, error: &str, now: i64) -> (message: String)
        ensures
            message@ == "Search worker is unavailable: "@ + error@,
            final(self)@ == (ServiceView {
                state: failed_state(
                    old(self)@.state,
                    "Search worker is unavailable: "@ + error@,
                    now,
                ),
                commands: old(self)@.commands,
            }),
    {
        let message = cat("Search worker is unavailable: ", error);
        self.state.finish_error_at(message.as_str(), now);
        message
    }
}

/// Every command that was asked for is handed out, in the order in which it was asked for.
pub proof fn law_commands_in_order(s: ServiceView, command: CommandView, now: i64)
    ensures
        asked(s, command, now).commands.last() == command,
        asked(s, command, now).commands.drop_last() == s.commands,
{
    assert(asked(s, command, now).commands.drop_last() =~= s.commands);
}

/// A step of the work on the index.
#[derive(Debug)]
pub enum IndexStep {
    /// Take out the segments that have a text in a field.
    Remove { field: &'static str, text: String },
    /// Put a segment in.
    Put { segment: Segment },
    /// Take everything out.
    Clear,
    /// Say how far the work is.
    Report { done: u64, total: u64, stage: &'static str },
    /// Make what was done last.
    Commit,
}

/// A step of the work on the index, over character sequences.
pub enum StepView {
    Remove { field: Seq<char>, text: Seq<char> },
    Put { segment: Seq<(Seq<char>, ValueView)> },
    Clear,
    Report { done: u64, total: u64, stage: Seq<char> },
    Commit,
}

impl View for IndexStep {
    type V = StepView;

    open spec fn view(&self) -> StepView {
        match self {
            IndexStep::Remove { field, text } => StepView::Remove { field: field@, text: text@ },
            IndexStep::Put { segment } => StepView::Put { segment: segment_view(segment@) },
            IndexStep::Clear => StepView::Clear,
            IndexStep::Report { done, total, stage } => StepView::Report {
                done: *done,
                total: *total,
                stage: stage@,
            },
            IndexStep::Commit => StepView::Commit,
        }
    }
}

pub open spec fn step_views(list: Seq<IndexStep>) -> Seq<StepView> {
    list.map_values(|s: IndexStep| s@)
}

/// The steps that put the segments of a document in.
pub open spec fn put_steps(d: DocumentView) -> Seq<StepView> {
    indexed_fields(d).map_values(
        |f: (Seq<char>, Seq<char>)| StepView::Put { segment: segment_of(d, f) },
    )
}

/// The steps of an action.
pub open spec fn action_steps(action: IngestView) -> Seq<StepView> {
    match action {
        IngestView::Upsert { document } => seq![
            StepView::Remove { field: "doc_id"@, text: document.doc_id },
        ] + put_steps(document),
        IngestView::Delete { doc_id } => seq![
            StepView::Remove { field: "doc_id"@, text: doc_id },
        ],
        IngestView::DeleteByParent { kind, parent_id } => seq![
            StepView::Remove { field: "parent_key"@, text: parent_key_of(kind, parent_id) },
        ],
        IngestView::Clear => seq![StepView::Clear],
    }
}

/// What is said after `done` of `total` actions.
pub open spec fn report_steps(done: u64, total: u64, stage: Seq<char>) -> Seq<StepView> {
    if done == total || done <= 10 || done % 100 == 0 {
        seq![StepView::Report { done, total, stage }]
    } else {
        Seq::empty()
    }
}

/// The steps of actions, when `before` actions were done before them.
pub open spec fn actions_steps(
    actions: Seq<IngestView>,
    before: nat,
    total: u64,
    stage: Seq<char>,
) -> Seq<StepView>
    decreases actions.len(),
{
    if actions.len() == 0 {
        Seq::empty()
    } else {
        actions_steps(actions.drop_last(), before, total, stage) + action_steps(actions.last())
            + report_steps((before + actions.len()) as u64, total, stage)
    }
}

proof fn lemma_step_push(steps: Seq<IndexStep>, step: IndexStep)
    ensures
        step_views(steps.push(step)) == step_views(steps).push(step@),
{
    assert(step_views(steps.push(step)) =~= step_views(steps).push(step@));
}

fn push_action_steps(steps: &mut Vec<IndexStep>, action: &SearchIngestAction)
    ensures
        step_views(final(steps)@) == step_views(old(steps)@) + action_steps(action@),
{
    let ghost start = step_views(steps@);
    match action {
        SearchIngestAction::Upsert { document } => {
            let first = IndexStep::Remove { field: "doc_id", text: document.doc_id.clone() };
            proof {
                lemma_step_push(steps@, first);
            }
            steps.push(first);
            let mut segments = document_to_segments(document);
            let ghost all = put_steps(document@);
            let ghost fields = indexed_fields(document@);
            let ghost headed = step_views(steps@);
            let ghost given = segments@;
            let mut done: usize = 0;
            proof {
                assert(all.take(0) =~= Seq::empty());
                assert(headed + all.take(0) =~= headed);
            }
            let total: usize = segments.len();
            while done < total
                invariant
                    done <= total,
                    total == given.len(),
                    segments@ == given.skip(done as int),
                    all == put_steps(document@),
                    fields == indexed_fields(document@),
                    super::segments::segments_of(given, document@),
                    step_views(steps@) == headed + all.take(done as int),
                decreases total - done,
            {
                let segment = segments.remove(0);
                let step = IndexStep::Put { segment };
                proof {
                    assert(segment == given[done as int]);
                    assert(segment_view(given[done as int]@) == segment_of(
                        document@,
                        fields[done as int],
                    ));
                    assert(step@ == all[done as int]);
                    lemma_step_push(steps@, step);
                    assert(all.take(done + 1) =~= all.take(done as int).push(all[done as int]));
                    assert(segments@ =~= given.skip(done + 1));
                    assert((headed + all.take(done as int)).push(step@) =~= headed + all.take(
                        done + 1,
                    ));
                }
                steps.push(step);
                done = done + 1;
            }
            proof {
                assert(all.take(done as int) =~= all);
                assert(headed + all =~= start + action_steps(action@));
            }
        },
        SearchIngestAction::Delete { doc_id } => {
            let step = IndexStep::Remove { field: "doc_id", text: doc_id.clone() };
            proof {
                lemma_step_push(steps@, step);
                assert(start.push(step@) =~= start + action_steps(action@));
            }
            steps.push(step);
        },
        SearchIngestAction::DeleteByParent { kind, parent_id } => {
            let step = IndexStep::Remove {
                field: "parent_key",
                text: parent_key(*kind, parent_id.as_str()),
            };
            proof {
                lemma_step_push(steps@, step);
                assert(start.push(step@) =~= start + action_steps(action@));
            }
            steps.push(step);
        },
        SearchIngestAction::Clear => {
            proof {
                lemma_step_push(steps@, IndexStep::Clear);
                assert(start.push(StepView::Clear) =~= start + action_steps(action@));
            }
            steps.push(IndexStep::Clear);
        },
    }
}

fn push_actions_steps(
    steps: &mut Vec<IndexStep>,
    actions: &Vec<SearchIngestAction>,
    before: usize,
    total: usize,
    stage: &'static str,
)
    requires
        before + actions@.len() <= total,
    ensures
        step_views(final(steps)@) == step_views(old(steps)@) + actions_steps(
            ingest_views(actions@),
            before as nat,
            total as u64,
            stage@,
        ),
{
    let ghost start = step_views(steps@);
    let ghost all = ingest_views(actions@);
    let mut i: usize = 0;
    proof {
        assert(all.take(0) =~= Seq::empty());
        assert(start + Seq::empty() =~= start);
    }
    while i < actions.len()
        invariant
            i <= actions@.len(),
            before + actions@.len() <= total,
            all == ingest_views(actions@),
            step_views(steps@) == start + actions_steps(
                all.take(i as int),
                before as nat,
                total as u64,
                stage@,
            ),
        decreases actions@.len() - i,
    {
        let ghost so_far = actions_steps(all.take(i as int), before as nat, total as u64, stage@);
        proof {
            assert(all.take(i + 1).drop_last() =~= all.take(i as int));
            assert(all.take(i + 1).last() == actions@[i as int]@);
        }
        push_action_steps(steps, &actions[i]);
        i = i + 1;
        let done: u64 = (before + i) as u64;
        let ghost reported = report_steps(done, total as u64, stage@);
        let ghost made = action_steps(actions@[i - 1]@);
        if should_update_progress(done, total as u64) {
            let step = IndexStep::Report { done, total: total as u64, stage };
            proof {
                lemma_step_push(steps@, step);
                assert((start + so_far + made).push(step@) =~= start + (so_far + made + reported));
            }
            steps.push(step);
        } else {
            proof {
                assert(start + so_far + made =~= start + (so_far + made + reported));
            }
        }
    }
    proof {
        assert(all.take(i as int) =~= all);
    }
}

/// The steps that apply actions and make them last.
pub open spec fn applied_steps(actions: Seq<IngestView>) -> Seq<StepView> {
    if actions.len() == 0 {
        Seq::empty()
    } else {
        let total = actions.len() as u64;
        actions_steps(actions, 0, total, "Applying updates"@) + seq![
            StepView::Report { done: total, total, stage: "Committing index"@ },
            StepView::Commit,
        ]
    }
}

/// The steps that apply actions and make them last.
pub fn apply_and_commit(actions: &Vec<SearchIngestAction>) -> (steps: Vec<IndexStep>)
    ensures
        step_views(steps@) == applied_steps(ingest_views(actions@)),
{
    let mut steps: Vec<IndexStep> = Vec::new();
    proof {
        assert(step_views(steps@) =~= Seq::empty());
        assert(ingest_views(actions@).len() == actions@.len());
    }
    if actions.len() == 0 {
        return steps;
    }
    let total: usize = actions.len();
    push_actions_steps(&mut steps, actions, 0, total, "Applying updates");
    let report = IndexStep::Report {
        done: total as u64,
        total: total as u64,
        stage: "Committing index",
    };
    proof {
        let middle = step_views(steps@);
        assert(middle =~= actions_steps(
            ingest_views(actions@),
            0,
            total as u64,
            "Applying updates"@,
        ));
        lemma_step_push(steps@, report);
        lemma_step_push(steps@.push(report), IndexStep::Commit);
        assert(middle.push(report@).push(StepView::Commit) =~= applied_steps(
            ingest_views(actions@),
        ));
    }
    steps.push(report);
    steps.push(IndexStep::Commit);
    steps
}

pub open spec fn batch_views(batches: Seq<Vec<SearchIngestAction>>) -> Seq<Seq<IngestView>> {
    batches.map_values(|b: Vec<SearchIngestAction>| ingest_views(b@))
}

/// How many actions there are.
pub open spec fn count_actions(batches: Seq<Seq<IngestView>>) -> nat
    decreases batches.len(),
{
    if batches.len() == 0 {
        0
    } else {
        count_actions(batches.drop_last()) + batches.last().len()
    }
}

/// The steps of the actions of all providers, one provider after the other.
pub open spec fn batches_steps(batches: Seq<Seq<IngestView>>, total: u64) -> Seq<StepView>
    decreases batches.len(),
{
    if batches.len() == 0 {
        Seq::empty()
    } else {
        batches_steps(batches.drop_last(), total) + actions_steps(
            batches.last(),
            count_actions(batches.drop_last()),
            total,
            "Indexing documents"@,
        )
    }
}

/// The steps that build the index anew.
pub open spec fn rebuilt_steps(batches: Seq<Seq<IngestView>>) -> Seq<StepView> {
    let total = count_actions(batches) as u64;
    seq![StepView::Report { done: 0, total, stage: "Clearing index"@ }, StepView::Clear]
        + batches_steps(batches, total) + seq![
        StepView::Report { done: total, total, stage: "Committing index"@ },
        StepView::Commit,
    ]
}

proof fn lemma_count_grows(batches: Seq<Seq<IngestView>>, n: int)
    requires
        0 <= n <= batches.len(),
    ensures
        count_actions(batches.take(n)) <= count_actions(batches),
    decreases batches.len() - n,
{
    if n < batches.len() {
        lemma_count_grows(batches, n + 1);
        assert(batches.take(n + 1).drop_last() =~= batches.take(n));
    } else {
        assert(batches.take(n) =~= batches);
    }
}

/// The steps that build the index anew, from what the providers gave.
pub fn rebuild(batches: &Vec<Vec<SearchIngestAction>>) -> (steps: Vec<IndexStep>)
    requires
        count_actions(batch_views(batches@)) <= usize::MAX,
    ensures
        step_views(steps@) == rebuilt_steps(batch_views(batches@)),
{
    let ghost all = batch_views(batches@);
    let mut total: usize = 0;
    let mut i: usize = 0;
    proof {
        assert(all.take(0) =~= Seq::empty());
    }
    while i < batches.len()
        invariant
            i <= batches@.len(),
            all == batch_views(batches@),
            count_actions(all) <= usize::MAX,
            total == count_actions(all.take(i as int)),
        decreases batches@.len() - i,
    {
        proof {
            assert(all.take(i + 1).drop_last() =~= all.take(i as int));
            assert(all.take(i + 1).last() == ingest_views(batches@[i as int]@));
            lemma_count_grows(all, i + 1);
        }
        total = total + batches[i].len();
        i = i + 1;
    }
    proof {
        assert(all.take(i as int) =~= all);
    }
    let first = IndexStep::Report { done: 0, total: total as u64, stage: "Clearing index" };
    let mut steps = vec![first, IndexStep::Clear];
    let ghost head = seq![
        StepView::Report { done: 0, total: total as u64, stage: "Clearing index"@ },
        StepView::Clear,
    ];
    proof {
        assert(step_views(steps@) =~= head);
        assert(head + Seq::empty() =~= head);
    }
    let mut done: usize = 0;
    let mut k: usize = 0;
    while k < batches.len()
        invariant
            k <= batches@.len(),
            all == batch_views(batches@),
            total == count_actions(all),
            total <= usize::MAX,
            done == count_actions(all.take(k as int)),
            step_views(steps@) == head + batches_steps(all.take(k as int), total as u64),
        decreases batches@.len() - k,
    {
        let ghost so_far = batches_steps(all.take(k as int), total as u64);
        proof {
            assert(all.take(k + 1).drop_last() =~= all.take(k as int));
            assert(all.take(k + 1).last() == ingest_views(batches@[k as int]@));
            lemma_count_grows(all, k + 1);
        }
        push_actions_steps(&mut steps, &batches[k], done, total, "Indexing documents");
        proof {
            let new = actions_steps(
                ingest_views(batches@[k as int]@),
                done as nat,
                total as u64,
                "Indexing documents"@,
            );
            assert(head + so_far + new =~= head + (so_far + new));
        }
        done = done + batches[k].len();
        k = k + 1;
    }
    let report = IndexStep::Report {
        done: total as u64,
        total: total as u64,
        stage: "Committing index",
    };
    proof {
        assert(all.take(k as int) =~= all);
        let middle = step_views(steps@);
        lemma_step_push(steps@, report);
        lemma_step_push(steps@.push(report), IndexStep::Commit);
        assert(middle.push(report@).push(StepView::Commit) =~= rebuilt_steps(all));
    }
    steps.push(report);
    steps.push(IndexStep::Commit);
    steps
}

/// What is shown while the documents of a provider are collected.
pub fn collecting_stage(provider_id: &str) -> (stage: String)
    ensures
        stage@ == "Collecting "@ + provider_id@,
{
    cat("Collecting ", provider_id)
}

/// How a failure of a provider while it collected everything is reported.
pub fn rebuild_failure(provider_id: &str) -> (message: String)
    ensures
        message@ == "Search ingest provider '"@ + provider_id@ + "' failed to rebuild documents"@,
{
    crate::text::cat3("Search ingest provider '", provider_id, "' failed to rebuild documents")
}

/// How a failure of a provider to take in a change is reported.
pub fn change_failure(provider_id: &str) -> (message: String)
    ensures
        message@ == "Search ingest provider '"@ + provider_id@ + "' failed to process a change"@,
{
    crate::text::cat3("Search ingest provider '", provider_id, "' failed to process a change")
}

/// What the index holds after steps, as the segments that were put in and not taken out
/// again.
pub open spec fn index_after(
    held: Seq<Seq<(Seq<char>, ValueView)>>,
    steps: Seq<StepView>,
) -> Seq<Seq<(Seq<char>, ValueView)>>
    decreases steps.len(),
{
    if steps.len() == 0 {
        held
    } else {
        let middle = index_after(held, steps.drop_last());
        match steps.last() {
            StepView::Remove { field, text } => middle.filter(
                |s: Seq<(Seq<char>, ValueView)>| !s.contains((field, ValueView::Text(text))),
            ),
            StepView::Put { segment } => middle.push(segment),
            StepView::Clear => Seq::empty(),
            _ => middle,
        }
    }
}

proof fn lemma_index_after_append(
    held: Seq<Seq<(Seq<char>, ValueView)>>,
    a: Seq<StepView>,
    b: Seq<StepView>,
)
    ensures
        index_after(held, a + b) == index_after(index_after(held, a), b),
    decreases b.len(),
{
    if b.len() == 0 {
        assert(a + b =~= a);
    } else {
        lemma_index_after_append(held, a, b.drop_last());
        assert((a + b).drop_last() =~= a + b.drop_last());
        assert((a + b).last() == b.last());
    }
}

/// Building the index anew forgets what it held before.
pub proof fn law_rebuild_starts_over(
    held: Seq<Seq<(Seq<char>, ValueView)>>,
    other: Seq<Seq<(Seq<char>, ValueView)>>,
    batches: Seq<Seq<IngestView>>,
)
    ensures
        index_after(held, rebuilt_steps(batches)) == index_after(other, rebuilt_steps(batches)),
{
    let total = count_actions(batches) as u64;
    let first = seq![
        StepView::Report { done: 0, total, stage: "Clearing index"@ },
        StepView::Clear,
    ];
    let rest = batches_steps(batches, total) + seq![
        StepView::Report { done: total, total, stage: "Committing index"@ },
        StepView::Commit,
    ];
    assert(rebuilt_steps(batches) =~= first + rest);
    lemma_index_after_append(held, first, rest);
    lemma_index_after_append(other, first, rest);
    assert(first.last() is Clear);
    assert(index_after(held, first) =~= Seq::empty());
    assert(index_after(other, first) =~= Seq::empty());
}

} // verus!
