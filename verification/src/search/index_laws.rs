//! What the index holds after what was asked for, and what its state says meanwhile.
use super::documents::{kind_name, BusinessView, DocumentView, IngestView, SearchEntityKind};
use super::index_state::{
    all_field_kinds, all_field_names, begun_state, failed_state, finished_state, has_field,
    has_tokenized, phase_in_progress, progress_of, progressed_state, queued_state, remaining_of,
    schema_fits, FoundField, IndexStateView, Remaining, SearchIndexPhase,
};
use super::segments::{
    indexed_fields, numeric_fragments, or_empty, parent_key_of, put, put_fragments, put_opt,
    segment_of, ValueView,
};
use super::worker::{
    action_steps, applied_steps, index_after, phase_for, put_steps, CommandView, StepView,
};
use crate::json::{json_text, opt_view};
use crate::text::trimmed;
use vstd::prelude::*;

verus! {

/// One segment of the index.
pub type SegmentView = Seq<(Seq<char>, ValueView)>;

/// Whether a segment is one of a document.
pub open spec fn is_of(s: SegmentView, doc_id: Seq<char>) -> bool {
    s.contains(("doc_id"@, ValueView::Text(doc_id)))
}

proof fn lemma_removed(held: Seq<SegmentView>, field: Seq<char>, text: Seq<char>)
    ensures
        ({
            let after = index_after(held, seq![StepView::Remove { field, text }]);
            forall|s: SegmentView| #[trigger]
                after.contains(s) <==> held.contains(s) && !s.contains(
                    (field, ValueView::Text(text)),
                )
        }),
{
    let steps = seq![StepView::Remove { field, text }];
    let keep = |s: SegmentView| !s.contains((field, ValueView::Text(text)));
    let after = index_after(held, steps);
    assert(steps.drop_last() =~= Seq::<StepView>::empty());
    assert(index_after(held, steps.drop_last()) == held);
    assert(after == held.filter(keep));
    assert forall|s: SegmentView| #[trigger] after.contains(s) <==> held.contains(s)
        && !s.contains((field, ValueView::Text(text))) by {
        if after.contains(s) {
            held.lemma_filter_contains_rev(keep, s);
            let k = choose|k: int| 0 <= k < after.len() && after[k] == s;
            held.lemma_filter_pred(keep, k);
        }
        if held.contains(s) && keep(s) {
            let m = choose|m: int| 0 <= m < held.len() && held[m] == s;
            held.lemma_filter_contains(keep, m);
        }
    }
}

proof fn lemma_index_after_more(held: Seq<SegmentView>, a: Seq<StepView>, b: Seq<StepView>)
    ensures
        index_after(held, a + b) == index_after(index_after(held, a), b),
    decreases b.len(),
{
    if b.len() == 0 {
        assert(a + b =~= a);
    } else {
        lemma_index_after_more(held, a, b.drop_last());
        assert((a + b).drop_last() =~= a + b.drop_last());
    }
}

proof fn lemma_put(held: Seq<SegmentView>, d: DocumentView, n: int)
    requires
        0 <= n <= indexed_fields(d).len(),
    ensures
        ({
            let after = index_after(held, put_steps(d).take(n));
            &&& after.len() == held.len() + n
            &&& forall|i: int| 0 <= i < held.len() ==> #[trigger] after[i] == held[i]
            &&& forall|k: int|
                0 <= k < n ==> #[trigger] after[held.len() + k] == segment_of(
                    d,
                    indexed_fields(d)[k],
                )
        }),
    decreases n,
{
    let steps = put_steps(d).take(n);
    if n > 0 {
        lemma_put(held, d, n - 1);
        assert(steps.drop_last() =~= put_steps(d).take(n - 1));
        assert(steps.last() == put_steps(d)[n - 1]);
    }
}

/// A document that is put in is in the index with each of its fields, and nothing is left of what
/// was there under its id. What is there of other documents stays.
pub proof fn law_document_is_put_in(held: Seq<SegmentView>, d: DocumentView, s: SegmentView)
    ensures
        ({
            let after = index_after(held, action_steps(IngestView::Upsert { document: d }));
            &&& forall|k: int|
                0 <= k < indexed_fields(d).len() ==> after.contains(
                    #[trigger] segment_of(d, indexed_fields(d)[k]),
                )
            &&& !is_of(s, d.doc_id) ==> (held.contains(s) ==> after.contains(s))
            &&& after.contains(s) ==> (held.contains(s) && !is_of(s, d.doc_id)) || exists|k: int|
                0 <= k < indexed_fields(d).len() && s == #[trigger] segment_of(
                    d,
                    indexed_fields(d)[k],
                )
        }),
{
    let first = seq![StepView::Remove { field: "doc_id"@, text: d.doc_id }];
    let middle = index_after(held, first);
    lemma_removed(held, "doc_id"@, d.doc_id);
    lemma_index_after_more(held, first, put_steps(d));
    let n = indexed_fields(d).len() as int;
    lemma_put(middle, d, n);
    assert(put_steps(d).take(n) =~= put_steps(d));
    let after = index_after(held, action_steps(IngestView::Upsert { document: d }));
    assert forall|k: int| 0 <= k < indexed_fields(d).len() implies after.contains(
        #[trigger] segment_of(d, indexed_fields(d)[k]),
    ) by {
        assert(after[middle.len() + k] == segment_of(d, indexed_fields(d)[k]));
    }
    if !is_of(s, d.doc_id) && held.contains(s) {
        assert(middle.contains(s));
        let m = choose|m: int| 0 <= m < middle.len() && middle[m] == s;
        assert(after[m] == s);
    }
    if after.contains(s) {
        let m = choose|m: int| 0 <= m < after.len() && after[m] == s;
        if m < middle.len() {
            assert(middle[m] == s);
            assert(middle.contains(s));
        } else {
            assert(after[middle.len() + (m - middle.len())] == segment_of(
                d,
                indexed_fields(d)[m - middle.len()],
            ));
        }
    }
}

/// A document that is taken out is not in the index any more, and so it is with all that stand
/// under a parent; the rest stays.
pub proof fn law_document_is_taken_out(
    held: Seq<SegmentView>,
    doc_id: Seq<char>,
    kind: SearchEntityKind,
    parent: Seq<char>,
    s: SegmentView,
)
    ensures
        index_after(held, action_steps(IngestView::Delete { doc_id })).contains(s)
            <==> held.contains(s) && !is_of(s, doc_id),
        index_after(
            held,
            action_steps(IngestView::DeleteByParent { kind, parent_id: parent }),
        ).contains(s) <==> held.contains(s) && !s.contains(
            ("parent_key"@, ValueView::Text(parent_key_of(kind, parent))),
        ),
        index_after(held, action_steps(IngestView::Clear)).len() == 0,
{
    lemma_removed(held, "doc_id"@, doc_id);
    lemma_removed(held, "parent_key"@, parent_key_of(kind, parent));
}

/// The segments of a document are found under its id, and under the key of its parent.
pub proof fn law_segments_name_their_document(d: DocumentView, f: (Seq<char>, Seq<char>))
    ensures
        is_of(segment_of(d, f), d.doc_id),
        d.parent_id matches Some(p) ==> segment_of(d, f).contains(
            ("parent_key"@, ValueView::Text(parent_key_of(d.kind, p))),
        ),
        segment_of(d, f).contains(("content"@, ValueView::Text(f.1))),
        segment_of(d, f).contains(("content_field"@, ValueView::Text(f.0))),
{
    let s = segment_of(d, f);
    assert(s[1] == ("doc_id"@, ValueView::Text(d.doc_id)));
    if let Some(p) = d.parent_id {
        assert(s[5] == ("parent_key"@, ValueView::Text(parent_key_of(d.kind, p))));
    }
    assert(s[9] == ("content_field"@, ValueView::Text(f.0)));
    assert(s[10] == ("content"@, ValueView::Text(f.1)));
}

proof fn lemma_put_opt(s: SegmentView, name: Seq<char>, text: Option<Seq<char>>)
    ensures
        forall|x: (Seq<char>, ValueView)| s.contains(x) ==> #[trigger] put_opt(
            s,
            name,
            text,
        ).contains(x),
        text is Some && trimmed(text->0).len() > 0 ==> put_opt(s, name, text).contains(
            (name, ValueView::Text(trimmed(text->0))),
        ),
{
    let after = put_opt(s, name, text);
    assert forall|x: (Seq<char>, ValueView)| s.contains(x) implies #[trigger] after.contains(
        x,
    ) by {
        let k = choose|k: int| 0 <= k < s.len() && s[k] == x;
        assert(after[k] == x);
    }
    if let Some(t) = text {
        if trimmed(t).len() > 0 {
            assert(after[s.len() as int] == (name, ValueView::Text(trimmed(t))));
        }
    }
}

/// Whether a segment holds a text under a name, where there is more of it than white space.
pub open spec fn holds_fact(s: SegmentView, name: Seq<char>, fact: Option<Seq<char>>) -> bool {
    fact is Some && trimmed(fact->0).len() > 0 ==> s.contains(
        (name, ValueView::Text(trimmed(fact->0))),
    )
}

/// The segments of a document hold what is known of its entity, each under its name, and the times
/// at which it came to be and was changed.
pub proof fn law_segments_hold_the_facts(d: DocumentView, f: (Seq<char>, Seq<char>))
    ensures
        ({
            let s = segment_of(d, f);
            &&& holds_fact(s, "status"@, d.business.status)
            &&& holds_fact(s, "datatype"@, d.business.datatype)
            &&& holds_fact(s, "category"@, d.business.category)
            &&& holds_fact(s, "source"@, d.business.source)
            &&& holds_fact(s, "app_id"@, d.business.app_id)
            &&& holds_fact(s, "agent_id"@, d.business.agent_id)
            &&& holds_fact(s, "session_id"@, d.business.session_id)
            &&& holds_fact(s, "collection_uuid"@, d.business.collection_uuid)
            &&& holds_fact(s, "collection_type"@, d.business.collection_type)
            &&& d.business.archived == Some(true) ==> s.contains(
                ("archived"@, ValueView::Text("true"@)),
            )
            &&& d.business.archived != Some(true) ==> s.contains(
                ("archived"@, ValueView::Text("false"@)),
            )
            &&& d.business.created_at_ms matches Some(at) ==> s.contains(
                ("created_at_ms"@, ValueView::Number(at)),
            )
            &&& d.business.updated_at_ms matches Some(at) ==> s.contains(
                ("updated_at_ms"@, ValueView::Number(at)),
            )
            &&& s.contains(("title"@, ValueView::Text(d.title)))
            &&& s.contains(("body"@, ValueView::Text(d.body)))
            &&& s.contains(("entity_id"@, ValueView::Text(d.entity_id)))
            &&& s.contains(("metadata"@, ValueView::Text(json_text(d.metadata))))
        }),
{
    let s = segment_of(d, f);
    let start = segment_start(d, f);
    let most = facts_put(start, d.business);
    let archived = if d.business.archived == Some(true) {
        "true"@
    } else {
        "false"@
    };
    assert(s == put(most, "archived"@, archived));
    lemma_segment_start(d, f);
    lemma_facts_put(start, d.business);
    assert forall|x: (Seq<char>, ValueView)| most.contains(x) implies #[trigger] s.contains(x) by {
        let k = choose|k: int| 0 <= k < most.len() && most[k] == x;
        assert(s[k] == x);
    }
    assert(s[most.len() as int] == ("archived"@, ValueView::Text(archived)));
}

/// A segment with what is known of an entity.
spec fn facts_put(s: SegmentView, b: BusinessView) -> SegmentView {
    let s1 = put_opt(s, "status"@, b.status);
    let s2 = put_opt(s1, "datatype"@, b.datatype);
    let s3 = put_opt(s2, "category"@, b.category);
    let s4 = put_opt(s3, "source"@, b.source);
    let s5 = put_opt(s4, "app_id"@, b.app_id);
    let s6 = put_opt(s5, "agent_id"@, b.agent_id);
    let s7 = put_opt(s6, "session_id"@, b.session_id);
    let s8 = put_opt(s7, "collection_uuid"@, b.collection_uuid);
    put_opt(s8, "collection_type"@, b.collection_type)
}

proof fn lemma_facts_put(s: SegmentView, b: BusinessView)
    ensures
        ({
            let out = facts_put(s, b);
            &&& forall|x: (Seq<char>, ValueView)| s.contains(x) ==> #[trigger] out.contains(x)
            &&& holds_fact(out, "status"@, b.status)
            &&& holds_fact(out, "datatype"@, b.datatype)
            &&& holds_fact(out, "category"@, b.category)
            &&& holds_fact(out, "source"@, b.source)
            &&& holds_fact(out, "app_id"@, b.app_id)
            &&& holds_fact(out, "agent_id"@, b.agent_id)
            &&& holds_fact(out, "session_id"@, b.session_id)
            &&& holds_fact(out, "collection_uuid"@, b.collection_uuid)
            &&& holds_fact(out, "collection_type"@, b.collection_type)
        }),
{
    let s1 = put_opt(s, "status"@, b.status);
    let s2 = put_opt(s1, "datatype"@, b.datatype);
    let s3 = put_opt(s2, "category"@, b.category);
    let s4 = put_opt(s3, "source"@, b.source);
    let s5 = put_opt(s4, "app_id"@, b.app_id);
    let s6 = put_opt(s5, "agent_id"@, b.agent_id);
    let s7 = put_opt(s6, "session_id"@, b.session_id);
    let s8 = put_opt(s7, "collection_uuid"@, b.collection_uuid);
    lemma_put_opt(s, "status"@, b.status);
    lemma_put_opt(s1, "datatype"@, b.datatype);
    lemma_put_opt(s2, "category"@, b.category);
    lemma_put_opt(s3, "source"@, b.source);
    lemma_put_opt(s4, "app_id"@, b.app_id);
    lemma_put_opt(s5, "agent_id"@, b.agent_id);
    lemma_put_opt(s6, "session_id"@, b.session_id);
    lemma_put_opt(s7, "collection_uuid"@, b.collection_uuid);
    lemma_put_opt(s8, "collection_type"@, b.collection_type);
}

/// The part of a segment that every document has.
spec fn segment_start(d: DocumentView, f: (Seq<char>, Seq<char>)) -> SegmentView {
    let created = match d.business.created_at_ms {
        Some(at) => at,
        None => d.created_at_ms,
    };
    let updated = match d.business.updated_at_ms {
        Some(at) => at,
        None => created,
    };
    let a = put(Seq::empty(), "index_version"@, "4"@);
    let a = put(a, "doc_id"@, d.doc_id);
    let a = put(a, "kind"@, kind_name(d.kind));
    let a = put(a, "entity_id"@, d.entity_id);
    let a = put(a, "parent_id"@, or_empty(d.parent_id));
    let a = put(
        a,
        "parent_key"@,
        match d.parent_id {
            Some(p) => parent_key_of(d.kind, p),
            None => Seq::empty(),
        },
    );
    let a = put(a, "title"@, d.title);
    let a = put(a, "body"@, d.body);
    let a = put(a, "metadata"@, json_text(d.metadata));
    let a = put(a, "content_field"@, f.0);
    let a = put(a, "content"@, f.1);
    let a = put_fragments(a, numeric_fragments(d.title, d.body, f.1));
    let a = a.push(("created_at_ms"@, ValueView::Number(created)));
    a.push(("updated_at_ms"@, ValueView::Number(updated)))
}

proof fn lemma_segment_start(d: DocumentView, f: (Seq<char>, Seq<char>))
    ensures
        ({
            let a = segment_start(d, f);
            &&& d.business.created_at_ms matches Some(at) ==> a.contains(
                ("created_at_ms"@, ValueView::Number(at)),
            )
            &&& d.business.updated_at_ms matches Some(at) ==> a.contains(
                ("updated_at_ms"@, ValueView::Number(at)),
            )
            &&& a.contains(("title"@, ValueView::Text(d.title)))
            &&& a.contains(("body"@, ValueView::Text(d.body)))
            &&& a.contains(("entity_id"@, ValueView::Text(d.entity_id)))
            &&& a.contains(("metadata"@, ValueView::Text(json_text(d.metadata))))
        }),
{
    let a = segment_start(d, f);
    assert(a[3] == ("entity_id"@, ValueView::Text(d.entity_id)));
    assert(a[6] == ("title"@, ValueView::Text(d.title)));
    assert(a[7] == ("body"@, ValueView::Text(d.body)));
    assert(a[8] == ("metadata"@, ValueView::Text(json_text(d.metadata))));
    let n = a.len() as int;
    if let Some(at) = d.business.created_at_ms {
        assert(a[n - 2] == ("created_at_ms"@, ValueView::Number(at)));
    }
    if let Some(at) = d.business.updated_at_ms {
        assert(a[n - 1] == ("updated_at_ms"@, ValueView::Number(at)));
    }
}

/// Work that is asked for or begun is in progress, and work that ended is not. Only an end raises
/// the number of the index, by one, and only a failure leaves an error. Where the index
/// lies never changes.
pub proof fn law_states_of_the_index(
    s: IndexStateView,
    phase: SearchIndexPhase,
    error: Seq<char>,
    done: u64,
    total: u64,
    stage: Seq<char>,
    now: i64,
)
    ensures
        phase_in_progress(queued_state(s, now).phase),
        phase_in_progress(begun_state(s, SearchIndexPhase::Building, now).phase),
        phase_in_progress(begun_state(s, SearchIndexPhase::Updating, now).phase),
        !phase_in_progress(finished_state(s, now).phase),
        !phase_in_progress(failed_state(s, error, now).phase),
        !phase_in_progress(SearchIndexPhase::NotBuilt),
        s.generation < u64::MAX ==> finished_state(s, now).generation == s.generation + 1,
        failed_state(s, error, now).generation == s.generation,
        queued_state(s, now).generation == s.generation,
        begun_state(s, phase, now).generation == s.generation,
        failed_state(s, error, now).last_error == Some(error),
        finished_state(s, now).last_error is None,
        queued_state(s, now).last_started_at_ms == Some(now),
        begun_state(s, phase, now).last_started_at_ms == Some(now),
        begun_state(s, phase, now).phase == phase,
        finished_state(s, now).last_finished_at_ms == Some(now),
        failed_state(s, error, now).last_finished_at_ms == Some(now),
        finished_state(s, now).index_path == s.index_path,
        failed_state(s, error, now).index_path == s.index_path,
        queued_state(s, now).index_path == s.index_path,
        begun_state(s, phase, now).index_path == s.index_path,
        total > 0 ==> progress_of(progressed_state(s, done, Some(total), stage)) == Some(
            (done, total),
        ),
        progressed_state(s, done, Some(total), stage).phase == s.phase,
        progressed_state(s, done, Some(total), stage).current_stage == Some(stage),
        progress_of(finished_state(s, now)) is None,
        progress_of(failed_state(s, error, now)) is None,
        progress_of(queued_state(s, now)) is None,
{
}

/// What is left is worked out from the time that has passed and what was done in it; nothing is
/// left where all is done.
pub proof fn law_what_is_left(started: i64, done: u64, total: u64, now: i64)
    ensures
        done >= total ==> remaining_of(Some(started), Some(done), Some(total), now) == Some(
            Remaining::Nothing,
        ),
        0 < done < total && 0 < now - started <= i64::MAX ==> remaining_of(
            Some(started),
            Some(done),
            Some(total),
            now,
        ) == Some(
            Remaining::Rate {
                elapsed: (now - started) as i64,
                done,
                left: (total - done) as u64,
            },
        ),
        0 < done < total && now <= started ==> remaining_of(
            Some(started),
            Some(done),
            Some(total),
            now,
        ) is None,
        remaining_of(None, Some(done), Some(total), now) is None,
{
}

/// An index fits where it has every field that is written and its texts are cut into words the same
/// way; it does not fit where one of these is missing.
pub proof fn law_fitting_schemas(found: Seq<FoundField>, i: int)
    ensures
        schema_fits(found) && 0 <= i < all_field_names().len() && i != 4 ==> exists|k: int|
            0 <= k < found.len() && (#[trigger] found[k]).name@ == all_field_names()[i],
        schema_fits(found) ==> exists|k: int|
            0 <= k < found.len() && (#[trigger] found[k]).name@ == "content"@ && opt_view(
                found[k].tokenizer,
            ) == Some("remi_charabia"@),
        found.len() == 0 ==> !schema_fits(found),
        all_field_names().len() == all_field_kinds().len(),
{
    if schema_fits(found) {
        assert(has_tokenized(found, "content"@));
        if 0 <= i < all_field_names().len() && i != 4 {
            assert(has_field(found, all_field_names()[i]));
        }
    }
}

/// A rebuild builds the index, and every other work updates it.
pub proof fn law_kinds_of_work(command: CommandView)
    ensures
        phase_for(command) == SearchIndexPhase::Building <==> command is Rebuild,
        phase_for(command) == SearchIndexPhase::Updating <==> !(command is Rebuild),
{
}

/// Work that is applied ends with a commit, and without work nothing is done.
pub proof fn law_applied_work_is_committed(actions: Seq<IngestView>)
    ensures
        actions.len() > 0 ==> applied_steps(actions).len() > 0 && applied_steps(actions).last()
            == StepView::Commit,
        actions.len() == 0 ==> applied_steps(actions).len() == 0,
{
}

} // verus!
