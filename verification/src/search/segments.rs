//! What the index holds: for every text of a document one list of named values.
use super::documents::{kind_name, DocumentView, SearchDocument, SearchEntityKind};
use super::fields::{
    field_view, field_views, is_empty, with_field, push_content_field, SearchContentField,
};
use crate::json::{json_text, opt_view, plain_json, reads_as, write_json, NESTING_LIMIT};
use crate::letters::{sort_texts, sorted_texts};
use crate::storage::triggers::holds_text;
use crate::text::{cat3, chars_of, is_digit, owned, text_of, trim, trimmed, views};
use vstd::prelude::*;

verus! {

/// The version of the index.
pub const SEARCH_INDEX_VERSION: &'static str = "4";

/// The name of the tokenizer for texts.
pub const SEARCH_TEXT_TOKENIZER: &'static str = "remi_charabia";

/// A value in the index.
#[derive(Debug)]
pub enum IndexValue {
    Text(String),
    Number(i64),
}

/// A value in the index, over character sequences.
pub enum ValueView {
    Text(Seq<char>),
    Number(i64),
}

pub open spec fn value_view(v: IndexValue) -> ValueView {
    match v {
        IndexValue::Text(s) => ValueView::Text(s@),
        IndexValue::Number(n) => ValueView::Number(n),
    }
}

/// Named values.
pub type Segment = Vec<(String, IndexValue)>;

pub open spec fn segment_view(s: Seq<(String, IndexValue)>) -> Seq<(Seq<char>, ValueView)> {
    s.map_values(|e: (String, IndexValue)| (e.0@, value_view(e.1)))
}

/// The shortest and longest fragment of a number that is searched, and how many at most.
pub open spec fn min_fragment() -> int {
    2
}

pub open spec fn max_fragment() -> int {
    16
}

pub open spec fn max_fragments() -> int {
    512
}

/// The fragments of a run of digits that start at one place, the shortest first.
pub open spec fn fragments_at(run: Seq<char>, start: int) -> Seq<Seq<char>> {
    let longest = if run.len() - start < max_fragment() {
        run.len() - start
    } else {
        max_fragment()
    };
    if longest < min_fragment() {
        Seq::empty()
    } else {
        Seq::new(
            (longest - min_fragment() + 1) as nat,
            |k: int| run.subrange(start, start + min_fragment() + k),
        )
    }
}

/// The fragments of a run of digits that start before a place.
pub open spec fn fragments_before(run: Seq<char>, n: int) -> Seq<Seq<char>>
    decreases n,
{
    if n <= 0 {
        Seq::empty()
    } else {
        fragments_before(run, n - 1) + fragments_at(run, n - 1)
    }
}

/// The fragments of a run of digits.
pub open spec fn run_fragments(run: Seq<char>) -> Seq<Seq<char>> {
    fragments_before(run, run.len() as int)
}

/// The run of digits that a text ends with.
pub open spec fn last_run(s: Seq<char>) -> Seq<char>
    decreases s.len(),
{
    if s.len() == 0 || !is_digit(s.last()) {
        Seq::empty()
    } else {
        last_run(s.drop_last()).push(s.last())
    }
}

/// The fragments of the runs of digits that end within a text.
pub open spec fn ended_fragments(s: Seq<char>) -> Seq<Seq<char>>
    decreases s.len(),
{
    if s.len() == 0 {
        Seq::empty()
    } else if is_digit(s.last()) {
        ended_fragments(s.drop_last())
    } else {
        ended_fragments(s.drop_last()) + run_fragments(last_run(s.drop_last()))
    }
}

/// The fragments of all runs of digits in a text.
pub open spec fn text_fragments(s: Seq<char>) -> Seq<Seq<char>> {
    ended_fragments(s) + run_fragments(last_run(s))
}

/// The first elements of a list, each once, as many as are kept.
pub open spec fn first_kept(s: Seq<Seq<char>>) -> Seq<Seq<char>>
    decreases s.len(),
{
    if s.len() == 0 {
        Seq::empty()
    } else {
        let before = first_kept(s.drop_last());
        if before.len() >= max_fragments() || before.contains(s.last()) {
            before
        } else {
            before.push(s.last())
        }
    }
}

/// The fragments of the numbers in three texts, sorted.
pub open spec fn numeric_fragments(a: Seq<char>, b: Seq<char>, c: Seq<char>) -> Seq<Seq<char>> {
    sorted_texts(first_kept(text_fragments(a) + text_fragments(b) + text_fragments(c)))
}

proof fn lemma_full_stays(a: Seq<Seq<char>>, b: Seq<Seq<char>>)
    requires
        first_kept(a).len() >= max_fragments(),
    ensures
        first_kept(a + b) == first_kept(a),
    decreases b.len(),
{
    if b.len() == 0 {
        assert(a + b =~= a);
    } else {
        lemma_full_stays(a, b.drop_last());
        assert((a + b).drop_last() =~= a + b.drop_last());
    }
}

/// Adds a fragment that is not there yet.
fn keep_fragment(out: &mut Vec<String>, fragment: String, Ghost(seen): Ghost<Seq<Seq<char>>>)
    requires
        views(old(out)@) == first_kept(seen),
        old(out)@.len() < max_fragments(),
    ensures
        views(final(out)@) == first_kept(seen.push(fragment@)),
{
    proof {
        assert(seen.push(fragment@).drop_last() =~= seen);
    }
    if !holds_text(out, fragment.as_str()) {
        let ghost added = fragment@;
        let ghost before = out@;
        out.push(fragment);
        proof {
            assert(views(out@) =~= views(before).push(added));
        }
    }
}

/// Adds the fragments of a run of digits until enough are kept.
fn push_numeric_run_fragments(
    run: &Vec<char>,
    out: &mut Vec<String>,
    Ghost(seen): Ghost<Seq<Seq<char>>>,
)
    requires
        views(old(out)@) == first_kept(seen),
        old(out)@.len() < max_fragments(),
    ensures
        views(final(out)@) == first_kept(seen + run_fragments(run@)),
{
    let len: usize = run.len();
    let mut start: usize = 0;
    proof {
        assert(seen + fragments_before(run@, 0) =~= seen);
    }
    while start < len
        invariant
            start <= len,
            len == run@.len(),
            views(out@) == first_kept(seen + fragments_before(run@, start as int)),
            out@.len() < max_fragments(),
        decreases len - start,
    {
        let longest: usize = if len - start < 16 { len - start } else { 16 };
        let ghost base = seen + fragments_before(run@, start as int);
        let ghost here = fragments_at(run@, start as int);
        let mut size: usize = 2;
        proof {
            assert(base + here.take(0) =~= base);
        }
        while size <= longest
            invariant
                2 <= size,
                start < len,
                len == run@.len(),
                longest <= 16,
                longest <= len - start,
                longest == (if len - start < 16 { len - start } else { 16int }),
                longest >= 2 ==> size <= longest + 1,
                longest < 2 ==> size == 2,
                base == seen + fragments_before(run@, start as int),
                here == fragments_at(run@, start as int),
                longest >= 2 ==> here.len() == longest - 1,
                views(out@) == first_kept(base + here.take(size - 2)),
                out@.len() < max_fragments(),
            decreases longest + 1 - size,
        {
            let fragment = text_of(run, start, start + size);
            proof {
                assert(here[size - 2] =~= fragment@);
                assert(base + here.take(size - 1) =~= (base + here.take(size - 2)).push(
                    fragment@,
                ));
            }
            keep_fragment(out, fragment, Ghost(base + here.take(size - 2)));
            if out.len() >= 512 {
                proof {
                    let done = base + here.take(size - 1);
                    let rest = lemma_run_split(run@, start as int, size - 1);
                    assert(seen + run_fragments(run@) =~= done + rest);
                    assert(views(out@).len() == out@.len());
                    lemma_full_stays(done, rest);
                }
                return;
            }
            size = size + 1;
        }
        proof {
            assert(here.take(size - 2) =~= here);
            assert(base + here =~= seen + fragments_before(run@, start + 1));
        }
        start = start + 1;
    }
}

proof fn lemma_run_split(run: Seq<char>, start: int, n: int) -> (rest: Seq<Seq<char>>)
    requires
        0 <= start < run.len(),
        0 <= n <= fragments_at(run, start).len(),
    ensures
        run_fragments(run) == fragments_before(run, start) + fragments_at(run, start).take(n)
            + rest,
{
    let more = lemma_before_split(run, start + 1, run.len() as int);
    let here = fragments_at(run, start);
    let rest = here.skip(n) + more;
    assert(here.take(n) + here.skip(n) =~= here);
    assert(fragments_before(run, start) + here.take(n) + rest =~= fragments_before(run, start + 1)
        + more);
    rest
}

proof fn lemma_before_split(run: Seq<char>, from: int, to: int) -> (more: Seq<Seq<char>>)
    requires
        0 <= from <= to,
    ensures
        fragments_before(run, to) == fragments_before(run, from) + more,
    decreases to,
{
    if from == to {
        let none = Seq::<Seq<char>>::empty();
        assert(fragments_before(run, to) =~= fragments_before(run, from) + none);
        none
    } else {
        let more = lemma_before_split(run, from, to - 1);
        let all = more + fragments_at(run, to - 1);
        assert(fragments_before(run, to) =~= fragments_before(run, from) + all);
        all
    }
}

proof fn lemma_ended_split(s: Seq<char>, i: int) -> (rest: Seq<Seq<char>>)
    requires
        0 <= i <= s.len(),
    ensures
        ended_fragments(s) == ended_fragments(s.take(i)) + rest,
    decreases s.len(),
{
    if i == s.len() {
        let none = Seq::<Seq<char>>::empty();
        assert(s.take(i) =~= s);
        assert(ended_fragments(s) =~= ended_fragments(s.take(i)) + none);
        none
    } else {
        let shorter = s.drop_last();
        let rest = lemma_ended_split(shorter, i);
        assert(shorter.take(i) =~= s.take(i));
        if is_digit(s.last()) {
            rest
        } else {
            let all = rest + run_fragments(last_run(shorter));
            assert(ended_fragments(s) =~= ended_fragments(s.take(i)) + all);
            all
        }
    }
}

/// Adds the fragments of the runs of digits in a text until enough are kept.
fn collect_numeric_search_fragments(
    value: &str,
    out: &mut Vec<String>,
    Ghost(seen): Ghost<Seq<Seq<char>>>,
)
    requires
        views(old(out)@) == first_kept(seen),
        old(out)@.len() < max_fragments(),
    ensures
        views(final(out)@) == first_kept(seen + text_fragments(value@)),
{
    let chars = chars_of(value);
    let mut run: Vec<char> = Vec::new();
    let mut i: usize = 0;
    proof {
        assert(value@.take(0) =~= Seq::<char>::empty());
        assert(seen + ended_fragments(value@.take(0)) =~= seen);
        assert(run@ =~= last_run(value@.take(0)));
    }
    while i < chars.len()
        invariant
            i <= chars@.len(),
            chars@ == value@,
            run@ == last_run(value@.take(i as int)),
            views(out@) == first_kept(seen + ended_fragments(value@.take(i as int))),
            out@.len() < max_fragments(),
        decreases chars@.len() - i,
    {
        let c = chars[i];
        let ghost head = value@.take(i as int);
        let ghost next = value@.take(i + 1);
        proof {
            assert(next.drop_last() =~= head);
            assert(next.last() == c);
        }
        if '0' <= c && c <= '9' {
            run.push(c);
        } else {
            push_numeric_run_fragments(&run, out, Ghost(seen + ended_fragments(head)));
            proof {
                assert(seen + ended_fragments(head) + run_fragments(run@) =~= seen
                    + ended_fragments(next));
            }
            run.clear();
            proof {
                assert(run@ =~= last_run(next));
            }
            if out.len() >= 512 {
                proof {
                    let rest = lemma_ended_split(value@, i + 1);
                    let all = rest + run_fragments(last_run(value@));
                    assert(seen + text_fragments(value@) =~= seen + ended_fragments(next) + all);
                    assert(views(out@).len() == out@.len());
                    lemma_full_stays(seen + ended_fragments(next), all);
                }
                return;
            }
        }
        i = i + 1;
    }
    proof {
        assert(value@.take(i as int) =~= value@);
        assert(seen + ended_fragments(value@) + run_fragments(run@) =~= seen + text_fragments(
            value@,
        ));
    }
    push_numeric_run_fragments(&run, out, Ghost(seen + ended_fragments(value@)));
}

/// The fragments of the numbers in three texts, sorted.
pub fn numeric_search_fragments(a: &str, b: &str, c: &str) -> (out: Vec<String>)
    ensures
        views(out@) == numeric_fragments(a@, b@, c@),
{
    let mut kept: Vec<String> = Vec::new();
    let ghost none = Seq::<Seq<char>>::empty();
    let ghost one = text_fragments(a@);
    let ghost two = one + text_fragments(b@);
    let ghost three = two + text_fragments(c@);
    proof {
        assert(views(kept@) =~= first_kept(none));
        assert(none + one =~= one);
    }
    collect_numeric_search_fragments(a, &mut kept, Ghost(none));
    proof {
        assert(views(kept@).len() == kept@.len());
    }
    if kept.len() < 512 {
        collect_numeric_search_fragments(b, &mut kept, Ghost(one));
        proof {
            assert(views(kept@).len() == kept@.len());
        }
    } else {
        proof {
            lemma_full_stays(one, text_fragments(b@));
        }
    }
    if kept.len() < 512 {
        collect_numeric_search_fragments(c, &mut kept, Ghost(two));
    } else {
        proof {
            lemma_full_stays(two, text_fragments(c@));
        }
    }
    sort_texts(&kept)
}

/// Whether a query holds digits enough for a fragment.
pub open spec fn has_number(s: Seq<char>) -> bool {
    exists|i: int| 0 <= i && i + 1 < s.len() && is_digit(#[trigger] s[i]) && is_digit(s[i + 1])
}

/// Whether a query holds digits enough for a fragment.
pub fn query_contains_numeric_fragment(query: &str) -> (r: bool)
    ensures
        r == has_number(query@),
{
    let chars = chars_of(query);
    let mut i: usize = 0;
    while i < chars.len()
        invariant
            i <= chars@.len(),
            chars@ == query@,
            forall|k: int|
                0 <= k && k + 1 < i ==> !(is_digit(#[trigger] chars@[k]) && is_digit(
                    chars@[k + 1],
                )),
        decreases chars@.len() - i,
    {
        if i > 0 && '0' <= chars[i] && chars[i] <= '9' && '0' <= chars[i - 1]
            && chars[i - 1] <= '9' {
            assert(is_digit(query@[i - 1]) && is_digit(query@[i - 1 + 1]));
            return true;
        }
        i = i + 1;
    }
    false
}

/// The key by which the documents under a parent are found.
pub open spec fn parent_key_of(kind: SearchEntityKind, parent: Seq<char>) -> Seq<char> {
    kind_name(kind) + ":"@ + parent
}

pub fn parent_key(kind: SearchEntityKind, parent_id: &str) -> (out: String)
    ensures
        out@ == parent_key_of(kind, parent_id@),
{
    cat3(kind.as_str(), ":", parent_id)
}

pub open spec fn put(
    s: Seq<(Seq<char>, ValueView)>,
    name: Seq<char>,
    text: Seq<char>,
) -> Seq<(Seq<char>, ValueView)> {
    s.push((name, ValueView::Text(text)))
}

/// Named values with one more where it is there and not blank.
pub open spec fn put_opt(
    s: Seq<(Seq<char>, ValueView)>,
    name: Seq<char>,
    text: Option<Seq<char>>,
) -> Seq<(Seq<char>, ValueView)> {
    match text {
        Some(t) => if trimmed(t).len() == 0 {
            s
        } else {
            put(s, name, trimmed(t))
        },
        None => s,
    }
}

pub open spec fn put_fragments(
    s: Seq<(Seq<char>, ValueView)>,
    list: Seq<Seq<char>>,
) -> Seq<(Seq<char>, ValueView)> {
    s + list.map_values(|f: Seq<char>| ("numeric_fragments"@, ValueView::Text(f)))
}

pub open spec fn or_empty(s: Option<Seq<char>>) -> Seq<char> {
    match s {
        Some(s) => s,
        None => Seq::empty(),
    }
}

/// The named values of one text of a document.
pub open spec fn segment_of(d: DocumentView, f: (Seq<char>, Seq<char>)) -> Seq<
    (Seq<char>, ValueView),
> {
    let created = match d.business.created_at_ms {
        Some(at) => at,
        None => d.created_at_ms,
    };
    let updated = match d.business.updated_at_ms {
        Some(at) => at,
        None => created,
    };
    let a = put(Seq::empty(), "index_version"@, "4"@);
    let a = put(a, "doc_id"@, d.doc_id);
    let a = put(a, "kind"@, kind_name(d.kind));
    let a = put(a, "entity_id"@, d.entity_id);
    let a = put(a, "parent_id"@, or_empty(d.parent_id));
    let a = put(
        a,
        "parent_key"@,
        match d.parent_id {
            Some(p) => parent_key_of(d.kind, p),
            None => Seq::empty(),
        },
    );
    let a = put(a, "title"@, d.title);
    let a = put(a, "body"@, d.body);
    let a = put(a, "metadata"@, json_text(d.metadata));
    let a = put(a, "content_field"@, f.0);
    let a = put(a, "content"@, f.1);
    let a = put_fragments(a, numeric_fragments(d.title, d.body, f.1));
    let a = a.push(("created_at_ms"@, ValueView::Number(created)));
    let a = a.push(("updated_at_ms"@, ValueView::Number(updated)));
    let a = put_opt(a, "status"@, d.business.status);
    let a = put_opt(a, "datatype"@, d.business.datatype);
    let a = put_opt(a, "category"@, d.business.category);
    let a = put_opt(a, "source"@, d.business.source);
    let a = put_opt(a, "app_id"@, d.business.app_id);
    let a = put_opt(a, "agent_id"@, d.business.agent_id);
    let a = put_opt(a, "session_id"@, d.business.session_id);
    let a = put_opt(a, "collection_uuid"@, d.business.collection_uuid);
    let a = put_opt(a, "collection_type"@, d.business.collection_type);
    put(
        a,
        "archived"@,
        if d.business.archived == Some(true) {
            "true"@
        } else {
            "false"@
        },
    )
}

fn add_value(s: &mut Segment, name: &str, value: IndexValue)
    ensures
        segment_view(final(s)@) == segment_view(old(s)@).push((name@, value_view(value))),
{
    let ghost before = s@;
    let ghost added = value_view(value);
    s.push((owned(name), value));
    proof {
        assert(segment_view(s@) =~= segment_view(before).push((name@, added)));
    }
}

fn add_text(s: &mut Segment, name: &str, text: &str)
    ensures
        segment_view(final(s)@) == put(segment_view(old(s)@), name@, text@),
{
    add_value(s, name, IndexValue::Text(owned(text)));
}

/// Adds a value where it is there and not blank.
fn add_optional_text(s: &mut Segment, name: &str, text: &Option<String>)
    ensures
        segment_view(final(s)@) == put_opt(segment_view(old(s)@), name@, opt_view(*text)),
{
    if let Some(t) = text {
        let short = trim(t.as_str());
        if !is_empty(short.as_str()) {
            add_text(s, name, short.as_str());
        }
    }
}

fn add_fragments(s: &mut Segment, list: &Vec<String>)
    ensures
        segment_view(final(s)@) == put_fragments(segment_view(old(s)@), views(list@)),
{
    let ghost first = segment_view(s@);
    let ghost all = views(list@).map_values(
        |f: Seq<char>| ("numeric_fragments"@, ValueView::Text(f)),
    );
    let mut i: usize = 0;
    proof {
        assert(first =~= first + all.take(0));
    }
    while i < list.len()
        invariant
            i <= list@.len(),
            all == views(list@).map_values(
                |f: Seq<char>| ("numeric_fragments"@, ValueView::Text(f)),
            ),
            segment_view(s@) == first + all.take(i as int),
        decreases list@.len() - i,
    {
        add_text(s, "numeric_fragments", list[i].as_str());
        proof {
            assert(all.take(i + 1) =~= all.take(i as int).push(all[i as int]));
            assert(segment_view(s@) =~= first + all.take(i + 1));
        }
        i = i + 1;
    }
    proof {
        assert(all.take(i as int) =~= all);
    }
}

/// The named values of one text of a document.
pub fn document_to_segment(document: &SearchDocument, content_field: &SearchContentField) -> (s:
    Segment)
    ensures
        segment_view(s@) == segment_of(document@, field_view(*content_field)),
        plain_json(document@.metadata, NESTING_LIMIT as nat) ==> reads_as(
            json_text(document@.metadata),
            document@.metadata,
        ),
{
    let mut s: Segment = Vec::new();
    proof {
        reveal_strlit("");
        assert(""@ =~= Seq::empty());
        assert(segment_view(s@) =~= Seq::empty());
    }
    add_text(&mut s, "index_version", SEARCH_INDEX_VERSION);
    add_text(&mut s, "doc_id", document.doc_id.as_str());
    add_text(&mut s, "kind", document.kind.as_str());
    add_text(&mut s, "entity_id", document.entity_id.as_str());
    match &document.parent_id {
        Some(p) => {
            add_text(&mut s, "parent_id", p.as_str());
            let key = parent_key(document.kind, p.as_str());
            add_text(&mut s, "parent_key", key.as_str());
        },
        None => {
            add_text(&mut s, "parent_id", "");
            add_text(&mut s, "parent_key", "");
        },
    }
    add_text(&mut s, "title", document.title.as_str());
    add_text(&mut s, "body", document.body.as_str());
    let metadata = write_json(&document.metadata);
    add_text(&mut s, "metadata", metadata.as_str());
    add_text(&mut s, "content_field", content_field.field.as_str());
    add_text(&mut s, "content", content_field.value.as_str());
    let fragments = numeric_search_fragments(
        document.title.as_str(),
        document.body.as_str(),
        content_field.value.as_str(),
    );
    add_fragments(&mut s, &fragments);
    let created: i64 = match document.business.created_at_ms {
        Some(at) => at,
        None => document.created_at_ms,
    };
    let updated: i64 = match document.business.updated_at_ms {
        Some(at) => at,
        None => created,
    };
    add_value(&mut s, "created_at_ms", IndexValue::Number(created));
    add_value(&mut s, "updated_at_ms", IndexValue::Number(updated));
    add_optional_text(&mut s, "status", &document.business.status);
    add_optional_text(&mut s, "datatype", &document.business.datatype);
    add_optional_text(&mut s, "category", &document.business.category);
    add_optional_text(&mut s, "source", &document.business.source);
    add_optional_text(&mut s, "app_id", &document.business.app_id);
    add_optional_text(&mut s, "agent_id", &document.business.agent_id);
    add_optional_text(&mut s, "session_id", &document.business.session_id);
    add_optional_text(&mut s, "collection_uuid", &document.business.collection_uuid);
    add_optional_text(&mut s, "collection_type", &document.business.collection_type);
    let archived = match document.business.archived {
        Some(b) => b,
        None => false,
    };
    add_text(&mut s, "archived", if archived { "true" } else { "false" });
    s
}

/// The texts of a document: its own, else its title and body, else an empty one.
pub open spec fn indexed_fields(d: DocumentView) -> Seq<(Seq<char>, Seq<char>)> {
    if d.content_fields.len() > 0 {
        d.content_fields
    } else {
        let two = with_field(with_field(Seq::empty(), "title"@, d.title), "body"@, d.body);
        if two.len() > 0 {
            two
        } else {
            seq![("content"@, Seq::empty())]
        }
    }
}

/// The texts of a document: its own, else its title and body, else an empty one.
pub fn document_content_fields(document: &SearchDocument) -> (out: Vec<SearchContentField>)
    ensures
        field_views(out@) == indexed_fields(document@),
        out@.len() > 0,
{
    let mut out: Vec<SearchContentField> = Vec::new();
    let mut i: usize = 0;
    let ghost all = field_views(document.content_fields@);
    proof {
        assert(field_views(out@) =~= all.take(0));
    }
    while i < document.content_fields.len()
        invariant
            i <= document.content_fields@.len(),
            all == field_views(document.content_fields@),
            field_views(out@) == all.take(i as int),
        decreases document.content_fields@.len() - i,
    {
        let f = &document.content_fields[i];
        let ghost before = out@;
        let new = SearchContentField { field: f.field.clone(), value: f.value.clone() };
        let ghost added = field_view(new);
        out.push(new);
        proof {
            assert(field_views(out@) =~= field_views(before).push(added));
            assert(all.take(i + 1) =~= all.take(i as int).push(all[i as int]));
        }
        i = i + 1;
    }
    proof {
        assert(all.take(i as int) =~= all);
        assert(field_views(out@).len() == out@.len());
    }
    if out.len() == 0 {
        proof {
            assert(field_views(out@) =~= Seq::empty());
        }
        push_content_field(&mut out, "title", document.title.as_str());
        push_content_field(&mut out, "body", document.body.as_str());
        proof {
            assert(field_views(out@).len() == out@.len());
        }
        if out.len() == 0 {
            let new = SearchContentField::new("content", "");
            let ghost added = field_view(new);
            out.push(new);
            proof {
                reveal_strlit("");
                assert(""@ =~= Seq::empty());
                assert(field_views(out@) =~= seq![added]);
            }
        }
    }
    out
}

/// Whether lists of named values are those of the texts of a document.
pub open spec fn segments_of(list: Seq<Segment>, d: DocumentView) -> bool {
    let fields = indexed_fields(d);
    &&& list.len() == fields.len()
    &&& forall|k: int|
        0 <= k < list.len() ==> segment_view((#[trigger] list[k])@) == segment_of(d, fields[k])
}

/// The named values of each text of a document.
pub fn document_to_segments(document: &SearchDocument) -> (out: Vec<Segment>)
    ensures
        segments_of(out@, document@),
        out@.len() > 0,
{
    let fields = document_content_fields(document);
    let mut out: Vec<Segment> = Vec::new();
    let mut i: usize = 0;
    while i < fields.len()
        invariant
            i <= fields@.len(),
            out@.len() == i,
            field_views(fields@) == indexed_fields(document@),
            forall|k: int|
                0 <= k < i ==> segment_view((#[trigger] out@[k])@) == segment_of(
                    document@,
                    field_views(fields@)[k],
                ),
        decreases fields@.len() - i,
    {
        out.push(document_to_segment(document, &fields[i]));
        i = i + 1;
    }
    proof {
        assert(field_views(fields@).len() == fields@.len());
    }
    out
}

/// Every document has at least one list of named values, so that it can be found.
pub proof fn law_every_document_is_indexed(d: DocumentView)
    ensures
        indexed_fields(d).len() > 0,
{
}

} // verus!
