//! From the hits of the index to the results of a search.
use super::documents::{kind_name, kind_of, law_kind_name, DocumentView, SearchEntityKind};
use super::fields::{field_name, is_empty, normalize_search_field_name};
use super::matching::{
    document_matches_filter_group, field_number, field_text, group_passes, value_at, value_number,
    value_text, NumberFact,
};
use super::query::{
    business_field_of, business_search_field, normalized_query_terms, query_terms, SearchQuery,
};
use super::segments::{
    numeric_fragments, or_empty, parent_key_of, put, put_fragments, put_opt, segment_of,
    segment_view, Segment, ValueView,
};
use crate::json::{json_read, json_text, opt_view, read_json, reads_as, Json, JsonView};
use crate::letters::{
    bytes_of, capped_bytes, chars_within, find_text, first_place, leading_chars, lowered, to_lower,
};
use crate::storage::triggers::holds_text;
use crate::text::{
    before, cat3, chars_of, contains_text, has_part, owned, same, text_less, text_of, trim, trimmed,
    views,
};
use vstd::prelude::*;

verus! {

/// A hit of the index. The score is a number that orders hits as their scores do.
#[derive(Debug)]
pub struct SearchHit {
    pub score: i32,
    pub doc: Segment,
}

/// Something that was found.
#[derive(Debug)]
pub struct SearchResult {
    pub doc_id: String,
    pub kind: SearchEntityKind,
    pub entity_id: String,
    pub parent_id: Option<String>,
    pub title: String,
    pub field: String,
    pub snippet: String,
    pub score: i32,
    pub created_at_ms: i64,
    pub metadata: Json,
}

/// Something that was found, over character sequences.
pub struct ResultView {
    pub doc_id: Seq<char>,
    pub kind: SearchEntityKind,
    pub entity_id: Seq<char>,
    pub parent_id: Option<Seq<char>>,
    pub title: Seq<char>,
    pub field: Seq<char>,
    pub snippet: Seq<char>,
    pub score: i32,
    pub created_at_ms: i64,
    pub metadata: JsonView,
}

impl View for SearchResult {
    type V = ResultView;

    open spec fn view(&self) -> ResultView {
        ResultView {
            doc_id: self.doc_id@,
            kind: self.kind,
            entity_id: self.entity_id@,
            parent_id: opt_view(self.parent_id),
            title: self.title@,
            field: self.field@,
            snippet: self.snippet@,
            score: self.score,
            created_at_ms: self.created_at_ms,
            metadata: self.metadata@,
        }
    }
}

pub open spec fn result_views(list: Seq<SearchResult>) -> Seq<ResultView> {
    list.map_values(|r: SearchResult| r@)
}

/// Whether some term occurs in a text.
pub open spec fn any_term(terms: Seq<Seq<char>>, text: Seq<char>) -> bool {
    exists|i: int| 0 <= i < terms.len() && has_part(text, #[trigger] terms[i])
}

fn holds_any_term(terms: &Vec<String>, text: &str) -> (r: bool)
    ensures
        r == any_term(views(terms@), text@),
{
    let mut i: usize = 0;
    while i < terms.len()
        invariant
            i <= terms@.len(),
            forall|k: int| 0 <= k < i ==> !has_part(text@, #[trigger] views(terms@)[k]),
        decreases terms@.len() - i,
    {
        if contains_text(text, terms[i].as_str()) {
            assert(has_part(text@, views(terms@)[i as int]));
            return true;
        }
        i = i + 1;
    }
    false
}

/// The first term that occurs in a text, as the place where it does.
pub open spec fn first_term_place(terms: Seq<Seq<char>>, text: Seq<char>) -> Option<nat>
    decreases terms.len(),
{
    if terms.len() == 0 {
        None
    } else {
        match first_place(text, terms[0]) {
            Some(at) => Some(at),
            None => first_term_place(terms.drop_first(), text),
        }
    }
}

pub open spec fn terms_not_empty(terms: Seq<Seq<char>>) -> bool {
    forall|i: int| 0 <= i < terms.len() ==> (#[trigger] terms[i]).len() > 0
}

fn find_first_term(terms: &Vec<String>, text: &Vec<char>) -> (out: Option<usize>)
    requires
        terms_not_empty(views(terms@)),
    ensures
        match out {
            Some(at) => first_term_place(views(terms@), text@) == Some(at as nat) && at
                <= text@.len(),
            None => first_term_place(views(terms@), text@) is None,
        },
{
    let ghost all = views(terms@);
    let mut i: usize = 0;
    proof {
        assert(all.skip(0) =~= all);
    }
    while i < terms.len()
        invariant
            i <= terms@.len(),
            all == views(terms@),
            terms_not_empty(all),
            first_term_place(all, text@) == first_term_place(all.skip(i as int), text@),
        decreases terms@.len() - i,
    {
        let part = chars_of(terms[i].as_str());
        proof {
            assert(all[i as int].len() > 0);
            assert(all.skip(i as int)[0] == part@);
            assert(all.skip(i as int).drop_first() =~= all.skip(i + 1));
        }
        if let Some(at) = find_text(text, &part) {
            return Some(at);
        }
        i = i + 1;
    }
    None
}

proof fn lemma_terms_not_empty(s: Seq<char>)
    ensures
        terms_not_empty(query_terms(s, 1)),
{
    lemma_closed_not_empty(s);
}

proof fn lemma_closed_not_empty(s: Seq<char>)
    ensures
        terms_not_empty(super::query::closed_terms(s, 1)),
    decreases s.len(),
{
    if s.len() > 0 {
        lemma_closed_not_empty(s.drop_last());
    }
}

/// A part of a text that starts and ends at bytes, moved back to where characters start.
pub open spec fn byte_slice(s: Seq<char>, start: nat, end: nat) -> Seq<char> {
    let from = chars_within(s, start);
    let to = chars_within(s, end);
    s.subrange(from as int, if to < from { from as int } else { to as int })
}

/// A part of a text that starts and ends at bytes, moved back to where characters start.
pub fn slice_on_char_boundaries(source: &str, start: usize, end: usize) -> (out: String)
    ensures
        out@ == byte_slice(source@, start as nat, end as nat),
{
    let chars = chars_of(source);
    let from: usize = leading_chars(&chars, start);
    let to: usize = leading_chars(&chars, end);
    if to < from {
        text_of(&chars, from, from)
    } else {
        text_of(&chars, from, to)
    }
}

/// Where a snippet starts: 80 bytes before the first match, or at the start.
pub open spec fn snippet_start(terms: Seq<Seq<char>>, text: Seq<char>) -> nat {
    match first_term_place(terms, lowered(text)) {
        Some(at) => {
            let bytes = capped_bytes(lowered(text).take(at as int), usize::MAX as nat);
            if bytes < 80 {
                0
            } else {
                (bytes - 80) as nat
            }
        },
        None => 0,
    }
}

pub open spec fn snippet_end(start: nat) -> nat {
    if start + 180 > usize::MAX {
        usize::MAX as nat
    } else {
        start + 180
    }
}

/// The text that a snippet is cut from: the title where a word of the query is in it, or
/// where none is in the body and there is a title; else the body.
pub open spec fn snippet_source(terms: Seq<Seq<char>>, title: Seq<char>, body: Seq<char>) -> Seq<
    char,
> {
    let in_title = any_term(terms, lowered(title));
    let in_body = any_term(terms, lowered(body));
    trimmed(
        if in_title || (!in_body && trimmed(title).len() > 0) {
            title
        } else {
            body
        },
    )
}

/// What is shown of a result.
pub open spec fn snippet_of(query: Seq<char>, title: Seq<char>, body: Seq<char>) -> Seq<char> {
    let terms = query_terms(query, 1);
    let source = snippet_source(terms, title, body);
    if source.len() == 0 {
        Seq::empty()
    } else {
        let start = snippet_start(terms, source);
        trimmed(byte_slice(source, start, snippet_end(start)))
    }
}

/// What is shown of a result.
pub fn make_snippet(query: &str, title: &str, body: &str) -> (out: String)
    ensures
        out@ == snippet_of(query@, title@, body@),
{
    let terms = normalized_query_terms(query, 1);
    let small_title = to_lower(title);
    let small_body = to_lower(body);
    let in_title = holds_any_term(&terms, small_title.as_str());
    let in_body = holds_any_term(&terms, small_body.as_str());
    let short_title = trim(title);
    let source = if in_title || (!in_body && !is_empty(short_title.as_str())) {
        short_title
    } else {
        trim(body)
    };
    if is_empty(source.as_str()) {
        proof {
            assert(source@ =~= Seq::empty());
        }
        return source;
    }
    let small = to_lower(source.as_str());
    let small_chars = chars_of(small.as_str());
    proof {
        lemma_terms_not_empty(query@);
    }
    let start: usize = match find_first_term(&terms, &small_chars) {
        Some(at) => {
            let bytes: usize = bytes_of(&small_chars, at);
            if bytes < 80 {
                0
            } else {
                bytes - 80
            }
        },
        None => 0,
    };
    let end: usize = if start > usize::MAX - 180 { usize::MAX } else { start + 180 };
    let part = slice_on_char_boundaries(source.as_str(), start, end);
    trim(part.as_str())
}

/// The first of the facts that were asked for in which a word of the query occurs.
pub open spec fn business_hit(
    doc: Seq<(Seq<char>, ValueView)>,
    terms: Seq<Seq<char>>,
    names: Seq<Seq<char>>,
) -> Option<Seq<char>>
    decreases names.len(),
{
    if names.len() == 0 {
        None
    } else {
        let rest = business_hit(doc, terms, names.drop_first());
        match business_field_of(names[0]) {
            Some(f) => {
                let value = lowered(value_text(doc, f));
                if value.len() > 0 && any_term(terms, value) {
                    Some(field_name(names[0]))
                } else {
                    rest
                }
            },
            None => rest,
        }
    }
}

/// The field in which a hit was found.
pub open spec fn result_field(
    doc: Seq<(Seq<char>, ValueView)>,
    query: Seq<char>,
    names: Seq<Seq<char>>,
) -> Seq<char> {
    match business_hit(doc, query_terms(query, 1), names) {
        Some(f) => f,
        None => {
            let f = trimmed(value_text(doc, "content_field"@));
            if f.len() == 0 {
                "content"@
            } else {
                f
            }
        },
    }
}

/// The field in which a hit was found.
pub fn infer_result_field(doc: &Segment, query: &str, business_fields: &Vec<String>) -> (out: String)
    ensures
        out@ == result_field(segment_view(doc@), query@, views(business_fields@)),
{
    let terms = normalized_query_terms(query, 1);
    let ghost names = views(business_fields@);
    let ghost d = segment_view(doc@);
    let ghost t = query_terms(query@, 1);
    let mut i: usize = 0;
    proof {
        assert(names.skip(0) =~= names);
    }
    while i < business_fields.len()
        invariant
            i <= business_fields@.len(),
            names == views(business_fields@),
            d == segment_view(doc@),
            t == query_terms(query@, 1),
            views(terms@) == t,
            business_hit(d, t, names) == business_hit(d, t, names.skip(i as int)),
        decreases business_fields@.len() - i,
    {
        proof {
            assert(names.skip(i as int)[0] == business_fields@[i as int]@);
            assert(names.skip(i as int).drop_first() =~= names.skip(i + 1));
        }
        if let Some(f) = business_search_field(business_fields[i].as_str()) {
            let raw = field_text(doc, f);
            let value = to_lower(raw.as_str());
            if !is_empty(value.as_str()) && holds_any_term(&terms, value.as_str()) {
                return normalize_search_field_name(business_fields[i].as_str());
            }
        }
        i = i + 1;
    }
    let raw = field_text(doc, "content_field");
    let field = trim(raw.as_str());
    if is_empty(field.as_str()) {
        owned("content")
    } else {
        field
    }
}

/// What is shown of a hit: the fact in which it was found, else a part of its text.
pub open spec fn result_snippet(
    doc: Seq<(Seq<char>, ValueView)>,
    query: Seq<char>,
    field: Seq<char>,
) -> Seq<char> {
    let plain = snippet_of(query, value_text(doc, "title"@), value_text(doc, "content"@));
    match business_field_of(field) {
        Some(f) => if value_text(doc, f).len() > 0 {
            field + ": "@ + value_text(doc, f)
        } else {
            plain
        },
        None => plain,
    }
}

fn make_result_snippet(doc: &Segment, query: &str, title: &str, body: &str, field: &str) -> (out:
    String)
    requires
        title@ == value_text(segment_view(doc@), "title"@),
        body@ == value_text(segment_view(doc@), "content"@),
    ensures
        out@ == result_snippet(segment_view(doc@), query@, field@),
{
    if let Some(f) = business_search_field(field) {
        let value = field_text(doc, f);
        if !is_empty(value.as_str()) {
            return cat3(field, ": ", value.as_str());
        }
    }
    make_snippet(query, title, body)
}

/// The result of a hit; none where its kind is unknown.
pub open spec fn result_of(
    doc: Seq<(Seq<char>, ValueView)>,
    score: i32,
    query: Seq<char>,
    names: Seq<Seq<char>>,
) -> Option<ResultView> {
    match kind_of(value_text(doc, "kind"@)) {
        Some(kind) => {
            let field = result_field(doc, query, names);
            let parent = value_text(doc, "parent_id"@);
            Some(
                ResultView {
                    doc_id: value_text(doc, "doc_id"@),
                    kind,
                    entity_id: value_text(doc, "entity_id"@),
                    parent_id: if parent.len() == 0 {
                        None
                    } else {
                        Some(parent)
                    },
                    title: value_text(doc, "title"@),
                    field,
                    snippet: result_snippet(doc, query, field),
                    score,
                    created_at_ms: match value_number(doc, "created_at_ms"@) {
                        Some(at) => at,
                        None => 0,
                    },
                    metadata: match json_read(value_text(doc, "metadata"@)) {
                        Ok(j) => j,
                        Err(_) => JsonView::Null,
                    },
                },
            )
        },
        None => None,
    }
}

/// The first value under a name is where no earlier one has that name.
proof fn lemma_value_at(doc: Seq<(Seq<char>, ValueView)>, name: Seq<char>, at: int)
    requires
        0 <= at < doc.len(),
        doc[at].0 == name,
        forall|k: int| 0 <= k < at ==> (#[trigger] doc[k]).0 != name,
    ensures
        value_at(doc, name) == Some(doc[at].1),
    decreases doc.len(),
{
    if at > 0 {
        assert(doc[0].0 != name);
        let rest = doc.drop_first();
        assert forall|k: int| 0 <= k < at - 1 implies (#[trigger] rest[k]).0 != name by {
            assert(rest[k] == doc[k + 1]);
        }
        lemma_value_at(rest, name, at - 1);
    }
}

/// Whether a list begins with another.
spec fn begins(head: Seq<(Seq<char>, ValueView)>, all: Seq<(Seq<char>, ValueView)>) -> bool {
    head.len() <= all.len() && forall|k: int| 0 <= k < head.len() ==> all[k] == head[k]
}

/// What the index gives back of a document is what was put into it.
#[verifier::rlimit(60)]
#[verifier::spinoff_prover]
pub proof fn law_found_as_indexed(
    d: DocumentView,
    f: (Seq<char>, Seq<char>),
    score: i32,
    query: Seq<char>,
    names: Seq<Seq<char>>,
)
    requires
        reads_as(json_text(d.metadata), d.metadata),
    ensures
        result_of(segment_of(d, f), score, query, names) is Some,
        ({
            let r = result_of(segment_of(d, f), score, query, names)->0;
            &&& r.doc_id == d.doc_id
            &&& r.kind == d.kind
            &&& r.entity_id == d.entity_id
            &&& r.parent_id == if or_empty(d.parent_id).len() == 0 {
                None
            } else {
                d.parent_id
            }
            &&& r.title == d.title
            &&& r.score == score
            &&& r.created_at_ms == match d.business.created_at_ms {
                Some(at) => at,
                None => d.created_at_ms,
            }
            &&& r.metadata == d.metadata
        }),
{
    let all = segment_of(d, f);
    let created = match d.business.created_at_ms {
        Some(at) => at,
        None => d.created_at_ms,
    };
    let updated = match d.business.updated_at_ms {
        Some(at) => at,
        None => created,
    };
    let parent_key = match d.parent_id {
        Some(p) => parent_key_of(d.kind, p),
        None => Seq::empty(),
    };
    let a = put(Seq::empty(), "index_version"@, "4"@);
    let a = put(a, "doc_id"@, d.doc_id);
    let a = put(a, "kind"@, kind_name(d.kind));
    let a = put(a, "entity_id"@, d.entity_id);
    let a = put(a, "parent_id"@, or_empty(d.parent_id));
    let a = put(a, "parent_key"@, parent_key);
    let a = put(a, "title"@, d.title);
    let a = put(a, "body"@, d.body);
    let a = put(a, "metadata"@, json_text(d.metadata));
    let a = put(a, "content_field"@, f.0);
    let head = put(a, "content"@, f.1);
    let texts = numeric_fragments(d.title, d.body, f.1);
    let with_texts = put_fragments(head, texts);
    let start = with_texts.push(("created_at_ms"@, ValueView::Number(created)));
    let b = start.push(("updated_at_ms"@, ValueView::Number(updated)));
    assert(begins(start, b));
    let c = put_opt(b, "status"@, d.business.status);
    assert(begins(start, c));
    let c = put_opt(c, "datatype"@, d.business.datatype);
    assert(begins(start, c));
    let c = put_opt(c, "category"@, d.business.category);
    assert(begins(start, c));
    let c = put_opt(c, "source"@, d.business.source);
    assert(begins(start, c));
    let c = put_opt(c, "app_id"@, d.business.app_id);
    assert(begins(start, c));
    let c = put_opt(c, "agent_id"@, d.business.agent_id);
    assert(begins(start, c));
    let c = put_opt(c, "session_id"@, d.business.session_id);
    assert(begins(start, c));
    let c = put_opt(c, "collection_uuid"@, d.business.collection_uuid);
    assert(begins(start, c));
    let c = put_opt(c, "collection_type"@, d.business.collection_type);
    assert(begins(start, c));
    assert(begins(start, all));
    assert(head.len() == 11);
    reveal_strlit("index_version");
    reveal_strlit("doc_id");
    reveal_strlit("kind");
    reveal_strlit("entity_id");
    reveal_strlit("parent_id");
    reveal_strlit("parent_key");
    reveal_strlit("title");
    reveal_strlit("body");
    reveal_strlit("metadata");
    reveal_strlit("content_field");
    reveal_strlit("content");
    reveal_strlit("numeric_fragments");
    reveal_strlit("created_at_ms");
    assert("index_version"@.len() == 13 && "doc_id"@.len() == 6 && "kind"@.len() == 4);
    assert("entity_id"@.len() == 9 && "parent_id"@.len() == 9 && "parent_key"@.len() == 10);
    assert("title"@.len() == 5 && "body"@.len() == 4 && "metadata"@.len() == 8);
    assert("content_field"@.len() == 13 && "content"@.len() == 7);
    assert("numeric_fragments"@.len() == 17 && "created_at_ms"@.len() == 13);
    assert("index_version"@[0] == 'i' && "entity_id"@[0] == 'e' && "parent_id"@[0] == 'p');
    assert("content_field"@[1] == 'o' && "created_at_ms"@[1] == 'r' && "created_at_ms"@[0] == 'c');
    assert(all[0].0 == "index_version"@ && all[1] == ("doc_id"@, ValueView::Text(d.doc_id)));
    assert(all[2] == ("kind"@, ValueView::Text(kind_name(d.kind))));
    assert(all[3] == ("entity_id"@, ValueView::Text(d.entity_id)));
    assert(all[4] == ("parent_id"@, ValueView::Text(or_empty(d.parent_id))));
    assert(all[5].0 == "parent_key"@ && all[6] == ("title"@, ValueView::Text(d.title)));
    assert(all[7].0 == "body"@);
    assert(all[8] == ("metadata"@, ValueView::Text(json_text(d.metadata))));
    assert(all[9].0 == "content_field"@ && all[10].0 == "content"@);
    lemma_value_at(all, "doc_id"@, 1);
    lemma_value_at(all, "kind"@, 2);
    lemma_value_at(all, "entity_id"@, 3);
    lemma_value_at(all, "parent_id"@, 4);
    lemma_value_at(all, "title"@, 6);
    lemma_value_at(all, "metadata"@, 8);
    let at = with_texts.len() as int;
    assert forall|k: int| 0 <= k < at implies (#[trigger] all[k]).0 != "created_at_ms"@ by {
        assert(all[k] == with_texts[k]);
        if k >= 11 {
            assert(all[k].0 == "numeric_fragments"@);
        }
    }
    assert(all[at] == start[at]);
    lemma_value_at(all, "created_at_ms"@, at);
    law_kind_name(d.kind);
}

pub open spec fn result_opt_view(r: Option<SearchResult>) -> Option<ResultView> {
    match r {
        Some(r) => Some(r@),
        None => None,
    }
}

/// The result of a hit; none where its kind is unknown.
pub fn document_to_result(doc: &Segment, score: i32, query: &str, business_fields: &Vec<String>) -> (out:
    Option<SearchResult>)
    ensures
        result_opt_view(out) == result_of(
            segment_view(doc@),
            score,
            query@,
            views(business_fields@),
        ),
{
    let kind_text = field_text(doc, "kind");
    let kind = match SearchEntityKind::parse_name(kind_text.as_str()) {
        Ok(kind) => kind,
        Err(_) => return None,
    };
    let parent = field_text(doc, "parent_id");
    let title = field_text(doc, "title");
    let body = field_text(doc, "content");
    let field = infer_result_field(doc, query, business_fields);
    let snippet = make_result_snippet(
        doc,
        query,
        title.as_str(),
        body.as_str(),
        field.as_str(),
    );
    let metadata_text = field_text(doc, "metadata");
    let metadata = match read_json(metadata_text.as_str()) {
        Ok(j) => j,
        Err(_) => Json::Null,
    };
    let created_at_ms: i64 = match field_number(doc, "created_at_ms") {
        Some(at) => at,
        None => 0,
    };
    Some(
        SearchResult {
            doc_id: field_text(doc, "doc_id"),
            kind,
            entity_id: field_text(doc, "entity_id"),
            parent_id: if is_empty(parent.as_str()) {
                None
            } else {
                Some(parent)
            },
            title,
            field,
            snippet,
            score,
            created_at_ms,
            metadata,
        },
    )
}

/// The names that are not blank, in their normal form.
pub open spec fn wanted_names(names: Seq<Seq<char>>) -> Seq<Seq<char>>
    decreases names.len(),
{
    if names.len() == 0 {
        Seq::empty()
    } else {
        let rest = wanted_names(names.drop_last());
        let name = field_name(names.last());
        if name.len() == 0 {
            rest
        } else {
            rest.push(name)
        }
    }
}

/// The names that are not blank, in their normal form.
pub fn normalized_filter_strings(values: &Vec<String>) -> (out: Vec<String>)
    ensures
        views(out@) == wanted_names(views(values@)),
{
    let ghost all = views(values@);
    let mut out: Vec<String> = Vec::new();
    let mut i: usize = 0;
    proof {
        assert(all.take(0) =~= Seq::empty());
        assert(views(out@) =~= Seq::empty());
    }
    while i < values.len()
        invariant
            i <= values@.len(),
            all == views(values@),
            views(out@) == wanted_names(all.take(i as int)),
        decreases values@.len() - i,
    {
        proof {
            assert(all.take(i + 1).drop_last() =~= all.take(i as int));
            assert(all.take(i + 1).last() == values@[i as int]@);
        }
        let name = normalize_search_field_name(values[i].as_str());
        if !is_empty(name.as_str()) {
            let ghost added = name@;
            let ghost before = out@;
            out.push(name);
            proof {
                assert(views(out@) =~= views(before).push(added));
            }
        }
        i = i + 1;
    }
    proof {
        assert(all.take(i as int) =~= all);
    }
    out
}

/// The result of a hit that a query lets through.
pub open spec fn accepted(
    q: SearchQuery,
    text: Seq<char>,
    facts: Seq<NumberFact>,
    doc: Seq<(Seq<char>, ValueView)>,
    score: i32,
) -> Option<ResultView> {
    let names = wanted_names(views(q.fields@));
    if q.filter matches Some(g) && !group_passes(facts, doc, g) {
        None
    } else {
        match result_of(doc, score, text, views(q.business_fields@)) {
            Some(r) => if q.kinds@.len() > 0 && !q.kinds@.contains(r.kind) {
                None
            } else if names.len() > 0 && !names.contains(field_name(r.field))
                && business_field_of(r.field) is None {
                None
            } else {
                Some(r)
            },
            None => None,
        }
    }
}

fn holds_kind(kinds: &Vec<SearchEntityKind>, kind: SearchEntityKind) -> (r: bool)
    ensures
        r == kinds@.contains(kind),
{
    let mut i: usize = 0;
    while i < kinds.len()
        invariant
            i <= kinds@.len(),
            forall|k: int| 0 <= k < i ==> #[trigger] kinds@[k] != kind,
        decreases kinds@.len() - i,
    {
        if kinds[i] == kind {
            return true;
        }
        i = i + 1;
    }
    false
}

fn accept(
    query: &SearchQuery,
    text: &str,
    names: &Vec<String>,
    facts: &Vec<NumberFact>,
    hit: &SearchHit,
) -> (out: Option<SearchResult>)
    requires
        views(names@) == wanted_names(views(query.fields@)),
    ensures
        result_opt_view(out) == accepted(
            *query,
            text@,
            facts@,
            segment_view(hit.doc@),
            hit.score,
        ),
{
    if let Some(g) = &query.filter {
        if !document_matches_filter_group(facts, &hit.doc, g) {
            return None;
        }
    }
    let r = match document_to_result(&hit.doc, hit.score, text, &query.business_fields) {
        Some(r) => r,
        None => return None,
    };
    if query.kinds.len() > 0 && !holds_kind(&query.kinds, r.kind) {
        return None;
    }
    proof {
        assert(views(names@).len() == names@.len());
    }
    if names.len() > 0 {
        let name = normalize_search_field_name(r.field.as_str());
        if !holds_text(names, name.as_str()) && business_search_field(r.field.as_str()).is_none() {
            return None;
        }
    }
    Some(r)
}

/// Where the result of a document stands.
pub open spec fn doc_place(list: Seq<ResultView>, doc_id: Seq<char>) -> int {
    crate::table::position_of(list, |r: ResultView| r.doc_id == doc_id)
}

/// Results with one more: a document has one result, the one with the best score, the
/// first where several have it.
pub open spec fn with_result(list: Seq<ResultView>, r: ResultView) -> Seq<ResultView> {
    let at = doc_place(list, r.doc_id);
    if at == list.len() {
        list.push(r)
    } else if list[at].score >= r.score {
        list
    } else {
        list.update(at, r)
    }
}

/// The best result of each document among the hits that a query lets through.
pub open spec fn best_results(
    q: SearchQuery,
    text: Seq<char>,
    facts: Seq<NumberFact>,
    hits: Seq<SearchHit>,
) -> Seq<ResultView>
    decreases hits.len(),
{
    if hits.len() == 0 {
        Seq::empty()
    } else {
        let rest = best_results(q, text, facts, hits.drop_last());
        let hit = hits.last();
        match accepted(q, text, facts, segment_view(hit.doc@), hit.score) {
            Some(r) => with_result(rest, r),
            None => rest,
        }
    }
}

/// Whether a result comes before another: the better score, then the later creation, then
/// the id of the document.
pub open spec fn result_before(a: ResultView, b: ResultView) -> bool {
    a.score > b.score || (a.score == b.score && (a.created_at_ms > b.created_at_ms || (
    a.created_at_ms == b.created_at_ms && text_less(a.doc_id, b.doc_id))))
}

pub open spec fn insert_result(s: Seq<ResultView>, x: ResultView) -> Seq<ResultView>
    decreases s.len(),
{
    if s.len() == 0 || !result_before(x, s.last()) {
        s.push(x)
    } else {
        insert_result(s.drop_last(), x).push(s.last())
    }
}

pub open spec fn sorted_results(s: Seq<ResultView>) -> Seq<ResultView>
    decreases s.len(),
{
    if s.len() == 0 {
        Seq::empty()
    } else {
        insert_result(sorted_results(s.drop_last()), s.last())
    }
}

/// One page of results.
pub open spec fn result_page(s: Seq<ResultView>, limit: nat, offset: nat) -> Seq<ResultView> {
    let from = if offset > s.len() { s.len() } else { offset };
    let to = if from + limit > s.len() { s.len() } else { from + limit };
    s.subrange(from as int, to as int)
}

fn comes_before(a: &SearchResult, b: &SearchResult) -> (r: bool)
    ensures
        r == result_before(a@, b@),
{
    a.score > b.score || (a.score == b.score && (a.created_at_ms > b.created_at_ms || (
    a.created_at_ms == b.created_at_ms && before(a.doc_id.as_str(), b.doc_id.as_str()))))
}

fn put_result(s: &mut Vec<SearchResult>, x: SearchResult)
    ensures
        result_views(final(s)@) == insert_result(result_views(old(s)@), x@),
    decreases old(s)@.len(),
{
    let n: usize = s.len();
    if n == 0 || !comes_before(&x, &s[n - 1]) {
        proof {
            if n > 0 {
                assert(result_views(s@).last() == s@[n - 1]@);
            }
        }
        let ghost added = x@;
        s.push(x);
        proof {
            assert(result_views(s@) =~= result_views(old(s)@).push(added));
        }
    } else {
        let last = s.pop();
        proof {
            assert(result_views(old(s)@).last() == old(s)@[n - 1]@);
            assert(result_views(s@) =~= result_views(old(s)@).drop_last());
        }
        put_result(s, x);
        let ghost inner = s@;
        if let Some(last) = last {
            let ghost added = last@;
            s.push(last);
            proof {
                assert(result_views(s@) =~= result_views(inner).push(added));
            }
        }
    }
}

fn add_result(list: &mut Vec<SearchResult>, r: SearchResult)
    ensures
        result_views(final(list)@) == with_result(result_views(old(list)@), r@),
{
    let ghost all = result_views(list@);
    let ghost hit = |x: ResultView| x.doc_id == r.doc_id@;
    let mut at: usize = 0;
    while at < list.len() && !same(list[at].doc_id.as_str(), r.doc_id.as_str())
        invariant
            at <= list@.len(),
            all == result_views(list@),
            hit == (|x: ResultView| x.doc_id == r.doc_id@),
            forall|k: int| 0 <= k < at ==> !hit(#[trigger] all[k]),
        decreases list@.len() - at,
    {
        at = at + 1;
    }
    proof {
        if at < all.len() {
            assert(all[at as int] == list@[at as int]@);
            assert(hit(all[at as int]));
        }
        crate::table::lemma_position_is(all, hit, at as int);
        assert(doc_place(all, r@.doc_id) == at);
    }
    if at == list.len() {
        let ghost added = r@;
        list.push(r);
        proof {
            assert(result_views(list@) =~= all.push(added));
        }
    } else if list[at].score < r.score {
        let ghost added = r@;
        list.set(at, r);
        proof {
            assert(result_views(list@) =~= all.update(at as int, added));
        }
    }
}

/// The results of a query from the hits of the index, for the words of `text`.
pub fn collect_results(
    query: &SearchQuery,
    text: &str,
    facts: &Vec<NumberFact>,
    hits: &Vec<SearchHit>,
    limit: usize,
    offset: usize,
) -> (out: Vec<SearchResult>)
    ensures
        result_views(out@) == result_page(
            sorted_results(best_results(*query, text@, facts@, hits@)),
            limit as nat,
            offset as nat,
        ),
{
    let names = normalized_filter_strings(&query.fields);
    let mut best: Vec<SearchResult> = Vec::new();
    let mut i: usize = 0;
    proof {
        assert(hits@.take(0) =~= Seq::empty());
        assert(result_views(best@) =~= Seq::empty());
    }
    while i < hits.len()
        invariant
            i <= hits@.len(),
            views(names@) == wanted_names(views(query.fields@)),
            result_views(best@) == best_results(*query, text@, facts@, hits@.take(i as int)),
        decreases hits@.len() - i,
    {
        proof {
            assert(hits@.take(i + 1).drop_last() =~= hits@.take(i as int));
        }
        if let Some(r) = accept(query, text, &names, facts, &hits[i]) {
            add_result(&mut best, r);
        }
        i = i + 1;
    }
    proof {
        assert(hits@.take(i as int) =~= hits@);
    }
    let ghost found = result_views(best@);
    let ghost all = best@;
    let mut sorted: Vec<SearchResult> = Vec::new();
    let mut left = best;
    let total: usize = left.len();
    let mut k: usize = 0;
    proof {
        assert(found.take(0) =~= Seq::empty());
        assert(result_views(sorted@) =~= Seq::empty());
        assert(left@ =~= all.skip(0));
    }
    while k < total
        invariant
            k <= total,
            total == all.len(),
            found == result_views(all),
            left@ == all.skip(k as int),
            result_views(sorted@) == sorted_results(found.take(k as int)),
        decreases total - k,
    {
        let r = left.remove(0);
        proof {
            assert(r == all[k as int]);
            assert(found.take(k + 1).drop_last() =~= found.take(k as int));
            assert(found.take(k + 1).last() == r@);
            assert(left@ =~= all.skip(k + 1));
        }
        put_result(&mut sorted, r);
        k = k + 1;
    }
    proof {
        assert(found.take(k as int) =~= found);
    }
    page_of_results(sorted, limit, offset)
}

fn page_of_results(sorted: Vec<SearchResult>, limit: usize, offset: usize) -> (out: Vec<SearchResult>)
    ensures
        result_views(out@) == result_page(result_views(sorted@), limit as nat, offset as nat),
{
    let ghost all = result_views(sorted@);
    let n: usize = sorted.len();
    let from: usize = if offset > n { n } else { offset };
    let to: usize = if limit > n - from { n } else { from + limit };
    let mut list = sorted;
    let mut rest = list.split_off(from);
    let tail = rest.split_off(to - from);
    proof {
        assert(result_views(rest@) =~= all.subrange(from as int, to as int));
    }
    rest
}

/// Whether no two results are of the same document.
pub open spec fn documents_differ(s: Seq<ResultView>) -> bool {
    forall|i: int, j: int|
        0 <= i < j < s.len() ==> (#[trigger] s[i]).doc_id != (#[trigger] s[j]).doc_id
}

/// Each document is found at most once.
pub proof fn law_documents_found_once(
    q: SearchQuery,
    text: Seq<char>,
    facts: Seq<NumberFact>,
    hits: Seq<SearchHit>,
)
    ensures
        documents_differ(best_results(q, text, facts, hits)),
    decreases hits.len(),
{
    if hits.len() > 0 {
        law_documents_found_once(q, text, facts, hits.drop_last());
        let rest = best_results(q, text, facts, hits.drop_last());
        let hit = hits.last();
        if let Some(r) = accepted(q, text, facts, segment_view(hit.doc@), hit.score) {
            let same_doc = |x: ResultView| x.doc_id == r.doc_id;
            crate::table::lemma_position_of(rest, same_doc);
            let at = doc_place(rest, r.doc_id);
            let now = with_result(rest, r);
            assert forall|i: int, j: int| 0 <= i < j < now.len() implies (
            #[trigger] now[i]).doc_id != (#[trigger] now[j]).doc_id by {
                if j == rest.len() {
                    assert(!same_doc(rest[i]));
                } else {
                    assert(rest[i].doc_id != rest[j].doc_id);
                }
            }
        }
    }
}

pub open spec fn results_sorted(s: Seq<ResultView>) -> bool {
    forall|i: int, j: int|
        0 <= i < j < s.len() ==> !result_before(#[trigger] s[j], #[trigger] s[i])
}

proof fn lemma_result_order(a: ResultView, b: ResultView, c: ResultView)
    ensures
        !(result_before(a, b) && result_before(b, a)),
        !result_before(b, a) && !result_before(c, b) ==> !result_before(c, a),
{
    crate::text::lemma_text_order(a.doc_id, b.doc_id);
    crate::text::lemma_text_order(b.doc_id, c.doc_id);
    crate::text::lemma_text_order(a.doc_id, c.doc_id);
    if text_less(a.doc_id, b.doc_id) && text_less(b.doc_id, c.doc_id) {
        crate::text::lemma_text_order_transitive(a.doc_id, b.doc_id, c.doc_id);
    }
}

proof fn lemma_insert_result(s: Seq<ResultView>, x: ResultView)
    requires
        results_sorted(s),
    ensures
        results_sorted(insert_result(s, x)),
        insert_result(s, x).to_multiset() == s.to_multiset().insert(x),
    decreases s.len(),
{
    broadcast use vstd::seq_lib::group_to_multiset_ensures;

    let out = insert_result(s, x);
    if s.len() == 0 {
    } else if !result_before(x, s.last()) {
        assert forall|i: int, j: int| 0 <= i < j < out.len() implies !result_before(
            #[trigger] out[j],
            #[trigger] out[i],
        ) by {
            if j == s.len() && i < s.len() - 1 {
                assert(!result_before(s[s.len() - 1], s[i]));
                lemma_result_order(s[i], s.last(), x);
            }
        }
    } else {
        let rest = s.drop_last();
        assert(results_sorted(rest)) by {
            assert forall|i: int, j: int| 0 <= i < j < rest.len() implies !result_before(
                #[trigger] rest[j],
                #[trigger] rest[i],
            ) by {
                assert(rest[j] == s[j] && rest[i] == s[i]);
            }
        }
        lemma_insert_result(rest, x);
        let inner = insert_result(rest, x);
        assert(rest.push(s.last()) =~= s);
        assert(out.to_multiset() =~= s.to_multiset().insert(x));
        assert forall|i: int, j: int| 0 <= i < j < out.len() implies !result_before(
            #[trigger] out[j],
            #[trigger] out[i],
        ) by {
            if j == out.len() - 1 {
                assert(inner.to_multiset().contains(inner[i]));
                if inner[i] == x {
                    lemma_result_order(x, s.last(), x);
                } else {
                    assert(rest.to_multiset().contains(inner[i]));
                    assert(rest.contains(inner[i]));
                    let w = choose|w: int| 0 <= w < rest.len() && rest[w] == inner[i];
                    assert(!result_before(s[s.len() - 1], s[w]));
                }
            } else {
                assert(out[j] == inner[j] && out[i] == inner[i]);
            }
        }
    }
}

/// The results come in the order of their scores, then of their creation, then of their
/// ids, and sorting neither drops nor adds any.
pub proof fn law_results_sorted(s: Seq<ResultView>)
    ensures
        results_sorted(sorted_results(s)),
        sorted_results(s).to_multiset() == s.to_multiset(),
    decreases s.len(),
{
    broadcast use vstd::seq_lib::group_to_multiset_ensures;

    if s.len() > 0 {
        law_results_sorted(s.drop_last());
        lemma_insert_result(sorted_results(s.drop_last()), s.last());
        assert(s.drop_last().push(s.last()) =~= s);
    } else {
        assert(sorted_results(s) =~= s);
    }
}

} // verus!
