//! Whether a hit passes a filter.
use super::fields::{field_name, is_empty, normalize_search_field_name};
use super::query::{
    FilterView, SearchFieldFilter, SearchFilterGroup, SearchFilterLogic, SearchFilterOp,
};
use super::segments::{segment_view, value_view, IndexValue, Segment, ValueView};
use crate::json::{int_of, int_text, int_value, json_text, list_view, write_json, Json, JsonView};
use crate::letters::{ascii_lower, lowered, to_ascii_lower, to_lower};
use crate::text::{contains_text, has_part, join, joined, owned, same, trim, trimmed, views};
use vstd::prelude::*;

verus! {

/// The first value under a name.
pub open spec fn value_at(doc: Seq<(Seq<char>, ValueView)>, name: Seq<char>) -> Option<ValueView>
    decreases doc.len(),
{
    if doc.len() == 0 {
        None
    } else if doc[0].0 == name {
        Some(doc[0].1)
    } else {
        value_at(doc.drop_first(), name)
    }
}

/// The text under a name; empty where there is none.
pub open spec fn value_text(doc: Seq<(Seq<char>, ValueView)>, name: Seq<char>) -> Seq<char> {
    match value_at(doc, name) {
        Some(ValueView::Text(s)) => s,
        _ => Seq::empty(),
    }
}

/// The number under a name.
pub open spec fn value_number(doc: Seq<(Seq<char>, ValueView)>, name: Seq<char>) -> Option<i64> {
    match value_at(doc, name) {
        Some(ValueView::Number(n)) => Some(n),
        _ => None,
    }
}

fn find_value<'a>(doc: &'a Segment, name: &str) -> (out: Option<&'a IndexValue>)
    ensures
        match out {
            Some(v) => value_at(segment_view(doc@), name@) == Some(value_view(*v)),
            None => value_at(segment_view(doc@), name@) is None,
        },
{
    let ghost all = segment_view(doc@);
    let mut i: usize = 0;
    proof {
        assert(all.skip(0) =~= all);
    }
    while i < doc.len()
        invariant
            i <= doc@.len(),
            all == segment_view(doc@),
            value_at(all, name@) == value_at(all.skip(i as int), name@),
        decreases doc@.len() - i,
    {
        proof {
            assert(all.skip(i as int)[0] == (doc@[i as int].0@, value_view(doc@[i as int].1)));
            assert(all.skip(i as int).drop_first() =~= all.skip(i + 1));
        }
        if same(doc[i].0.as_str(), name) {
            return Some(&doc[i].1);
        }
        i = i + 1;
    }
    None
}

/// The text under a name; empty where there is none.
pub fn field_text(doc: &Segment, name: &str) -> (out: String)
    ensures
        out@ == value_text(segment_view(doc@), name@),
{
    proof {
        reveal_strlit("");
        assert(""@ =~= Seq::empty());
    }
    match find_value(doc, name) {
        Some(IndexValue::Text(s)) => s.clone(),
        _ => owned(""),
    }
}

/// The number under a name.
pub fn field_number(doc: &Segment, name: &str) -> (out: Option<i64>)
    ensures
        out == value_number(segment_view(doc@), name@),
{
    match find_value(doc, name) {
        Some(IndexValue::Number(n)) => Some(*n),
        _ => None,
    }
}

/// The flag that a word stands for.
pub open spec fn flag_of(text: Seq<char>) -> Option<bool> {
    let s = ascii_lower(trimmed(text));
    if s == "true"@ || s == "1"@ || s == "yes"@ || s == "y"@ || s == "deleted"@ || s
        == "archived"@ {
        Some(true)
    } else if s == "false"@ || s == "0"@ || s == "no"@ || s == "n"@ || s == "active"@ || s
        == "not_deleted"@ || s == "not_archived"@ {
        Some(false)
    } else {
        None
    }
}

/// The flag that a word stands for.
pub fn parse_filter_bool(value: &str) -> (out: Option<bool>)
    ensures
        out == flag_of(value@),
{
    let short = trim(value);
    let small = to_ascii_lower(short.as_str());
    let s = small.as_str();
    if same(s, "true") || same(s, "1") || same(s, "yes") || same(s, "y") || same(s, "deleted")
        || same(s, "archived") {
        Some(true)
    } else if same(s, "false") || same(s, "0") || same(s, "no") || same(s, "n") || same(s, "active")
        || same(s, "not_deleted") || same(s, "not_archived") {
        Some(false)
    } else {
        None
    }
}

pub open spec fn text_values(s: Seq<char>) -> Seq<JsonView> {
    if s.len() == 0 {
        Seq::empty()
    } else {
        seq![JsonView::Text(s)]
    }
}

pub open spec fn number_values(n: Option<i64>) -> Seq<JsonView> {
    match n {
        Some(n) => seq![JsonView::Number(int_text(n as int))],
        None => Seq::empty(),
    }
}

pub open spec fn flag_values(b: Option<bool>) -> Seq<JsonView> {
    match b {
        Some(b) => seq![JsonView::Bool(b)],
        None => Seq::empty(),
    }
}

fn text_filter_value(s: String) -> (out: Vec<Json>)
    ensures
        list_view(out@) == text_values(s@),
{
    let mut out: Vec<Json> = Vec::new();
    if !is_empty(s.as_str()) {
        out.push(Json::Text(s));
    }
    proof {
        assert(list_view(out@) =~= text_values(s@));
    }
    out
}

fn number_filter_value(n: Option<i64>) -> (out: Vec<Json>)
    ensures
        list_view(out@) == number_values(n),
{
    let mut out: Vec<Json> = Vec::new();
    if let Some(n) = n {
        out.push(Json::signed(n));
    }
    proof {
        assert(list_view(out@) =~= number_values(n));
    }
    out
}

fn flag_filter_value(doc: &Segment) -> (out: Vec<Json>)
    ensures
        list_view(out@) == flag_values(flag_of(value_text(segment_view(doc@), "archived"@))),
{
    let text = field_text(doc, "archived");
    let flag = parse_filter_bool(text.as_str());
    let mut out: Vec<Json> = Vec::new();
    if let Some(b) = flag {
        out.push(Json::Bool(b));
    }
    proof {
        assert(list_view(out@) =~= flag_values(flag));
    }
    out
}

/// The values of a hit under the name of a field.
pub open spec fn filter_values(doc: Seq<(Seq<char>, ValueView)>, field: Seq<char>) -> Seq<JsonView> {
    let s = field_name(field);
    if s == "doc_id"@ {
        text_values(value_text(doc, "doc_id"@))
    } else if s == "kind"@ {
        text_values(value_text(doc, "kind"@))
    } else if s == "entity_id"@ || s == "id"@ {
        text_values(value_text(doc, "entity_id"@))
    } else if s == "parent_id"@ || s == "parent_uuid"@ {
        text_values(value_text(doc, "parent_id"@))
    } else if s == "parent_key"@ {
        text_values(value_text(doc, "parent_key"@))
    } else if s == "title"@ {
        text_values(value_text(doc, "title"@))
    } else if s == "body"@ {
        text_values(value_text(doc, "body"@))
    } else if s == "content"@ {
        text_values(value_text(doc, "content"@))
    } else if s == "field"@ || s == "content_field"@ {
        text_values(value_text(doc, "content_field"@))
    } else if s == "metadata"@ {
        text_values(value_text(doc, "metadata"@))
    } else if s == "created_at"@ || s == "created_at_ms"@ {
        number_values(value_number(doc, "created_at_ms"@))
    } else if s == "updated_at"@ || s == "updated_at_ms"@ {
        number_values(value_number(doc, "updated_at_ms"@))
    } else if s == "status"@ {
        text_values(value_text(doc, "status"@))
    } else if s == "datatype"@ || s == "data_type"@ {
        text_values(value_text(doc, "datatype"@))
    } else if s == "category"@ {
        text_values(value_text(doc, "category"@))
    } else if s == "source"@ {
        text_values(value_text(doc, "source"@))
    } else if s == "app_id"@ {
        text_values(value_text(doc, "app_id"@))
    } else if s == "agent_id"@ {
        text_values(value_text(doc, "agent_id"@))
    } else if s == "session_id"@ {
        text_values(value_text(doc, "session_id"@))
    } else if s == "collection_uuid"@ || s == "collection_id"@ {
        text_values(value_text(doc, "collection_uuid"@))
    } else if s == "collection_type"@ {
        text_values(value_text(doc, "collection_type"@))
    } else if s == "archived"@ || s == "deleted"@ {
        flag_values(flag_of(value_text(doc, "archived"@)))
    } else {
        Seq::empty()
    }
}

/// The values of a hit under the name of a field.
pub fn document_filter_values(doc: &Segment, field: &str) -> (out: Vec<Json>)
    ensures
        list_view(out@) == filter_values(segment_view(doc@), field@),
{
    let normal = normalize_search_field_name(field);
    let s = normal.as_str();
    if same(s, "doc_id") {
        text_filter_value(field_text(doc, "doc_id"))
    } else if same(s, "kind") {
        text_filter_value(field_text(doc, "kind"))
    } else if same(s, "entity_id") || same(s, "id") {
        text_filter_value(field_text(doc, "entity_id"))
    } else if same(s, "parent_id") || same(s, "parent_uuid") {
        text_filter_value(field_text(doc, "parent_id"))
    } else if same(s, "parent_key") {
        text_filter_value(field_text(doc, "parent_key"))
    } else if same(s, "title") {
        text_filter_value(field_text(doc, "title"))
    } else if same(s, "body") {
        text_filter_value(field_text(doc, "body"))
    } else if same(s, "content") {
        text_filter_value(field_text(doc, "content"))
    } else if same(s, "field") || same(s, "content_field") {
        text_filter_value(field_text(doc, "content_field"))
    } else if same(s, "metadata") {
        text_filter_value(field_text(doc, "metadata"))
    } else if same(s, "created_at") || same(s, "created_at_ms") {
        number_filter_value(field_number(doc, "created_at_ms"))
    } else if same(s, "updated_at") || same(s, "updated_at_ms") {
        number_filter_value(field_number(doc, "updated_at_ms"))
    } else if same(s, "status") {
        text_filter_value(field_text(doc, "status"))
    } else if same(s, "datatype") || same(s, "data_type") {
        text_filter_value(field_text(doc, "datatype"))
    } else if same(s, "category") {
        text_filter_value(field_text(doc, "category"))
    } else if same(s, "source") {
        text_filter_value(field_text(doc, "source"))
    } else if same(s, "app_id") {
        text_filter_value(field_text(doc, "app_id"))
    } else if same(s, "agent_id") {
        text_filter_value(field_text(doc, "agent_id"))
    } else if same(s, "session_id") {
        text_filter_value(field_text(doc, "session_id"))
    } else if same(s, "collection_uuid") || same(s, "collection_id") {
        text_filter_value(field_text(doc, "collection_uuid"))
    } else if same(s, "collection_type") {
        text_filter_value(field_text(doc, "collection_type"))
    } else if same(s, "archived") || same(s, "deleted") {
        flag_filter_value(doc)
    } else {
        let none: Vec<Json> = Vec::new();
        proof {
            assert(list_view(none@) =~= Seq::empty());
        }
        none
    }
}

/// How two numbers compare.
#[derive(Clone, Copy, Debug, PartialEq, Eq, Structural)]
pub enum NumberOrder {
    Less,
    Equal,
    Greater,
}

/// How two texts compare that both stand for numbers.
#[derive(Debug)]
pub struct NumberFact {
    pub left: String,
    pub right: String,
    /// Whether the numbers are as good as equal.
    pub close: bool,
    /// Which one is larger, where that can be said.
    pub order: Option<NumberOrder>,
}

/// What is known of two texts as numbers.
pub open spec fn fact_for(facts: Seq<NumberFact>, left: Seq<char>, right: Seq<char>) -> Option<
    (bool, Option<NumberOrder>),
>
    decreases facts.len(),
{
    if facts.len() == 0 {
        None
    } else if facts[0].left@ == left && facts[0].right@ == right {
        Some((facts[0].close, facts[0].order))
    } else {
        fact_for(facts.drop_first(), left, right)
    }
}

/// The text of a value that may stand for a number.
pub open spec fn number_text(j: JsonView) -> Option<Seq<char>> {
    match j {
        JsonView::Number(n) => Some(n),
        JsonView::Text(s) => Some(trimmed(s)),
        JsonView::Bool(b) => Some(if b { "1"@ } else { "0"@ }),
        _ => None,
    }
}

/// What is known of two values as numbers.
pub open spec fn numbers(facts: Seq<NumberFact>, left: JsonView, right: JsonView) -> Option<
    (bool, Option<NumberOrder>),
> {
    match (number_text(left), number_text(right)) {
        (Some(a), Some(b)) => fact_for(facts, a, b),
        _ => None,
    }
}

/// The text of a value that may stand for a number.
pub fn json_number_text(j: &Json) -> (out: Option<String>)
    ensures
        crate::json::opt_view(out) == number_text(j@),
{
    match j {
        Json::Number(n) => Some(n.clone()),
        Json::Text(s) => Some(trim(s.as_str())),
        Json::Bool(b) => Some(if *b { owned("1") } else { owned("0") }),
        _ => None,
    }
}

fn find_numbers(facts: &Vec<NumberFact>, left: &Json, right: &Json) -> (out: Option<
    (bool, Option<NumberOrder>),
>)
    ensures
        out == numbers(facts@, left@, right@),
{
    match (json_number_text(left), json_number_text(right)) {
        (Some(a), Some(b)) => {
            let mut i: usize = 0;
            proof {
                assert(facts@.skip(0) =~= facts@);
            }
            while i < facts.len()
                invariant
                    i <= facts@.len(),
                    numbers(facts@, left@, right@) == fact_for(facts@, a@, b@),
                    fact_for(facts@, a@, b@) == fact_for(facts@.skip(i as int), a@, b@),
                decreases facts@.len() - i,
            {
                proof {
                    assert(facts@.skip(i as int)[0] == facts@[i as int]);
                    assert(facts@.skip(i as int).drop_first() =~= facts@.skip(i + 1));
                }
                if same(facts[i].left.as_str(), a.as_str())
                    && same(facts[i].right.as_str(), b.as_str()) {
                    return Some((facts[i].close, facts[i].order));
                }
                i = i + 1;
            }
            None
        },
        _ => None,
    }
}

/// The flag that a value stands for.
pub open spec fn json_flag(j: JsonView) -> Option<bool> {
    match j {
        JsonView::Bool(b) => Some(b),
        JsonView::Text(s) => flag_of(s),
        JsonView::Number(n) => match int_of(n) {
            Some(n) => Some(n != 0),
            None => None,
        },
        _ => None,
    }
}

/// The flag that a value stands for.
pub fn json_as_bool(j: &Json) -> (out: Option<bool>)
    ensures
        out == json_flag(j@),
{
    match j {
        Json::Bool(b) => Some(*b),
        Json::Text(s) => parse_filter_bool(s.as_str()),
        Json::Number(n) => match int_value(n.as_str()) {
            Some(n) => Some(n != 0),
            None => None,
        },
        _ => None,
    }
}

/// The text by which a value is compared.
pub open spec fn match_text(j: JsonView) -> Seq<char>
    decreases j,
{
    match j {
        JsonView::Null => Seq::empty(),
        JsonView::Bool(b) => if b {
            "true"@
        } else {
            "false"@
        },
        JsonView::Number(n) => n,
        JsonView::Text(s) => s,
        JsonView::List(items) => joined(match_texts(items), " "@),
        JsonView::Object(_) => json_text(j),
    }
}

pub open spec fn match_texts(items: Seq<JsonView>) -> Seq<Seq<char>>
    decreases items,
{
    if items.len() == 0 {
        Seq::empty()
    } else {
        match_texts(items.subrange(0, items.len() - 1)).push(match_text(items[items.len() - 1]))
    }
}

/// The text by which a value is compared.
pub fn json_to_match_string(j: &Json) -> (out: String)
    ensures
        out@ == match_text(j@),
    decreases *j,
{
    broadcast use crate::json::lemma_json_list_view;

    match j {
        Json::Null => {
            proof {
                reveal_strlit("");
                assert(""@ =~= Seq::empty());
            }
            owned("")
        },
        Json::Bool(b) => owned(if *b { "true" } else { "false" }),
        Json::Number(n) => n.clone(),
        Json::Text(s) => s.clone(),
        Json::List(items) => {
            let ghost all = list_view(items@);
            let mut parts: Vec<String> = Vec::new();
            let mut i: usize = 0;
            proof {
                assert(all.subrange(0, 0) =~= Seq::empty());
                assert(views(parts@) =~= Seq::empty());
            }
            while i < items.len()
                invariant
                    i <= items@.len(),
                    all == list_view(items@),
                    *j == (Json::List(*items)),
                    views(parts@) == match_texts(all.subrange(0, i as int)),
                decreases items@.len() - i,
            {
                proof {
                    assert(decreases_to!(*j => j->List_0@[i as int]));
                    let next = all.subrange(0, i + 1);
                    assert(next.subrange(0, next.len() - 1) =~= all.subrange(0, i as int));
                    assert(next[next.len() - 1] == items@[i as int]@);
                }
                let text = json_to_match_string(&items[i]);
                let ghost added = text@;
                let ghost before = parts@;
                parts.push(text);
                proof {
                    assert(views(parts@) =~= views(before).push(added));
                }
                i = i + 1;
            }
            proof {
                assert(all.subrange(0, i as int) =~= all);
            }
            join(&parts, " ")
        },
        Json::Object(_) => write_json(j),
    }
}

/// Whether a value of a hit is one that is asked for.
pub open spec fn values_equal_spec(facts: Seq<NumberFact>, a: JsonView, b: JsonView) -> bool {
    match (json_flag(a), json_flag(b)) {
        (Some(x), Some(y)) => x == y,
        _ => match numbers(facts, a, b) {
            Some((close, _)) => close,
            None => ascii_lower(match_text(a)) == ascii_lower(match_text(b)),
        },
    }
}

pub open spec fn values_include_spec(a: JsonView, b: JsonView) -> bool {
    lowered(match_text(b)).len() > 0 && has_part(lowered(match_text(a)), lowered(match_text(b)))
}

pub open spec fn values_order(facts: Seq<NumberFact>, a: JsonView, b: JsonView) -> Option<
    NumberOrder,
> {
    match numbers(facts, a, b) {
        Some((_, order)) => order,
        None => None,
    }
}

/// Whether a value of a hit and a value that is asked for compare as they should.
pub open spec fn pair_matches(
    facts: Seq<NumberFact>,
    op: SearchFilterOp,
    a: JsonView,
    b: JsonView,
) -> bool {
    match op {
        SearchFilterOp::Eq | SearchFilterOp::Nq => values_equal_spec(facts, a, b),
        SearchFilterOp::Gt => values_order(facts, a, b) == Some(NumberOrder::Greater),
        SearchFilterOp::Gte => values_order(facts, a, b) == Some(NumberOrder::Greater)
            || values_order(facts, a, b) == Some(NumberOrder::Equal),
        SearchFilterOp::Lt => values_order(facts, a, b) == Some(NumberOrder::Less),
        SearchFilterOp::Lte => values_order(facts, a, b) == Some(NumberOrder::Less)
            || values_order(facts, a, b) == Some(NumberOrder::Equal),
        SearchFilterOp::Include | SearchFilterOp::Exclude => values_include_spec(a, b),
    }
}

/// Whether some value of a hit compares with some value that is asked for.
pub open spec fn any_pair(
    facts: Seq<NumberFact>,
    op: SearchFilterOp,
    have: Seq<JsonView>,
    want: Seq<JsonView>,
) -> bool {
    exists|i: int, k: int|
        0 <= i < have.len() && 0 <= k < want.len() && #[trigger] pair_matches(
            facts,
            op,
            have[i],
            want[k],
        )
}

pub open spec fn all_filter_values(
    doc: Seq<(Seq<char>, ValueView)>,
    fields: Seq<Seq<char>>,
) -> Seq<JsonView>
    decreases fields.len(),
{
    if fields.len() == 0 {
        Seq::empty()
    } else {
        all_filter_values(doc, fields.drop_last()) + filter_values(doc, fields.last())
    }
}

/// Whether a comparison is turned round.
pub open spec fn negated(op: SearchFilterOp) -> bool {
    op is Nq || op is Exclude
}

/// Whether a hit passes a comparison. One that names no fields passes nothing; a hit that
/// has no value passes what is turned round.
pub open spec fn filter_passes(
    facts: Seq<NumberFact>,
    doc: Seq<(Seq<char>, ValueView)>,
    f: FilterView,
) -> bool {
    let have = all_filter_values(doc, f.fields);
    f.fields.len() > 0 && (if have.len() == 0 {
        negated(f.op)
    } else {
        any_pair(facts, f.op, have, f.values) != negated(f.op)
    })
}

/// Whether a hit passes a group: all of it, or some of it. One that holds nothing passes
/// everything.
pub open spec fn group_passes(
    facts: Seq<NumberFact>,
    doc: Seq<(Seq<char>, ValueView)>,
    g: SearchFilterGroup,
) -> bool
    decreases g,
{
    if g.filters@.len() == 0 && g.groups@.len() == 0 {
        true
    } else {
        match g.logic {
            SearchFilterLogic::And => {
                &&& forall|i: int|
                    0 <= i < g.filters@.len() ==> filter_passes(
                        facts,
                        doc,
                        (#[trigger] g.filters@[i])@,
                    )
                &&& forall|i: int|
                    0 <= i < g.groups@.len() ==> group_passes(facts, doc, #[trigger] g.groups@[i])
            },
            SearchFilterLogic::Or => {
                ||| exists|i: int|
                    0 <= i < g.filters@.len() && filter_passes(
                        facts,
                        doc,
                        (#[trigger] g.filters@[i])@,
                    )
                ||| exists|i: int|
                    0 <= i < g.groups@.len() && group_passes(facts, doc, #[trigger] g.groups@[i])
            },
        }
    }
}

/// Whether a value of a hit is one that is asked for.
pub fn values_equal(facts: &Vec<NumberFact>, a: &Json, b: &Json) -> (r: bool)
    ensures
        r == values_equal_spec(facts@, a@, b@),
{
    match (json_as_bool(a), json_as_bool(b)) {
        (Some(x), Some(y)) => x == y,
        _ => match find_numbers(facts, a, b) {
            Some((close, _)) => close,
            None => {
                let left = json_to_match_string(a);
                let right = json_to_match_string(b);
                let small_left = to_ascii_lower(left.as_str());
                let small_right = to_ascii_lower(right.as_str());
                same(small_left.as_str(), small_right.as_str())
            },
        },
    }
}

/// Whether the text of a value holds that of another.
pub fn values_include(a: &Json, b: &Json) -> (r: bool)
    ensures
        r == values_include_spec(a@, b@),
{
    let left = json_to_match_string(a);
    let right = json_to_match_string(b);
    let haystack = to_lower(left.as_str());
    let needle = to_lower(right.as_str());
    !is_empty(needle.as_str()) && contains_text(haystack.as_str(), needle.as_str())
}

fn pair_holds(facts: &Vec<NumberFact>, op: SearchFilterOp, a: &Json, b: &Json) -> (r: bool)
    ensures
        r == pair_matches(facts@, op, a@, b@),
{
    match op {
        SearchFilterOp::Eq | SearchFilterOp::Nq => values_equal(facts, a, b),
        SearchFilterOp::Include | SearchFilterOp::Exclude => values_include(a, b),
        SearchFilterOp::Gt => match find_numbers(facts, a, b) {
            Some((_, Some(NumberOrder::Greater))) => true,
            _ => false,
        },
        SearchFilterOp::Gte => match find_numbers(facts, a, b) {
            Some((_, Some(NumberOrder::Greater))) => true,
            Some((_, Some(NumberOrder::Equal))) => true,
            _ => false,
        },
        SearchFilterOp::Lt => match find_numbers(facts, a, b) {
            Some((_, Some(NumberOrder::Less))) => true,
            _ => false,
        },
        SearchFilterOp::Lte => match find_numbers(facts, a, b) {
            Some((_, Some(NumberOrder::Less))) => true,
            Some((_, Some(NumberOrder::Equal))) => true,
            _ => false,
        },
    }
}

/// Whether some value of a hit compares with some value that is asked for.
pub fn any_filter_value_match(
    facts: &Vec<NumberFact>,
    op: SearchFilterOp,
    have: &Vec<Json>,
    want: &Vec<Json>,
) -> (r: bool)
    ensures
        r == any_pair(facts@, op, list_view(have@), list_view(want@)),
{
    let mut i: usize = 0;
    while i < have.len()
        invariant
            i <= have@.len(),
            forall|w: int, k: int|
                0 <= w < i && 0 <= k < want@.len() ==> !#[trigger] pair_matches(
                    facts@,
                    op,
                    list_view(have@)[w],
                    list_view(want@)[k],
                ),
        decreases have@.len() - i,
    {
        let mut k: usize = 0;
        while k < want.len()
            invariant
                i < have@.len(),
                k <= want@.len(),
                forall|w: int, j: int|
                    0 <= w < i && 0 <= j < want@.len() ==> !#[trigger] pair_matches(
                        facts@,
                        op,
                        list_view(have@)[w],
                        list_view(want@)[j],
                    ),
                forall|j: int|
                    0 <= j < k ==> !#[trigger] pair_matches(
                        facts@,
                        op,
                        list_view(have@)[i as int],
                        list_view(want@)[j],
                    ),
            decreases want@.len() - k,
        {
            if pair_holds(facts, op, &have[i], &want[k]) {
                assert(pair_matches(
                    facts@,
                    op,
                    list_view(have@)[i as int],
                    list_view(want@)[k as int],
                ));
                return true;
            }
            k = k + 1;
        }
        i = i + 1;
    }
    false
}

/// Whether a hit passes a comparison.
pub fn document_matches_field_filter(
    facts: &Vec<NumberFact>,
    doc: &Segment,
    filter: &SearchFieldFilter,
) -> (r: bool)
    ensures
        r == filter_passes(facts@, segment_view(doc@), filter@),
{
    let ghost names = views(filter.fields@);
    let ghost d = segment_view(doc@);
    proof {
        assert(names.len() == filter.fields@.len());
    }
    if filter.fields.len() == 0 {
        return false;
    }
    let mut have: Vec<Json> = Vec::new();
    let mut i: usize = 0;
    proof {
        assert(names.take(0) =~= Seq::empty());
        assert(list_view(have@) =~= Seq::empty());
    }
    while i < filter.fields.len()
        invariant
            i <= filter.fields@.len(),
            names == views(filter.fields@),
            d == segment_view(doc@),
            list_view(have@) == all_filter_values(d, names.take(i as int)),
        decreases filter.fields@.len() - i,
    {
        let mut more = document_filter_values(doc, filter.fields[i].as_str());
        let ghost before = have@;
        let ghost added = more@;
        have.append(&mut more);
        proof {
            assert(names.take(i + 1).drop_last() =~= names.take(i as int));
            assert(names.take(i + 1).last() == filter.fields@[i as int]@);
            assert(list_view(have@) =~= list_view(before) + list_view(added));
        }
        i = i + 1;
    }
    proof {
        assert(names.take(i as int) =~= names);
        assert(list_view(have@).len() == have@.len());
    }
    let turned = matches!(filter.op, SearchFilterOp::Nq | SearchFilterOp::Exclude);
    if have.len() == 0 {
        turned
    } else {
        any_filter_value_match(facts, filter.op, &have, &filter.values) != turned
    }
}

/// Whether a hit passes a group of comparisons.
pub fn document_matches_filter_group(
    facts: &Vec<NumberFact>,
    doc: &Segment,
    group: &SearchFilterGroup,
) -> (r: bool)
    ensures
        r == group_passes(facts@, segment_view(doc@), *group),
    decreases *group,
{
    let ghost d = segment_view(doc@);
    if group.filters.len() == 0 && group.groups.len() == 0 {
        return true;
    }
    let all = matches!(group.logic, SearchFilterLogic::And);
    let mut i: usize = 0;
    while i < group.filters.len()
        invariant
            i <= group.filters@.len(),
            group.filters@.len() > 0 || group.groups@.len() > 0,
            d == segment_view(doc@),
            all == (group.logic is And),
            forall|k: int|
                0 <= k < i ==> filter_passes(facts@, d, (#[trigger] group.filters@[k])@) == all,
        decreases group.filters@.len() - i,
    {
        if document_matches_field_filter(facts, doc, &group.filters[i]) != all {
            return !all;
        }
        i = i + 1;
    }
    let mut k: usize = 0;
    while k < group.groups.len()
        invariant
            k <= group.groups@.len(),
            group.filters@.len() > 0 || group.groups@.len() > 0,
            d == segment_view(doc@),
            all == (group.logic is And),
            forall|w: int|
                0 <= w < group.filters@.len() ==> filter_passes(
                    facts@,
                    d,
                    (#[trigger] group.filters@[w])@,
                ) == all,
            forall|w: int|
                0 <= w < k ==> group_passes(facts@, d, #[trigger] group.groups@[w]) == all,
        decreases group.groups@.len() - k,
    {
        proof {
            assert(decreases_to!(*group => group.groups@[k as int]));
        }
        if document_matches_filter_group(facts, doc, &group.groups[k]) != all {
            return !all;
        }
        k = k + 1;
    }
    all
}

/// A group that asks for nothing keeps every hit.
pub proof fn law_empty_group_passes(
    facts: Seq<NumberFact>,
    doc: Seq<(Seq<char>, ValueView)>,
    g: SearchFilterGroup,
)
    requires
        g.filters@.len() == 0,
        g.groups@.len() == 0,
    ensures
        group_passes(facts, doc, g),
{
}

/// What is not equal is what is turned round: of a comparison and the one that turns it
/// round a hit with a value passes exactly one.
pub proof fn law_turned_round(
    facts: Seq<NumberFact>,
    doc: Seq<(Seq<char>, ValueView)>,
    fields: Seq<Seq<char>>,
    values: Seq<JsonView>,
)
    requires
        fields.len() > 0,
    ensures
        filter_passes(facts, doc, FilterView { fields, op: SearchFilterOp::Eq, values })
            != filter_passes(facts, doc, FilterView { fields, op: SearchFilterOp::Nq, values }),
        filter_passes(facts, doc, FilterView { fields, op: SearchFilterOp::Include, values })
            != filter_passes(
                facts,
                doc,
                FilterView { fields, op: SearchFilterOp::Exclude, values },
            ),
{
    let have = all_filter_values(doc, fields);
    assert(any_pair(facts, SearchFilterOp::Eq, have, values) == any_pair(
        facts,
        SearchFilterOp::Nq,
        have,
        values,
    )) by {
        lemma_same_pairs(facts, SearchFilterOp::Eq, SearchFilterOp::Nq, have, values);
        lemma_same_pairs(facts, SearchFilterOp::Nq, SearchFilterOp::Eq, have, values);
    }
    assert(any_pair(facts, SearchFilterOp::Include, have, values) == any_pair(
        facts,
        SearchFilterOp::Exclude,
        have,
        values,
    )) by {
        lemma_same_pairs(facts, SearchFilterOp::Include, SearchFilterOp::Exclude, have, values);
        lemma_same_pairs(facts, SearchFilterOp::Exclude, SearchFilterOp::Include, have, values);
    }
}

proof fn lemma_same_pairs(
    facts: Seq<NumberFact>,
    p: SearchFilterOp,
    q: SearchFilterOp,
    have: Seq<JsonView>,
    want: Seq<JsonView>,
)
    requires
        forall|a: JsonView, b: JsonView|
            pair_matches(facts, p, a, b) == #[trigger] pair_matches(facts, q, a, b),
    ensures
        any_pair(facts, p, have, want) ==> any_pair(facts, q, have, want),
{
    if any_pair(facts, p, have, want) {
        let (i, k) = choose|i: int, k: int|
            0 <= i < have.len() && 0 <= k < want.len() && #[trigger] pair_matches(
                facts,
                p,
                have[i],
                want[k],
            );
        assert(pair_matches(facts, q, have[i], want[k]));
    }
}

} // verus!
