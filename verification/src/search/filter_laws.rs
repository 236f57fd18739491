//! What the filters of a search mean: which hits each comparison keeps, and how groups put
//! comparisons together.
use super::fields::field_name;
use super::matching::{
    all_filter_values, fact_for, filter_passes, filter_values, flag_of, group_passes, numbers,
    pair_matches, value_at, NumberFact, NumberOrder,
};
use super::query::{FilterView, SearchFilterGroup, SearchFilterOp};
use super::segments::ValueView;
use crate::json::{int_text, JsonView};
use crate::letters::{ascii_lower, lowered};
use crate::text::has_part;
use vstd::prelude::*;

verus! {

/// A comparison of one field with one value.
pub open spec fn asks(field: Seq<char>, op: SearchFilterOp, value: JsonView) -> FilterView {
    FilterView { fields: seq![field], op, values: seq![value] }
}

/// Whether the first fact that is known of two numerals says how they compare.
pub open spec fn known_order(
    facts: Seq<NumberFact>,
    left: Seq<char>,
    right: Seq<char>,
    order: NumberOrder,
) -> bool {
    exists|at: int|
        0 <= at < facts.len() && (#[trigger] facts[at]).left@ == left && facts[at].right@ == right
            && facts[at].order == Some(order) && forall|k: int|
            0 <= k < at ==> !((#[trigger] facts[k]).left@ == left && facts[k].right@ == right)
}

proof fn lemma_fact(facts: Seq<NumberFact>, left: Seq<char>, right: Seq<char>, at: int)
    requires
        0 <= at < facts.len(),
        facts[at].left@ == left,
        facts[at].right@ == right,
        forall|k: int|
            0 <= k < at ==> !((#[trigger] facts[k]).left@ == left && facts[k].right@ == right),
    ensures
        fact_for(facts, left, right) == Some((facts[at].close, facts[at].order)),
    decreases facts.len(),
{
    if at > 0 {
        let rest = facts.drop_first();
        assert(!(facts[0].left@ == left && facts[0].right@ == right));
        assert(rest[at - 1] == facts[at]);
        assert forall|k: int| 0 <= k < at - 1 implies !((#[trigger] rest[k]).left@ == left
            && rest[k].right@ == right) by {
            assert(rest[k] == facts[k + 1]);
        }
        lemma_fact(rest, left, right, at - 1);
    }
}

proof fn lemma_one_pair(
    facts: Seq<NumberFact>,
    doc: Seq<(Seq<char>, ValueView)>,
    field: Seq<char>,
    op: SearchFilterOp,
    have: JsonView,
    want: JsonView,
)
    requires
        filter_values(doc, field) == seq![have],
        !(op is Nq),
        !(op is Exclude),
    ensures
        filter_passes(facts, doc, asks(field, op, want)) == pair_matches(facts, op, have, want),
{
    let f = asks(field, op, want);
    let all = all_filter_values(doc, f.fields);
    assert(f.fields.drop_last() =~= Seq::empty());
    assert(f.fields.last() == field);
    assert(all_filter_values(doc, Seq::empty()) =~= Seq::empty());
    assert(all =~= seq![have]);
    if pair_matches(facts, op, have, want) {
        assert(pair_matches(facts, op, all[0], f.values[0]));
    } else {
        assert forall|i: int, k: int|
            0 <= i < all.len() && 0 <= k < f.values.len() implies !#[trigger] pair_matches(
            facts,
            op,
            all[i],
            f.values[k],
        ) by {}
    }
}

/// Which hits the comparisons of numbers keep. A hit has the number `have` as its only value
/// in a field, and it is known how that compares with the number `want`. Then it is greater
/// where it is the greater one, less where it is the smaller one, and at least or at most
/// where it is not the other one.
pub proof fn law_numbers_are_ordered(
    facts: Seq<NumberFact>,
    doc: Seq<(Seq<char>, ValueView)>,
    field: Seq<char>,
    have: Seq<char>,
    want: Seq<char>,
    order: NumberOrder,
)
    requires
        filter_values(doc, field) == seq![JsonView::Number(have)],
        known_order(facts, have, want, order),
    ensures
        ({
            let b = JsonView::Number(want);
            let gt = filter_passes(facts, doc, asks(field, SearchFilterOp::Gt, b));
            let gte = filter_passes(facts, doc, asks(field, SearchFilterOp::Gte, b));
            let lt = filter_passes(facts, doc, asks(field, SearchFilterOp::Lt, b));
            let lte = filter_passes(facts, doc, asks(field, SearchFilterOp::Lte, b));
            &&& gt == (order == NumberOrder::Greater)
            &&& lt == (order == NumberOrder::Less)
            &&& gt ==> gte
            &&& lt ==> lte
            &&& gt != lte
            &&& lt != gte
        }),
{
    let a = JsonView::Number(have);
    let b = JsonView::Number(want);
    let at = choose|at: int|
        0 <= at < facts.len() && (#[trigger] facts[at]).left@ == have && facts[at].right@ == want
            && facts[at].order == Some(order) && forall|k: int|
            0 <= k < at ==> !((#[trigger] facts[k]).left@ == have && facts[k].right@ == want);
    lemma_fact(facts, have, want, at);
    lemma_one_pair(facts, doc, field, SearchFilterOp::Gt, a, b);
    lemma_one_pair(facts, doc, field, SearchFilterOp::Gte, a, b);
    lemma_one_pair(facts, doc, field, SearchFilterOp::Lt, a, b);
    lemma_one_pair(facts, doc, field, SearchFilterOp::Lte, a, b);
}

/// Where nothing is known of two numerals, or what is known orders neither before the other, no
/// comparison of numbers keeps the hit.
pub proof fn law_unknown_numbers_are_dropped(
    facts: Seq<NumberFact>,
    doc: Seq<(Seq<char>, ValueView)>,
    field: Seq<char>,
    have: Seq<char>,
    want: Seq<char>,
)
    requires
        filter_values(doc, field) == seq![JsonView::Number(have)],
        forall|k: int|
            0 <= k < facts.len() ==> !((#[trigger] facts[k]).left@ == have && facts[k].right@
                == want),
    ensures
        !filter_passes(facts, doc, asks(field, SearchFilterOp::Gt, JsonView::Number(want))),
        !filter_passes(facts, doc, asks(field, SearchFilterOp::Gte, JsonView::Number(want))),
        !filter_passes(facts, doc, asks(field, SearchFilterOp::Lt, JsonView::Number(want))),
        !filter_passes(facts, doc, asks(field, SearchFilterOp::Lte, JsonView::Number(want))),
{
    let a = JsonView::Number(have);
    let b = JsonView::Number(want);
    lemma_no_fact(facts, have, want);
    lemma_one_pair(facts, doc, field, SearchFilterOp::Gt, a, b);
    lemma_one_pair(facts, doc, field, SearchFilterOp::Gte, a, b);
    lemma_one_pair(facts, doc, field, SearchFilterOp::Lt, a, b);
    lemma_one_pair(facts, doc, field, SearchFilterOp::Lte, a, b);
}

proof fn lemma_no_fact(facts: Seq<NumberFact>, left: Seq<char>, right: Seq<char>)
    requires
        forall|k: int|
            0 <= k < facts.len() ==> !((#[trigger] facts[k]).left@ == left && facts[k].right@
                == right),
    ensures
        fact_for(facts, left, right) is None,
    decreases facts.len(),
{
    if facts.len() > 0 {
        let rest = facts.drop_first();
        assert(!(facts[0].left@ == left && facts[0].right@ == right));
        assert forall|k: int| 0 <= k < rest.len() implies !((#[trigger] rest[k]).left@ == left
            && rest[k].right@ == right) by {
            assert(rest[k] == facts[k + 1]);
        }
        lemma_no_fact(rest, left, right);
    }
}

/// Which hits the comparisons of texts keep. A hit has the text `have` as its only value in a
/// field, and neither text is a word for yes or no or known as a number. Then it is equal where
/// the texts differ in the case of ASCII letters at most, and includes the other where that
/// one is not empty and stands in it in any case.
pub proof fn law_texts_are_compared(
    facts: Seq<NumberFact>,
    doc: Seq<(Seq<char>, ValueView)>,
    field: Seq<char>,
    have: Seq<char>,
    want: Seq<char>,
)
    requires
        filter_values(doc, field) == seq![JsonView::Text(have)],
        flag_of(have) is None || flag_of(want) is None,
        numbers(facts, JsonView::Text(have), JsonView::Text(want)) is None,
    ensures
        filter_passes(facts, doc, asks(field, SearchFilterOp::Eq, JsonView::Text(want))) == (
        ascii_lower(have) == ascii_lower(want)),
        filter_passes(facts, doc, asks(field, SearchFilterOp::Include, JsonView::Text(want))) == (
        lowered(want).len() > 0 && has_part(lowered(have), lowered(want))),
{
    let a = JsonView::Text(have);
    let b = JsonView::Text(want);
    lemma_one_pair(facts, doc, field, SearchFilterOp::Eq, a, b);
    lemma_one_pair(facts, doc, field, SearchFilterOp::Include, a, b);
}

/// A flag is equal to every word that means the same, and to no word that means the other.
pub proof fn law_flags_are_compared(
    facts: Seq<NumberFact>,
    doc: Seq<(Seq<char>, ValueView)>,
    field: Seq<char>,
    have: bool,
    word: Seq<char>,
)
    requires
        filter_values(doc, field) == seq![JsonView::Bool(have)],
        flag_of(word) is Some,
    ensures
        filter_passes(facts, doc, asks(field, SearchFilterOp::Eq, JsonView::Text(word)))
            == (flag_of(word) == Some(have)),
        filter_passes(facts, doc, asks(field, SearchFilterOp::Eq, JsonView::Bool(have))),
        !filter_passes(facts, doc, asks(field, SearchFilterOp::Eq, JsonView::Bool(!have))),
{
    let a = JsonView::Bool(have);
    lemma_one_pair(facts, doc, field, SearchFilterOp::Eq, a, JsonView::Text(word));
    lemma_one_pair(facts, doc, field, SearchFilterOp::Eq, a, JsonView::Bool(have));
    lemma_one_pair(facts, doc, field, SearchFilterOp::Eq, a, JsonView::Bool(!have));
}

/// The columns that a filter can name and that hold texts.
pub open spec fn text_columns() -> Seq<Seq<char>> {
    seq![
        "doc_id"@,
        "kind"@,
        "entity_id"@,
        "parent_id"@,
        "parent_key"@,
        "title"@,
        "body"@,
        "content"@,
        "content_field"@,
        "metadata"@,
        "status"@,
        "datatype"@,
        "category"@,
        "source"@,
        "app_id"@,
        "agent_id"@,
        "session_id"@,
        "collection_uuid"@,
        "collection_type"@,
    ]
}

/// A filter on a column looks at that column: at its text, its number, or the flag that its
/// word stands for.
pub proof fn law_fields_are_columns(
    doc: Seq<(Seq<char>, ValueView)>,
    field: Seq<char>,
    s: Seq<char>,
    n: i64,
)
    ensures
        text_columns().contains(field_name(field)) && s.len() > 0 && value_at(
            doc,
            field_name(field),
        ) == Some(ValueView::Text(s)) ==> filter_values(doc, field) == seq![JsonView::Text(s)],
        (field_name(field) == "created_at_ms"@ || field_name(field) == "updated_at_ms"@)
            && value_at(doc, field_name(field)) == Some(ValueView::Number(n)) ==> filter_values(
            doc,
            field,
        ) == seq![JsonView::Number(int_text(n as int))],
        (field_name(field) == "created_at"@ && value_at(doc, "created_at_ms"@) == Some(
            ValueView::Number(n),
        )) || (field_name(field) == "updated_at"@ && value_at(doc, "updated_at_ms"@) == Some(
            ValueView::Number(n),
        )) ==> filter_values(doc, field) == seq![JsonView::Number(int_text(n as int))],
        (field_name(field) == "archived"@ || field_name(field) == "deleted"@) && value_at(
            doc,
            "archived"@,
        ) == Some(ValueView::Text("true"@)) ==> filter_values(doc, field) == seq![
            JsonView::Bool(true),
        ],
        (field_name(field) == "archived"@ || field_name(field) == "deleted"@) && value_at(
            doc,
            "archived"@,
        ) == Some(ValueView::Text("false"@)) ==> filter_values(doc, field) == seq![
            JsonView::Bool(false),
        ],
{
    reveal_strlit("doc_id");
    reveal_strlit("kind");
    reveal_strlit("entity_id");
    reveal_strlit("id");
    reveal_strlit("parent_id");
    reveal_strlit("parent_uuid");
    reveal_strlit("parent_key");
    reveal_strlit("title");
    reveal_strlit("body");
    reveal_strlit("content");
    reveal_strlit("field");
    reveal_strlit("content_field");
    reveal_strlit("metadata");
    reveal_strlit("created_at");
    reveal_strlit("created_at_ms");
    reveal_strlit("updated_at");
    reveal_strlit("updated_at_ms");
    reveal_strlit("status");
    reveal_strlit("datatype");
    reveal_strlit("data_type");
    reveal_strlit("category");
    reveal_strlit("source");
    reveal_strlit("app_id");
    reveal_strlit("agent_id");
    reveal_strlit("session_id");
    reveal_strlit("collection_uuid");
    reveal_strlit("collection_id");
    reveal_strlit("collection_type");
    reveal_strlit("archived");
    reveal_strlit("deleted");
    reveal_strlit("true");
    reveal_strlit("false");
    let name = field_name(field);
    if text_columns().contains(name) && s.len() > 0 && value_at(doc, name) == Some(
        ValueView::Text(s),
    ) {
        let k = choose|k: int| 0 <= k < text_columns().len() && text_columns()[k] == name;
        lemma_text_column(doc, field, s, k);
    }
    assert("created_at"@[0] == 'c' && "created_at"@[1] == 'r' && "created_at"@.len() == 10);
    assert("created_at_ms"@[1] == 'r' && "created_at_ms"@.len() == 13);
    assert("updated_at"@[0] == 'u' && "updated_at_ms"@[0] == 'u');
    assert("archived"@[0] == 'a' && "archived"@[1] == 'r' && "deleted"@[1] == 'e');
    assert("deleted"@[0] == 'd' && "deleted"@.len() == 7);
    lemma_words_for_flags();
}

proof fn lemma_words_for_flags()
    ensures
        flag_of("true"@) == Some(true),
        flag_of("false"@) == Some(false),
{
    reveal_strlit("true");
    reveal_strlit("false");
    reveal_strlit("1");
    reveal_strlit("yes");
    reveal_strlit("y");
    reveal_strlit("deleted");
    reveal_strlit("archived");
    assert(crate::text::trimmed("true"@) == "true"@);
    assert(crate::text::trimmed("false"@) == "false"@);
    assert(ascii_lower("true"@) =~= "true"@);
    assert(ascii_lower("false"@) =~= "false"@);
    assert("false"@.len() == 5 && "true"@.len() == 4 && "yes"@.len() == 3 && "1"@.len() == 1);
    assert("y"@.len() == 1 && "deleted"@.len() == 7 && "archived"@.len() == 8);
}

#[verifier::rlimit(60)]
proof fn lemma_text_column(
    doc: Seq<(Seq<char>, ValueView)>,
    field: Seq<char>,
    s: Seq<char>,
    k: int,
)
    requires
        0 <= k < text_columns().len(),
        field_name(field) == text_columns()[k],
        s.len() > 0,
        value_at(doc, text_columns()[k]) == Some(ValueView::Text(s)),
    ensures
        filter_values(doc, field) == seq![JsonView::Text(s)],
{
    reveal_strlit("doc_id");
    reveal_strlit("kind");
    reveal_strlit("entity_id");
    reveal_strlit("id");
    reveal_strlit("parent_id");
    reveal_strlit("parent_uuid");
    reveal_strlit("parent_key");
    reveal_strlit("title");
    reveal_strlit("body");
    reveal_strlit("content");
    reveal_strlit("field");
    reveal_strlit("content_field");
    reveal_strlit("metadata");
    reveal_strlit("created_at");
    reveal_strlit("created_at_ms");
    reveal_strlit("updated_at");
    reveal_strlit("updated_at_ms");
    reveal_strlit("status");
    reveal_strlit("datatype");
    reveal_strlit("data_type");
    reveal_strlit("category");
    reveal_strlit("source");
    reveal_strlit("app_id");
    reveal_strlit("agent_id");
    reveal_strlit("session_id");
    reveal_strlit("collection_uuid");
    reveal_strlit("collection_id");
    reveal_strlit("collection_type");
    let name = field_name(field);
    assert("doc_id"@.len() == 6 && "doc_id"@[0] == 'd');
    assert("kind"@.len() == 4 && "kind"@[0] == 'k');
    assert("entity_id"@.len() == 9 && "entity_id"@[0] == 'e');
    assert("id"@.len() == 2);
    assert("parent_id"@.len() == 9 && "parent_id"@[0] == 'p');
    assert("parent_uuid"@.len() == 11 && "parent_uuid"@[0] == 'p');
    assert("parent_key"@.len() == 10 && "parent_key"@[0] == 'p');
    assert("title"@.len() == 5 && "title"@[0] == 't');
    assert("body"@.len() == 4 && "body"@[0] == 'b');
    assert("content"@.len() == 7 && "content"@[0] == 'c');
    assert("field"@.len() == 5 && "field"@[0] == 'f');
    assert("content_field"@.len() == 13 && "content_field"@[1] == 'o');
    assert("metadata"@.len() == 8 && "metadata"@[0] == 'm');
    assert("created_at"@.len() == 10 && "created_at"@[0] == 'c');
    assert("created_at_ms"@.len() == 13 && "created_at_ms"@[1] == 'r');
    assert("updated_at"@.len() == 10 && "updated_at"@[0] == 'u');
    assert("updated_at_ms"@.len() == 13 && "updated_at_ms"@[1] == 'p');
    assert("status"@.len() == 6 && "status"@[0] == 's' && "status"@[1] == 't');
    assert("datatype"@.len() == 8 && "datatype"@[0] == 'd');
    assert("data_type"@.len() == 9 && "data_type"@[0] == 'd');
    assert("category"@.len() == 8 && "category"@[0] == 'c');
    assert("source"@.len() == 6 && "source"@[0] == 's' && "source"@[1] == 'o');
    assert("app_id"@.len() == 6 && "app_id"@[0] == 'a');
    assert("agent_id"@.len() == 8 && "agent_id"@[0] == 'a');
    assert("session_id"@.len() == 10 && "session_id"@[0] == 's');
    assert("collection_uuid"@.len() == 15 && "collection_uuid"@[11] == 'u');
    assert("collection_id"@.len() == 13 && "collection_id"@[2] == 'l');
    assert("content_field"@[2] == 'n');
    assert("collection_type"@.len() == 15 && "collection_type"@[11] == 't');
}

/// A hit passes a group that asks for all where it passes each comparison and each group in it,
/// and one that asks for some where it passes one of them. So a group that asks for all keeps
/// no more than any of its comparisons, and one that asks for some keeps no less.
pub proof fn law_groups_put_together(
    facts: Seq<NumberFact>,
    doc: Seq<(Seq<char>, ValueView)>,
    g: SearchFilterGroup,
    i: int,
    k: int,
)
    requires
        0 <= i < g.filters@.len(),
    ensures
        g.logic is And && group_passes(facts, doc, g) ==> filter_passes(
            facts,
            doc,
            g.filters@[i]@,
        ),
        g.logic is Or && filter_passes(facts, doc, g.filters@[i]@) ==> group_passes(
            facts,
            doc,
            g,
        ),
        0 <= k < g.groups@.len() ==> {
            &&& g.logic is And && group_passes(facts, doc, g) ==> group_passes(
                facts,
                doc,
                g.groups@[k],
            )
            &&& g.logic is Or && group_passes(facts, doc, g.groups@[k]) ==> group_passes(
                facts,
                doc,
                g,
            )
        },
        g.filters@.len() == 1 && g.groups@.len() == 0 ==> group_passes(facts, doc, g)
            == filter_passes(facts, doc, g.filters@[0]@),
{
}

/// A hit that has a value that is asked for passes, whatever else it has or is asked for; a hit
/// without values passes only what asks for the absence of values.
pub proof fn law_one_value_is_enough(
    facts: Seq<NumberFact>,
    doc: Seq<(Seq<char>, ValueView)>,
    f: FilterView,
    i: int,
    k: int,
)
    requires
        f.fields.len() > 0,
        !(f.op is Nq),
        !(f.op is Exclude),
    ensures
        0 <= i < f.fields.len() && 0 <= k < f.values.len() && filter_passes(
            facts,
            doc,
            asks(f.fields[i], f.op, f.values[k]),
        ) ==> filter_passes(facts, doc, f),
        f.values.len() == 0 ==> !filter_passes(facts, doc, f),
{
    if 0 <= i < f.fields.len() && 0 <= k < f.values.len() && filter_passes(
        facts,
        doc,
        asks(f.fields[i], f.op, f.values[k]),
    ) {
        let one = asks(f.fields[i], f.op, f.values[k]);
        let few = all_filter_values(doc, one.fields);
        let all = all_filter_values(doc, f.fields);
        assert(one.fields.drop_last() =~= Seq::empty());
        assert(all_filter_values(doc, Seq::empty()) =~= Seq::empty());
        assert(few =~= filter_values(doc, f.fields[i]));
        let (a, b) = choose|a: int, b: int|
            0 <= a < few.len() && 0 <= b < one.values.len() && #[trigger] pair_matches(
                facts,
                f.op,
                few[a],
                one.values[b],
            );
        lemma_values_of_a_field(doc, f.fields, i, a);
        let c = choose|c: int| 0 <= c < all.len() && all[c] == few[a];
        assert(pair_matches(facts, f.op, all[c], f.values[k]));
    }
}

proof fn lemma_values_of_a_field(
    doc: Seq<(Seq<char>, ValueView)>,
    fields: Seq<Seq<char>>,
    i: int,
    a: int,
)
    requires
        0 <= i < fields.len(),
        0 <= a < filter_values(doc, fields[i]).len(),
    ensures
        all_filter_values(doc, fields).contains(filter_values(doc, fields[i])[a]),
    decreases fields.len(),
{
    let front = all_filter_values(doc, fields.drop_last());
    let back = filter_values(doc, fields.last());
    let v = filter_values(doc, fields[i])[a];
    if i < fields.len() - 1 {
        assert(fields.drop_last()[i] == fields[i]);
        lemma_values_of_a_field(doc, fields.drop_last(), i, a);
        let c = choose|c: int| 0 <= c < front.len() && front[c] == v;
        assert((front + back)[c] == v);
    } else {
        assert((front + back)[front.len() + a] == v);
    }
}

} // verus!
