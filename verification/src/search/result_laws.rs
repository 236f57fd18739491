//! What a search shows: which hits become results, in which order, with which excerpt; and how the
//! text that is asked for is cut into words and pieces of numbers.
use super::fields::field_name;
use super::index_laws::SegmentView;
use super::matching::{group_passes, value_text, NumberFact};
use super::query::{
    asks_nothing, business_field_of, business_fields_of, closed_terms, fetched, fuzzy_text,
    kept_term, logic_of, op_of, open_term, parser_fields, query_terms, wanted, SearchFilterLogic,
    SearchFilterOp, SearchQuery,
};
use super::results::{
    accepted, any_term, best_results, business_hit, byte_slice, doc_place, first_term_place,
    law_results_sorted, result_field, result_of, result_page, result_snippet, snippet_end,
    snippet_of, snippet_source, snippet_start, sorted_results, ResultView, SearchHit,
};
use super::segments::{
    ended_fragments, first_kept, fragments_at, fragments_before, has_number, last_run,
    numeric_fragments, run_fragments, segment_view, text_fragments,
};
use crate::letters::{
    ascii_lower, byte_len, capped_bytes, chars_within, first_place, is_word_char, law_texts_sorted,
    lowered, lowered_char, sorted_texts,
};
use crate::table::lemma_position_of;
use crate::text::{
    has_part, is_digit, is_space, lemma_trimmed_end, lemma_trimmed_start, text_less, trimmed,
    trimmed_end, trimmed_start, views,
};
use vstd::prelude::*;

verus! {

/// A hit that is taken is of a kind that is asked for and passes the filter, and its result says
/// which document it is and how well it fits.
pub proof fn law_taken_hits_are_asked_for(
    q: SearchQuery,
    text: Seq<char>,
    facts: Seq<NumberFact>,
    hit: SearchHit,
)
    requires
        accepted(q, text, facts, segment_view(hit.doc@), hit.score) is Some,
    ensures
        ({
            let r = accepted(q, text, facts, segment_view(hit.doc@), hit.score)->0;
            &&& q.kinds@.len() > 0 ==> q.kinds@.contains(r.kind)
            &&& q.filter is Some ==> group_passes(facts, segment_view(hit.doc@), q.filter->0)
            &&& r.score == hit.score
            &&& Some(r) == result_of(
                segment_view(hit.doc@),
                hit.score,
                text,
                views(q.business_fields@),
            )
        }),
{
}

/// A hit is taken where nothing but the text is asked for.
pub proof fn law_every_hit_is_taken(
    q: SearchQuery,
    text: Seq<char>,
    facts: Seq<NumberFact>,
    hit: SearchHit,
)
    requires
        q.filter is None,
        q.kinds@.len() == 0,
        q.fields@.len() == 0,
    ensures
        accepted(q, text, facts, segment_view(hit.doc@), hit.score) == result_of(
            segment_view(hit.doc@),
            hit.score,
            text,
            views(q.business_fields@),
        ),
{
    assert(views(q.fields@).len() == 0);
}

/// The result of a hit, where it is taken.
pub open spec fn taken(
    q: SearchQuery,
    text: Seq<char>,
    facts: Seq<NumberFact>,
    hit: SearchHit,
) -> Option<ResultView> {
    accepted(q, text, facts, segment_view(hit.doc@), hit.score)
}

/// Each result is that of a hit that is taken.
pub proof fn law_results_are_hits(
    q: SearchQuery,
    text: Seq<char>,
    facts: Seq<NumberFact>,
    hits: Seq<SearchHit>,
    i: int,
)
    requires
        0 <= i < best_results(q, text, facts, hits).len(),
    ensures
        exists|k: int|
            0 <= k < hits.len() && taken(q, text, facts, #[trigger] hits[k]) == Some(
                best_results(q, text, facts, hits)[i],
            ),
    decreases hits.len(),
{
    let best = best_results(q, text, facts, hits);
    let front = hits.drop_last();
    let rest = best_results(q, text, facts, front);
    if i < rest.len() && best[i] == rest[i] {
        law_results_are_hits(q, text, facts, front, i);
        let k = choose|k: int|
            0 <= k < front.len() && taken(q, text, facts, #[trigger] front[k]) == Some(rest[i]);
        assert(hits[k] == front[k]);
    } else {
        let r = taken(q, text, facts, hits.last());
        if r is Some {
            lemma_position_of(rest, |x: ResultView| x.doc_id == r->0.doc_id);
        }
        assert(hits[hits.len() - 1] == hits.last());
    }
}

/// Of the document of each hit that is taken there is a result, and it fits at least as well.
pub proof fn law_hits_are_not_lost(
    q: SearchQuery,
    text: Seq<char>,
    facts: Seq<NumberFact>,
    hits: Seq<SearchHit>,
    k: int,
)
    requires
        0 <= k < hits.len(),
        taken(q, text, facts, hits[k]) is Some,
    ensures
        exists|i: int|
            0 <= i < best_results(q, text, facts, hits).len() && (#[trigger] best_results(
                q,
                text,
                facts,
                hits,
            )[i]).doc_id == taken(q, text, facts, hits[k])->0.doc_id && best_results(
                q,
                text,
                facts,
                hits,
            )[i].score >= hits[k].score,
    decreases hits.len(),
{
    let best = best_results(q, text, facts, hits);
    let front = hits.drop_last();
    let rest = best_results(q, text, facts, front);
    let r = taken(q, text, facts, hits[k])->0;
    let last = taken(q, text, facts, hits.last());
    if last is Some {
        lemma_position_of(rest, |x: ResultView| x.doc_id == last->0.doc_id);
    }
    if k < front.len() {
        assert(front[k] == hits[k]);
        law_hits_are_not_lost(q, text, facts, front, k);
        let i = choose|i: int|
            0 <= i < rest.len() && (#[trigger] rest[i]).doc_id == r.doc_id && rest[i].score
                >= hits[k].score;
        assert(best[i].doc_id == r.doc_id && best[i].score >= hits[k].score);
    } else {
        let at = doc_place(rest, r.doc_id);
        assert(best[at].doc_id == r.doc_id && best[at].score >= hits[k].score);
    }
}

/// Results that fit better come first; of two that fit alike the newer one, and of two that are as
/// new the one whose id is the smaller text. No result is lost and none is added.
pub proof fn law_better_results_come_first(s: Seq<ResultView>, i: int, j: int)
    requires
        0 <= i < j < sorted_results(s).len(),
    ensures
        ({
            let a = sorted_results(s)[i];
            let b = sorted_results(s)[j];
            &&& a.score >= b.score
            &&& a.score == b.score ==> a.created_at_ms >= b.created_at_ms
            &&& a.score == b.score && a.created_at_ms == b.created_at_ms ==> !text_less(
                b.doc_id,
                a.doc_id,
            )
        }),
        sorted_results(s).to_multiset() == s.to_multiset(),
{
    law_results_sorted(s);
}

/// A page starts at the offset, holds as many results as are asked for or all that are left, and
/// the next page goes on where it ends.
pub proof fn law_pages_follow_each_other(s: Seq<ResultView>, limit: nat, offset: nat, next: nat)
    ensures
        result_page(s, limit, offset).len() <= limit,
        offset + limit <= s.len() ==> result_page(s, limit, offset).len() == limit,
        result_page(s, limit, offset) + result_page(s, next, offset + limit) == result_page(
            s,
            limit + next,
            offset,
        ),
        result_page(s, s.len(), 0) == s,
        forall|k: int|
            0 <= k < result_page(s, limit, offset).len() ==> #[trigger] result_page(
                s,
                limit,
                offset,
            )[k] == s[offset + k],
{
    assert(result_page(s, limit, offset) + result_page(s, next, offset + limit) =~= result_page(
        s,
        limit + next,
        offset,
    ));
    assert(result_page(s, s.len(), 0) =~= s);
}

/// How many results are asked for is at least one and at most a hundred, the number that is given
/// where that is between; and what is fetched is enough for the page.
pub proof fn law_limits(limit: u32, offset: u32)
    ensures
        1 <= wanted(limit) <= 100,
        1 <= limit <= 100 ==> wanted(limit) == limit,
        fetched(limit, offset) <= 5000,
        fetched(limit, offset) >= wanted(limit),
        wanted(limit) + offset <= 5000 ==> fetched(limit, offset) >= wanted(limit) + offset,
{
}

proof fn lemma_trimmed_is_part(s: Seq<char>)
    ensures
        exists|at: int|
            0 <= at && at + trimmed(s).len() <= s.len() && #[trigger] s.subrange(
                at,
                at + trimmed(s).len(),
            ) == trimmed(s),
    decreases s.len(),
{
    if s.len() > 0 && is_space(s[0]) {
        lemma_trimmed_is_part(s.drop_first());
        let rest = s.drop_first();
        let at = choose|at: int|
            0 <= at && at + trimmed(rest).len() <= rest.len() && #[trigger] rest.subrange(
                at,
                at + trimmed(rest).len(),
            ) == trimmed(rest);
        assert(trimmed(s) == trimmed(rest));
        assert(s.subrange(at + 1, at + 1 + trimmed(s).len()) =~= trimmed(s));
    } else {
        lemma_trimmed_end(s);
        assert(trimmed(s) == trimmed_end(s));
        assert(s.subrange(0, 0int + trimmed(s).len()) =~= trimmed(s));
    }
}

proof fn lemma_part_of_part(s: Seq<char>, m: Seq<char>, p: Seq<char>)
    requires
        has_part(s, m),
        has_part(m, p),
    ensures
        has_part(s, p),
{
    let a = choose|at: int|
        0 <= at && at + m.len() <= s.len() && #[trigger] s.subrange(at, at + m.len()) == m;
    let b = choose|at: int|
        0 <= at && at + p.len() <= m.len() && #[trigger] m.subrange(at, at + p.len()) == p;
    assert(s.subrange(a + b, a + b + p.len()) =~= p);
}

proof fn lemma_chars_within_bound(s: Seq<char>, bytes: nat)
    ensures
        chars_within(s, bytes) <= s.len(),
    decreases s.len(),
{
    if s.len() > 0 && byte_len(s) > bytes {
        lemma_chars_within_bound(s.drop_last(), bytes);
    }
}

/// The text without white space at either end: what is taken away is white space, and what is left
/// is in the text, in one piece.
pub proof fn law_trimmed_text_is_in_one_piece(s: Seq<char>)
    ensures
        has_part(s, trimmed(s)),
        trimmed(s).len() > 0 ==> !is_space(trimmed(s)[0]) && !is_space(trimmed(s).last()),
        s.len() > 0 && !is_space(s[0]) && !is_space(s.last()) ==> trimmed(s) == s,
        (exists|i: int| 0 <= i < s.len() && !is_space(#[trigger] s[i])) ==> trimmed(s).len() > 0,
{
    lemma_trimmed_is_part(s);
    lemma_trimmed_start(s);
    lemma_trimmed_end(trimmed_start(s));
    lemma_trimmed_keeps(s);
}

proof fn lemma_trimmed_keeps(s: Seq<char>)
    ensures
        trimmed(s).len() > 0 ==> !is_space(trimmed(s)[0]),
        s.len() > 0 && !is_space(s[0]) && !is_space(s.last()) ==> trimmed(s) == s,
        (exists|i: int| 0 <= i < s.len() && !is_space(#[trigger] s[i])) ==> trimmed(s).len() > 0,
    decreases s.len(),
{
    if s.len() > 0 && is_space(s[0]) {
        let rest = s.drop_first();
        lemma_trimmed_keeps(rest);
        assert(trimmed(s) == trimmed(rest));
        if exists|i: int| 0 <= i < s.len() && !is_space(#[trigger] s[i]) {
            let i = choose|i: int| 0 <= i < s.len() && !is_space(#[trigger] s[i]);
            assert(!is_space(rest[i - 1]));
        }
    } else if s.len() > 0 {
        assert(trimmed_start(s) == s);
        lemma_trimmed_end(s);
        lemma_end_keeps(s);
    }
}

proof fn lemma_end_keeps(s: Seq<char>)
    requires
        s.len() > 0,
        !is_space(s[0]),
    ensures
        trimmed_end(s).len() > 0,
        !is_space(s.last()) ==> trimmed_end(s) == s,
    decreases s.len(),
{
    if is_space(s.last()) {
        assert(s.len() > 1);
        assert(s.drop_last()[0] == s[0]);
        lemma_end_keeps(s.drop_last());
    }
}

/// An excerpt is a piece of the title or of the text. It is one of the title where a word that is
/// asked for is in the title, and one of the text where it is in the text alone.
pub proof fn law_excerpt_is_a_piece(query: Seq<char>, title: Seq<char>, body: Seq<char>)
    ensures
        ({
            let shown = snippet_of(query, title, body);
            let in_title = any_term(query_terms(query, 1), lowered(title));
            let in_body = any_term(query_terms(query, 1), lowered(body));
            &&& has_part(title, shown) || has_part(body, shown)
            &&& in_title ==> has_part(title, shown)
            &&& in_body && !in_title ==> has_part(body, shown)
        }),
{
    let terms = query_terms(query, 1);
    let source = snippet_source(terms, title, body);
    let shown = snippet_of(query, title, body);
    let from = if any_term(terms, lowered(title)) || (!any_term(terms, lowered(body)) && trimmed(
        title,
    ).len() > 0) {
        title
    } else {
        body
    };
    assert(source == trimmed(from));
    law_trimmed_text_is_in_one_piece(from);
    if source.len() == 0 {
        assert(from.subrange(0, 0int + shown.len()) =~= shown);
    } else {
        let start = snippet_start(terms, source);
        let piece = byte_slice(source, start, snippet_end(start));
        let a = chars_within(source, start) as int;
        let b = chars_within(source, snippet_end(start)) as int;
        lemma_chars_within_bound(source, start);
        lemma_chars_within_bound(source, snippet_end(start));
        let to = if b < a { a } else { b };
        assert(piece == source.subrange(a, to));
        assert(source.subrange(a, a + piece.len()) =~= piece);
        assert(has_part(source, piece));
        law_trimmed_text_is_in_one_piece(piece);
        lemma_part_of_part(source, piece, shown);
        lemma_part_of_part(from, source, shown);
    }
    if any_term(terms, lowered(body)) && !any_term(terms, lowered(title)) {
        assert(from == body);
    }
}

proof fn lemma_place_is_part(s: Seq<char>, part: Seq<char>)
    ensures
        first_place(s, part) matches Some(at) ==> at + part.len() <= s.len() && s.subrange(
            at as int,
            (at + part.len()) as int,
        ) == part,
    decreases s.len(),
{
    if s.len() >= part.len() {
        if s.take(part.len() as int) == part {
            assert(s.subrange(0, 0int + part.len()) =~= part);
        } else if s.len() > 0 {
            lemma_place_is_part(s.skip(1), part);
            if let Some(at) = first_place(s.skip(1), part) {
                assert(s.subrange(at + 1int, at + 1int + part.len()) =~= s.skip(1).subrange(
                    at as int,
                    (at + part.len()) as int,
                ));
            }
        }
    }
}

proof fn lemma_no_place(terms: Seq<Seq<char>>, text: Seq<char>)
    requires
        !any_term(terms, text),
    ensures
        first_term_place(terms, text) is None,
    decreases terms.len(),
{
    if terms.len() > 0 {
        lemma_place_is_part(text, terms[0]);
        assert(!has_part(text, terms[0]));
        assert forall|i: int| 0 <= i < terms.drop_first().len() implies !has_part(
            text,
            #[trigger] terms.drop_first()[i],
        ) by {
            assert(terms.drop_first()[i] == terms[i + 1]);
        }
        lemma_no_place(terms.drop_first(), text);
    }
}

proof fn lemma_nothing_within(s: Seq<char>)
    ensures
        chars_within(s, 0) == 0,
    decreases s.len(),
{
    if s.len() > 0 {
        lemma_nothing_within(s.drop_last());
    }
}

proof fn lemma_all_within(s: Seq<char>, bytes: nat)
    requires
        byte_len(s) <= bytes,
    ensures
        chars_within(s, bytes) == s.len(),
{
}

/// Without a word of it in the text, a text of at most 180 bytes is its own excerpt.
pub proof fn law_short_text_is_its_excerpt(query: Seq<char>, body: Seq<char>)
    requires
        byte_len(trimmed(body)) <= 180,
        !any_term(query_terms(query, 1), lowered(trimmed(body))),
        !any_term(query_terms(query, 1), lowered(Seq::empty())),
    ensures
        snippet_of(query, Seq::empty(), body) == trimmed(body),
{
    let terms = query_terms(query, 1);
    let s = trimmed(body);
    law_trimmed_text_is_in_one_piece(body);
    assert(trimmed(Seq::<char>::empty()).len() == 0) by {
        law_trimmed_text_is_in_one_piece(Seq::empty());
    }
    lemma_no_place(terms, lowered(s));
    lemma_nothing_within(s);
    lemma_all_within(s, 180);
    if s.len() > 0 {
        assert(s.subrange(0, s.len() as int) =~= s);
        law_trimmed_text_is_in_one_piece(s);
    }
}

proof fn lemma_terms_after(a: Seq<char>, c: char, b: Seq<char>, min: nat)
    requires
        !is_word_char(c),
    ensures
        open_term(a.push(c) + b) == open_term(b),
        closed_terms(a.push(c) + b, min) == query_terms(a, min) + closed_terms(b, min),
    decreases b.len(),
{
    let s = a.push(c) + b;
    if b.len() == 0 {
        assert(s =~= a.push(c));
        assert(a.push(c).drop_last() =~= a);
        assert(closed_terms(s, min) =~= query_terms(a, min) + closed_terms(b, min));
    } else {
        lemma_terms_after(a, c, b.drop_last(), min);
        assert(s.drop_last() =~= a.push(c) + b.drop_last());
        assert(s.last() == b.last());
        assert(closed_terms(s, min) =~= query_terms(a, min) + closed_terms(b, min));
    }
}

/// A character that is no letter and no number parts a query: its words are those before it and
/// those after it.
pub proof fn law_words_are_parted(a: Seq<char>, c: char, b: Seq<char>, min: nat)
    requires
        !is_word_char(c),
    ensures
        query_terms(a.push(c) + b, min) == query_terms(a, min) + query_terms(b, min),
{
    lemma_terms_after(a, c, b, min);
    assert(query_terms(a.push(c) + b, min) =~= query_terms(a, min) + query_terms(b, min));
}

/// A query of letters and numbers alone is one word, in small letters; it is kept where it is as
/// long as is asked for.
pub proof fn law_one_word(s: Seq<char>, min: nat)
    requires
        forall|i: int| 0 <= i < s.len() ==> is_word_char(#[trigger] s[i]),
    ensures
        query_terms(s, min) == if open_term(s).len() >= min {
            seq![open_term(s)]
        } else {
            Seq::<Seq<char>>::empty()
        },
        s.len() > 0 ==> open_term(s) == open_term(s.drop_last()) + lowered_char(s.last()),
        s.len() == 0 ==> open_term(s) == Seq::<char>::empty(),
    decreases s.len(),
{
    if s.len() > 0 {
        let front = s.drop_last();
        assert forall|i: int| 0 <= i < front.len() implies is_word_char(#[trigger] front[i]) by {
            assert(front[i] == s[i]);
        }
        assert(is_word_char(s[s.len() - 1]));
        law_one_word(front, 0);
        assert(closed_terms(front, 0).len() == 0);
        lemma_nothing_closed(front, min);
    }
    assert(query_terms(s, min) =~= kept_term(open_term(s), min));
}

proof fn lemma_nothing_closed(s: Seq<char>, min: nat)
    requires
        forall|i: int| 0 <= i < s.len() ==> is_word_char(#[trigger] s[i]),
    ensures
        closed_terms(s, min) == Seq::<Seq<char>>::empty(),
    decreases s.len(),
{
    if s.len() > 0 {
        let front = s.drop_last();
        assert forall|i: int| 0 <= i < front.len() implies is_word_char(#[trigger] front[i]) by {
            assert(front[i] == s[i]);
        }
        assert(is_word_char(s[s.len() - 1]));
        lemma_nothing_closed(front, min);
    }
}

/// The second try looks for the words of four characters and more, with a space between each two;
/// there is none where no word is as long.
pub proof fn law_second_try(s: Seq<char>)
    ensures
        fuzzy_text(s) is None <==> query_terms(s, 4).len() == 0,
        query_terms(s, 4).len() == 1 ==> fuzzy_text(s) == Some(query_terms(s, 4)[0]),
        forall|i: int|
            0 <= i < query_terms(s, 4).len() ==> (#[trigger] query_terms(s, 4)[i]).len() >= 4,
{
    lemma_terms_long(s, 4);
}

proof fn lemma_terms_long(s: Seq<char>, min: nat)
    ensures
        forall|i: int|
            0 <= i < closed_terms(s, min).len() ==> (#[trigger] closed_terms(s, min)[i]).len()
                >= min,
        forall|i: int|
            0 <= i < query_terms(s, min).len() ==> (#[trigger] query_terms(s, min)[i]).len()
                >= min,
    decreases s.len(),
{
    if s.len() > 0 {
        let front = s.drop_last();
        lemma_terms_long(front, min);
        assert forall|i: int| 0 <= i < closed_terms(s, min).len() implies (
        #[trigger] closed_terms(s, min)[i]).len() >= min by {
            if i < closed_terms(front, min).len() {
                assert(closed_terms(s, min)[i] == closed_terms(front, min)[i]);
            }
        }
    }
    assert forall|i: int| 0 <= i < query_terms(s, min).len() implies (#[trigger] query_terms(
        s,
        min,
    )[i]).len() >= min by {
        if i < closed_terms(s, min).len() {
            assert(query_terms(s, min)[i] == closed_terms(s, min)[i]);
        }
    }
}

/// The names of the comparisons and of the two ways to put them together, written in any letters
/// and with white space around them.
pub proof fn law_names_in_filters(t: Seq<char>)
    ensures
        ({
            let s = ascii_lower(trimmed(t));
            &&& op_of(t) == Some(SearchFilterOp::Eq) <==> s == "eq"@ || s == "="@ || s == "=="@
            &&& op_of(t) == Some(SearchFilterOp::Nq) <==> s == "nq"@ || s == "ne"@ || s == "!="@
                || s == "<>"@
            &&& op_of(t) == Some(SearchFilterOp::Gt) <==> s == "gt"@ || s == ">"@
            &&& op_of(t) == Some(SearchFilterOp::Gte) <==> s == "gte"@ || s == ">="@
            &&& op_of(t) == Some(SearchFilterOp::Lt) <==> s == "lt"@ || s == "<"@
            &&& op_of(t) == Some(SearchFilterOp::Lte) <==> s == "lte"@ || s == "<="@
            &&& op_of(t) == Some(SearchFilterOp::Include) <==> s == "include"@ || s == "includes"@
                || s == "contains"@
            &&& op_of(t) == Some(SearchFilterOp::Exclude) <==> s == "exclude"@ || s == "excludes"@
                || s == "not_contains"@
            &&& logic_of(t) == Some(SearchFilterLogic::And) <==> s == "and"@
            &&& logic_of(t) == Some(SearchFilterLogic::Or) <==> s == "or"@
        }),
{
    reveal_strlit("and");
    reveal_strlit("or");
    assert("and"@.len() == 3 && "or"@.len() == 2);
    lemma_op_names_differ();
}

proof fn lemma_op_names_differ()
    ensures
        "eq"@.len() == 2 && "eq"@[0] == 'e',
        "="@.len() == 1 && "="@[0] == '=',
        "=="@.len() == 2 && "=="@[0] == '=',
        "nq"@.len() == 2 && "nq"@[0] == 'n',
        "ne"@.len() == 2 && "ne"@[0] == 'n',
        "!="@.len() == 2 && "!="@[0] == '!',
        "<>"@.len() == 2 && "<>"@[0] == '<' && "<>"@[1] == '>',
        "gt"@.len() == 2 && "gt"@[0] == 'g',
        ">"@.len() == 1 && ">"@[0] == '>',
        "gte"@.len() == 3 && "gte"@[0] == 'g',
        ">="@.len() == 2 && ">="@[0] == '>',
        "lt"@.len() == 2 && "lt"@[0] == 'l',
        "<"@.len() == 1 && "<"@[0] == '<',
        "lte"@.len() == 3 && "lte"@[0] == 'l',
        "<="@.len() == 2 && "<="@[0] == '<' && "<="@[1] == '=',
        "include"@.len() == 7 && "include"@[0] == 'i',
        "includes"@.len() == 8 && "includes"@[0] == 'i',
        "contains"@.len() == 8 && "contains"@[0] == 'c',
        "exclude"@.len() == 7 && "exclude"@[0] == 'e',
        "excludes"@.len() == 8 && "excludes"@[0] == 'e',
        "not_contains"@.len() == 12,
{
    reveal_strlit("eq");
    reveal_strlit("=");
    reveal_strlit("==");
    reveal_strlit("nq");
    reveal_strlit("ne");
    reveal_strlit("!=");
    reveal_strlit("<>");
    reveal_strlit("gt");
    reveal_strlit(">");
    reveal_strlit("gte");
    reveal_strlit(">=");
    reveal_strlit("lt");
    reveal_strlit("<");
    reveal_strlit("lte");
    reveal_strlit("<=");
    reveal_strlit("include");
    reveal_strlit("includes");
    reveal_strlit("contains");
    reveal_strlit("exclude");
    reveal_strlit("excludes");
    reveal_strlit("not_contains");
}

/// Whether a text is a piece of a number: two digits or more, sixteen at most.
pub open spec fn number_piece(p: Seq<char>) -> bool {
    2 <= p.len() <= 16 && forall|i: int| 0 <= i < p.len() ==> is_digit(#[trigger] p[i])
}

proof fn lemma_run(s: Seq<char>)
    ensures
        forall|i: int| 0 <= i < last_run(s).len() ==> is_digit(#[trigger] last_run(s)[i]),
        last_run(s).len() <= s.len(),
        s.subrange(s.len() - last_run(s).len(), s.len() as int) == last_run(s),
    decreases s.len(),
{
    if s.len() > 0 && is_digit(s.last()) {
        lemma_run(s.drop_last());
        assert(s.subrange(s.len() - last_run(s).len(), s.len() as int) =~= last_run(s));
    } else {
        assert(s.subrange(s.len() as int, s.len() as int) =~= last_run(s));
    }
}

proof fn lemma_run_pieces(run: Seq<char>, n: int, p: Seq<char>)
    requires
        0 <= n <= run.len(),
        forall|i: int| 0 <= i < run.len() ==> is_digit(#[trigger] run[i]),
        fragments_before(run, n).contains(p),
    ensures
        number_piece(p),
        has_part(run, p),
    decreases n,
{
    if n > 0 {
        if fragments_before(run, n - 1).contains(p) {
            lemma_run_pieces(run, n - 1, p);
        } else {
            let all = fragments_before(run, n);
            let k = choose|k: int| 0 <= k < all.len() && all[k] == p;
            let before = fragments_before(run, n - 1).len();
            assert(k >= before) by {
                if k < before {
                    assert(fragments_before(run, n - 1)[k] == p);
                }
            }
            assert(p == fragments_at(run, n - 1)[k - before]);
            assert(p == run.subrange(n - 1, n - 1 + p.len()));
        }
    }
}

proof fn lemma_pieces_sound(s: Seq<char>, p: Seq<char>)
    ensures
        ended_fragments(s).contains(p) || run_fragments(last_run(s)).contains(p) ==> number_piece(
            p,
        ) && has_part(s, p),
    decreases s.len(),
{
    lemma_run(s);
    let run = last_run(s);
    if run_fragments(run).contains(p) {
        lemma_run_pieces(run, run.len() as int, p);
        let from = s.len() - run.len();
        assert(s.subrange(from, from + run.len()) == run);
        lemma_part_of_part(s, run, p);
    }
    if s.len() > 0 && ended_fragments(s).contains(p) {
        let front = s.drop_last();
        lemma_pieces_sound(front, p);
        if !is_digit(s.last()) {
            let all = ended_fragments(s);
            let k = choose|k: int| 0 <= k < all.len() && all[k] == p;
            if k < ended_fragments(front).len() {
                assert(ended_fragments(front)[k] == p);
            } else {
                assert(run_fragments(last_run(front))[k - ended_fragments(front).len()] == p);
            }
        }
        assert(s.subrange(0, 0int + front.len()) =~= front);
        lemma_part_of_part(s, front, p);
    }
}

proof fn lemma_run_pieces_all(run: Seq<char>, n: int, a: int, b: int)
    requires
        0 <= a < n <= run.len(),
        2 <= b - a <= 16,
        b <= run.len(),
    ensures
        fragments_before(run, n).contains(run.subrange(a, b)),
    decreases n,
{
    let p = run.subrange(a, b);
    let before = fragments_before(run, n - 1);
    let here = fragments_at(run, n - 1);
    if a == n - 1 {
        assert(here[b - a - 2] == p);
        assert(fragments_before(run, n)[before.len() + (b - a - 2)] == p);
    } else {
        lemma_run_pieces_all(run, n - 1, a, b);
        let k = choose|k: int| 0 <= k < before.len() && before[k] == p;
        assert(fragments_before(run, n)[k] == p);
    }
}

proof fn lemma_pieces_complete(s: Seq<char>, a: int, b: int)
    requires
        0 <= a,
        b <= s.len(),
        number_piece(s.subrange(a, b)),
        a <= b,
    ensures
        text_fragments(s).contains(s.subrange(a, b)),
    decreases s.len(),
{
    let p = s.subrange(a, b);
    let run = last_run(s);
    lemma_run(s);
    let from = s.len() - run.len();
    if b == s.len() {
        assert forall|i: int| a <= i < s.len() implies is_digit(#[trigger] s[i]) by {
            assert(p[i - a] == s[i]);
        }
        lemma_run_reaches(s, a);
        assert(run.subrange(a - from, b - from) =~= p);
        lemma_run_pieces_all(run, run.len() as int, a - from, b - from);
        let k = choose|k: int| 0 <= k < run_fragments(run).len() && run_fragments(run)[k] == p;
        assert(text_fragments(s)[ended_fragments(s).len() + k] == p);
    } else {
        let front = s.drop_last();
        assert(front.subrange(a, b) =~= p);
        lemma_pieces_complete(front, a, b);
        let all = text_fragments(front);
        let k = choose|k: int| 0 <= k < all.len() && all[k] == p;
        if is_digit(s.last()) {
            if k < ended_fragments(front).len() {
                assert(text_fragments(s)[k] == p);
            } else {
                let old = last_run(front);
                assert(run == old.push(s.last()));
                lemma_run(front);
                lemma_run_pieces(old, old.len() as int, p);
                let at = choose|at: int|
                    0 <= at && at + p.len() <= old.len() && #[trigger] old.subrange(
                        at,
                        at + p.len(),
                    ) == p;
                assert(run.subrange(at, at + p.len()) =~= p);
                lemma_run_pieces_all(run, run.len() as int, at, at + p.len());
                let m = choose|m: int|
                    0 <= m < run_fragments(run).len() && run_fragments(run)[m] == p;
                assert(text_fragments(s)[ended_fragments(s).len() + m] == p);
            }
        } else {
            assert(text_fragments(s)[k] == p);
        }
    }
}

proof fn lemma_run_reaches(s: Seq<char>, a: int)
    requires
        0 <= a <= s.len(),
        forall|i: int| a <= i < s.len() ==> is_digit(#[trigger] s[i]),
    ensures
        last_run(s).len() >= s.len() - a,
    decreases s.len(),
{
    if a < s.len() {
        assert(is_digit(s[s.len() - 1]));
        assert forall|i: int| a <= i < s.drop_last().len() implies is_digit(
            #[trigger] s.drop_last()[i],
        ) by {
            assert(s.drop_last()[i] == s[i]);
        }
        lemma_run_reaches(s.drop_last(), a);
    }
}

proof fn lemma_first_kept(s: Seq<Seq<char>>)
    ensures
        first_kept(s).len() <= 512,
        forall|p: Seq<char>| #[trigger] first_kept(s).contains(p) ==> s.contains(p),
        first_kept(s).len() < 512 ==> forall|p: Seq<char>|
            s.contains(p) ==> #[trigger] first_kept(s).contains(p),
    decreases s.len(),
{
    if s.len() > 0 {
        let front = s.drop_last();
        let before = first_kept(front);
        let all = first_kept(s);
        lemma_first_kept(front);
        assert forall|p: Seq<char>| #[trigger] all.contains(p) implies s.contains(p) by {
            let k = choose|k: int| 0 <= k < all.len() && all[k] == p;
            if k < before.len() {
                assert(before[k] == p);
                assert(before.contains(p));
                assert(front.contains(p));
                let m = choose|m: int| 0 <= m < front.len() && front[m] == p;
                assert(s[m] == p);
            } else {
                assert(s[s.len() - 1] == p);
            }
        }
        if all.len() < 512 {
            assert forall|p: Seq<char>| s.contains(p) implies #[trigger] all.contains(p) by {
                let m = choose|m: int| 0 <= m < s.len() && s[m] == p;
                if m < front.len() {
                    assert(front[m] == p);
                    assert(before.contains(p));
                    let k = choose|k: int| 0 <= k < before.len() && before[k] == p;
                    assert(all[k] == p);
                } else if before.contains(p) {
                    let k = choose|k: int| 0 <= k < before.len() && before[k] == p;
                    assert(all[k] == p);
                } else {
                    assert(all[before.len() as int] == p);
                }
            }
        }
    }
}

/// The pieces of numbers by which a document is found are in its title, its text or its content,
/// at most 512 of them; and where there are fewer, each piece of a number there is one.
pub proof fn law_pieces_of_numbers(a: Seq<char>, b: Seq<char>, c: Seq<char>, p: Seq<char>)
    ensures
        numeric_fragments(a, b, c).len() <= 512,
        numeric_fragments(a, b, c).contains(p) ==> number_piece(p) && (has_part(a, p) || has_part(
            b,
            p,
        ) || has_part(c, p)),
        numeric_fragments(a, b, c).len() < 512 && number_piece(p) && (has_part(a, p) || has_part(
            b,
            p,
        ) || has_part(c, p)) ==> numeric_fragments(a, b, c).contains(p),
{
    broadcast use vstd::seq_lib::group_to_multiset_ensures;

    let all = text_fragments(a) + text_fragments(b) + text_fragments(c);
    let kept = first_kept(all);
    lemma_first_kept(all);
    law_texts_sorted(kept);
    assert(sorted_texts(kept).len() == sorted_texts(kept).to_multiset().len());
    assert(kept.len() == kept.to_multiset().len());
    assert(sorted_texts(kept).contains(p) <==> kept.contains(p)) by {
        assert(sorted_texts(kept).to_multiset().count(p) == kept.to_multiset().count(p));
    }
    if kept.contains(p) {
        let k = choose|k: int| 0 <= k < all.len() && all[k] == p;
        lemma_from_text(a, p, k);
        lemma_from_text(b, p, k - text_fragments(a).len());
        lemma_from_text(c, p, k - text_fragments(a).len() - text_fragments(b).len());
    }
    if number_piece(p) {
        if has_part(a, p) {
            lemma_of_part(a, p);
            let k = choose|k: int|
                0 <= k < text_fragments(a).len() && text_fragments(a)[k] == p;
            assert(all[k] == p);
        }
        if has_part(b, p) {
            lemma_of_part(b, p);
            let k = choose|k: int|
                0 <= k < text_fragments(b).len() && text_fragments(b)[k] == p;
            assert(all[text_fragments(a).len() + k] == p);
        }
        if has_part(c, p) {
            lemma_of_part(c, p);
            let k = choose|k: int|
                0 <= k < text_fragments(c).len() && text_fragments(c)[k] == p;
            assert(all[text_fragments(a).len() + text_fragments(b).len() + k] == p);
        }
    }
}

proof fn lemma_of_part(s: Seq<char>, p: Seq<char>)
    requires
        number_piece(p),
        has_part(s, p),
    ensures
        text_fragments(s).contains(p),
{
    let at = choose|at: int|
        0 <= at && at + p.len() <= s.len() && #[trigger] s.subrange(at, at + p.len()) == p;
    lemma_pieces_complete(s, at, at + p.len());
}

proof fn lemma_from_text(s: Seq<char>, p: Seq<char>, k: int)
    ensures
        0 <= k < text_fragments(s).len() && text_fragments(s)[k] == p ==> number_piece(p)
            && has_part(s, p),
{
    if 0 <= k < text_fragments(s).len() && text_fragments(s)[k] == p {
        let ended = ended_fragments(s);
        if k < ended.len() {
            assert(ended[k] == p);
        } else {
            assert(run_fragments(last_run(s))[k - ended.len()] == p);
        }
        lemma_pieces_sound(s, p);
    }
}

/// A search asks for nothing where its text is blank and its filter holds no comparison.
pub proof fn law_empty_searches(q: SearchQuery)
    ensures
        trimmed(q.query@).len() > 0 ==> !asks_nothing(q),
        trimmed(q.query@).len() == 0 && q.filter is None ==> asks_nothing(q),
        q.filter matches Some(g) ==> (g.filters@.len() > 0 ==> !asks_nothing(q)),
        q.filter matches Some(g) ==> (trimmed(q.query@).len() == 0 && g.filters@.len() == 0
            && g.groups@.len() == 0 ==> asks_nothing(q)),
{
}

/// A search looks into the content, and into the pieces of numbers where it asks for a number;
/// where it names fields of the entity alone, it looks into those.
pub proof fn law_where_a_search_looks(
    query: Seq<char>,
    fields: Seq<Seq<char>>,
    business: Seq<Seq<char>>,
    i: int,
)
    ensures
        ({
            let all = parser_fields(query, fields, business);
            &&& all.len() > 0
            &&& business.len() == 0 || fields.len() > 0 ==> all[0] == "content"@
            &&& (business.len() == 0 || fields.len() > 0) && has_number(query) ==> all.contains(
                "numeric_fragments"@,
            )
            &&& 0 <= i < business.len() && business_field_of(business[i]) is Some ==> all.contains(
                business_field_of(business[i])->0,
            )
            &&& business.len() == 0 && !has_number(query) ==> all == seq!["content"@]
        }),
        forall|k: int|
            0 <= k && k + 1 < query.len() && is_digit(#[trigger] query[k]) && is_digit(query[k + 1])
                ==> has_number(query),
        query.len() < 2 ==> !has_number(query),
{
    let all = parser_fields(query, fields, business);
    let known = business_fields_of(business);
    if 0 <= i < business.len() && business_field_of(business[i]) is Some {
        lemma_known_field(business, i);
        let f = business_field_of(business[i])->0;
        let k = choose|k: int| 0 <= k < known.len() && known[k] == f;
        assert(all[all.len() - known.len() + k] == f);
    }
    if (business.len() == 0 || fields.len() > 0) && has_number(query) {
        assert(all[1] == "numeric_fragments"@);
    }
    if business.len() == 0 {
        assert(known.len() == 0);
        assert(!has_number(query) ==> all =~= seq!["content"@]);
    }
}

proof fn lemma_known_field(names: Seq<Seq<char>>, i: int)
    requires
        0 <= i < names.len(),
        business_field_of(names[i]) is Some,
    ensures
        business_fields_of(names).contains(business_field_of(names[i])->0),
    decreases names.len(),
{
    let front = names.drop_last();
    let before = business_fields_of(front);
    let all = business_fields_of(names);
    let f = business_field_of(names[i])->0;
    if i < front.len() {
        assert(front[i] == names[i]);
        lemma_known_field(front, i);
        let k = choose|k: int| 0 <= k < before.len() && before[k] == f;
        assert(all[k] == f);
    } else {
        assert(all[before.len() as int] == f);
    }
}

/// The fields of the entity go by their own names, and some by a second one.
pub proof fn law_names_of_entity_fields(name: Seq<char>)
    ensures
        ({
            let s = field_name(name);
            let f = business_field_of(name);
            &&& s == "status"@ || s == "category"@ || s == "source"@ || s == "app_id"@ || s
                == "agent_id"@ || s == "session_id"@ || s == "collection_uuid"@ || s
                == "collection_type"@ || s == "datatype"@ || s == "archived"@ ==> f == Some(s)
            &&& s == "data_type"@ ==> f == Some("datatype"@)
            &&& s == "collection_id"@ ==> f == Some("collection_uuid"@)
            &&& s == "deleted"@ ==> f == Some("archived"@)
        }),
{
    lemma_entity_names();
}

proof fn lemma_entity_names()
    ensures
        "status"@.len() == 6 && "status"@[1] == 't',
        "source"@.len() == 6 && "source"@[1] == 'o',
        "app_id"@.len() == 6 && "app_id"@[1] == 'p',
        "datatype"@.len() == 8 && "datatype"@[0] == 'd',
        "category"@.len() == 8 && "category"@[0] == 'c',
        "agent_id"@.len() == 8 && "agent_id"@[0] == 'a' && "agent_id"@[1] == 'g',
        "archived"@.len() == 8 && "archived"@[0] == 'a' && "archived"@[1] == 'r',
        "data_type"@.len() == 9,
        "session_id"@.len() == 10,
        "collection_uuid"@.len() == 15 && "collection_uuid"@[11] == 'u',
        "collection_type"@.len() == 15 && "collection_type"@[11] == 't',
        "collection_id"@.len() == 13,
        "deleted"@.len() == 7,
{
    reveal_strlit("status");
    reveal_strlit("source");
    reveal_strlit("app_id");
    reveal_strlit("datatype");
    reveal_strlit("category");
    reveal_strlit("agent_id");
    reveal_strlit("archived");
    reveal_strlit("data_type");
    reveal_strlit("session_id");
    reveal_strlit("collection_uuid");
    reveal_strlit("collection_type");
    reveal_strlit("collection_id");
    reveal_strlit("deleted");
}

/// A result says in which field it was found: in the field of the content where no field of the
/// entity is asked for; and where one is asked for and holds a word of the query, in one that
/// is asked for.
pub proof fn law_results_name_their_field(
    doc: SegmentView,
    query: Seq<char>,
    names: Seq<Seq<char>>,
    i: int,
)
    ensures
        ({
            let f = result_field(doc, query, names);
            let own = trimmed(value_text(doc, "content_field"@));
            &&& names.len() == 0 && own.len() > 0 ==> f == own
            &&& names.len() == 0 && own.len() == 0 ==> f == "content"@
            &&& 0 <= i < names.len() && business_field_of(names[i]) is Some && lowered(
                value_text(doc, business_field_of(names[i])->0),
            ).len() > 0 && any_term(
                query_terms(query, 1),
                lowered(value_text(doc, business_field_of(names[i])->0)),
            ) ==> exists|k: int|
                0 <= k < names.len() && business_field_of(#[trigger] names[k]) is Some && f
                    == field_name(names[k])
        }),
{
    if 0 <= i < names.len() && business_field_of(names[i]) is Some && lowered(
        value_text(doc, business_field_of(names[i])->0),
    ).len() > 0 && any_term(
        query_terms(query, 1),
        lowered(value_text(doc, business_field_of(names[i])->0)),
    ) {
        lemma_field_is_asked_for(doc, query_terms(query, 1), names, i);
    }
}

proof fn lemma_field_is_asked_for(
    doc: SegmentView,
    terms: Seq<Seq<char>>,
    names: Seq<Seq<char>>,
    i: int,
)
    requires
        0 <= i < names.len(),
        business_field_of(names[i]) is Some,
        lowered(value_text(doc, business_field_of(names[i])->0)).len() > 0,
        any_term(terms, lowered(value_text(doc, business_field_of(names[i])->0))),
    ensures
        business_hit(doc, terms, names) matches Some(f) && exists|k: int|
            0 <= k < names.len() && business_field_of(#[trigger] names[k]) is Some && f
                == field_name(names[k]),
    decreases names.len(),
{
    let rest = names.drop_first();
    if i == 0 {
        assert(business_field_of(names[0]) is Some);
    } else {
        assert(rest[i - 1] == names[i]);
        lemma_field_is_asked_for(doc, terms, rest, i - 1);
        let f = business_hit(doc, terms, rest)->0;
        let k = choose|k: int|
            0 <= k < rest.len() && business_field_of(#[trigger] rest[k]) is Some && f
                == field_name(rest[k]);
        assert(names[k + 1] == rest[k]);
        assert(business_field_of(names[0]) is Some || business_hit(doc, terms, names) == Some(f));
    }
}

/// The excerpt of a result that was found in a field of the entity is the name and the value of the
/// field; else it is one of the title and the content.
pub proof fn law_excerpts_of_fields(doc: SegmentView, query: Seq<char>, field: Seq<char>)
    ensures
        business_field_of(field) matches Some(f) ==> (value_text(doc, f).len() > 0
            ==> result_snippet(doc, query, field) == field + ": "@ + value_text(doc, f)),
        business_field_of(field) is None ==> result_snippet(doc, query, field) == snippet_of(
            query,
            value_text(doc, "title"@),
            value_text(doc, "content"@),
        ),
{
}

/// The window of an excerpt starts at most eighty bytes before the first word that is found, and not
/// behind it; it is a hundred and eighty bytes wide.
pub proof fn law_window_holds_the_word(terms: Seq<Seq<char>>, text: Seq<char>)
    ensures
        ({
            let start = snippet_start(terms, text);
            &&& first_term_place(terms, lowered(text)) matches Some(at) ==> {
                let bytes = capped_bytes(lowered(text).take(at as int), usize::MAX as nat);
                &&& start <= bytes <= start + 80
                &&& bytes >= 80 ==> bytes == start + 80
            }
            &&& first_term_place(terms, lowered(text)) is None ==> start == 0
            &&& start + 180 <= usize::MAX ==> snippet_end(start) == start + 180
        }),
{
}

/// So many characters fit into a number of bytes as take no more bytes; one more would.
pub proof fn law_characters_fit_into_bytes(s: Seq<char>, bytes: nat)
    ensures
        chars_within(s, bytes) <= s.len(),
        byte_len(s.take(chars_within(s, bytes) as int)) <= bytes,
        chars_within(s, bytes) < s.len() ==> byte_len(
            s.take(chars_within(s, bytes) + 1int),
        ) > bytes,
    decreases s.len(),
{
    assert(s.take(s.len() as int) =~= s);
    if byte_len(s) > bytes {
        let front = s.drop_last();
        law_characters_fit_into_bytes(front, bytes);
        let n = chars_within(front, bytes) as int;
        assert(s.take(n) =~= front.take(n));
        if n < front.len() {
            assert(s.take(n + 1) =~= front.take(n + 1));
        } else {
            assert(s.take(n + 1) =~= s);
        }
    }
}

} // verus!
