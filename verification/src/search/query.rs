//! What is asked of the search, and how the index is asked.
use super::documents::SearchEntityKind;
use super::fields::{field_name, is_empty, normalize_search_field_name};
use super::segments::{has_number, query_contains_numeric_fragment};
use crate::json::{list_view, Json, JsonView};
use crate::letters::{
    ascii_lower, is_word_char, lowered_char, put_all, to_ascii_lower, to_lower_char,
};
use crate::text::{cat3, chars_of, join, joined, owned, same, text_of, trim, trimmed, views};
use vstd::prelude::*;

verus! {

/// How the parts of a filter go together.
#[derive(Clone, Copy, Debug, PartialEq, Eq, Structural)]
pub enum SearchFilterLogic {
    And,
    Or,
}

impl Default for SearchFilterLogic {
    fn default() -> (logic: Self)
        ensures
            logic is And,
    {
        SearchFilterLogic::And
    }
}

pub open spec fn logic_of(text: Seq<char>) -> Option<SearchFilterLogic> {
    let name = ascii_lower(trimmed(text));
    if name == "and"@ {
        Some(SearchFilterLogic::And)
    } else if name == "or"@ {
        Some(SearchFilterLogic::Or)
    } else {
        None
    }
}

impl SearchFilterLogic {
    /// The logic with a name; the message of the error names what was asked for.
    pub fn parse_name(value: &str) -> (out: Result<Self, String>)
        ensures
            match logic_of(value@) {
                Some(logic) => out == Ok::<SearchFilterLogic, String>(logic),
                None => out matches Err(e) && e@ == "Unsupported search filter logic '"@
                    + ascii_lower(trimmed(value@)) + "'"@,
            },
    {
        let short = trim(value);
        let name = to_ascii_lower(short.as_str());
        if same(name.as_str(), "and") {
            Ok(SearchFilterLogic::And)
        } else if same(name.as_str(), "or") {
            Ok(SearchFilterLogic::Or)
        } else {
            Err(cat3("Unsupported search filter logic '", name.as_str(), "'"))
        }
    }
}

/// How a value is compared.
#[derive(Clone, Copy, Debug, PartialEq, Eq, Structural)]
pub enum SearchFilterOp {
    Eq,
    Nq,
    Gt,
    Gte,
    Lt,
    Lte,
    Include,
    Exclude,
}

pub open spec fn op_of(text: Seq<char>) -> Option<SearchFilterOp> {
    let s = ascii_lower(trimmed(text));
    if s == "eq"@ || s == "="@ || s == "=="@ {
        Some(SearchFilterOp::Eq)
    } else if s == "nq"@ || s == "ne"@ || s == "!="@ || s == "<>"@ {
        Some(SearchFilterOp::Nq)
    } else if s == "gt"@ || s == ">"@ {
        Some(SearchFilterOp::Gt)
    } else if s == "gte"@ || s == ">="@ {
        Some(SearchFilterOp::Gte)
    } else if s == "lt"@ || s == "<"@ {
        Some(SearchFilterOp::Lt)
    } else if s == "lte"@ || s == "<="@ {
        Some(SearchFilterOp::Lte)
    } else if s == "include"@ || s == "includes"@ || s == "contains"@ {
        Some(SearchFilterOp::Include)
    } else if s == "exclude"@ || s == "excludes"@ || s == "not_contains"@ {
        Some(SearchFilterOp::Exclude)
    } else {
        None
    }
}

impl SearchFilterOp {
    /// The comparison with a name or sign; the message of the error names what was asked
    /// for.
    pub fn parse_name(value: &str) -> (out: Result<Self, String>)
        ensures
            match op_of(value@) {
                Some(op) => out == Ok::<SearchFilterOp, String>(op),
                None => out matches Err(e) && e@ == "Unsupported search filter op '"@ + ascii_lower(
                    trimmed(value@),
                ) + "'"@,
            },
    {
        let short = trim(value);
        let name = to_ascii_lower(short.as_str());
        let s = name.as_str();
        if same(s, "eq") || same(s, "=") || same(s, "==") {
            Ok(SearchFilterOp::Eq)
        } else if same(s, "nq") || same(s, "ne") || same(s, "!=") || same(s, "<>") {
            Ok(SearchFilterOp::Nq)
        } else if same(s, "gt") || same(s, ">") {
            Ok(SearchFilterOp::Gt)
        } else if same(s, "gte") || same(s, ">=") {
            Ok(SearchFilterOp::Gte)
        } else if same(s, "lt") || same(s, "<") {
            Ok(SearchFilterOp::Lt)
        } else if same(s, "lte") || same(s, "<=") {
            Ok(SearchFilterOp::Lte)
        } else if same(s, "include") || same(s, "includes") || same(s, "contains") {
            Ok(SearchFilterOp::Include)
        } else if same(s, "exclude") || same(s, "excludes") || same(s, "not_contains") {
            Ok(SearchFilterOp::Exclude)
        } else {
            Err(cat3("Unsupported search filter op '", s, "'"))
        }
    }
}

/// A comparison of some fields with some values.
#[derive(Debug)]
pub struct SearchFieldFilter {
    pub fields: Vec<String>,
    pub op: SearchFilterOp,
    pub values: Vec<Json>,
}

/// A comparison over character sequences.
pub struct FilterView {
    pub fields: Seq<Seq<char>>,
    pub op: SearchFilterOp,
    pub values: Seq<JsonView>,
}

impl View for SearchFieldFilter {
    type V = FilterView;

    open spec fn view(&self) -> FilterView {
        FilterView { fields: views(self.fields@), op: self.op, values: list_view(self.values@) }
    }
}

/// Comparisons and groups of comparisons.
#[derive(Debug)]
pub struct SearchFilterGroup {
    pub logic: SearchFilterLogic,
    pub filters: Vec<SearchFieldFilter>,
    pub groups: Vec<SearchFilterGroup>,
}

/// Whether a group asks for nothing.
pub open spec fn group_empty(g: SearchFilterGroup) -> bool
    decreases g,
{
    g.filters@.len() == 0 && forall|i: int|
        0 <= i < g.groups@.len() ==> group_empty(#[trigger] g.groups@[i])
}

impl SearchFilterGroup {
    /// Whether the group asks for nothing.
    pub fn is_empty(&self) -> (r: bool)
        ensures
            r == group_empty(*self),
        decreases *self,
    {
        if self.filters.len() > 0 {
            return false;
        }
        let mut i: usize = 0;
        while i < self.groups.len()
            invariant
                i <= self.groups@.len(),
                self.filters@.len() == 0,
                forall|k: int| 0 <= k < i ==> group_empty(#[trigger] self.groups@[k]),
            decreases self.groups@.len() - i,
        {
            proof {
                assert(decreases_to!(*self => self.groups@[i as int]));
            }
            if !self.groups[i].is_empty() {
                return false;
            }
            i = i + 1;
        }
        true
    }
}

/// What is asked.
#[derive(Debug)]
pub struct SearchQuery {
    pub query: String,
    pub kinds: Vec<SearchEntityKind>,
    pub fields: Vec<String>,
    pub business_fields: Vec<String>,
    pub filter: Option<SearchFilterGroup>,
    pub limit: u32,
    pub offset: u32,
}

impl Default for SearchQuery {
    fn default() -> (q: Self)
        ensures
            q.query@.len() == 0,
            q.kinds@.len() == 0,
            q.fields@.len() == 0,
            q.business_fields@.len() == 0,
            q.filter is None,
            q.limit == 20,
            q.offset == 0,
    {
        let q = SearchQuery {
            query: owned(""),
            kinds: Vec::new(),
            fields: Vec::new(),
            business_fields: Vec::new(),
            filter: None,
            limit: 20,
            offset: 0,
        };
        proof {
            reveal_strlit("");
        }
        q
    }
}

/// The word that a text ends with, in small letters.
pub open spec fn open_term(s: Seq<char>) -> Seq<char>
    decreases s.len(),
{
    if s.len() == 0 || !is_word_char(s.last()) {
        Seq::empty()
    } else {
        open_term(s.drop_last()) + lowered_char(s.last())
    }
}

pub open spec fn kept_term(term: Seq<char>, min: nat) -> Seq<Seq<char>> {
    if term.len() >= min {
        seq![term]
    } else {
        Seq::empty()
    }
}

/// The words that end within a text.
pub open spec fn closed_terms(s: Seq<char>, min: nat) -> Seq<Seq<char>>
    decreases s.len(),
{
    if s.len() == 0 {
        Seq::empty()
    } else if is_word_char(s.last()) {
        closed_terms(s.drop_last(), min)
    } else {
        closed_terms(s.drop_last(), min) + kept_term(open_term(s.drop_last()), min)
    }
}

/// The words of a query with at least `min` characters, in small letters.
pub open spec fn query_terms(s: Seq<char>, min: nat) -> Seq<Seq<char>> {
    closed_terms(s, min) + kept_term(open_term(s), min)
}

fn keep_term(terms: &mut Vec<String>, current: &Vec<char>, min_chars: usize)
    ensures
        views(final(terms)@) == views(old(terms)@) + kept_term(current@, min_chars as nat),
{
    if current.len() >= min_chars {
        let text = text_of(current, 0, current.len());
        let ghost added = text@;
        let ghost before = terms@;
        terms.push(text);
        proof {
            assert(added =~= current@);
            assert(views(terms@) =~= views(before) + seq![current@]);
        }
    } else {
        proof {
            assert(views(terms@) =~= views(old(terms)@) + kept_term(current@, min_chars as nat));
        }
    }
}

/// The words of a query with at least `min_chars` characters, in small letters.
pub fn normalized_query_terms(query: &str, min_chars: usize) -> (terms: Vec<String>)
    ensures
        views(terms@) == query_terms(query@, min_chars as nat),
{
    let chars = chars_of(query);
    let mut terms: Vec<String> = Vec::new();
    let mut current: Vec<char> = Vec::new();
    let mut i: usize = 0;
    proof {
        assert(query@.take(0) =~= Seq::<char>::empty());
        assert(views(terms@) =~= Seq::empty());
    }
    while i < chars.len()
        invariant
            i <= chars@.len(),
            chars@ == query@,
            current@ == open_term(query@.take(i as int)),
            views(terms@) == closed_terms(query@.take(i as int), min_chars as nat),
        decreases chars@.len() - i,
    {
        let c = chars[i];
        proof {
            assert(query@.take(i + 1).drop_last() =~= query@.take(i as int));
            assert(query@.take(i + 1).last() == c);
        }
        if c.is_alphanumeric() {
            let small = to_lower_char(c);
            let small_chars = chars_of(small.as_str());
            put_all(&mut current, &small_chars);
        } else {
            keep_term(&mut terms, &current, min_chars);
            current.clear();
            proof {
                assert(current@ =~= Seq::empty());
            }
        }
        i = i + 1;
    }
    proof {
        assert(query@.take(i as int) =~= query@);
    }
    keep_term(&mut terms, &current, min_chars);
    terms
}

/// What is asked where nothing was found: the longer words.
pub open spec fn fuzzy_text(s: Seq<char>) -> Option<Seq<char>> {
    if query_terms(s, 4).len() == 0 {
        None
    } else {
        Some(joined(query_terms(s, 4), " "@))
    }
}

/// What is asked where nothing was found: the longer words.
pub fn fuzzy_fallback_query_text(query: &str) -> (out: Option<String>)
    ensures
        crate::json::opt_view(out) == fuzzy_text(query@),
{
    let terms = normalized_query_terms(query, 4);
    proof {
        assert(views(terms@).len() == terms@.len());
    }
    if terms.len() == 0 {
        None
    } else {
        Some(join(&terms, " "))
    }
}

/// The field of the index for the name of a fact.
pub open spec fn business_field_of(name: Seq<char>) -> Option<Seq<char>> {
    let s = field_name(name);
    if s == "status"@ {
        Some("status"@)
    } else if s == "datatype"@ || s == "data_type"@ {
        Some("datatype"@)
    } else if s == "category"@ {
        Some("category"@)
    } else if s == "source"@ {
        Some("source"@)
    } else if s == "app_id"@ {
        Some("app_id"@)
    } else if s == "agent_id"@ {
        Some("agent_id"@)
    } else if s == "session_id"@ {
        Some("session_id"@)
    } else if s == "collection_uuid"@ || s == "collection_id"@ {
        Some("collection_uuid"@)
    } else if s == "collection_type"@ {
        Some("collection_type"@)
    } else if s == "archived"@ || s == "deleted"@ {
        Some("archived"@)
    } else {
        None
    }
}

/// The field of the index for the name of a fact.
pub fn business_search_field(name: &str) -> (out: Option<&'static str>)
    ensures
        match out {
            Some(f) => business_field_of(name@) == Some(f@),
            None => business_field_of(name@) is None,
        },
{
    let normal = normalize_search_field_name(name);
    let s = normal.as_str();
    if same(s, "status") {
        Some("status")
    } else if same(s, "datatype") || same(s, "data_type") {
        Some("datatype")
    } else if same(s, "category") {
        Some("category")
    } else if same(s, "source") {
        Some("source")
    } else if same(s, "app_id") {
        Some("app_id")
    } else if same(s, "agent_id") {
        Some("agent_id")
    } else if same(s, "session_id") {
        Some("session_id")
    } else if same(s, "collection_uuid") || same(s, "collection_id") {
        Some("collection_uuid")
    } else if same(s, "collection_type") {
        Some("collection_type")
    } else if same(s, "archived") || same(s, "deleted") {
        Some("archived")
    } else {
        None
    }
}

pub open spec fn business_fields_of(names: Seq<Seq<char>>) -> Seq<Seq<char>>
    decreases names.len(),
{
    if names.len() == 0 {
        Seq::empty()
    } else {
        let before = business_fields_of(names.drop_last());
        match business_field_of(names.last()) {
            Some(f) => before.push(f),
            None => before,
        }
    }
}

/// The fields of the index in which a query looks.
pub open spec fn parser_fields(
    query: Seq<char>,
    fields: Seq<Seq<char>>,
    business_fields: Seq<Seq<char>>,
) -> Seq<Seq<char>> {
    let texts = if business_fields.len() == 0 || fields.len() > 0 {
        if has_number(query) {
            seq!["content"@, "numeric_fragments"@]
        } else {
            seq!["content"@]
        }
    } else {
        Seq::empty()
    };
    let all = texts + business_fields_of(business_fields);
    if all.len() == 0 {
        seq!["content"@]
    } else {
        all
    }
}

fn put_name(out: &mut Vec<String>, name: &str)
    ensures
        views(final(out)@) == views(old(out)@).push(name@),
{
    let ghost before = out@;
    out.push(owned(name));
    proof {
        assert(views(out@) =~= views(before).push(name@));
    }
}

/// The fields of the index in which a query looks.
pub fn parser_fields_for_query(query: &SearchQuery) -> (out: Vec<String>)
    ensures
        views(out@) == parser_fields(
            query.query@,
            views(query.fields@),
            views(query.business_fields@),
        ),
{
    let mut out: Vec<String> = Vec::new();
    let ghost names = views(query.business_fields@);
    proof {
        assert(views(out@) =~= Seq::empty());
        assert(views(query.fields@).len() == query.fields@.len());
        assert(names.len() == query.business_fields@.len());
    }
    if query.business_fields.len() == 0 || query.fields.len() > 0 {
        put_name(&mut out, "content");
        if query_contains_numeric_fragment(query.query.as_str()) {
            put_name(&mut out, "numeric_fragments");
            proof {
                assert(views(out@) =~= seq!["content"@, "numeric_fragments"@]);
            }
        } else {
            proof {
                assert(views(out@) =~= seq!["content"@]);
            }
        }
    }
    let ghost texts = views(out@);
    let mut i: usize = 0;
    proof {
        assert(names.take(0) =~= Seq::empty());
        assert(views(out@) =~= texts + business_fields_of(names.take(0)));
    }
    while i < query.business_fields.len()
        invariant
            i <= query.business_fields@.len(),
            names == views(query.business_fields@),
            views(out@) == texts + business_fields_of(names.take(i as int)),
        decreases query.business_fields@.len() - i,
    {
        proof {
            assert(names.take(i + 1).drop_last() =~= names.take(i as int));
            assert(names.take(i + 1).last() == query.business_fields@[i as int]@);
        }
        if let Some(f) = business_search_field(query.business_fields[i].as_str()) {
            let ghost before = views(out@);
            put_name(&mut out, f);
            proof {
                assert(views(out@) =~= texts + business_fields_of(names.take(i + 1)));
            }
        }
        i = i + 1;
    }
    proof {
        assert(names.take(i as int) =~= names);
        assert(views(out@).len() == out@.len());
    }
    if out.len() == 0 {
        put_name(&mut out, "content");
        proof {
            assert(views(out@) =~= seq!["content"@]);
        }
    }
    out
}

/// How many results are wanted: from 1 to 100.
pub open spec fn wanted(limit: u32) -> nat {
    if limit < 1 {
        1
    } else if limit > 100 {
        100
    } else {
        limit as nat
    }
}

/// How many hits are fetched: twelve times as many as are looked through, at most 5000.
pub open spec fn fetched(limit: u32, offset: u32) -> nat {
    let through = wanted(limit) + offset as nat;
    if through * 12 > 5000 {
        5000
    } else {
        through * 12
    }
}

/// How a search goes on.
#[derive(Debug)]
pub struct SearchPlan {
    pub text: String,
    pub fields: Vec<String>,
    pub limit: usize,
    pub offset: usize,
    pub fetch_limit: usize,
}

/// Whether a query asks for anything.
pub open spec fn asks_nothing(q: SearchQuery) -> bool {
    trimmed(q.query@).len() == 0 && (q.filter matches Some(g) ==> group_empty(g))
}

/// How a query is searched for: not at all where it asks for nothing. Where the text is
/// empty every document is a hit. More results than 5000 cannot be looked through.
pub fn plan_search(query: &SearchQuery) -> (plan: Option<SearchPlan>)
    requires
        !asks_nothing(*query) ==> wanted(query.limit) + query.offset <= 5000,
    ensures
        plan is None <==> asks_nothing(*query),
        plan matches Some(p) ==> p.text@ == trimmed(query.query@) && views(p.fields@)
            == parser_fields(query.query@, views(query.fields@), views(query.business_fields@))
            && p.limit == wanted(query.limit) && p.offset == query.offset && p.fetch_limit
            == fetched(query.limit, query.offset),
{
    let text = trim(query.query.as_str());
    let has_filter = match &query.filter {
        Some(g) => !g.is_empty(),
        None => false,
    };
    if is_empty(text.as_str()) && !has_filter {
        return None;
    }
    let limit: usize = if query.limit < 1 {
        1
    } else if query.limit > 100 {
        100
    } else {
        query.limit as usize
    };
    let offset: usize = query.offset as usize;
    let many: usize = (limit + offset) * 12;
    let fetch_limit: usize = if many > 5000 { 5000 } else { many };
    Some(SearchPlan { text, fields: parser_fields_for_query(query), limit, offset, fetch_limit })
}

/// What is asked in a second round: the longer words, where a text found nothing.
pub fn second_round(plan: &SearchPlan, found: usize) -> (out: Option<String>)
    ensures
        crate::json::opt_view(out) == if found == 0 && plan.text@.len() > 0 {
            fuzzy_text(plan.text@)
        } else {
            None
        },
{
    if found == 0 && !is_empty(plan.text.as_str()) {
        fuzzy_fallback_query_text(plan.text.as_str())
    } else {
        None
    }
}

} // verus!
