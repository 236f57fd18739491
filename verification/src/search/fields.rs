//! The names and texts of what is searched.
use crate::json::{entries_view, list_view, Json, JsonView};
use crate::letters::{ascii_lower_char, is_ascii_word, to_ascii_lower};
use crate::text::{chars_of, join, joined, owned, text_of, trim, trimmed, views};
use vstd::prelude::*;

verus! {

/// A text that is searched, and the name that it goes by.
#[derive(Debug)]
pub struct SearchContentField {
    pub field: String,
    pub value: String,
}

pub open spec fn field_view(f: SearchContentField) -> (Seq<char>, Seq<char>) {
    (f.field@, f.value@)
}

pub open spec fn field_views(list: Seq<SearchContentField>) -> Seq<(Seq<char>, Seq<char>)> {
    list.map_values(|f: SearchContentField| field_view(f))
}

impl SearchContentField {
    /// A text under a name.
    pub fn new(field: &str, value: &str) -> (f: Self)
        ensures
            field_view(f) == (field@, value@),
    {
        SearchContentField { field: owned(field), value: owned(value) }
    }
}

/// A name with its ASCII letters small and everything between its ASCII words as one bar.
pub open spec fn barred(s: Seq<char>) -> Seq<char>
    decreases s.len(),
{
    if s.len() == 0 {
        Seq::empty()
    } else {
        let before = barred(s.drop_last());
        if is_ascii_word(s.last()) {
            before.push(ascii_lower_char(s.last()))
        } else if before.len() > 0 && before.last() == '_' {
            before
        } else {
            before.push('_')
        }
    }
}

/// A text without the bars at its start.
pub open spec fn without_first_bars(s: Seq<char>) -> Seq<char>
    decreases s.len(),
{
    if s.len() > 0 && s[0] == '_' {
        without_first_bars(s.skip(1))
    } else {
        s
    }
}

/// A text without the bars at its end.
pub open spec fn without_last_bars(s: Seq<char>) -> Seq<char>
    decreases s.len(),
{
    if s.len() > 0 && s.last() == '_' {
        without_last_bars(s.drop_last())
    } else {
        s
    }
}

/// The normal form of the name of a field.
pub open spec fn field_name(s: Seq<char>) -> Seq<char> {
    without_last_bars(without_first_bars(barred(trimmed(s))))
}

/// The normal form of the name of a field.
pub fn normalize_search_field_name(value: &str) -> (out: String)
    ensures
        out@ == field_name(value@),
{
    let short = trim(value);
    let chars = chars_of(short.as_str());
    let lower = to_ascii_lower(short.as_str());
    let small = chars_of(lower.as_str());
    let mut out: Vec<char> = Vec::new();
    let mut i: usize = 0;
    proof {
        assert(chars@.take(0) =~= Seq::<char>::empty());
    }
    while i < chars.len()
        invariant
            i <= chars@.len(),
            small@ == crate::letters::ascii_lower(chars@),
            out@ == barred(chars@.take(i as int)),
        decreases chars@.len() - i,
    {
        let c = chars[i];
        proof {
            assert(chars@.take(i + 1).drop_last() =~= chars@.take(i as int));
            assert(chars@.take(i + 1).last() == c);
        }
        if ('0' <= c && c <= '9') || ('A' <= c && c <= 'Z') || ('a' <= c && c <= 'z') {
            out.push(small[i]);
        } else if !(out.len() > 0 && out[out.len() - 1] == '_') {
            out.push('_');
        }
        i = i + 1;
    }
    proof {
        assert(chars@.take(i as int) =~= chars@);
    }
    let mut from: usize = 0;
    proof {
        assert(out@.skip(0) =~= out@);
    }
    while from < out.len() && out[from] == '_'
        invariant
            from <= out@.len(),
            without_first_bars(out@) == without_first_bars(out@.skip(from as int)),
        decreases out@.len() - from,
    {
        proof {
            assert(out@.skip(from as int).skip(1) =~= out@.skip(from + 1));
        }
        from = from + 1;
    }
    let mut to: usize = out.len();
    let ghost head = out@.skip(from as int);
    proof {
        assert(without_first_bars(out@) == head);
        assert(head.take(to - from) =~= head);
    }
    while to > from && out[to - 1] == '_'
        invariant
            from <= to <= out@.len(),
            head == out@.skip(from as int),
            without_last_bars(head) == without_last_bars(head.take(to - from)),
        decreases to,
    {
        proof {
            assert(head.take(to - from).drop_last() =~= head.take(to - 1 - from));
        }
        to = to - 1;
    }
    let text = text_of(&out, from, to);
    proof {
        assert(text@ =~= head.take(to - from));
    }
    text
}

/// A list of texts with one more where neither its name nor its text is blank.
pub open spec fn with_field(
    fields: Seq<(Seq<char>, Seq<char>)>,
    field: Seq<char>,
    value: Seq<char>,
) -> Seq<(Seq<char>, Seq<char>)> {
    if field_name(field).len() == 0 || trimmed(value).len() == 0 {
        fields
    } else {
        fields.push((field_name(field), trimmed(value)))
    }
}

/// Adds a text where neither its name nor the text is blank.
pub fn push_content_field(fields: &mut Vec<SearchContentField>, field: &str, value: &str)
    ensures
        field_views(final(fields)@) == with_field(field_views(old(fields)@), field@, value@),
{
    let name = normalize_search_field_name(field);
    let text = trim(value);
    if is_empty(name.as_str()) || is_empty(text.as_str()) {
        return;
    }
    let new = SearchContentField { field: name, value: text };
    let ghost added = field_view(new);
    let ghost before = fields@;
    fields.push(new);
    proof {
        assert(field_views(fields@) =~= field_views(before).push(added));
    }
}

/// Whether a text has no characters.
pub fn is_empty(s: &str) -> (r: bool)
    ensures
        r == (s@.len() == 0),
{
    let chars = chars_of(s);
    chars.len() == 0
}

/// The texts that a JSON value holds, each without blanks around it.
pub open spec fn scalar_parts(j: JsonView) -> Seq<Seq<char>>
    decreases j,
{
    match j {
        JsonView::Null => Seq::empty(),
        JsonView::Bool(b) => seq![if b { "true"@ } else { "false"@ }],
        JsonView::Number(n) => part_of(n),
        JsonView::Text(s) => part_of(s),
        JsonView::List(items) => list_parts(items),
        JsonView::Object(entries) => entry_parts(entries),
    }
}

pub open spec fn part_of(s: Seq<char>) -> Seq<Seq<char>> {
    if trimmed(s).len() == 0 {
        Seq::empty()
    } else {
        seq![trimmed(s)]
    }
}

pub open spec fn list_parts(items: Seq<JsonView>) -> Seq<Seq<char>>
    decreases items,
{
    if items.len() == 0 {
        Seq::empty()
    } else {
        list_parts(items.subrange(0, items.len() - 1)) + scalar_parts(items[items.len() - 1])
    }
}

pub open spec fn entry_parts(entries: Seq<(Seq<char>, JsonView)>) -> Seq<Seq<char>>
    decreases entries,
{
    if entries.len() == 0 {
        Seq::empty()
    } else {
        entry_parts(entries.subrange(0, entries.len() - 1)) + scalar_parts(
            entries[entries.len() - 1].1,
        )
    }
}

/// The text of a JSON value: its texts, one to a line.
pub open spec fn scalar_text(j: JsonView) -> Seq<char> {
    joined(scalar_parts(j), "\n"@)
}

fn put_part(out: &mut Vec<String>, s: &str)
    ensures
        views(final(out)@) == views(old(out)@) + part_of(s@),
{
    let text = trim(s);
    if is_empty(text.as_str()) {
        proof {
            assert(views(out@) =~= views(old(out)@) + part_of(s@));
        }
        return;
    }
    let ghost added = text@;
    out.push(text);
    proof {
        assert(views(out@) =~= views(old(out)@) + seq![added]);
    }
}

/// Adds the texts that a JSON value holds.
fn put_scalars(j: &Json, out: &mut Vec<String>)
    ensures
        views(final(out)@) == views(old(out)@) + scalar_parts(j@),
    decreases *j,
{
    broadcast use {crate::json::lemma_json_list_view, crate::json::lemma_json_object_view};

    let ghost first = views(out@);
    match j {
        Json::Null => {
            proof {
                assert(views(out@) =~= first + scalar_parts(j@));
            }
        },
        Json::Bool(b) => {
            let word = if *b { "true" } else { "false" };
            out.push(owned(word));
            proof {
                assert(views(out@) =~= first + scalar_parts(j@));
            }
        },
        Json::Number(n) => {
            put_part(out, n.as_str());
        },
        Json::Text(s) => {
            put_part(out, s.as_str());
        },
        Json::List(items) => {
            let mut i: usize = 0;
            let ghost all = list_view(items@);
            proof {
                assert(all.subrange(0, 0) =~= Seq::empty());
                assert(views(out@) =~= first + list_parts(all.subrange(0, 0)));
            }
            while i < items.len()
                invariant
                    i <= items@.len(),
                    all == list_view(items@),
                    *j == (Json::List(*items)),
                    views(out@) == first + list_parts(all.subrange(0, i as int)),
                decreases items@.len() - i,
            {
                let ghost before = views(out@);
                proof {
                    assert(decreases_to!(*j => j->List_0@[i as int]));
                }
                put_scalars(&items[i], out);
                proof {
                    let next = all.subrange(0, i + 1);
                    assert(next.subrange(0, next.len() - 1) =~= all.subrange(0, i as int));
                    assert(next[next.len() - 1] == items@[i as int]@);
                    assert(views(out@) =~= first + list_parts(next));
                }
                i = i + 1;
            }
            proof {
                assert(all.subrange(0, i as int) =~= all);
            }
        },
        Json::Object(entries) => {
            let mut i: usize = 0;
            let ghost all = entries_view(entries@);
            proof {
                assert(all.subrange(0, 0) =~= Seq::empty());
                assert(views(out@) =~= first + entry_parts(all.subrange(0, 0)));
            }
            while i < entries.len()
                invariant
                    i <= entries@.len(),
                    all == entries_view(entries@),
                    *j == (Json::Object(*entries)),
                    views(out@) == first + entry_parts(all.subrange(0, i as int)),
                decreases entries@.len() - i,
            {
                proof {
                    assert(decreases_to!(*j => j->Object_0@[i as int].1));
                }
                put_scalars(&entries[i].1, out);
                proof {
                    let next = all.subrange(0, i + 1);
                    assert(next.subrange(0, next.len() - 1) =~= all.subrange(0, i as int));
                    assert(next[next.len() - 1].1 == entries@[i as int].1@);
                    assert(views(out@) =~= first + entry_parts(next));
                }
                i = i + 1;
            }
            proof {
                assert(all.subrange(0, i as int) =~= all);
            }
        },
    }
}

/// The text of a JSON value: its texts, one to a line.
pub fn json_scalar_text(j: &Json) -> (out: String)
    ensures
        out@ == scalar_text(j@),
{
    let mut parts: Vec<String> = Vec::new();
    put_scalars(j, &mut parts);
    proof {
        assert(views(Seq::<String>::empty()) + scalar_parts(j@) =~= scalar_parts(j@));
    }
    join(&parts, "\n")
}

} // verus!
