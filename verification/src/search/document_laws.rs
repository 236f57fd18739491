//! What can be found: every text of an entity stands in the document that is searched for it, and
//! every fact that filters ask for is the one of the entity.
use super::documents::{
    action_document, agent_version_document, at_second, chat_message_document,
    chat_session_document, collection_document, data_fields, document_with_fields, entry_fields,
    joined_values, message_value, millis_of, notification_document, skipped_key, thing_document,
    trimmed_values, DocumentView, SearchEntityKind,
};
use super::fields::{
    barred, entry_parts, field_name, list_parts, part_of, scalar_parts, scalar_text, with_field,
    without_first_bars, without_last_bars,
};
use crate::clock::DomainTime;
use crate::json::{field, int_text, json_read, JsonView};
use crate::letters::{ascii_lower_char, is_ascii_word};
use crate::rows::{ActionDefinition, AgentVersion, ChatSession, NotificationEntry};
use crate::text::{
    has_part, is_space, joined, law_trimmed_once, lemma_trimmed_end, lemma_trimmed_start, trimmed,
    trimmed_end, trimmed_start,
};
use crate::things_types::{collection_type_name, CollectionEntryView, ThingEntryView};
use vstd::prelude::*;

verus! {

/// A name in its normal form: small ASCII letters and digits, with single bars between them.
pub open spec fn plain_name(s: Seq<char>) -> bool {
    &&& s.len() > 0
    &&& s[0] != '_'
    &&& s.last() != '_'
    &&& forall|i: int|
        0 <= i < s.len() ==> ('a' <= #[trigger] s[i] && s[i] <= 'z') || ('0' <= s[i] && s[i]
            <= '9') || s[i] == '_'
    &&& forall|i: int| 0 < i < s.len() && #[trigger] s[i] == '_' ==> s[i - 1] != '_'
}

proof fn lemma_barred_plain(s: Seq<char>, n: int)
    requires
        plain_name(s),
        0 <= n <= s.len(),
    ensures
        barred(s.take(n)) == s.take(n),
    decreases n,
{
    if n > 0 {
        let t = s.take(n);
        lemma_barred_plain(s, n - 1);
        assert(t.drop_last() =~= s.take(n - 1));
        assert(t.last() == s[n - 1]);
        assert(t =~= s.take(n - 1).push(s[n - 1]));
        if s[n - 1] == '_' {
            assert(s[n - 2] != '_');
            assert(s.take(n - 1).last() == s[n - 2]);
        }
    } else {
        assert(s.take(0) =~= Seq::empty());
    }
}

/// The normal form of a name in its normal form is the name itself.
pub proof fn law_plain_names_stay(s: Seq<char>)
    requires
        plain_name(s),
    ensures
        field_name(s) == s,
{
    lemma_barred_plain(s, s.len() as int);
    assert(s.take(s.len() as int) =~= s);
    assert(!is_space(s[0]) && !is_space(s.last()));
}

proof fn lemma_barred_chars(s: Seq<char>)
    ensures
        forall|i: int| 0 <= i < barred(s).len() ==> !is_space(#[trigger] barred(s)[i]),
    decreases s.len(),
{
    if s.len() > 0 {
        lemma_barred_chars(s.drop_last());
        let before = barred(s.drop_last());
        let c = s.last();
        if is_ascii_word(c) {
            assert(!is_space(ascii_lower_char(c)));
        }
        assert forall|i: int| 0 <= i < barred(s).len() implies !is_space(
            #[trigger] barred(s)[i],
        ) by {
            if i < before.len() {
                assert(barred(s)[i] == before[i]);
            }
        }
    }
}

proof fn lemma_first_bars(s: Seq<char>)
    ensures
        without_first_bars(s).len() <= s.len(),
        without_first_bars(s) == s.skip(s.len() - without_first_bars(s).len()),
    decreases s.len(),
{
    if s.len() > 0 && s[0] == '_' {
        lemma_first_bars(s.skip(1));
        let n = without_first_bars(s).len();
        assert(s.skip(1).skip(s.len() - 1 - n) =~= s.skip(s.len() - n));
    } else {
        assert(s.skip(0) =~= s);
    }
}

proof fn lemma_last_bars(s: Seq<char>)
    ensures
        without_last_bars(s).len() <= s.len(),
        without_last_bars(s) == s.take(without_last_bars(s).len() as int),
    decreases s.len(),
{
    if s.len() > 0 && s.last() == '_' {
        lemma_last_bars(s.drop_last());
        let n = without_last_bars(s).len() as int;
        assert(s.drop_last().take(n) =~= s.take(n));
    } else {
        assert(s.take(s.len() as int) =~= s);
    }
}

/// There is no white space in the normal form of a name.
proof fn lemma_name_is_solid(s: Seq<char>)
    ensures
        trimmed(field_name(s)) == field_name(s),
{
    let all = barred(trimmed(s));
    let head = without_first_bars(all);
    lemma_barred_chars(trimmed(s));
    lemma_first_bars(all);
    lemma_last_bars(head);
    let name = field_name(s);
    if name.len() > 0 {
        assert(name[0] == head[0] && head[0] == all[all.len() - head.len()]);
        assert(name.last() == head[name.len() - 1]);
        assert(head[name.len() - 1] == all[all.len() - head.len() + name.len() - 1]);
    }
}

proof fn lemma_start_not_blank(s: Seq<char>, i: int)
    requires
        0 <= i < s.len(),
        !is_space(s[i]),
    ensures
        trimmed_start(s).len() > 0,
    decreases s.len(),
{
    if is_space(s[0]) {
        assert(s.drop_first()[i - 1] == s[i]);
        lemma_start_not_blank(s.drop_first(), i - 1);
    }
}

proof fn lemma_end_not_blank(s: Seq<char>, i: int)
    requires
        0 <= i < s.len(),
        !is_space(s[i]),
    ensures
        trimmed_end(s).len() > 0,
    decreases s.len(),
{
    if is_space(s.last()) {
        assert(s.drop_last()[i] == s[i]);
        lemma_end_not_blank(s.drop_last(), i);
    }
}

/// A text that holds a text which is not blank is not blank.
proof fn lemma_part_not_blank(s: Seq<char>, part: Seq<char>)
    requires
        has_part(s, part),
        trimmed(part).len() > 0,
    ensures
        trimmed(s).len() > 0,
{
    let at = choose|at: int|
        0 <= at && at + part.len() <= s.len() && #[trigger] s.subrange(at, at + part.len())
            == part;
    let i = lemma_some_char(part);
    assert(s.subrange(at, at + part.len())[i] == s[at + i]);
    lemma_start_not_blank(s, at + i);
    lemma_trimmed_start(s);
    lemma_end_not_blank(trimmed_start(s), 0);
}

proof fn lemma_some_char(s: Seq<char>) -> (i: int)
    requires
        trimmed(s).len() > 0,
    ensures
        0 <= i < s.len(),
        !is_space(s[i]),
{
    let i = lemma_start_char(s);
    i
}

proof fn lemma_start_char(s: Seq<char>) -> (i: int)
    requires
        trimmed(s).len() > 0,
    ensures
        0 <= i < s.len(),
        !is_space(s[i]),
    decreases s.len(),
{
    if s.len() == 0 {
        assert(trimmed(s) =~= s);
        0
    } else if is_space(s[0]) {
        let k = lemma_start_char(s.drop_first());
        assert(s.drop_first()[k] == s[k + 1]);
        k + 1
    } else {
        0
    }
}

/// Each of the texts that are put together stands in the whole.
pub proof fn law_joined_holds_parts(parts: Seq<Seq<char>>, sep: Seq<char>, i: int)
    requires
        0 <= i < parts.len(),
    ensures
        has_part(joined(parts, sep), parts[i]),
    decreases parts.len(),
{
    let whole = joined(parts, sep);
    if parts.len() == 1 {
        assert(whole.subrange(0, 0int + parts[0].len()) =~= parts[0]);
    } else {
        let front = joined(parts.drop_last(), sep);
        if i < parts.len() - 1 {
            law_joined_holds_parts(parts.drop_last(), sep, i);
            assert(parts.drop_last()[i] == parts[i]);
            let n = parts[i].len();
            let at = choose|at: int|
                0 <= at && at + n <= front.len() && #[trigger] front.subrange(at, at + n)
                    == parts[i];
            assert(whole.subrange(at, at + n) =~= front.subrange(at, at + n));
        } else {
            let at: int = front.len() as int + sep.len();
            assert(whole.subrange(at, at + parts.last().len()) =~= parts.last());
        }
    }
}

proof fn lemma_joined_ends(parts: Seq<Seq<char>>, sep: Seq<char>)
    requires
        parts.len() > 0,
        forall|i: int| 0 <= i < parts.len() ==> (#[trigger] parts[i]).len() > 0,
    ensures
        joined(parts, sep).len() > 0,
        joined(parts, sep)[0] == parts[0][0],
        joined(parts, sep).last() == parts.last().last(),
    decreases parts.len(),
{
    if parts.len() > 1 {
        let front = parts.drop_last();
        assert forall|i: int| 0 <= i < front.len() implies (#[trigger] front[i]).len() > 0 by {
            assert(front[i] == parts[i]);
        }
        lemma_joined_ends(front, sep);
        assert(front[0] == parts[0]);
        assert(parts[parts.len() - 1].len() > 0);
    } else {
        assert(parts[0].len() > 0);
    }
}

/// Whether a text stands somewhere in a JSON value.
pub open spec fn holds_text(j: JsonView, s: Seq<char>) -> bool
    decreases j,
{
    match j {
        JsonView::Text(t) => t == s,
        JsonView::List(items) => exists|i: int|
            0 <= i < items.len() && holds_text(#[trigger] items[i], s),
        JsonView::Object(entries) => exists|i: int|
            0 <= i < entries.len() && holds_text((#[trigger] entries[i]).1, s),
        _ => false,
    }
}

proof fn lemma_list_parts(items: Seq<JsonView>, i: int, p: Seq<char>)
    requires
        0 <= i < items.len(),
        scalar_parts(items[i]).contains(p),
    ensures
        list_parts(items).contains(p),
    decreases items.len(),
{
    let n = items.len() - 1;
    let front = list_parts(items.subrange(0, n));
    let back = scalar_parts(items[n]);
    if i < n {
        assert(items.subrange(0, n)[i] == items[i]);
        lemma_list_parts(items.subrange(0, n), i, p);
        let k = choose|k: int| 0 <= k < front.len() && front[k] == p;
        assert((front + back)[k] == p);
    } else {
        let k = choose|k: int| 0 <= k < back.len() && back[k] == p;
        assert((front + back)[front.len() + k] == p);
    }
}

proof fn lemma_entry_parts(entries: Seq<(Seq<char>, JsonView)>, i: int, p: Seq<char>)
    requires
        0 <= i < entries.len(),
        scalar_parts(entries[i].1).contains(p),
    ensures
        entry_parts(entries).contains(p),
    decreases entries.len(),
{
    let n = entries.len() - 1;
    let front = entry_parts(entries.subrange(0, n));
    let back = scalar_parts(entries[n].1);
    if i < n {
        assert(entries.subrange(0, n)[i] == entries[i]);
        lemma_entry_parts(entries.subrange(0, n), i, p);
        let k = choose|k: int| 0 <= k < front.len() && front[k] == p;
        assert((front + back)[k] == p);
    } else {
        let k = choose|k: int| 0 <= k < back.len() && back[k] == p;
        assert((front + back)[front.len() + k] == p);
    }
}

proof fn lemma_text_is_part(j: JsonView, s: Seq<char>)
    requires
        holds_text(j, s),
        trimmed(s).len() > 0,
    ensures
        scalar_parts(j).contains(trimmed(s)),
    decreases j,
{
    match j {
        JsonView::Text(t) => {
            assert(scalar_parts(j)[0] == trimmed(s));
        },
        JsonView::List(items) => {
            let i = choose|i: int| 0 <= i < items.len() && holds_text(#[trigger] items[i], s);
            lemma_text_is_part(items[i], s);
            lemma_list_parts(items, i, trimmed(s));
        },
        JsonView::Object(entries) => {
            let i = choose|i: int|
                0 <= i < entries.len() && holds_text((#[trigger] entries[i]).1, s);
            lemma_text_is_part(entries[i].1, s);
            lemma_entry_parts(entries, i, trimmed(s));
        },
        _ => {},
    }
}

/// A text that is not empty and has no white space at either end.
pub open spec fn solid(s: Seq<char>) -> bool {
    s.len() > 0 && !is_space(s[0]) && !is_space(s.last())
}

proof fn lemma_trimmed_solid(s: Seq<char>)
    ensures
        trimmed(s).len() > 0 ==> solid(trimmed(s)),
        solid(s) ==> trimmed(s) == s,
{
    lemma_trimmed_start(s);
    lemma_trimmed_end(trimmed_start(s));
    if trimmed(s).len() > 0 {
        assert(trimmed(s)[0] == trimmed_start(s)[0]);
    }
}

proof fn lemma_parts_solid(j: JsonView)
    ensures
        forall|k: int| 0 <= k < scalar_parts(j).len() ==> solid(#[trigger] scalar_parts(j)[k]),
    decreases j,
{
    match j {
        JsonView::Bool(b) => {
            reveal_strlit("true");
            reveal_strlit("false");
            assert("true"@[0] == 't' && "true"@[3] == 'e' && "true"@.len() == 4);
            assert("false"@[0] == 'f' && "false"@[4] == 'e' && "false"@.len() == 5);
            assert(solid("true"@) && solid("false"@));
            assert(scalar_parts(j) == seq![if b { "true"@ } else { "false"@ }]);
            assert forall|k: int| 0 <= k < scalar_parts(j).len() implies solid(
                #[trigger] scalar_parts(j)[k],
            ) by {
                assert(k == 0);
            }
        },
        JsonView::Number(n) => {
            lemma_trimmed_solid(n);
            assert(scalar_parts(j) == part_of(n));
        },
        JsonView::Text(s) => {
            lemma_trimmed_solid(s);
            assert(scalar_parts(j) == part_of(s));
        },
        JsonView::List(items) => {
            lemma_list_solid(items);
            assert(scalar_parts(j) == list_parts(items));
        },
        JsonView::Object(entries) => {
            lemma_entries_solid(entries);
            assert(scalar_parts(j) == entry_parts(entries));
        },
        JsonView::Null => {
            assert(scalar_parts(j) == Seq::<Seq<char>>::empty());
        },
    }
}

proof fn lemma_list_solid(items: Seq<JsonView>)
    ensures
        forall|k: int| 0 <= k < list_parts(items).len() ==> solid(#[trigger] list_parts(items)[k]),
    decreases items,
{
    if items.len() > 0 {
        let n = items.len() - 1;
        lemma_list_solid(items.subrange(0, n));
        lemma_parts_solid(items[n]);
        let front = list_parts(items.subrange(0, n));
        let back = scalar_parts(items[n]);
        assert forall|k: int| 0 <= k < list_parts(items).len() implies solid(
            #[trigger] list_parts(items)[k],
        ) by {
            if k < front.len() {
                assert(list_parts(items)[k] == front[k]);
            } else {
                assert(list_parts(items)[k] == back[k - front.len()]);
            }
        }
    }
}

proof fn lemma_entries_solid(entries: Seq<(Seq<char>, JsonView)>)
    ensures
        forall|k: int|
            0 <= k < entry_parts(entries).len() ==> solid(#[trigger] entry_parts(entries)[k]),
    decreases entries,
{
    if entries.len() > 0 {
        let n = entries.len() - 1;
        lemma_entries_solid(entries.subrange(0, n));
        lemma_parts_solid(entries[n].1);
        let front = entry_parts(entries.subrange(0, n));
        let back = scalar_parts(entries[n].1);
        assert forall|k: int| 0 <= k < entry_parts(entries).len() implies solid(
            #[trigger] entry_parts(entries)[k],
        ) by {
            if k < front.len() {
                assert(entry_parts(entries)[k] == front[k]);
            } else {
                assert(entry_parts(entries)[k] == back[k - front.len()]);
            }
        }
    }
}

/// The text of a JSON value holds every text in it that is not blank, without the white space
/// around it; a text by itself is all of it.
pub proof fn law_value_text_holds_texts(j: JsonView, s: Seq<char>)
    requires
        holds_text(j, s),
        trimmed(s).len() > 0,
    ensures
        has_part(trimmed(scalar_text(j)), trimmed(s)),
        j is Text ==> trimmed(scalar_text(j)) == trimmed(s),
{
    let parts = scalar_parts(j);
    lemma_text_is_part(j, s);
    let k = choose|k: int| 0 <= k < parts.len() && parts[k] == trimmed(s);
    law_joined_holds_parts(parts, "\n"@, k);
    lemma_parts_solid(j);
    assert forall|i: int| 0 <= i < parts.len() implies (#[trigger] parts[i]).len() > 0 by {
        assert(solid(parts[i]));
    }
    lemma_joined_ends(parts, "\n"@);
    assert(solid(parts[0]) && solid(parts[parts.len() - 1]));
    lemma_trimmed_solid(joined(parts, "\n"@));
    law_trimmed_once(s);
}

proof fn lemma_trimmed_values(fields: Seq<(Seq<char>, Seq<char>)>, i: int)
    requires
        0 <= i < fields.len(),
        fields[i].0 != "title"@,
        trimmed(fields[i].1).len() > 0,
    ensures
        trimmed_values(fields).contains(trimmed(fields[i].1)),
    decreases fields.len(),
{
    let before = trimmed_values(fields.drop_last());
    let v = trimmed(fields[i].1);
    if i < fields.len() - 1 {
        assert(fields.drop_last()[i] == fields[i]);
        lemma_trimmed_values(fields.drop_last(), i);
        let k = choose|k: int| 0 <= k < before.len() && before[k] == v;
        assert(trimmed_values(fields)[k] == v);
    } else {
        assert(trimmed_values(fields).last() == v);
    }
}

proof fn lemma_filter_keeps<T>(s: Seq<T>, keep: spec_fn(T) -> bool, at: int)
    requires
        0 <= at < s.len(),
        keep(s[at]),
    ensures
        s.filter(keep).contains(s[at]),
    decreases s.len(),
{
    reveal(Seq::filter);
    let front = s.drop_last();
    if at < front.len() {
        lemma_filter_keeps(front, keep, at);
        assert(front[at] == s[at]);
        let k = choose|k: int| 0 <= k < front.filter(keep).len() && front.filter(keep)[k] == s[at];
        assert(s.filter(keep)[k] == s[at]);
    } else {
        assert(s.filter(keep).last() == s[at]);
    }
}

/// Whether a document can be found by a text under a name: the text is one of its own, and
/// stands in its body.
pub open spec fn found_by(d: DocumentView, name: Seq<char>, text: Seq<char>) -> bool {
    &&& d.content_fields.contains((name, text))
    &&& name != "title"@ ==> has_part(d.body, text)
}

proof fn lemma_found(
    base: DocumentView,
    fields: Seq<(Seq<char>, Seq<char>)>,
    name: Seq<char>,
    value: Seq<char>,
)
    requires
        base.body == joined_values(fields),
        fields.contains((field_name(name), trimmed(value))),
        field_name(name).len() > 0,
        trimmed(value).len() > 0,
    ensures
        found_by(document_with_fields(base, fields), field_name(name), trimmed(value)),
{
    let f = (field_name(name), trimmed(value));
    let i = choose|i: int| 0 <= i < fields.len() && fields[i] == f;
    lemma_name_is_solid(name);
    law_trimmed_once(value);
    lemma_filter_keeps(
        fields,
        |f: (Seq<char>, Seq<char>)| trimmed(f.0).len() != 0 && trimmed(f.1).len() != 0,
        i,
    );
    if f.0 != "title"@ {
        lemma_trimmed_values(fields, i);
        let parts = trimmed_values(fields);
        let k = choose|k: int| 0 <= k < parts.len() && parts[k] == f.1;
        law_joined_holds_parts(parts, "\n"@, k);
        lemma_part_not_blank(base.body, f.1);
    }
}

proof fn lemma_with_field(
    fields: Seq<(Seq<char>, Seq<char>)>,
    name: Seq<char>,
    value: Seq<char>,
)
    ensures
        field_name(name).len() > 0 && trimmed(value).len() > 0 ==> with_field(
            fields,
            name,
            value,
        ).contains((field_name(name), trimmed(value))),
        forall|f: (Seq<char>, Seq<char>)|
            fields.contains(f) ==> #[trigger] with_field(fields, name, value).contains(f),
{
    let after = with_field(fields, name, value);
    if field_name(name).len() > 0 && trimmed(value).len() > 0 {
        assert(after.last() == (field_name(name), trimmed(value)));
    }
    assert forall|f: (Seq<char>, Seq<char>)| fields.contains(f) implies #[trigger] after.contains(
        f,
    ) by {
        let k = choose|k: int| 0 <= k < fields.len() && fields[k] == f;
        assert(after[k] == f);
    }
}

/// The name under which the text of an entry of the data of a thing is found.
pub open spec fn found_under(key: Seq<char>, kind: Seq<char>) -> Seq<char> {
    if field_name(key) == "content"@ {
        kind
    } else {
        key
    }
}

proof fn lemma_entry_fields(
    fields: Seq<(Seq<char>, Seq<char>)>,
    kind: Seq<char>,
    entries: Seq<(Seq<char>, JsonView)>,
    i: int,
)
    ensures
        forall|f: (Seq<char>, Seq<char>)|
            fields.contains(f) ==> #[trigger] entry_fields(fields, kind, entries).contains(f),
        0 <= i < entries.len() && !skipped_key(entries[i].0) && field_name(
            found_under(entries[i].0, kind),
        ).len() > 0 && trimmed(scalar_text(entries[i].1)).len() > 0 ==> entry_fields(
            fields,
            kind,
            entries,
        ).contains(
            (field_name(found_under(entries[i].0, kind)), trimmed(scalar_text(entries[i].1))),
        ),
    decreases entries.len(),
{
    if entries.len() > 0 {
        let front = entries.drop_last();
        lemma_entry_fields(fields, kind, front, i);
        let before = entry_fields(fields, kind, front);
        let e = entries.last();
        lemma_with_field(before, found_under(e.0, kind), scalar_text(e.1));
        if 0 <= i < front.len() {
            assert(front[i] == entries[i]);
        }
    }
}

/// Every text that is not blank in the data of a thing, under a key that is not skipped, is one by
/// which the thing is found: it stands in a text of the document under the name of the key,
/// and in its body.
pub proof fn law_thing_is_found_by_its_texts(
    t: ThingEntryView,
    entries: Seq<(Seq<char>, JsonView)>,
    i: int,
    s: Seq<char>,
)
    requires
        t.data == JsonView::Object(entries),
        0 <= i < entries.len(),
        !skipped_key(entries[i].0),
        field_name(found_under(entries[i].0, t.datatype)).len() > 0,
        holds_text(entries[i].1, s),
        trimmed(s).len() > 0,
    ensures
        ({
            let d = thing_document(t);
            let name = field_name(found_under(entries[i].0, t.datatype));
            &&& exists|k: int|
                0 <= k < d.content_fields.len() && (#[trigger] d.content_fields[k]).0 == name
                    && has_part(d.content_fields[k].1, trimmed(s))
            &&& name != "title"@ ==> has_part(d.body, trimmed(s))
            &&& entries[i].1 is Text ==> found_by(d, name, trimmed(s))
        }),
{
    let d = thing_document(t);
    let name = found_under(entries[i].0, t.datatype);
    let value = scalar_text(entries[i].1);
    let first = with_field(Seq::empty(), "title"@, t.title);
    let fields = data_fields(first, t.datatype, t.data);
    law_value_text_holds_texts(entries[i].1, s);
    assert(trimmed(value).len() > 0) by {
        let at = choose|at: int|
            0 <= at && at + trimmed(s).len() <= trimmed(value).len() && #[trigger] trimmed(
                value,
            ).subrange(at, at + trimmed(s).len()) == trimmed(s);
    }
    lemma_entry_fields(first, t.datatype, entries, i);
    let base = super::documents::new_document(
        SearchEntityKind::Thing,
        t.uuid,
        t.title,
        joined_values(fields),
        millis_of(t.created_at),
    );
    lemma_found(base, fields, name, value);
    let f = (field_name(name), trimmed(value));
    let k = choose|k: int| 0 <= k < d.content_fields.len() && d.content_fields[k] == f;
    assert(d.content_fields[k].0 == field_name(name));
    if field_name(name) != "title"@ {
        law_part_of_part(d.body, trimmed(value), trimmed(s));
    }
}

/// What stands in a part of a text stands in the text.
pub proof fn law_part_of_part(s: Seq<char>, part: Seq<char>, small: Seq<char>)
    requires
        has_part(s, part),
        has_part(part, small),
    ensures
        has_part(s, small),
{
    let at = choose|at: int|
        0 <= at && at + part.len() <= s.len() && #[trigger] s.subrange(at, at + part.len())
            == part;
    let k = choose|k: int|
        0 <= k && k + small.len() <= part.len() && #[trigger] part.subrange(k, k + small.len())
            == small;
    assert(s.subrange(at + k, at + k + small.len()) =~= part.subrange(k, k + small.len()));
}

proof fn lemma_markdown_is_searched()
    ensures
        !skipped_key("markdown"@),
        field_name("markdown"@) == "markdown"@,
        "markdown"@ != "content"@,
        "markdown"@ != "title"@,
        "markdown"@.len() == 8,
{
    reveal_strlit("markdown");
    reveal_strlit("content");
    reveal_strlit("title");
    reveal_strlit("uuid");
    reveal_strlit("id");
    reveal_strlit("datatype");
    reveal_strlit("data_type");
    reveal_strlit("collection_uuid");
    reveal_strlit("collection_id");
    reveal_strlit("parent_uuid");
    reveal_strlit("parent_id");
    reveal_strlit("archived_at");
    reveal_strlit("archived_from_collection_uuid");
    reveal_strlit("created_at");
    reveal_strlit("updated_at");
    reveal_strlit("status");
    reveal_strlit("status_timestamp_ms");
    reveal_strlit("actor_type");
    reveal_strlit("actor_app_id");
    reveal_strlit("actor_display_name");
    law_plain_names_stay("markdown"@);
    assert("markdown"@[0] == 'm' && "markdown"@.len() == 8);
    assert("uuid"@[0] == 'u' && "id"@[0] == 'i' && "title"@[0] == 't' && "content"@[0] == 'c');
    assert("datatype"@[0] == 'd' && "data_type"@[0] == 'd' && "collection_uuid"@[0] == 'c');
    assert("collection_id"@[0] == 'c' && "parent_uuid"@[0] == 'p' && "parent_id"@[0] == 'p');
    assert("archived_at"@[0] == 'a' && "archived_from_collection_uuid"@[0] == 'a');
    assert("created_at"@[0] == 'c' && "updated_at"@[0] == 'u' && "status"@[0] == 's');
    assert("status_timestamp_ms"@[0] == 's' && "actor_type"@[0] == 'a');
    assert("actor_app_id"@[0] == 'a' && "actor_display_name"@[0] == 'a');
}

/// A thing is found by its markdown and by its title. Data that is a text by itself is found
/// under the kind of the thing.
pub proof fn law_thing_is_found_by_its_markdown(
    t: ThingEntryView,
    entries: Seq<(Seq<char>, JsonView)>,
    i: int,
    s: Seq<char>,
)
    requires
        trimmed(s).len() > 0,
    ensures
        t.data == JsonView::Object(entries) && 0 <= i < entries.len() && entries[i] == (
            "markdown"@,
            JsonView::Text(s),
        ) ==> found_by(thing_document(t), "markdown"@, trimmed(s)),
        t.data == JsonView::Text(s) && field_name(t.datatype).len() > 0 ==> found_by(
            thing_document(t),
            field_name(t.datatype),
            trimmed(s),
        ),
        t.title == s ==> found_by(thing_document(t), "title"@, trimmed(s)),
{
    let first = with_field(Seq::empty(), "title"@, t.title);
    let fields = data_fields(first, t.datatype, t.data);
    let base = super::documents::new_document(
        SearchEntityKind::Thing,
        t.uuid,
        t.title,
        joined_values(fields),
        millis_of(t.created_at),
    );
    lemma_markdown_is_searched();
    if t.data == JsonView::Object(entries) && 0 <= i < entries.len() && entries[i] == (
        "markdown"@,
        JsonView::Text(s),
    ) {
        law_thing_is_found_by_its_texts(t, entries, i, s);
    }
    if t.data == JsonView::Text(s) && field_name(t.datatype).len() > 0 {
        law_value_text_holds_texts(t.data, s);
        lemma_with_field(first, t.datatype, scalar_text(t.data));
        lemma_found(base, fields, t.datatype, scalar_text(t.data));
    }
    if t.title == s {
        lemma_title_name();
        lemma_with_field(Seq::empty(), "title"@, s);
        if let JsonView::Object(own) = t.data {
            lemma_entry_fields(first, t.datatype, own, -1);
        } else {
            lemma_with_field(first, t.datatype, scalar_text(t.data));
        }
        lemma_found(base, fields, "title"@, s);
    }
}

proof fn lemma_title_name()
    ensures
        field_name("title"@) == "title"@,
        "title"@.len() == 5,
{
    reveal_strlit("title");
    law_plain_names_stay("title"@);
}

/// A notification, an action and a version of an agent are found by each of their texts that is
/// not blank.
pub proof fn law_other_texts_are_found(
    n: NotificationEntry,
    a: ActionDefinition,
    v: AgentVersion,
)
    ensures
        trimmed(n.title@).len() > 0 ==> found_by(
            notification_document(n),
            "title"@,
            trimmed(n.title@),
        ),
        trimmed(n.body@).len() > 0 ==> found_by(
            notification_document(n),
            "notification_body"@,
            trimmed(n.body@),
        ) && has_part(notification_document(n).body, trimmed(n.body@)),
        trimmed(a.title@).len() > 0 ==> found_by(action_document(a), "title"@, trimmed(a.title@)),
        trimmed(a.name@).len() > 0 ==> found_by(
            action_document(a),
            "action_name"@,
            trimmed(a.name@),
        ) && has_part(action_document(a).body, trimmed(a.name@)),
        trimmed(a.description@).len() > 0 ==> found_by(
            action_document(a),
            "description"@,
            trimmed(a.description@),
        ) && has_part(action_document(a).body, trimmed(a.description@)),
        trimmed(a.script_source@).len() > 0 ==> found_by(
            action_document(a),
            "script_source"@,
            trimmed(a.script_source@),
        ) && has_part(action_document(a).body, trimmed(a.script_source@)),
        trimmed(v.name@).len() > 0 ==> found_by(
            agent_version_document(v),
            "title"@,
            trimmed(v.name@),
        ),
        trimmed(v.raw_markdown@).len() > 0 ==> found_by(
            agent_version_document(v),
            "markdown"@,
            trimmed(v.raw_markdown@),
        ) && has_part(agent_version_document(v).body, trimmed(v.raw_markdown@)),
{
    lemma_title_name();
    lemma_markdown_is_searched();
    reveal_strlit("title");
    reveal_strlit("notification_body");
    reveal_strlit("action_name");
    reveal_strlit("description");
    reveal_strlit("script_source");
    reveal_strlit("markdown");
    law_plain_names_stay("notification_body"@);
    law_plain_names_stay("action_name"@);
    law_plain_names_stay("description"@);
    law_plain_names_stay("script_source"@);
    assert("notification_body"@[0] == 'n' && "action_name"@[0] == 'a' && "title"@[0] == 't');
    assert("description"@[0] == 'd' && "script_source"@[0] == 's');
    let none = Seq::<(Seq<char>, Seq<char>)>::empty();
    let n1 = with_field(none, "title"@, n.title@);
    let n2 = with_field(n1, "notification_body"@, n.body@);
    lemma_with_field(none, "title"@, n.title@);
    lemma_with_field(n1, "notification_body"@, n.body@);
    let nd = super::documents::new_document(
        SearchEntityKind::Notification,
        int_text(n.id as int),
        n.title@,
        joined_values(n2),
        millis_of(at_second(n.created_at)),
    );
    if trimmed(n.title@).len() > 0 {
        lemma_found(nd, n2, "title"@, n.title@);
    }
    if trimmed(n.body@).len() > 0 {
        lemma_found(nd, n2, "notification_body"@, n.body@);
    }
    let a1 = with_field(none, "title"@, a.title@);
    let a2 = with_field(a1, "action_name"@, a.name@);
    let a3 = with_field(a2, "description"@, a.description@);
    let a4 = with_field(a3, "script_source"@, a.script_source@);
    lemma_with_field(none, "title"@, a.title@);
    lemma_with_field(a1, "action_name"@, a.name@);
    lemma_with_field(a2, "description"@, a.description@);
    lemma_with_field(a3, "script_source"@, a.script_source@);
    let ad = super::documents::new_document(
        SearchEntityKind::Action,
        a.action_uuid@,
        a.title@,
        joined_values(a4),
        0,
    );
    if trimmed(a.title@).len() > 0 {
        lemma_found(ad, a4, "title"@, a.title@);
    }
    if trimmed(a.name@).len() > 0 {
        lemma_found(ad, a4, "action_name"@, a.name@);
    }
    if trimmed(a.description@).len() > 0 {
        lemma_found(ad, a4, "description"@, a.description@);
    }
    if trimmed(a.script_source@).len() > 0 {
        lemma_found(ad, a4, "script_source"@, a.script_source@);
    }
    let v1 = with_field(none, "title"@, v.name@);
    let v2 = with_field(v1, "markdown"@, v.raw_markdown@);
    lemma_with_field(none, "title"@, v.name@);
    lemma_with_field(v1, "markdown"@, v.raw_markdown@);
    let vd = super::documents::new_document(
        SearchEntityKind::AgentVersion,
        v.version_id@,
        v.name@,
        joined_values(v2),
        millis_of(at_second(v.created_at)),
    );
    if trimmed(v.name@).len() > 0 {
        lemma_found(vd, v2, "title"@, v.name@);
    }
    if trimmed(v.raw_markdown@).len() > 0 {
        lemma_found(vd, v2, "markdown"@, v.raw_markdown@);
    }
}

/// A message is found by every text of its content that is not blank, and one that has no content
/// by its own text.
pub proof fn law_message_is_found_by_its_content(
    session_id: Seq<char>,
    message_id: Seq<char>,
    created_at_ms: i64,
    message_json: Seq<char>,
    content: JsonView,
    s: Seq<char>,
)
    requires
        trimmed(s).len() > 0,
    ensures
        json_read(message_json) is Ok && field(json_read(message_json)->Ok_0, "content"@) == Some(
            content,
        ) && holds_text(content, s) ==> has_part(
            chat_message_document(session_id, message_id, created_at_ms, message_json).body,
            trimmed(s),
        ),
        json_read(message_json) is Err && message_json == s ==> has_part(
            chat_message_document(session_id, message_id, created_at_ms, message_json).body,
            trimmed(s),
        ),
{
    lemma_title_name();
    reveal_strlit("title");
    reveal_strlit("message_content");
    reveal_strlit("message_json");
    law_plain_names_stay("message_content"@);
    law_plain_names_stay("message_json"@);
    assert("message_content"@[0] == 'm' && "message_json"@[0] == 'm' && "title"@[0] == 't');
    let parsed = message_value(message_json);
    let title = match super::documents::message_title(parsed) {
        Some(t) => t,
        None => message_id,
    };
    let first = with_field(Seq::empty(), "title"@, title);
    let fields = super::documents::message_fields(first, parsed, message_json);
    let base = super::documents::new_document(
        SearchEntityKind::ChatMessage,
        message_id,
        title,
        joined_values(fields),
        created_at_ms,
    );
    let d = document_with_fields(base, fields);
    if json_read(message_json) is Ok && field(json_read(message_json)->Ok_0, "content"@) == Some(
        content,
    ) && holds_text(content, s) {
        let value = scalar_text(content);
        law_value_text_holds_texts(content, s);
        assert(trimmed(value).len() > 0) by {
            let at = choose|at: int|
                0 <= at && at + trimmed(s).len() <= trimmed(value).len() && #[trigger] trimmed(
                    value,
                ).subrange(at, at + trimmed(s).len()) == trimmed(s);
        }
        lemma_with_field(first, "message_content"@, value);
        lemma_found(base, fields, "message_content"@, value);
        law_part_of_part(d.body, trimmed(value), trimmed(s));
    }
    if json_read(message_json) is Err && message_json == s {
        lemma_with_field(first, "message_json"@, s);
        lemma_found(base, fields, "message_json"@, s);
    }
}

/// A collection and a conversation are found by their titles; a conversation without one by its
/// id.
pub proof fn law_titles_are_found(c: CollectionEntryView, session: ChatSession)
    ensures
        trimmed(c.title).len() > 0 ==> collection_document(c).content_fields.contains(
            ("title"@, c.title),
        ),
        session.title matches Some(t) && trimmed(t@).len() > 0 ==> chat_session_document(
            session,
        ).content_fields.contains(("title"@, session.title->0@)),
        session.title is None && trimmed(session.session_id@).len() > 0 ==> chat_session_document(
            session,
        ).content_fields.contains(("title"@, session.session_id@)),
{
    lemma_title_name();
    lemma_name_is_solid("title"@);
    let keep = |f: (Seq<char>, Seq<char>)| trimmed(f.0).len() != 0 && trimmed(f.1).len() != 0;
    if trimmed(c.title).len() > 0 {
        lemma_filter_keeps(seq![("title"@, c.title)], keep, 0);
    }
    let title = match session.title {
        Some(t) => t@,
        None => session.session_id@,
    };
    if trimmed(title).len() > 0 {
        lemma_filter_keeps(seq![("title"@, title)], keep, 0);
    }
}

/// What filters ask for of a document is what the entity has: which one it is, where it stands,
/// when it was made and changed, and what state it is in.
pub proof fn law_facts_are_those_of_the_entity(
    c: CollectionEntryView,
    t: ThingEntryView,
    session: ChatSession,
    n: NotificationEntry,
    a: ActionDefinition,
    v: AgentVersion,
)
    ensures
        ({
            let d = collection_document(c);
            &&& d.kind == SearchEntityKind::Collection && d.entity_id == c.uuid && d.title
                == c.title
            &&& d.business.created_at_ms == Some(millis_of(c.created_at))
            &&& d.business.updated_at_ms == Some(millis_of(c.updated_at))
            &&& d.business.app_id == c.app_id
            &&& d.business.collection_uuid == Some(c.uuid)
            &&& d.business.collection_type == Some(collection_type_name(c.collection_type))
            &&& d.business.archived == Some(c.archived_at is Some)
        }),
        ({
            let d = thing_document(t);
            &&& d.kind == SearchEntityKind::Thing && d.entity_id == t.uuid && d.title == t.title
            &&& d.parent_id == Some(t.collection_uuid)
            &&& d.business.created_at_ms == Some(millis_of(t.created_at))
            &&& d.business.updated_at_ms == Some(millis_of(t.updated_at))
            &&& d.business.status == Some(t.status)
            &&& d.business.datatype == Some(t.datatype)
            &&& d.business.collection_uuid == Some(t.collection_uuid)
            &&& d.business.archived == Some(t.archived_at is Some)
        }),
        ({
            let d = chat_session_document(session);
            &&& d.kind == SearchEntityKind::ChatSession && d.entity_id == session.session_id@
            &&& d.business.session_id == Some(session.session_id@)
            &&& d.business.created_at_ms == Some(millis_of(at_second(session.created_at)))
            &&& d.business.updated_at_ms == Some(millis_of(at_second(session.last_activity)))
        }),
        ({
            let d = notification_document(n);
            &&& d.kind == SearchEntityKind::Notification && d.title == n.title@
            &&& d.parent_id == Some(n.category@) && d.business.category == Some(n.category@)
            &&& d.business.source == Some(n.source@)
            &&& d.business.created_at_ms == Some(millis_of(at_second(n.created_at)))
        }),
        ({
            let d = action_document(a);
            &&& d.kind == SearchEntityKind::Action && d.entity_id == a.action_uuid@ && d.title
                == a.title@
            &&& d.business.category == Some(a.category@)
        }),
        ({
            let d = agent_version_document(v);
            &&& d.kind == SearchEntityKind::AgentVersion && d.entity_id == v.version_id@
                && d.title == v.name@
            &&& d.parent_id == Some(v.agent_id@) && d.business.agent_id == Some(v.agent_id@)
            &&& d.business.created_at_ms == Some(millis_of(at_second(v.created_at)))
            &&& d.business.updated_at_ms == Some(millis_of(at_second(v.updated_at)))
        }),
{
}

/// The number of milliseconds of a point in time grows with it, and is exact where it can be
/// held.
pub proof fn law_milliseconds_are_exact(t: DomainTime, later: DomainTime)
    requires
        t.nanos < 2_000_000_000,
        later.nanos < 2_000_000_000,
    ensures
        i64::MIN <= t.seconds * 1000 && t.seconds * 1000 + 1999 <= i64::MAX ==> {
            &&& millis_of(t) * 1_000_000 <= t.seconds * 1_000_000_000 + t.nanos
            &&& t.seconds * 1_000_000_000 + t.nanos < (millis_of(t) + 1) * 1_000_000
        },
        t.seconds * 1_000_000_000 + t.nanos <= later.seconds * 1_000_000_000 + later.nanos
            ==> millis_of(t) <= millis_of(later),
{
}

} // verus!
