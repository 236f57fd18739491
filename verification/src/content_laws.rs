//! What an edit makes of a text, and how a content entry is written out.
use crate::content_edit::{
    edit_asked, edited, lines_of, place_count, places_before, stands_at, EditRefusal, EditView,
};
use crate::content_registry::{
    entry_json, first_of_kind, is_of_kind, law_payload_round_trip, payload_json, regular_payload,
    snapshot_entry_fault, snapshot_entry_of, ContentEntryKind, EntryView, PayloadView,
};
use crate::json::{bool_field, field, float_of, int_text, lemma_lookup_at, text_field, JsonView};
use crate::text::joined;
use vstd::prelude::*;

verus! {

/// An overwritten text is the new one, a title leaves the text as it is, and what is appended comes
/// after the text.
pub proof fn law_plain_edits(current: Seq<char>, new: Seq<char>)
    ensures
        edited(current, EditView::Overwrite { new_content: new }) == Ok::<
            (Option<Seq<char>>, Seq<char>),
            EditRefusal,
        >((None, new)),
        edited(current, EditView::SetTitle { new_title: new }) == Ok::<
            (Option<Seq<char>>, Seq<char>),
            EditRefusal,
        >((Some(new), current)),
        edited(current, EditView::Append { append_text: new }) is Ok,
        ({
            let after = edited(current, EditView::Append { append_text: new })->Ok_0.1;
            &&& after.len() == current.len() + new.len()
            &&& after.take(current.len() as int) == current
            &&& after.skip(current.len() as int) == new
        }),
{
    let after = edited(current, EditView::Append { append_text: new })->Ok_0.1;
    assert(after.take(current.len() as int) =~= current);
    assert(after.skip(current.len() as int) =~= new);
}

proof fn lemma_places(s: Seq<char>, part: Seq<char>, n: int)
    ensures
        places_before(s, part, n) == 0 <==> forall|at: int|
            0 <= at < n ==> !#[trigger] stands_at(s, part, at),
        places_before(s, part, n) <= 1 ==> forall|a: int, b: int|
            0 <= a < n && 0 <= b < n && #[trigger] stands_at(s, part, a) && #[trigger] stands_at(
                s,
                part,
                b,
            ) ==> a == b,
        places_before(s, part, n) > 1 ==> exists|a: int, b: int|
            0 <= a < b < n && #[trigger] stands_at(s, part, a) && #[trigger] stands_at(s, part, b),
    decreases n,
{
    if n > 0 {
        lemma_places(s, part, n - 1);
        if places_before(s, part, n - 1) > 0 && stands_at(s, part, n - 1) {
            let a = choose|at: int| 0 <= at < n - 1 && stands_at(s, part, at);
            assert(stands_at(s, part, a) && stands_at(s, part, n - 1));
        }
        if places_before(s, part, n) == 0 {
            assert(!stands_at(s, part, n - 1));
        }
    }
}

/// A replacement is refused where the text to replace does not occur, and where it occurs at two
/// places; it is made where there is just one.
pub proof fn law_replacement_needs_one_place(
    current: Seq<char>,
    old_str: Seq<char>,
    new_str: Seq<char>,
)
    ensures
        ({
            let out = edited(current, EditView::StrReplace { old_str, new_str });
            &&& out == Err::<(Option<Seq<char>>, Seq<char>), EditRefusal>(EditRefusal::NoMatch)
                <==> forall|at: int| !#[trigger] stands_at(current, old_str, at)
            &&& out == Err::<(Option<Seq<char>>, Seq<char>), EditRefusal>(
                EditRefusal::ManyMatches,
            ) <==> exists|a: int, b: int|
                a < b && #[trigger] stands_at(current, old_str, a) && #[trigger] stands_at(
                    current,
                    old_str,
                    b,
                )
            &&& out is Err ==> out->Err_0 == EditRefusal::NoMatch || out->Err_0
                == EditRefusal::ManyMatches
        }),
{
    lemma_places(current, old_str, current.len() as int + 1);
    assert(forall|at: int|
        #[trigger] stands_at(current, old_str, at) ==> 0 <= at < current.len() + 1);
    if exists|a: int, b: int|
        a < b && #[trigger] stands_at(current, old_str, a) && #[trigger] stands_at(
            current,
            old_str,
            b,
        ) {
        assert(place_count(current, old_str) > 1);
    }
}

/// Whether a text is within one line.
pub open spec fn in_one_line(s: Seq<char>) -> bool {
    forall|i: int| 0 <= i < s.len() ==> (#[trigger] s[i]) != '\n'
}

proof fn lemma_lines_after_break(a: Seq<char>, b: Seq<char>)
    requires
        in_one_line(b),
    ensures
        lines_of(a.push('\n') + b) == lines_of(a).push(b),
    decreases b.len(),
{
    let s = a.push('\n') + b;
    if b.len() == 0 {
        assert(s =~= a.push('\n'));
        assert(s.drop_last() =~= a);
        assert(b =~= Seq::empty());
    } else {
        let front = b.drop_last();
        assert(in_one_line(front)) by {
            assert forall|i: int| 0 <= i < front.len() implies (#[trigger] front[i]) != '\n' by {
                assert(front[i] == b[i]);
            }
        }
        lemma_lines_after_break(a, front);
        assert(s.drop_last() =~= a.push('\n') + front);
        assert(s.last() == b.last());
        assert(b[b.len() - 1] != '\n');
        let before = lines_of(s.drop_last());
        assert(before == lines_of(a).push(front));
        assert(before.update(before.len() - 1, before.last().push(s.last())) =~= lines_of(a).push(
            b,
        )) by {
            assert(front.push(b.last()) =~= b);
        }
    }
}

proof fn lemma_one_line(s: Seq<char>)
    requires
        in_one_line(s),
    ensures
        lines_of(s) == seq![s],
    decreases s.len(),
{
    if s.len() > 0 {
        let front = s.drop_last();
        assert(in_one_line(front)) by {
            assert forall|i: int| 0 <= i < front.len() implies (#[trigger] front[i]) != '\n' by {
                assert(front[i] == s[i]);
            }
        }
        lemma_one_line(front);
        assert(s[s.len() - 1] != '\n');
        assert(front.push(s.last()) =~= s);
        assert(lines_of(s) =~= seq![s]);
    } else {
        assert(s =~= Seq::empty());
        assert(lines_of(s) =~= seq![s]);
    }
}

/// Lines that are put together are the lines of the text that they make.
pub proof fn law_text_has_its_lines(lines: Seq<Seq<char>>)
    requires
        lines.len() > 0,
        forall|i: int| 0 <= i < lines.len() ==> in_one_line(#[trigger] lines[i]),
    ensures
        lines_of(joined(lines, "\n"@)) == lines,
    decreases lines.len(),
{
    reveal_strlit("\n");
    if lines.len() == 1 {
        lemma_one_line(lines[0]);
        assert(lines =~= seq![lines[0]]);
    } else {
        let front = lines.drop_last();
        assert forall|i: int| 0 <= i < front.len() implies in_one_line(#[trigger] front[i]) by {
            assert(front[i] == lines[i]);
        }
        law_text_has_its_lines(front);
        assert(in_one_line(lines[lines.len() - 1]));
        let a = joined(front, "\n"@);
        lemma_lines_after_break(a, lines.last());
        assert("\n"@ =~= seq!['\n']);
        assert(joined(lines, "\n"@) =~= a.push('\n') + lines.last());
        assert(front.push(lines.last()) =~= lines);
    }
}

proof fn lemma_lines_are_lines(s: Seq<char>)
    ensures
        lines_of(s).len() > 0,
        forall|i: int| 0 <= i < lines_of(s).len() ==> in_one_line(#[trigger] lines_of(s)[i]),
    decreases s.len(),
{
    if s.len() > 0 {
        let before = lines_of(s.drop_last());
        lemma_lines_are_lines(s.drop_last());
        assert(in_one_line(before[before.len() - 1]));
        assert forall|i: int| 0 <= i < lines_of(s).len() implies in_one_line(
            #[trigger] lines_of(s)[i],
        ) by {
            if i < before.len() - 1 {
                assert(lines_of(s)[i] == before[i]);
            } else if s.last() == '\n' && i == before.len() - 1 {
                assert(lines_of(s)[i] == before[i]);
            }
        }
    }
}

/// A line that is put in stands at its place: the lines before it and after it stay. A place after
/// the end is refused.
pub proof fn law_inserted_line_stands_at_its_place(current: Seq<char>, n: nat, line: Seq<char>)
    requires
        in_one_line(line),
    ensures
        ({
            let out = edited(
                current,
                EditView::InsertAtLine { line_number: n, insert_text: line },
            );
            let before = lines_of(current);
            &&& out is Ok <==> n <= before.len()
            &&& out is Err ==> out->Err_0 == EditRefusal::NoSuchLine
            &&& out is Ok ==> {
                let after = lines_of(out->Ok_0.1);
                &&& after.len() == before.len() + 1
                &&& after[n as int] == line
                &&& forall|i: int| 0 <= i < n ==> #[trigger] after[i] == before[i]
                &&& forall|i: int| n <= i < before.len() ==> after[i + 1] == #[trigger] before[i]
            }
        }),
{
    let before = lines_of(current);
    lemma_lines_are_lines(current);
    if n <= before.len() {
        let lines = before.insert(n as int, line);
        assert forall|i: int| 0 <= i < lines.len() implies in_one_line(#[trigger] lines[i]) by {
            if i < n {
                assert(lines[i] == before[i]);
            } else if i > n {
                assert(lines[i] == before[i - 1]);
            }
        }
        law_text_has_its_lines(lines);
    }
}

proof fn lemma_operations_differ()
    ensures
        "overwrite"@.len() == 9,
        "set_title"@.len() == 9 && "set_title"@[0] == 's' && "overwrite"@[0] == 'o',
        "str_replace"@.len() == 11,
        "insert_at_line"@.len() == 14,
        "append"@.len() == 6,
{
    reveal_strlit("overwrite");
    reveal_strlit("set_title");
    reveal_strlit("str_replace");
    reveal_strlit("insert_at_line");
    reveal_strlit("append");
}

/// Each operation takes what is given under its own name, and is refused without it.
pub proof fn law_operations_take_their_own_fields(
    title: Option<Seq<char>>,
    content: Option<Seq<char>>,
    old_str: Option<Seq<char>>,
    new_str: Option<Seq<char>>,
    line: Option<nat>,
    insert: Option<Seq<char>>,
    append: Option<Seq<char>>,
)
    ensures
        ({
            let ask = |op: Seq<char>|
                edit_asked(op, title, content, old_str, new_str, line, insert, append);
            let missing = Err::<EditView, EditRefusal>(EditRefusal::MissingField);
            &&& content matches Some(s) ==> ask("overwrite"@) == Ok::<EditView, EditRefusal>(
                EditView::Overwrite { new_content: s },
            )
            &&& content is None ==> ask("overwrite"@) == missing
            &&& title matches Some(s) ==> ask("set_title"@) == Ok::<EditView, EditRefusal>(
                EditView::SetTitle { new_title: s },
            )
            &&& title is None ==> ask("set_title"@) == missing
            &&& old_str is Some && new_str is Some ==> ask("str_replace"@) == Ok::<
                EditView,
                EditRefusal,
            >(EditView::StrReplace { old_str: old_str->0, new_str: new_str->0 })
            &&& old_str is None || new_str is None ==> ask("str_replace"@) == missing
            &&& line is Some && insert is Some ==> ask("insert_at_line"@) == Ok::<
                EditView,
                EditRefusal,
            >(EditView::InsertAtLine { line_number: line->0, insert_text: insert->0 })
            &&& line is None || insert is None ==> ask("insert_at_line"@) == missing
            &&& append matches Some(s) ==> ask("append"@) == Ok::<EditView, EditRefusal>(
                EditView::Append { append_text: s },
            )
            &&& append is None ==> ask("append"@) == missing
        }),
{
    lemma_operations_differ();
}

proof fn lemma_entry_names()
    ensures
        "id"@.len() == 2,
        "order"@.len() == 5 && "order"@[0] == 'o',
        "payload"@.len() == 7,
        "title"@.len() == 5 && "title"@[0] == 't',
{
    reveal_strlit("id");
    reveal_strlit("order");
    reveal_strlit("payload");
    reveal_strlit("title");
}

/// A content entry that is written out and read again is the same entry.
pub proof fn law_entries_come_back(e: EntryView, fresh: Seq<char>)
    requires
        regular_payload(e.payload),
        float_of(e.order) == Some(e.order),
    ensures
        snapshot_entry_fault(entry_json(e)) is None,
        snapshot_entry_of(entry_json(e), fresh) == e,
        text_field(entry_json(e), "id"@) == Some(e.id),
        text_field(entry_json(e), "title"@) == e.title,
        field(entry_json(e), "payload"@) == Some(payload_json(e.payload)),
{
    lemma_entry_names();
    let entries = entry_json(e)->Object_0;
    lemma_lookup_at(entries, "id"@, 0);
    lemma_lookup_at(entries, "order"@, 1);
    lemma_lookup_at(entries, "payload"@, 2);
    lemma_lookup_at(entries, "title"@, 3);
    law_payload_round_trip(e.payload, fresh);
}

proof fn lemma_payload_names()
    ensures
        "type"@.len() == 4,
        "doc_uuid"@.len() == 8 && "doc_uuid"@[0] == 'd',
        "url"@.len() == 3,
        "uri"@.len() == 3,
        "lat"@.len() == 3 && "lat"@[1] == 'a',
        "lng"@.len() == 3 && "lng"@[1] == 'n',
        "name"@.len() == 4 && "name"@[0] == 'n',
        "type"@[0] == 't',
        "loc_type"@.len() == 8 && "loc_type"@[0] == 'l',
        "place_type"@.len() == 10,
        "coord_system"@.len() == 12,
        "timestamp_ms"@.len() == 12,
        "has_time"@.len() == 8 && "has_time"@[0] == 'h',
        "data_doc_uuid"@.len() == 13,
        "schema_doc_uuid"@.len() == 15,
        "description"@.len() == 11 && "description"@[0] == 'd',
        "favicon_url"@.len() == 11 && "favicon_url"@[0] == 'f',
        "image_url"@.len() == 9 && "image_url"@[0] == 'i',
        "resolved"@.len() == 8 && "resolved"@[0] == 'r',
        "site_name"@.len() == 9 && "site_name"@[0] == 's',
        "title"@.len() == 5,
        "caption"@.len() == 7,
        "device_id"@.len() == 9,
        "height"@.len() == 6,
        "size_bytes"@.len() == 10,
        "source_name"@.len() == 11,
        "timezone"@.len() == 8,
{
    reveal_strlit("type");
    reveal_strlit("doc_uuid");
    reveal_strlit("url");
    reveal_strlit("uri");
    reveal_strlit("lat");
    reveal_strlit("lng");
    reveal_strlit("name");
    reveal_strlit("loc_type");
    reveal_strlit("place_type");
    reveal_strlit("coord_system");
    reveal_strlit("timestamp_ms");
    reveal_strlit("has_time");
    reveal_strlit("data_doc_uuid");
    reveal_strlit("schema_doc_uuid");
    reveal_strlit("description");
    reveal_strlit("favicon_url");
    reveal_strlit("image_url");
    reveal_strlit("resolved");
    reveal_strlit("site_name");
    reveal_strlit("title");
    reveal_strlit("caption");
    reveal_strlit("device_id");
    reveal_strlit("height");
    reveal_strlit("size_bytes");
    reveal_strlit("source_name");
    reveal_strlit("timezone");
}

/// What a payload holds stands under the name of its field, and its kind under `type`.
pub proof fn law_payload_fields_have_their_names(p: PayloadView)
    ensures
        ({
            let j = payload_json(p);
            match p {
                PayloadView::Markdown { doc_uuid } => text_field(j, "type"@) == Some("markdown"@)
                    && text_field(j, "doc_uuid"@) == Some(doc_uuid),
                PayloadView::JsonObject { data_doc_uuid, schema_doc_uuid } => text_field(
                    j,
                    "type"@,
                ) == Some("json_object"@) && text_field(j, "data_doc_uuid"@) == Some(
                    data_doc_uuid,
                ) && text_field(j, "schema_doc_uuid"@) == schema_doc_uuid,
                PayloadView::Url { url, .. } => text_field(j, "type"@) == Some("url"@)
                    && text_field(j, "url"@) == Some(url) && text_field(j, "title"@) == p->Url_title
                    && text_field(j, "description"@) == p->Url_description,
                PayloadView::Coordinate { lat, lng, coord_system, source_name } => text_field(
                    j,
                    "type"@,
                ) == Some("location"@) && text_field(j, "loc_type"@) == Some("coordinate"@)
                    && field(j, "lat"@) == Some(JsonView::Number(lat)) && field(j, "lng"@) == Some(
                    JsonView::Number(lng),
                ) && text_field(j, "coord_system"@) == Some(coord_system),
                PayloadView::Fuzzy { name, place_type } => text_field(j, "type"@) == Some(
                    "location"@,
                ) && text_field(j, "loc_type"@) == Some("fuzzy"@) && text_field(j, "name"@)
                    == Some(name) && text_field(j, "place_type"@) == Some(place_type),
                PayloadView::Date { timestamp_ms, has_time, .. } => text_field(j, "type"@) == Some(
                    "date"@,
                ) && field(j, "timestamp_ms"@) == Some(JsonView::Number(int_text(timestamp_ms)))
                    && bool_field(j, "has_time"@) == Some(has_time),
                PayloadView::Image { uri, caption, .. } => text_field(j, "type"@) == Some("image"@)
                    && text_field(j, "uri"@) == Some(uri) && text_field(j, "caption"@) == caption,
                PayloadView::Custom { .. } => true,
            }
        }),
{
    lemma_payload_names();
    let entries = payload_json(p)->Object_0;
    match p {
        PayloadView::Markdown { .. } => {
            lemma_lookup_at(entries, "doc_uuid"@, 0);
            lemma_lookup_at(entries, "type"@, 1);
        },
        PayloadView::JsonObject { .. } => {
            lemma_lookup_at(entries, "data_doc_uuid"@, 0);
            lemma_lookup_at(entries, "schema_doc_uuid"@, 1);
            lemma_lookup_at(entries, "type"@, 2);
        },
        PayloadView::Url { .. } => {
            lemma_lookup_at(entries, "description"@, 0);
            lemma_lookup_at(entries, "title"@, 5);
            lemma_lookup_at(entries, "type"@, 6);
            lemma_lookup_at(entries, "url"@, 7);
        },
        PayloadView::Coordinate { .. } => {
            lemma_lookup_at(entries, "coord_system"@, 0);
            lemma_lookup_at(entries, "lat"@, 1);
            lemma_lookup_at(entries, "lng"@, 2);
            lemma_lookup_at(entries, "loc_type"@, 3);
            lemma_lookup_at(entries, "type"@, 5);
        },
        PayloadView::Fuzzy { .. } => {
            lemma_lookup_at(entries, "loc_type"@, 0);
            lemma_lookup_at(entries, "name"@, 1);
            lemma_lookup_at(entries, "place_type"@, 2);
            lemma_lookup_at(entries, "type"@, 3);
        },
        PayloadView::Date { .. } => {
            lemma_lookup_at(entries, "has_time"@, 0);
            lemma_lookup_at(entries, "timestamp_ms"@, 1);
            lemma_lookup_at(entries, "type"@, 3);
        },
        PayloadView::Image { .. } => {
            lemma_lookup_at(entries, "caption"@, 0);
            lemma_lookup_at(entries, "type"@, 4);
            lemma_lookup_at(entries, "uri"@, 5);
        },
        PayloadView::Custom { .. } => {},
    }
}

/// The payload of a kind is that of the first entry of that kind.
pub proof fn law_first_of_a_kind(entries: Seq<EntryView>, kind: ContentEntryKind, i: int)
    requires
        0 <= i < entries.len(),
        is_of_kind(entries[i].payload, kind),
        forall|k: int| 0 <= k < i ==> !is_of_kind((#[trigger] entries[k]).payload, kind),
    ensures
        first_of_kind(entries, kind) == Some(entries[i].payload),
        kind is Markdown ==> entries[i].payload is Markdown,
        kind is JsonObject ==> entries[i].payload is JsonObject,
        kind is Url ==> entries[i].payload is Url,
        kind is Date ==> entries[i].payload is Date,
        kind is Image ==> entries[i].payload is Image,
        kind is Location ==> entries[i].payload is Coordinate || entries[i].payload is Fuzzy,
    decreases entries.len(),
{
    if i > 0 {
        let rest = entries.drop_first();
        assert forall|k: int| 0 <= k < i - 1 implies !is_of_kind(
            (#[trigger] rest[k]).payload,
            kind,
        ) by {
            assert(rest[k] == entries[k + 1]);
        }
        assert(!is_of_kind(entries[0].payload, kind));
        assert(rest[i - 1] == entries[i]);
        law_first_of_a_kind(rest, kind, i - 1);
    }
}

} // verus!
