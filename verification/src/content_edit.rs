//! Edits of the text of a thing as an editor makes them.
use crate::text::{
    cat, cat3, chars_of, join, joined, owned, part_at, same, text_of, views,
};
use vstd::prelude::*;

verus! {

/// An edit of the text or of the title of a thing.
#[derive(Debug)]
pub enum ContentEdit {
    /// Puts a text in the place of the whole.
    Overwrite { new_content: String },
    /// Changes the title and nothing else.
    SetTitle { new_title: String },
    /// Puts a text in the place of one that occurs exactly once.
    StrReplace { old_str: String, new_str: String },
    /// Puts lines behind a line; behind line 0 they come first.
    InsertAtLine { line_number: usize, insert_text: String },
    /// Puts a text behind the whole.
    Append { append_text: String },
}

/// An edit over character sequences.
pub enum EditView {
    Overwrite { new_content: Seq<char> },
    SetTitle { new_title: Seq<char> },
    StrReplace { old_str: Seq<char>, new_str: Seq<char> },
    InsertAtLine { line_number: nat, insert_text: Seq<char> },
    Append { append_text: Seq<char> },
}

impl View for ContentEdit {
    type V = EditView;

    open spec fn view(&self) -> EditView {
        match self {
            ContentEdit::Overwrite { new_content } => EditView::Overwrite {
                new_content: new_content@,
            },
            ContentEdit::SetTitle { new_title } => EditView::SetTitle { new_title: new_title@ },
            ContentEdit::StrReplace { old_str, new_str } => EditView::StrReplace {
                old_str: old_str@,
                new_str: new_str@,
            },
            ContentEdit::InsertAtLine { line_number, insert_text } => EditView::InsertAtLine {
                line_number: *line_number as nat,
                insert_text: insert_text@,
            },
            ContentEdit::Append { append_text } => EditView::Append { append_text: append_text@ },
        }
    }
}

/// Why an edit is not made.
#[derive(Clone, Copy, Debug, PartialEq, Eq, Structural)]
pub enum EditRefusal {
    /// There is no operation with the name.
    UnknownOperation,
    /// A field that the operation needs is not given.
    MissingField,
    /// The text that is to be replaced does not occur.
    NoMatch,
    /// The text that is to be replaced occurs more than once.
    ManyMatches,
    /// The text does not have that many lines.
    NoSuchLine,
}

/// What is left after an edit: the text, and the title where it was changed.
#[derive(Debug)]
pub struct EditedContent {
    pub title: Option<String>,
    pub text: String,
}

/// An edit that was not made, with the text as it is, so that another one can be tried.
#[derive(Debug)]
pub struct RefusedEdit {
    pub refusal: EditRefusal,
    pub current: String,
}

/// Whether `part` stands in `s` at a place.
pub open spec fn stands_at(s: Seq<char>, part: Seq<char>, at: int) -> bool {
    0 <= at && at + part.len() <= s.len() && s.subrange(at, at + part.len()) == part
}

/// At how many of the places before `n` a text stands in another.
pub open spec fn places_before(s: Seq<char>, part: Seq<char>, n: int) -> nat
    decreases n,
{
    if n <= 0 {
        0
    } else {
        places_before(s, part, n - 1) + if stands_at(s, part, n - 1) {
            1nat
        } else {
            0nat
        }
    }
}

/// At how many places a text stands in another.
pub open spec fn place_count(s: Seq<char>, part: Seq<char>) -> nat {
    places_before(s, part, s.len() as int + 1)
}

/// The last of the places before `n` at which a text stands in another; -1 where there is none.
pub open spec fn last_place_before(s: Seq<char>, part: Seq<char>, n: int) -> int
    decreases n,
{
    if n <= 0 {
        -1
    } else if stands_at(s, part, n - 1) {
        n - 1
    } else {
        last_place_before(s, part, n - 1)
    }
}

/// The last place at which a text stands in another.
pub open spec fn last_place(s: Seq<char>, part: Seq<char>) -> int {
    last_place_before(s, part, s.len() as int + 1)
}

/// The lines of a text; the last one may be empty.
pub open spec fn lines_of(s: Seq<char>) -> Seq<Seq<char>>
    decreases s.len(),
{
    if s.len() == 0 {
        seq![Seq::empty()]
    } else {
        let before = lines_of(s.drop_last());
        if s.last() == '\n' {
            before.push(Seq::empty())
        } else {
            before.update(before.len() - 1, before.last().push(s.last()))
        }
    }
}

/// What an edit makes of a text: the title where it changes, and the text that is left.
pub open spec fn edited(current: Seq<char>, edit: EditView) -> Result<
    (Option<Seq<char>>, Seq<char>),
    EditRefusal,
> {
    match edit {
        EditView::Overwrite { new_content } => Ok((None, new_content)),
        EditView::SetTitle { new_title } => Ok((Some(new_title), current)),
        EditView::StrReplace { old_str, new_str } => if place_count(current, old_str) == 0 {
            Err(EditRefusal::NoMatch)
        } else if place_count(current, old_str) > 1 {
            Err(EditRefusal::ManyMatches)
        } else {
            let at = last_place(current, old_str);
            Ok((None, current.take(at) + new_str + current.skip(at + old_str.len())))
        },
        EditView::InsertAtLine { line_number, insert_text } => {
            let lines = lines_of(current);
            if line_number > lines.len() {
                Err(EditRefusal::NoSuchLine)
            } else {
                Ok((None, joined(lines.insert(line_number as int, insert_text), "\n"@)))
            }
        },
        EditView::Append { append_text } => Ok((None, current + append_text)),
    }
}

pub open spec fn field_view(field: Option<&str>) -> Option<Seq<char>> {
    match field {
        Some(s) => Some(s@),
        None => None,
    }
}

/// The edit that an operation and its fields ask for.
pub open spec fn edit_asked(
    operation: Seq<char>,
    new_title: Option<Seq<char>>,
    new_content: Option<Seq<char>>,
    old_str: Option<Seq<char>>,
    new_str: Option<Seq<char>>,
    line_number: Option<nat>,
    insert_text: Option<Seq<char>>,
    append_text: Option<Seq<char>>,
) -> Result<EditView, EditRefusal> {
    if operation == "overwrite"@ {
        match new_content {
            Some(new_content) => Ok(EditView::Overwrite { new_content }),
            None => Err(EditRefusal::MissingField),
        }
    } else if operation == "set_title"@ {
        match new_title {
            Some(new_title) => Ok(EditView::SetTitle { new_title }),
            None => Err(EditRefusal::MissingField),
        }
    } else if operation == "str_replace"@ {
        match (old_str, new_str) {
            (Some(old_str), Some(new_str)) => Ok(EditView::StrReplace { old_str, new_str }),
            _ => Err(EditRefusal::MissingField),
        }
    } else if operation == "insert_at_line"@ {
        match (line_number, insert_text) {
            (Some(line_number), Some(insert_text)) => Ok(
                EditView::InsertAtLine { line_number, insert_text },
            ),
            _ => Err(EditRefusal::MissingField),
        }
    } else if operation == "append"@ {
        match append_text {
            Some(append_text) => Ok(EditView::Append { append_text }),
            None => Err(EditRefusal::MissingField),
        }
    } else {
        Err(EditRefusal::UnknownOperation)
    }
}

pub open spec fn line_view(line_number: Option<usize>) -> Option<nat> {
    match line_number {
        Some(n) => Some(n as nat),
        None => None,
    }
}

/// Reads the edit that an operation and its fields ask for. Fields that the operation does not
/// need are not looked at.
pub fn read_content_edit(
    operation: &str,
    new_title: Option<&str>,
    new_content: Option<&str>,
    old_str: Option<&str>,
    new_str: Option<&str>,
    line_number: Option<usize>,
    insert_text: Option<&str>,
    append_text: Option<&str>,
) -> (out: Result<ContentEdit, EditRefusal>)
    ensures
        match edit_asked(
            operation@,
            field_view(new_title),
            field_view(new_content),
            field_view(old_str),
            field_view(new_str),
            line_view(line_number),
            field_view(insert_text),
            field_view(append_text),
        ) {
            Ok(edit) => out matches Ok(o) && o@ == edit,
            Err(e) => out == Err::<ContentEdit, EditRefusal>(e),
        },
{
    if same(operation, "overwrite") {
        match new_content {
            Some(s) => Ok(ContentEdit::Overwrite { new_content: owned(s) }),
            None => Err(EditRefusal::MissingField),
        }
    } else if same(operation, "set_title") {
        match new_title {
            Some(s) => Ok(ContentEdit::SetTitle { new_title: owned(s) }),
            None => Err(EditRefusal::MissingField),
        }
    } else if same(operation, "str_replace") {
        match (old_str, new_str) {
            (Some(old), Some(new)) => Ok(
                ContentEdit::StrReplace { old_str: owned(old), new_str: owned(new) },
            ),
            _ => Err(EditRefusal::MissingField),
        }
    } else if same(operation, "insert_at_line") {
        match (line_number, insert_text) {
            (Some(n), Some(s)) => Ok(
                ContentEdit::InsertAtLine { line_number: n, insert_text: owned(s) },
            ),
            _ => Err(EditRefusal::MissingField),
        }
    } else if same(operation, "append") {
        match append_text {
            Some(s) => Ok(ContentEdit::Append { append_text: owned(s) }),
            None => Err(EditRefusal::MissingField),
        }
    } else {
        Err(EditRefusal::UnknownOperation)
    }
}

/// Counts the places at which a text stands in another, and gives the last of them.
fn find_places(chars: &Vec<char>, part: &Vec<char>) -> (out: (u128, usize))
    ensures
        out.0 == place_count(chars@, part@),
        out.0 > 0 ==> out.1 == last_place(chars@, part@) && stands_at(
            chars@,
            part@,
            out.1 as int,
        ),
{
    let mut n: u128 = 0;
    let mut last: usize = 0;
    let mut at: usize = 0;
    while at < chars.len()
        invariant
            at <= chars@.len(),
            n <= at,
            n == places_before(chars@, part@, at as int),
            n > 0 ==> last == last_place_before(chars@, part@, at as int) && stands_at(
                chars@,
                part@,
                last as int,
            ),
        decreases chars@.len() - at,
    {
        if part_at(chars, at, part) {
            n = n + 1;
            last = at;
        }
        at = at + 1;
    }
    if part_at(chars, at, part) {
        n = n + 1;
        last = at;
    }
    (n, last)
}

/// Cuts a text into its lines.
pub fn split_lines(s: &str) -> (out: Vec<String>)
    ensures
        views(out@) == lines_of(s@),
{
    let chars = chars_of(s);
    let mut out: Vec<String> = Vec::new();
    let mut current = String::new();
    let mut i: usize = 0;
    proof {
        assert(chars@.take(0) =~= Seq::empty());
        assert(views(out@).push(current@) =~= lines_of(chars@.take(0)));
    }
    while i < chars.len()
        invariant
            chars@ == s@,
            i <= chars@.len(),
            lines_of(chars@.take(i as int)) == views(out@).push(current@),
        decreases chars@.len() - i,
    {
        let c = chars[i];
        let ghost seen = chars@.take(i + 1);
        let ghost closed = views(out@);
        let ghost before = current@;
        proof {
            assert(seen.drop_last() =~= chars@.take(i as int));
            assert(seen.last() == c);
        }
        if c == '\n' {
            out.push(current);
            current = String::new();
            proof {
                assert(views(out@) =~= closed.push(before));
                assert(current@ =~= Seq::empty());
            }
        } else {
            current.push(c);
            proof {
                assert(closed.push(before).update(closed.len() as int, before.push(c))
                    =~= closed.push(before.push(c)));
            }
        }
        i = i + 1;
    }
    let ghost closed = views(out@);
    proof {
        assert(chars@.take(i as int) =~= s@);
    }
    out.push(current);
    proof {
        assert(views(out@) =~= closed.push(current@));
    }
    out
}

/// Makes an edit. Where it cannot be made, the text is handed back with the reason.
pub fn edit_content(current: &str, edit: &ContentEdit) -> (out: Result<EditedContent, RefusedEdit>)
    ensures
        match edited(current@, edit@) {
            Ok(left) => out matches Ok(o) && field_out(o.title) == left.0 && o.text@ == left.1,
            Err(e) => out matches Err(r) && r.refusal == e && r.current@ == current@,
        },
{
    match edit {
        ContentEdit::Overwrite { new_content } => Ok(
            EditedContent { title: None, text: new_content.clone() },
        ),
        ContentEdit::SetTitle { new_title } => Ok(
            EditedContent { title: Some(new_title.clone()), text: owned(current) },
        ),
        ContentEdit::StrReplace { old_str, new_str } => {
            let chars = chars_of(current);
            let part = chars_of(old_str.as_str());
            let (n, at) = find_places(&chars, &part);
            if n == 0 {
                return Err(RefusedEdit { refusal: EditRefusal::NoMatch, current: owned(current) });
            }
            if n > 1 {
                return Err(
                    RefusedEdit { refusal: EditRefusal::ManyMatches, current: owned(current) },
                );
            }
            let head = text_of(&chars, 0, at);
            let tail = text_of(&chars, at + part.len(), chars.len());
            proof {
                assert(chars@.subrange(0, at as int) =~= current@.take(at as int));
                assert(chars@.subrange(at + part@.len(), chars@.len() as int) =~= current@.skip(
                    at + part@.len(),
                ));
            }
            Ok(
                EditedContent {
                    title: None,
                    text: cat3(head.as_str(), new_str.as_str(), tail.as_str()),
                },
            )
        },
        ContentEdit::InsertAtLine { line_number, insert_text } => {
            let mut lines = split_lines(current);
            let ghost before = lines@;
            proof {
                assert(views(lines@).len() == lines@.len());
            }
            if *line_number > lines.len() {
                return Err(
                    RefusedEdit { refusal: EditRefusal::NoSuchLine, current: owned(current) },
                );
            }
            lines.insert(*line_number, insert_text.clone());
            proof {
                assert(views(lines@) =~= views(before).insert(
                    *line_number as int,
                    insert_text@,
                ));
            }
            Ok(EditedContent { title: None, text: join(&lines, "\n") })
        },
        ContentEdit::Append { append_text } => Ok(
            EditedContent { title: None, text: cat(current, append_text.as_str()) },
        ),
    }
}

pub open spec fn field_out(field: Option<String>) -> Option<Seq<char>> {
    match field {
        Some(s) => Some(s@),
        None => None,
    }
}

/// A text is its lines with a line break between each two.
pub proof fn law_lines_make_the_text(s: Seq<char>)
    ensures
        joined(lines_of(s), "\n"@) == s,
        lines_of(s).len() > 0,
    decreases s.len(),
{
    reveal_strlit("\n");
    let lines = lines_of(s);
    if s.len() > 0 {
        let front = s.drop_last();
        let before = lines_of(front);
        law_lines_make_the_text(front);
        if s.last() == '\n' {
            assert(lines.drop_last() =~= before);
            assert("\n"@ =~= seq!['\n']);
            assert(joined(lines, "\n"@) =~= s);
        } else {
            let rest = before.drop_last();
            assert(lines.drop_last() =~= rest);
            assert(lines.last() == before.last().push(s.last()));
            if lines.len() == 1 {
                assert(lines[0] =~= s);
            } else {
                assert(joined(lines, "\n"@) =~= joined(before, "\n"@).push(s.last()));
            }
            assert(front.push(s.last()) =~= s);
        }
    } else {
        assert(joined(lines, "\n"@) =~= s);
    }
}

/// A replacement changes the text where the old one stood, and nowhere else.
pub proof fn law_replacement_is_local(current: Seq<char>, old_str: Seq<char>, new_str: Seq<char>)
    requires
        place_count(current, old_str) == 1,
    ensures
        ({
            let at = last_place(current, old_str);
            let after = edited(current, EditView::StrReplace { old_str, new_str })->Ok_0.1;
            &&& stands_at(current, old_str, at)
            &&& stands_at(after, new_str, at)
            &&& after.take(at) == current.take(at)
            &&& after.skip(at + new_str.len()) == current.skip(at + old_str.len())
        }),
{
    lemma_last_place(current, old_str, current.len() as int + 1);
    let at = last_place(current, old_str);
    let after = current.take(at) + new_str + current.skip(at + old_str.len());
    assert(after.subrange(at, at + new_str.len()) =~= new_str);
    assert(after.take(at) =~= current.take(at));
    assert(after.skip(at + new_str.len()) =~= current.skip(at + old_str.len()));
}

proof fn lemma_last_place(s: Seq<char>, part: Seq<char>, n: int)
    requires
        places_before(s, part, n) > 0,
    ensures
        stands_at(s, part, last_place_before(s, part, n)),
    decreases n,
{
    if n > 0 && !stands_at(s, part, n - 1) {
        lemma_last_place(s, part, n - 1);
    }
}

} // verus!
