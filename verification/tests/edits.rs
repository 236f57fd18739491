use remi_client_sdk::content_edit::{
    edit_content, read_content_edit, split_lines, ContentEdit, EditRefusal,
};
use remi_client_sdk::document_store::{
    maybe_compact_with_threshold, needs_compaction, DocumentKey, DocumentState,
};
use remi_client_sdk::error::SdkError;

fn edited(current: &str, edit: ContentEdit) -> Result<String, EditRefusal> {
    match edit_content(current, &edit) {
        Ok(left) => {
            assert_eq!(left.title, None);
            Ok(left.text)
        }
        Err(refused) => {
            assert_eq!(refused.current, current);
            Err(refused.refusal)
        }
    }
}

fn replace(current: &str, old: &str, new: &str) -> Result<String, EditRefusal> {
    edited(current, ContentEdit::StrReplace { old_str: old.to_string(), new_str: new.to_string() })
}

fn insert(current: &str, line_number: usize, insert_text: &str) -> Result<String, EditRefusal> {
    edited(
        current,
        ContentEdit::InsertAtLine { line_number, insert_text: insert_text.to_string() },
    )
}

#[test]
fn a_text_is_overwritten_and_appended_to() {
    let edit = ContentEdit::Overwrite { new_content: "after".to_string() };
    assert_eq!(edited("before", edit), Ok("after".to_string()));
    let edit = ContentEdit::Append { append_text: " more".to_string() };
    assert_eq!(edited("some", edit), Ok("some more".to_string()));
    let left =
        edit_content("text", &ContentEdit::SetTitle { new_title: "Title".to_string() }).unwrap();
    assert_eq!(left.title, Some("Title".to_string()));
    assert_eq!(left.text, "text");
}

#[test]
fn a_text_is_replaced_where_it_occurs_once() {
    assert_eq!(replace("one two three", "two", "2"), Ok("one 2 three".to_string()));
    assert_eq!(replace("ab", "b", ""), Ok("a".to_string()));
    assert_eq!(replace("\u{e4}b\u{e4}c", "\u{e4}c", "x"), Ok("\u{e4}bx".to_string()));
    assert_eq!(replace("one", "two", "2"), Err(EditRefusal::NoMatch));
    assert_eq!(replace("two two", "two", "2"), Err(EditRefusal::ManyMatches));
    assert_eq!(replace("aaa", "aa", "b"), Err(EditRefusal::ManyMatches));
    assert_eq!(replace("a", "", "b"), Err(EditRefusal::ManyMatches));
}

#[test]
fn lines_are_put_behind_a_line() {
    assert_eq!(insert("one\ntwo", 0, "zero"), Ok("zero\none\ntwo".to_string()));
    assert_eq!(insert("one\ntwo", 1, "x\ny"), Ok("one\nx\ny\ntwo".to_string()));
    assert_eq!(insert("one\ntwo", 2, "three"), Ok("one\ntwo\nthree".to_string()));
    assert_eq!(insert("one\ntwo", 3, "four"), Err(EditRefusal::NoSuchLine));
    assert_eq!(split_lines("a\n\nb\n"), vec!["a", "", "b", ""]);
    assert_eq!(split_lines(""), vec![""]);
}

#[test]
fn an_operation_is_read_with_its_fields() {
    let read = |operation: &str| {
        read_content_edit(
            operation,
            Some("title"),
            Some("content"),
            Some("old"),
            Some("new"),
            Some(3),
            Some("insert"),
            Some("append"),
        )
    };
    assert!(matches!(read("overwrite"), Ok(ContentEdit::Overwrite { new_content }) if new_content == "content"));
    assert!(matches!(read("set_title"), Ok(ContentEdit::SetTitle { new_title }) if new_title == "title"));
    assert!(matches!(
        read("str_replace"),
        Ok(ContentEdit::StrReplace { old_str, new_str }) if old_str == "old" && new_str == "new"
    ));
    assert!(matches!(
        read("insert_at_line"),
        Ok(ContentEdit::InsertAtLine { line_number: 3, insert_text }) if insert_text == "insert"
    ));
    assert!(matches!(read("append"), Ok(ContentEdit::Append { append_text }) if append_text == "append"));
    assert!(matches!(read("erase"), Err(EditRefusal::UnknownOperation)));
    for operation in ["overwrite", "set_title", "str_replace", "insert_at_line", "append"] {
        let bare = read_content_edit(operation, None, None, None, None, None, None, None);
        assert!(matches!(bare, Err(EditRefusal::MissingField)), "{operation}");
    }
}

fn state(size: usize) -> Option<DocumentState> {
    Some(DocumentState {
        automerge_doc: vec![0; size],
        sync_state: vec![7],
        dirty: false,
        last_sync_at: None,
    })
}

#[test]
fn a_large_document_is_made_smaller() {
    assert!(needs_compaction(&vec![0; 11], 10));
    assert!(!needs_compaction(&vec![0; 10], 10));
    let key = DocumentKey::collection("c");
    let mut doc = state(11);
    assert!(maybe_compact_with_threshold(&mut doc, &key, 10, Ok(vec![1])).unwrap());
    let after = doc.unwrap();
    assert_eq!(after.automerge_doc, vec![1]);
    assert_eq!(after.sync_state, vec![7]);
    assert!(after.dirty);
    let mut doc = state(10);
    assert!(!maybe_compact_with_threshold(&mut doc, &key, 10, Ok(vec![1])).unwrap());
    assert!(!doc.unwrap().dirty);
    let mut doc = None;
    assert!(!maybe_compact_with_threshold(&mut doc, &key, 0, Ok(vec![1])).unwrap());
    assert!(doc.is_none());
    let fault = || Err(SdkError::Failure { message: "inner".to_string() });
    let mut doc = state(11);
    let err = maybe_compact_with_threshold(&mut doc, &key, 10, fault()).unwrap_err();
    assert_eq!(err.to_text(), "Failed to compact collection document");
    assert!(!doc.unwrap().dirty);
    let mut doc = state(11);
    let err = maybe_compact_with_threshold(&mut doc, &DocumentKey::root(), 10, fault()).unwrap_err();
    assert_eq!(err.to_text(), "Failed to compact root document");
}
