//! What a refused or failed request is answered.
use crate::json::{entries_view, entry, json_text, write_json, Json, JsonView};
use vstd::prelude::*;

verus! {

/// A failed request.
#[derive(Debug)]
pub enum SdkError {
    /// A request on a virtual path that was refused: which path, a code for
    /// programs, and a sentence for people.
    Path { path: String, code: String, message: String },
    /// Any other failure.
    Failure { message: String },
}

/// A failed request over character sequences.
pub enum ErrorView {
    Path { path: Seq<char>, code: Seq<char>, message: Seq<char> },
    Failure { message: Seq<char> },
}

impl View for SdkError {
    type V = ErrorView;

    open spec fn view(&self) -> ErrorView {
        match self {
            SdkError::Path { path, code, message } => ErrorView::Path {
                path: path@,
                code: code@,
                message: message@,
            },
            SdkError::Failure { message } => ErrorView::Failure { message: message@ },
        }
    }
}

/// The refusal of a request on a virtual path.
pub fn refused(path: &str, code: &str, message: &str) -> (e: SdkError)
    ensures
        e@ == (ErrorView::Path { path: path@, code: code@, message: message@ }),
{
    SdkError::Path { path: path.to_owned(), code: code.to_owned(), message: message.to_owned() }
}

/// A failure with a sentence that says what failed.
pub fn failure(message: &str) -> (e: SdkError)
    ensures
        e@ == (ErrorView::Failure { message: message@ }),
{
    SdkError::Failure { message: message.to_owned() }
}

/// What is written of a failed request: a refusal on a path in JSON, any other failure in
/// its own words.
pub open spec fn error_text(e: ErrorView) -> Seq<char> {
    match e {
        ErrorView::Path { path, code, message } => json_text(
            JsonView::Object(
                seq![
                    ("error"@, JsonView::Text(code)),
                    ("message"@, JsonView::Text(message)),
                    ("path"@, JsonView::Text(path)),
                ],
            ),
        ),
        ErrorView::Failure { message } => message,
    }
}

impl SdkError {
    /// What is written of the failed request.
    pub fn to_text(&self) -> (text: String)
        ensures
            text@ == error_text(self@),
    {
        match self {
            SdkError::Path { path, code, message } => {
                let entries = vec![
                    entry("error", Json::text(code.as_str())),
                    entry("message", Json::text(message.as_str())),
                    entry("path", Json::text(path.as_str())),
                ];
                proof {
                    assert(entries_view(entries@) =~= seq![
                        ("error"@, JsonView::Text(code@)),
                        ("message"@, JsonView::Text(message@)),
                        ("path"@, JsonView::Text(path@)),
                    ]);
                }
                write_json(&Json::object(entries))
            },
            SdkError::Failure { message } => message.clone(),
        }
    }

    /// Copies the failure.
    pub fn duplicate_error(&self) -> (copy: Self)
        ensures
            copy@ == self@,
    {
        match self {
            SdkError::Path { path, code, message } => SdkError::Path {
                path: path.clone(),
                code: code.clone(),
                message: message.clone(),
            },
            SdkError::Failure { message } => SdkError::Failure { message: message.clone() },
        }
    }
}

} // verus!
