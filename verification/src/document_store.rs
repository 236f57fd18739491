//! The documents that make up the stored state: their keys and their raw form.
use crate::error::{failure, ErrorView, SdkError};
use crate::text::{owned, same};
use vstd::prelude::*;

verus! {

/// The uuid under which the root document is kept.
pub const ROOT_DOC_UUID: &'static str = "root";

/// The kinds of documents.
#[derive(Clone, Copy, Debug, PartialEq, Eq, Structural)]
pub enum CrdtDataType {
    Root,
    Collection,
    ThingMarkdown,
}

/// The name of a kind of documents in the store.
pub open spec fn data_type_name(data_type: CrdtDataType) -> Seq<char> {
    match data_type {
        CrdtDataType::Root => "root"@,
        CrdtDataType::Collection => "collection"@,
        CrdtDataType::ThingMarkdown => "thing_markdown"@,
    }
}

/// The kind of documents with a name.
pub open spec fn data_type_of(name: Seq<char>) -> Option<CrdtDataType> {
    if name == "root"@ {
        Some(CrdtDataType::Root)
    } else if name == "collection"@ {
        Some(CrdtDataType::Collection)
    } else if name == "thing_markdown"@ {
        Some(CrdtDataType::ThingMarkdown)
    } else {
        None
    }
}

/// The name of a kind of documents names that kind.
pub proof fn law_data_type_name(data_type: CrdtDataType)
    ensures
        data_type_of(data_type_name(data_type)) == Some(data_type),
{
    reveal_strlit("root");
    reveal_strlit("collection");
    reveal_strlit("thing_markdown");
    assert("root"@.len() == 4 && "collection"@.len() == 10 && "thing_markdown"@.len() == 14);
}

impl CrdtDataType {
    /// The name of the kind in the store.
    pub fn as_str(&self) -> (name: &'static str)
        ensures
            name@ == data_type_name(*self),
    {
        match self {
            CrdtDataType::Root => "root",
            CrdtDataType::Collection => "collection",
            CrdtDataType::ThingMarkdown => "thing_markdown",
        }
    }

    /// The place of the kind in the order in which documents are sent.
    pub fn sync_priority(&self) -> (priority: i64)
        ensures
            priority == sync_priority_of(*self),
    {
        match self {
            CrdtDataType::Root => 0,
            CrdtDataType::Collection => 1,
            CrdtDataType::ThingMarkdown => 2,
        }
    }
}

pub open spec fn sync_priority_of(data_type: CrdtDataType) -> i64 {
    match data_type {
        CrdtDataType::Root => 0,
        CrdtDataType::Collection => 1,
        CrdtDataType::ThingMarkdown => 2,
    }
}

/// Which document: a uuid and a kind.
#[derive(Debug)]
pub struct DocumentKey {
    pub uuid: String,
    pub data_type: CrdtDataType,
}

/// Which document, over character sequences.
pub struct KeyView {
    pub uuid: Seq<char>,
    pub data_type: CrdtDataType,
}

impl View for DocumentKey {
    type V = KeyView;

    open spec fn view(&self) -> KeyView {
        KeyView { uuid: self.uuid@, data_type: self.data_type }
    }
}

pub open spec fn root_key() -> KeyView {
    KeyView { uuid: "root"@, data_type: CrdtDataType::Root }
}

pub open spec fn collection_key(uuid: Seq<char>) -> KeyView {
    KeyView { uuid, data_type: CrdtDataType::Collection }
}

pub open spec fn content_key(uuid: Seq<char>) -> KeyView {
    KeyView { uuid, data_type: CrdtDataType::ThingMarkdown }
}

impl DocumentKey {
    /// The key of the root document.
    pub fn root() -> (key: Self)
        ensures
            key@ == root_key(),
    {
        DocumentKey { uuid: owned("root"), data_type: CrdtDataType::Root }
    }

    /// The key of the document of a collection.
    pub fn collection(uuid: &str) -> (key: Self)
        ensures
            key@ == collection_key(uuid@),
    {
        DocumentKey { uuid: owned(uuid), data_type: CrdtDataType::Collection }
    }

    /// The key of the markdown document of a thing.
    pub fn thing_markdown(uuid: &str) -> (key: Self)
        ensures
            key@ == content_key(uuid@),
    {
        DocumentKey { uuid: owned(uuid), data_type: CrdtDataType::ThingMarkdown }
    }

    /// The key of a content document of a thing.
    pub fn thing_content(uuid: &str) -> (key: Self)
        ensures
            key@ == content_key(uuid@),
    {
        DocumentKey { uuid: owned(uuid), data_type: CrdtDataType::ThingMarkdown }
    }

    /// The key that two columns of the store hold; none where the kind is unknown.
    pub fn from_storage_parts(uuid: &str, data_type: &str) -> (key: Option<Self>)
        ensures
            match key {
                Some(key) => data_type_of(data_type@) == Some(key.data_type) && key.uuid@
                    == uuid@,
                None => data_type_of(data_type@) is None,
            },
    {
        let data_type = if same(data_type, "root") {
            CrdtDataType::Root
        } else if same(data_type, "collection") {
            CrdtDataType::Collection
        } else if same(data_type, "thing_markdown") {
            CrdtDataType::ThingMarkdown
        } else {
            return None;
        };
        Some(DocumentKey { uuid: owned(uuid), data_type })
    }

    /// The name of the kind of the document in the store.
    pub fn data_type_str(&self) -> (name: &'static str)
        ensures
            name@ == data_type_name(self.data_type),
    {
        self.data_type.as_str()
    }

    /// Whether two keys name the same document.
    pub fn same_key(&self, other: &DocumentKey) -> (r: bool)
        ensures
            r == (self@ == other@),
    {
        same(self.uuid.as_str(), other.uuid.as_str()) && self.data_type == other.data_type
    }
}

/// The raw form of a document, with what is known of its synchronisation.
#[derive(Debug)]
pub struct DocumentState {
    pub automerge_doc: Vec<u8>,
    pub sync_state: Vec<u8>,
    pub dirty: bool,
    pub last_sync_at: Option<String>,
}

/// The refusal of a document that cannot be made smaller.
pub open spec fn compaction_fault(data_type: CrdtDataType) -> ErrorView {
    ErrorView::Failure {
        message: match data_type {
            CrdtDataType::Root => "Failed to compact root document"@,
            CrdtDataType::Collection => "Failed to compact collection document"@,
            CrdtDataType::ThingMarkdown => "Failed to compact thing content document"@,
        },
    }
}

/// Whether a document is larger than a threshold, so that it is to be made smaller.
pub fn needs_compaction(automerge_doc: &Vec<u8>, threshold: usize) -> (r: bool)
    ensures
        r == (automerge_doc@.len() > threshold),
{
    automerge_doc.len() > threshold
}

/// What making a document smaller does and returns. `compacted` is the smaller form.
pub open spec fn compaction(
    old: Option<DocumentState>,
    data_type: CrdtDataType,
    threshold: usize,
    compacted: Result<Vec<u8>, SdkError>,
) -> (Result<bool, ErrorView>, Option<DocumentState>) {
    match old {
        Some(s) => if s.automerge_doc@.len() > threshold {
            match compacted {
                Ok(bytes) => (
                    Ok(true),
                    Some(DocumentState { automerge_doc: bytes, dirty: true, ..s }),
                ),
                Err(_) => (Err(compaction_fault(data_type)), old),
            }
        } else {
            (Ok(false), old)
        },
        None => (Ok(false), old),
    }
}

pub open spec fn compaction_out(out: Result<bool, SdkError>) -> Result<bool, ErrorView> {
    match out {
        Ok(done) => Ok(done),
        Err(e) => Err(e@),
    }
}

/// Puts the smaller form of a document in its place where the document is larger than a
/// threshold, and says whether it did. The document then waits to be sent. `compacted` is the
/// smaller form; it is not looked at where it is not needed.
pub fn maybe_compact_with_threshold(
    state: &mut Option<DocumentState>,
    key: &DocumentKey,
    threshold: usize,
    compacted: Result<Vec<u8>, SdkError>,
) -> (out: Result<bool, SdkError>)
    ensures
        (compaction_out(out), *final(state)) == compaction(
            *old(state),
            key.data_type,
            threshold,
            compacted,
        ),
{
    let large = match &*state {
        Some(s) => needs_compaction(&s.automerge_doc, threshold),
        None => false,
    };
    if !large {
        return Ok(false);
    }
    match compacted {
        Err(_) => Err(
            match key.data_type {
                CrdtDataType::Root => failure("Failed to compact root document"),
                CrdtDataType::Collection => failure("Failed to compact collection document"),
                CrdtDataType::ThingMarkdown => failure("Failed to compact thing content document"),
            },
        ),
        Ok(bytes) => {
            match state.take() {
                Some(s) => {
                    *state = Some(
                        DocumentState {
                            automerge_doc: bytes,
                            sync_state: s.sync_state,
                            dirty: true,
                            last_sync_at: s.last_sync_at,
                        },
                    );
                },
                None => {},
            }
            Ok(true)
        },
    }
}

/// What two columns of the store say of a key names the key.
pub proof fn law_key_columns(key: KeyView)
    ensures
        data_type_of(data_type_name(key.data_type)) == Some(key.data_type),
{
    law_data_type_name(key.data_type);
}

} // verus!
