//! What is searched: one document for each thing, collection, conversation, message,
//! notification, action and version of an agent.
use super::fields::{
    field_name, field_view, field_views, is_empty, json_scalar_text, normalize_search_field_name,
    push_content_field, scalar_text, with_field, SearchContentField,
};
use crate::clock::{rfc3339_text, write_rfc3339, DomainTime};
use crate::json::{
    entries_view, entry, field, int_text, json_read, opt_text_json, opt_view, read_json,
    signed_text, text_field, Json, JsonView,
};
use crate::letters::{ascii_lower, to_ascii_lower};
use crate::rows::{ActionDefinition, AgentVersion, ChatMessage, ChatSession, NotificationEntry};
use crate::storage::triggers::{json_or_empty, read_json_or_empty};
use crate::text::{cat, cat3, join, joined, owned, same, trim, trimmed, views};
use crate::things_types::{
    collection_type_name, CollectionEntryView, ThingCollectionEntry, ThingEntry, ThingEntryView,
};
use vstd::prelude::*;

verus! {

/// The kinds of what is searched.
#[derive(Clone, Copy, Debug, PartialEq, Eq, Structural)]
pub enum SearchEntityKind {
    Collection,
    Thing,
    ChatSession,
    ChatMessage,
    Notification,
    Action,
    AgentVersion,
}

pub open spec fn kind_name(kind: SearchEntityKind) -> Seq<char> {
    match kind {
        SearchEntityKind::Collection => "collection"@,
        SearchEntityKind::Thing => "thing"@,
        SearchEntityKind::ChatSession => "chat_session"@,
        SearchEntityKind::ChatMessage => "chat_message"@,
        SearchEntityKind::Notification => "notification"@,
        SearchEntityKind::Action => "action"@,
        SearchEntityKind::AgentVersion => "agent_version"@,
    }
}

/// The kind with a name, in any case and with blanks around it.
pub open spec fn kind_of(text: Seq<char>) -> Option<SearchEntityKind> {
    let name = ascii_lower(trimmed(text));
    if name == "collection"@ {
        Some(SearchEntityKind::Collection)
    } else if name == "thing"@ {
        Some(SearchEntityKind::Thing)
    } else if name == "chat_session"@ {
        Some(SearchEntityKind::ChatSession)
    } else if name == "chat_message"@ {
        Some(SearchEntityKind::ChatMessage)
    } else if name == "notification"@ {
        Some(SearchEntityKind::Notification)
    } else if name == "action"@ {
        Some(SearchEntityKind::Action)
    } else if name == "agent_version"@ {
        Some(SearchEntityKind::AgentVersion)
    } else {
        None
    }
}

/// Every kind is found under its name.
pub proof fn law_kind_name(kind: SearchEntityKind)
    ensures
        kind_of(kind_name(kind)) == Some(kind),
{
    reveal_strlit("collection");
    reveal_strlit("thing");
    reveal_strlit("chat_session");
    reveal_strlit("chat_message");
    reveal_strlit("notification");
    reveal_strlit("action");
    reveal_strlit("agent_version");
    assert("collection"@.len() == 10 && "thing"@.len() == 5 && "action"@.len() == 6);
    assert("chat_session"@.len() == 12 && "chat_message"@.len() == 12);
    assert("notification"@.len() == 12 && "agent_version"@.len() == 13);
    assert("chat_session"@[5] == 's' && "chat_message"@[5] == 'm' && "notification"@[5] == 'i');
    let name = kind_name(kind);
    assert(trimmed(name) == name);
    assert forall|i: int|
        0 <= i < name.len() implies !('A' <= #[trigger] name[i] && name[i] <= 'Z') by {
    }
    assert(ascii_lower(name) =~= name);
}

impl SearchEntityKind {
    /// The name of the kind.
    pub fn as_str(self) -> (name: &'static str)
        ensures
            name@ == kind_name(self),
    {
        match self {
            SearchEntityKind::Collection => "collection",
            SearchEntityKind::Thing => "thing",
            SearchEntityKind::ChatSession => "chat_session",
            SearchEntityKind::ChatMessage => "chat_message",
            SearchEntityKind::Notification => "notification",
            SearchEntityKind::Action => "action",
            SearchEntityKind::AgentVersion => "agent_version",
        }
    }

    /// The kind with a name; the message of the error names what was asked for.
    pub fn parse_name(value: &str) -> (out: Result<Self, String>)
        ensures
            match kind_of(value@) {
                Some(kind) => out == Ok::<SearchEntityKind, String>(kind),
                None => out matches Err(e) && e@
                    == "Unsupported search entity kind '"@ + ascii_lower(
                    trimmed(value@),
                ) + "'"@,
            },
    {
        let short = trim(value);
        let name = to_ascii_lower(short.as_str());
        let s = name.as_str();
        if same(s, "collection") {
            Ok(SearchEntityKind::Collection)
        } else if same(s, "thing") {
            Ok(SearchEntityKind::Thing)
        } else if same(s, "chat_session") {
            Ok(SearchEntityKind::ChatSession)
        } else if same(s, "chat_message") {
            Ok(SearchEntityKind::ChatMessage)
        } else if same(s, "notification") {
            Ok(SearchEntityKind::Notification)
        } else if same(s, "action") {
            Ok(SearchEntityKind::Action)
        } else if same(s, "agent_version") {
            Ok(SearchEntityKind::AgentVersion)
        } else {
            Err(cat3("Unsupported search entity kind '", s, "'"))
        }
    }
}

/// What is known of a document besides its texts.
#[derive(Debug)]
pub struct SearchBusinessFields {
    pub created_at_ms: Option<i64>,
    pub updated_at_ms: Option<i64>,
    pub status: Option<String>,
    pub datatype: Option<String>,
    pub category: Option<String>,
    pub source: Option<String>,
    pub app_id: Option<String>,
    pub agent_id: Option<String>,
    pub session_id: Option<String>,
    pub collection_uuid: Option<String>,
    pub collection_type: Option<String>,
    pub archived: Option<bool>,
}

/// What is known of a document besides its texts, over character sequences.
pub struct BusinessView {
    pub created_at_ms: Option<i64>,
    pub updated_at_ms: Option<i64>,
    pub status: Option<Seq<char>>,
    pub datatype: Option<Seq<char>>,
    pub category: Option<Seq<char>>,
    pub source: Option<Seq<char>>,
    pub app_id: Option<Seq<char>>,
    pub agent_id: Option<Seq<char>>,
    pub session_id: Option<Seq<char>>,
    pub collection_uuid: Option<Seq<char>>,
    pub collection_type: Option<Seq<char>>,
    pub archived: Option<bool>,
}

impl View for SearchBusinessFields {
    type V = BusinessView;

    open spec fn view(&self) -> BusinessView {
        BusinessView {
            created_at_ms: self.created_at_ms,
            updated_at_ms: self.updated_at_ms,
            status: opt_view(self.status),
            datatype: opt_view(self.datatype),
            category: opt_view(self.category),
            source: opt_view(self.source),
            app_id: opt_view(self.app_id),
            agent_id: opt_view(self.agent_id),
            session_id: opt_view(self.session_id),
            collection_uuid: opt_view(self.collection_uuid),
            collection_type: opt_view(self.collection_type),
            archived: self.archived,
        }
    }
}

/// Something that can be found.
#[derive(Debug)]
pub struct SearchDocument {
    pub doc_id: String,
    pub kind: SearchEntityKind,
    pub entity_id: String,
    pub parent_id: Option<String>,
    pub title: String,
    pub body: String,
    pub content_fields: Vec<SearchContentField>,
    pub business: SearchBusinessFields,
    pub metadata: Json,
    pub created_at_ms: i64,
}

/// Something that can be found, over character sequences.
#[verifier::ext_equal]
pub struct DocumentView {
    pub doc_id: Seq<char>,
    pub kind: SearchEntityKind,
    pub entity_id: Seq<char>,
    pub parent_id: Option<Seq<char>>,
    pub title: Seq<char>,
    pub body: Seq<char>,
    pub content_fields: Seq<(Seq<char>, Seq<char>)>,
    pub business: BusinessView,
    pub metadata: JsonView,
    pub created_at_ms: i64,
}

impl View for SearchDocument {
    type V = DocumentView;

    open spec fn view(&self) -> DocumentView {
        DocumentView {
            doc_id: self.doc_id@,
            kind: self.kind,
            entity_id: self.entity_id@,
            parent_id: opt_view(self.parent_id),
            title: self.title@,
            body: self.body@,
            content_fields: field_views(self.content_fields@),
            business: self.business@,
            metadata: self.metadata@,
            created_at_ms: self.created_at_ms,
        }
    }
}

pub open spec fn no_business(created_at_ms: i64) -> BusinessView {
    BusinessView {
        created_at_ms: Some(created_at_ms),
        updated_at_ms: None,
        status: None,
        datatype: None,
        category: None,
        source: None,
        app_id: None,
        agent_id: None,
        session_id: None,
        collection_uuid: None,
        collection_type: None,
        archived: None,
    }
}

/// A new document.
pub open spec fn new_document(
    kind: SearchEntityKind,
    entity_id: Seq<char>,
    title: Seq<char>,
    body: Seq<char>,
    created_at_ms: i64,
) -> DocumentView {
    DocumentView {
        doc_id: kind_name(kind) + ":"@ + entity_id,
        kind,
        entity_id,
        parent_id: None,
        title,
        body,
        content_fields: with_field(with_field(Seq::empty(), "title"@, title), "body"@, body),
        business: no_business(created_at_ms),
        metadata: JsonView::Null,
        created_at_ms,
    }
}

/// The texts that have a name and are not blank.
pub open spec fn real_fields(fields: Seq<(Seq<char>, Seq<char>)>) -> Seq<(Seq<char>, Seq<char>)> {
    fields.filter(
        |f: (Seq<char>, Seq<char>)| trimmed(f.0).len() != 0 && trimmed(f.1).len() != 0,
    )
}

/// The texts other than the title.
pub open spec fn body_values(fields: Seq<(Seq<char>, Seq<char>)>) -> Seq<Seq<char>> {
    fields.filter(|f: (Seq<char>, Seq<char>)| f.0 != "title"@).map_values(
        |f: (Seq<char>, Seq<char>)| f.1,
    )
}

/// A document with other texts; where its body is blank they make the body.
pub open spec fn document_with_fields(
    d: DocumentView,
    fields: Seq<(Seq<char>, Seq<char>)>,
) -> DocumentView {
    DocumentView {
        content_fields: real_fields(fields),
        body: if trimmed(d.body).len() == 0 {
            joined(body_values(real_fields(fields)), "\n"@)
        } else {
            d.body
        },
        ..d
    }
}

/// A document with other facts; a missing time is filled in.
pub open spec fn document_with_business(d: DocumentView, b: BusinessView) -> DocumentView {
    let created = match b.created_at_ms {
        Some(at) => at,
        None => d.created_at_ms,
    };
    DocumentView {
        business: BusinessView {
            created_at_ms: Some(created),
            updated_at_ms: match b.updated_at_ms {
                Some(at) => Some(at),
                None => Some(created),
            },
            ..b
        },
        ..d
    }
}

/// The texts other than the title, trimmed, one to a line.
pub open spec fn joined_values(fields: Seq<(Seq<char>, Seq<char>)>) -> Seq<char> {
    joined(trimmed_values(fields), "\n"@)
}

pub open spec fn trimmed_values(fields: Seq<(Seq<char>, Seq<char>)>) -> Seq<Seq<char>>
    decreases fields.len(),
{
    if fields.len() == 0 {
        Seq::empty()
    } else {
        let before = trimmed_values(fields.drop_last());
        let f = fields.last();
        if f.0 != "title"@ && trimmed(f.1).len() != 0 {
            before.push(trimmed(f.1))
        } else {
            before
        }
    }
}

/// Milliseconds since the start of 1970, as far as the number can be held.
pub open spec fn millis_of(t: DomainTime) -> i64 {
    let ms = t.seconds * 1000 + t.nanos / 1_000_000;
    if ms > i64::MAX {
        i64::MAX
    } else if ms < i64::MIN {
        i64::MIN
    } else {
        ms as i64
    }
}

/// Milliseconds since the start of 1970, as far as the number can be held.
pub fn timestamp_millis(t: DomainTime) -> (ms: i64)
    ensures
        ms == millis_of(t),
{
    let ms: i128 = t.seconds as i128 * 1000 + (t.nanos / 1_000_000) as i128;
    if ms > i64::MAX as i128 {
        i64::MAX
    } else if ms < i64::MIN as i128 {
        i64::MIN
    } else {
        ms as i64
    }
}

pub open spec fn at_second(seconds: i64) -> DomainTime {
    DomainTime { seconds, nanos: 0 }
}

fn second(seconds: i64) -> (t: DomainTime)
    ensures
        t == at_second(seconds),
{
    DomainTime { seconds, nanos: 0 }
}

pub open spec fn time_json(t: DomainTime) -> JsonView {
    JsonView::Text(rfc3339_text(t))
}

pub open spec fn opt_time_json(t: Option<DomainTime>) -> JsonView {
    match t {
        Some(t) => time_json(t),
        None => JsonView::Null,
    }
}

pub open spec fn opt_second_json(t: Option<i64>) -> JsonView {
    match t {
        Some(t) => time_json(at_second(t)),
        None => JsonView::Null,
    }
}

pub open spec fn opt_int_json(n: Option<i64>) -> JsonView {
    match n {
        Some(n) => JsonView::Number(int_text(n as int)),
        None => JsonView::Null,
    }
}

pub fn time_value(t: DomainTime) -> (j: Json)
    ensures
        j@ == time_json(t),
{
    Json::Text(write_rfc3339(t))
}

pub fn opt_time_value(t: Option<DomainTime>) -> (j: Json)
    ensures
        j@ == opt_time_json(t),
{
    match t {
        Some(t) => time_value(t),
        None => Json::Null,
    }
}

pub fn opt_second_value(t: Option<i64>) -> (j: Json)
    ensures
        j@ == opt_second_json(t),
{
    match t {
        Some(t) => time_value(second(t)),
        None => Json::Null,
    }
}

pub fn opt_int_value(n: Option<i64>) -> (j: Json)
    ensures
        j@ == opt_int_json(n),
{
    match n {
        Some(n) => Json::signed(n),
        None => Json::Null,
    }
}

/// Whether the data of a thing under a key is not searched.
pub open spec fn skipped_key(key: Seq<char>) -> bool {
    let name = field_name(key);
    ||| name == "uuid"@
    ||| name == "id"@
    ||| name == "title"@
    ||| name == "datatype"@
    ||| name == "data_type"@
    ||| name == "collection_uuid"@
    ||| name == "collection_id"@
    ||| name == "parent_uuid"@
    ||| name == "parent_id"@
    ||| name == "archived_at"@
    ||| name == "archived_from_collection_uuid"@
    ||| name == "created_at"@
    ||| name == "updated_at"@
    ||| name == "status"@
    ||| name == "status_timestamp_ms"@
    ||| name == "actor_type"@
    ||| name == "actor_app_id"@
    ||| name == "actor_display_name"@
}

/// Whether the data of a thing under a key is not searched.
pub fn should_skip_content_data_key(key: &str) -> (r: bool)
    ensures
        r == skipped_key(key@),
{
    let name = normalize_search_field_name(key);
    let s = name.as_str();
    same(s, "uuid")
        || same(s, "id")
        || same(s, "title")
        || same(s, "datatype")
        || same(s, "data_type")
        || same(s, "collection_uuid")
        || same(s, "collection_id")
        || same(s, "parent_uuid")
        || same(s, "parent_id")
        || same(s, "archived_at")
        || same(s, "archived_from_collection_uuid")
        || same(s, "created_at")
        || same(s, "updated_at")
        || same(s, "status")
        || same(s, "status_timestamp_ms")
        || same(s, "actor_type")
        || same(s, "actor_app_id")
        || same(s, "actor_display_name")
}

/// The texts of the entries of an object, with those of its own under the name of the
/// kind of the thing.
pub open spec fn entry_fields(
    fields: Seq<(Seq<char>, Seq<char>)>,
    kind: Seq<char>,
    entries: Seq<(Seq<char>, JsonView)>,
) -> Seq<(Seq<char>, Seq<char>)>
    decreases entries.len(),
{
    if entries.len() == 0 {
        fields
    } else {
        let before = entry_fields(fields, kind, entries.drop_last());
        let e = entries.last();
        if skipped_key(e.0) {
            before
        } else {
            with_field(
                before,
                if field_name(e.0) == "content"@ {
                    kind
                } else {
                    e.0
                },
                scalar_text(e.1),
            )
        }
    }
}

/// The texts of the data of a thing.
pub open spec fn data_fields(
    fields: Seq<(Seq<char>, Seq<char>)>,
    kind: Seq<char>,
    data: JsonView,
) -> Seq<(Seq<char>, Seq<char>)> {
    match data {
        JsonView::Object(entries) => entry_fields(fields, kind, entries),
        other => with_field(fields, kind, scalar_text(other)),
    }
}

/// Adds the texts of the data of a thing.
pub fn push_json_content_fields(
    fields: &mut Vec<SearchContentField>,
    fallback_field: &str,
    value: &Json,
)
    ensures
        field_views(final(fields)@) == data_fields(
            field_views(old(fields)@),
            fallback_field@,
            value@,
        ),
{
    broadcast use crate::json::lemma_json_object_view;

    match value {
        Json::Object(entries) => {
            let ghost all = entries_view(entries@);
            let ghost first = field_views(fields@);
            let mut i: usize = 0;
            proof {
                assert(all.take(0) =~= Seq::empty());
            }
            while i < entries.len()
                invariant
                    i <= entries@.len(),
                    all == entries_view(entries@),
                    field_views(fields@) == entry_fields(
                        first,
                        fallback_field@,
                        all.take(i as int),
                    ),
                decreases entries@.len() - i,
            {
                let key = entries[i].0.as_str();
                proof {
                    assert(all.take(i + 1).drop_last() =~= all.take(i as int));
                    assert(all.take(i + 1).last() == (key@, entries@[i as int].1@));
                }
                if !should_skip_content_data_key(key) {
                    let name = normalize_search_field_name(key);
                    let text = json_scalar_text(&entries[i].1);
                    if same(name.as_str(), "content") {
                        push_content_field(fields, fallback_field, text.as_str());
                    } else {
                        push_content_field(fields, key, text.as_str());
                    }
                }
                i = i + 1;
            }
            proof {
                assert(all.take(i as int) =~= all);
            }
        },
        _ => {
            let text = json_scalar_text(value);
            push_content_field(fields, fallback_field, text.as_str());
        },
    }
}

/// The texts other than the title, trimmed, one to a line.
pub fn join_content_field_values(fields: &Vec<SearchContentField>) -> (out: String)
    ensures
        out@ == joined_values(field_views(fields@)),
{
    let ghost all = field_views(fields@);
    let mut parts: Vec<String> = Vec::new();
    let mut i: usize = 0;
    proof {
        assert(all.take(0) =~= Seq::empty());
        assert(views(parts@) =~= Seq::empty());
    }
    while i < fields.len()
        invariant
            i <= fields@.len(),
            all == field_views(fields@),
            views(parts@) == trimmed_values(all.take(i as int)),
        decreases fields@.len() - i,
    {
        proof {
            assert(all.take(i + 1).drop_last() =~= all.take(i as int));
            assert(all.take(i + 1).last() == field_view(fields@[i as int]));
        }
        let text = trim(fields[i].value.as_str());
        if !same(fields[i].field.as_str(), "title") && !is_empty(text.as_str()) {
            let ghost before = parts@;
            let ghost added = text@;
            parts.push(text);
            proof {
                assert(views(parts@) =~= views(before).push(added));
            }
        }
        i = i + 1;
    }
    proof {
        assert(all.take(i as int) =~= all);
    }
    join(&parts, "\n")
}

impl SearchDocument {
    /// A new document.
    pub fn new(
        kind: SearchEntityKind,
        entity_id: &str,
        title: &str,
        body: &str,
        created_at_ms: i64,
    ) -> (d: Self)
        ensures
            d@ == new_document(kind, entity_id@, title@, body@, created_at_ms),
    {
        let mut content_fields: Vec<SearchContentField> = Vec::new();
        proof {
            assert(field_views(content_fields@) =~= Seq::empty());
        }
        push_content_field(&mut content_fields, "title", title);
        push_content_field(&mut content_fields, "body", body);
        SearchDocument {
            doc_id: cat3(kind.as_str(), ":", entity_id),
            kind,
            entity_id: owned(entity_id),
            parent_id: None,
            title: owned(title),
            body: owned(body),
            content_fields,
            business: SearchBusinessFields {
                created_at_ms: Some(created_at_ms),
                updated_at_ms: None,
                status: None,
                datatype: None,
                category: None,
                source: None,
                app_id: None,
                agent_id: None,
                session_id: None,
                collection_uuid: None,
                collection_type: None,
                archived: None,
            },
            metadata: Json::Null,
            created_at_ms,
        }
    }

    /// The document under a parent.
    pub fn with_parent_id(self, parent_id: &str) -> (d: Self)
        ensures
            d@ == (DocumentView { parent_id: Some(parent_id@), ..self@ }),
    {
        let mut d = self;
        d.parent_id = Some(owned(parent_id));
        d
    }

    /// The document with an id of its own.
    pub fn with_doc_id(self, doc_id: &str) -> (d: Self)
        ensures
            d@ == (DocumentView { doc_id: doc_id@, ..self@ }),
    {
        let mut d = self;
        d.doc_id = owned(doc_id);
        d
    }

    /// The document with metadata.
    pub fn with_metadata(self, metadata: Json) -> (d: Self)
        ensures
            d@ == (DocumentView { metadata: metadata@, ..self@ }),
    {
        let mut d = self;
        d.metadata = metadata;
        d
    }

    /// The document with other texts.
    pub fn with_content_fields(self, content_fields: Vec<SearchContentField>) -> (d: Self)
        ensures
            d@ == document_with_fields(self@, field_views(content_fields@)),
    {
        let kept = keep_real_fields(content_fields);
        let mut d = self;
        let short = trim(d.body.as_str());
        if is_empty(short.as_str()) {
            let values = values_beside_title(&kept);
            d.body = join(&values, "\n");
        }
        d.content_fields = kept;
        d
    }

    /// The document with other facts.
    pub fn with_business_fields(self, business: SearchBusinessFields) -> (d: Self)
        ensures
            d@ == document_with_business(self@, business@),
    {
        let mut d = self;
        d.business = business;
        if d.business.created_at_ms.is_none() {
            d.business.created_at_ms = Some(d.created_at_ms);
        }
        if d.business.updated_at_ms.is_none() {
            d.business.updated_at_ms = d.business.created_at_ms;
        }
        d
    }
}

fn keep_real_fields(fields: Vec<SearchContentField>) -> (out: Vec<SearchContentField>)
    ensures
        field_views(out@) == real_fields(field_views(fields@)),
{
    reveal(Seq::filter);
    let ghost all = field_views(fields@);
    let ghost keep = |f: (Seq<char>, Seq<char>)| trimmed(f.0).len() != 0 && trimmed(f.1).len() != 0;
    let mut out: Vec<SearchContentField> = Vec::new();
    let mut i: usize = 0;
    proof {
        assert(all.take(0) =~= Seq::empty());
        assert(field_views(out@) =~= Seq::empty());
    }
    while i < fields.len()
        invariant
            i <= fields@.len(),
            all == field_views(fields@),
            keep == (|f: (Seq<char>, Seq<char>)|
                trimmed(f.0).len() != 0 && trimmed(f.1).len() != 0),
            field_views(out@) == all.take(i as int).filter(keep),
        decreases fields@.len() - i,
    {
        reveal(Seq::filter);
        proof {
            assert(all.take(i + 1).drop_last() =~= all.take(i as int));
            assert(all.take(i + 1).last() == field_view(fields@[i as int]));
        }
        let name = trim(fields[i].field.as_str());
        let text = trim(fields[i].value.as_str());
        if !is_empty(name.as_str()) && !is_empty(text.as_str()) {
            let new = SearchContentField {
                field: fields[i].field.clone(),
                value: fields[i].value.clone(),
            };
            let ghost added = field_view(new);
            let ghost before = out@;
            out.push(new);
            proof {
                assert(field_views(out@) =~= field_views(before).push(added));
            }
        }
        i = i + 1;
    }
    proof {
        assert(all.take(i as int) =~= all);
    }
    out
}

fn values_beside_title(fields: &Vec<SearchContentField>) -> (out: Vec<String>)
    ensures
        views(out@) == body_values(field_views(fields@)),
{
    reveal(Seq::filter);
    let ghost all = field_views(fields@);
    let ghost keep = |f: (Seq<char>, Seq<char>)| f.0 != "title"@;
    let ghost value = |f: (Seq<char>, Seq<char>)| f.1;
    let mut out: Vec<String> = Vec::new();
    let mut i: usize = 0;
    proof {
        assert(all.take(0).filter(keep).map_values(value) =~= views(out@));
    }
    while i < fields.len()
        invariant
            i <= fields@.len(),
            all == field_views(fields@),
            keep == (|f: (Seq<char>, Seq<char>)| f.0 != "title"@),
            value == (|f: (Seq<char>, Seq<char>)| f.1),
            views(out@) == all.take(i as int).filter(keep).map_values(value),
        decreases fields@.len() - i,
    {
        reveal(Seq::filter);
        proof {
            assert(all.take(i + 1).drop_last() =~= all.take(i as int));
            assert(all.take(i + 1).last() == field_view(fields@[i as int]));
        }
        if !same(fields[i].field.as_str(), "title") {
            let ghost before = out@;
            out.push(fields[i].value.clone());
            proof {
                assert(views(out@) =~= views(before).push(fields@[i as int].value@));
                assert(all.take(i + 1).filter(keep).map_values(value) =~= all.take(
                    i as int,
                ).filter(keep).map_values(value).push(fields@[i as int].value@));
            }
        }
        i = i + 1;
    }
    proof {
        assert(all.take(i as int) =~= all);
    }
    out
}

/// The value of a stored JSON text; null where there is none.
pub open spec fn stored_json(text: Option<Seq<char>>) -> JsonView {
    match text {
        Some(text) => match json_read(text) {
            Ok(j) => j,
            Err(_) => JsonView::Null,
        },
        None => JsonView::Null,
    }
}

/// The value of a stored JSON text; null where there is none.
pub fn read_stored_json(text: &Option<String>) -> (j: Json)
    ensures
        j@ == stored_json(opt_view(*text)),
{
    match text {
        Some(text) => match read_json(text.as_str()) {
            Ok(j) => j,
            Err(_) => Json::Null,
        },
        None => Json::Null,
    }
}

/// The value of a message; null where its text is no JSON.
pub open spec fn message_value(message_json: Seq<char>) -> JsonView {
    match json_read(message_json) {
        Ok(j) => j,
        Err(_) => JsonView::Null,
    }
}

/// What a field says that is not blank, and that it is of a message.
pub open spec fn titled_by(j: JsonView, key: Seq<char>) -> Option<Seq<char>> {
    match text_field(j, key) {
        Some(t) => if trimmed(t).len() == 0 {
            None
        } else {
            Some(trimmed(t) + " message"@)
        },
        None => None,
    }
}

/// The title of a message: its role, else its type.
pub open spec fn message_title(j: JsonView) -> Option<Seq<char>> {
    match titled_by(j, "role"@) {
        Some(t) => Some(t),
        None => titled_by(j, "type"@),
    }
}

/// The texts of a message: its content, else all of it.
pub open spec fn message_fields(
    fields: Seq<(Seq<char>, Seq<char>)>,
    j: JsonView,
    raw: Seq<char>,
) -> Seq<(Seq<char>, Seq<char>)> {
    match field(j, "content"@) {
        Some(content) => with_field(fields, "message_content"@, scalar_text(content)),
        None => with_field(fields, "message_json"@, raw),
    }
}

fn title_by(j: &Json, key: &str) -> (out: Option<String>)
    ensures
        opt_view(out) == titled_by(j@, key@),
{
    match j.get_text(key) {
        Some(t) => {
            let short = trim(t.as_str());
            if is_empty(short.as_str()) {
                None
            } else {
                Some(cat(short.as_str(), " message"))
            }
        },
        None => None,
    }
}

/// The title of a message: its role, else its type.
pub fn extract_chat_message_title(value: &Json) -> (out: Option<String>)
    ensures
        opt_view(out) == message_title(value@),
{
    match title_by(value, "role") {
        Some(t) => Some(t),
        None => title_by(value, "type"),
    }
}

fn push_chat_message_content_field(fields: &mut Vec<SearchContentField>, parsed: &Json, raw: &str)
    ensures
        field_views(final(fields)@) == message_fields(field_views(old(fields)@), parsed@, raw@),
{
    match parsed.get("content") {
        Some(content) => {
            let text = json_scalar_text(content);
            push_content_field(fields, "message_content", text.as_str());
        },
        None => push_content_field(fields, "message_json", raw),
    }
}

/// The document of a collection.
pub open spec fn collection_document(collection: CollectionEntryView) -> DocumentView {
    let base = new_document(
        SearchEntityKind::Collection,
        collection.uuid,
        collection.title,
        Seq::empty(),
        millis_of(collection.created_at),
    );
    let filled = document_with_fields(base, seq![("title"@, collection.title)]);
    let known = document_with_business(
        filled,
        BusinessView {
            created_at_ms: Some(millis_of(collection.created_at)),
            updated_at_ms: Some(millis_of(collection.updated_at)),
            status: None,
            datatype: None,
            category: None,
            source: None,
            app_id: collection.app_id,
            agent_id: None,
            session_id: None,
            collection_uuid: Some(collection.uuid),
            collection_type: Some(collection_type_name(collection.collection_type)),
            archived: Some(collection.archived_at is Some),
        },
    );
    DocumentView {
        metadata: JsonView::Object(
            seq![
                ("collection_type"@, JsonView::Text(collection_type_name(collection.collection_type))),
                ("app_id"@, opt_text_json(collection.app_id)),
                ("archived_at"@, opt_time_json(collection.archived_at)),
                ("created_at"@, time_json(collection.created_at)),
                ("updated_at"@, time_json(collection.updated_at)),
                ("actor_type"@, opt_text_json(collection.actor_type)),
                ("actor_app_id"@, opt_text_json(collection.actor_app_id)),
                ("actor_display_name"@, opt_text_json(collection.actor_display_name)),
            ],
        ),
        ..known
    }
}

/// The document of a thing.
pub open spec fn thing_document(thing: ThingEntryView) -> DocumentView {
    let fields = data_fields(
        with_field(Seq::empty(), "title"@, thing.title),
        thing.datatype,
        thing.data,
    );
    let base = new_document(
        SearchEntityKind::Thing,
        thing.uuid,
        thing.title,
        joined_values(fields),
        millis_of(thing.created_at),
    );
    let filled = document_with_fields(base, fields);
    let placed = DocumentView { parent_id: Some(thing.collection_uuid), ..filled };
    let known = document_with_business(
        placed,
        BusinessView {
            created_at_ms: Some(millis_of(thing.created_at)),
            updated_at_ms: Some(millis_of(thing.updated_at)),
            status: Some(thing.status),
            datatype: Some(thing.datatype),
            category: None,
            source: None,
            app_id: None,
            agent_id: None,
            session_id: None,
            collection_uuid: Some(thing.collection_uuid),
            collection_type: None,
            archived: Some(thing.archived_at is Some),
        },
    );
    DocumentView {
        metadata: JsonView::Object(
            seq![
                ("datatype"@, JsonView::Text(thing.datatype)),
                ("collection_uuid"@, JsonView::Text(thing.collection_uuid)),
                ("parent_uuid"@, opt_text_json(thing.parent_uuid)),
                ("archived_at"@, opt_time_json(thing.archived_at)),
                ("archived_from_collection_uuid"@, opt_text_json(thing.archived_from_collection_uuid)),
                ("created_at"@, time_json(thing.created_at)),
                ("updated_at"@, time_json(thing.updated_at)),
                ("status"@, JsonView::Text(thing.status)),
                ("status_timestamp_ms"@, opt_int_json(thing.status_timestamp_ms)),
                ("actor_type"@, opt_text_json(thing.actor_type)),
                ("actor_app_id"@, opt_text_json(thing.actor_app_id)),
                ("actor_display_name"@, opt_text_json(thing.actor_display_name)),
            ],
        ),
        ..known
    }
}

/// The document of a conversation.
pub open spec fn chat_session_document(session: ChatSession) -> DocumentView {
    let title = match session.title {
        Some(t) => t@,
        None => session.session_id@,
    };
    let base = new_document(
        SearchEntityKind::ChatSession,
        session.session_id@,
        title,
        Seq::empty(),
        millis_of(at_second(session.created_at)),
    );
    let filled = document_with_fields(base, seq![("title"@, title)]);
    let known = document_with_business(
        filled,
        BusinessView {
            created_at_ms: Some(millis_of(at_second(session.created_at))),
            updated_at_ms: Some(millis_of(at_second(session.last_activity))),
            status: None,
            datatype: None,
            category: None,
            source: None,
            app_id: None,
            agent_id: None,
            session_id: Some(session.session_id@),
            collection_uuid: None,
            collection_type: None,
            archived: None,
        },
    );
    DocumentView {
        metadata: JsonView::Object(
            seq![
                ("session_id"@, JsonView::Text(session.session_id@)),
                ("title"@, opt_text_json(opt_view(session.title))),
                ("created_at"@, time_json(at_second(session.created_at))),
                ("last_activity"@, time_json(at_second(session.last_activity))),
                ("message_count"@, JsonView::Number(int_text(session.message_count as int))),
            ],
        ),
        ..known
    }
}

/// The document of a message.
pub open spec fn chat_message_document(
    session_id: Seq<char>,
    message_id: Seq<char>,
    created_at_ms: i64,
    message_json: Seq<char>,
) -> DocumentView {
    let parsed = message_value(message_json);
    let title = match message_title(parsed) {
        Some(t) => t,
        None => message_id,
    };
    let fields = message_fields(
        with_field(Seq::empty(), "title"@, title),
        parsed,
        message_json,
    );
    let base = new_document(
        SearchEntityKind::ChatMessage,
        message_id,
        title,
        joined_values(fields),
        created_at_ms,
    );
    let filled = document_with_fields(base, fields);
    let named = DocumentView { doc_id: "chat_message:"@ + session_id + ":"@ + message_id, ..filled };
    let placed = DocumentView { parent_id: Some(session_id), ..named };
    let known = document_with_business(
        placed,
        BusinessView {
            created_at_ms: Some(created_at_ms),
            updated_at_ms: None,
            status: None,
            datatype: None,
            category: None,
            source: None,
            app_id: None,
            agent_id: None,
            session_id: Some(session_id),
            collection_uuid: None,
            collection_type: None,
            archived: None,
        },
    );
    DocumentView {
        metadata: JsonView::Object(
            seq![
                ("session_id"@, JsonView::Text(session_id)),
                ("message_id"@, JsonView::Text(message_id)),
                ("message_json"@, parsed),
            ],
        ),
        ..known
    }
}

/// The document of a notification.
pub open spec fn notification_document(notification: NotificationEntry) -> DocumentView {
    let fields = with_field(
        with_field(Seq::empty(), "title"@, notification.title@),
        "notification_body"@,
        notification.body@,
    );
    let base = new_document(
        SearchEntityKind::Notification,
        int_text(notification.id as int),
        notification.title@,
        joined_values(fields),
        millis_of(at_second(notification.created_at)),
    );
    let filled = document_with_fields(base, fields);
    let placed = DocumentView { parent_id: Some(notification.category@), ..filled };
    let known = document_with_business(
        placed,
        BusinessView {
            created_at_ms: Some(millis_of(at_second(notification.created_at))),
            updated_at_ms: None,
            status: None,
            datatype: None,
            category: Some(notification.category@),
            source: Some(notification.source@),
            app_id: None,
            agent_id: None,
            session_id: None,
            collection_uuid: None,
            collection_type: None,
            archived: None,
        },
    );
    DocumentView {
        metadata: JsonView::Object(
            seq![
                ("id"@, JsonView::Number(int_text(notification.id as int))),
                ("source"@, JsonView::Text(notification.source@)),
                ("category"@, JsonView::Text(notification.category@)),
                ("is_read"@, JsonView::Bool(notification.is_read)),
                ("response_action"@, opt_text_json(opt_view(notification.response_action))),
                ("responded_at"@, opt_second_json(notification.responded_at)),
                ("created_at"@, time_json(at_second(notification.created_at))),
            ],
        ),
        ..known
    }
}

/// The document of an action.
pub open spec fn action_document(action: ActionDefinition) -> DocumentView {
    let fields = with_field(
        with_field(
            with_field(
                with_field(Seq::empty(), "title"@, action.title@),
                "action_name"@,
                action.name@,
            ),
            "description"@,
            action.description@,
        ),
        "script_source"@,
        action.script_source@,
    );
    let base = new_document(
        SearchEntityKind::Action,
        action.action_uuid@,
        action.title@,
        joined_values(fields),
        0,
    );
    let filled = document_with_fields(base, fields);
    let known = document_with_business(
        filled,
        BusinessView {
            created_at_ms: None,
            updated_at_ms: None,
            status: None,
            datatype: None,
            category: Some(action.category@),
            source: Some("action"@),
            app_id: None,
            agent_id: None,
            session_id: None,
            collection_uuid: None,
            collection_type: None,
            archived: None,
        },
    );
    DocumentView {
        metadata: JsonView::Object(
            seq![
                ("action_uuid"@, JsonView::Text(action.action_uuid@)),
                ("name"@, JsonView::Text(action.name@)),
                ("version"@, JsonView::Text(action.version@)),
                ("category"@, JsonView::Text(action.category@)),
                ("enabled"@, JsonView::Bool(action.enabled)),
                ("metadata_json"@, json_or_empty(action.metadata_json@)),
                ("input_schema_json"@, json_or_empty(action.input_schema_json@)),
                ("output_schema_json"@, stored_json(opt_view(action.output_schema_json))),
            ],
        ),
        ..known
    }
}

/// The document of a version of an agent.
pub open spec fn agent_version_document(version: AgentVersion) -> DocumentView {
    let fields = with_field(
        with_field(Seq::empty(), "title"@, version.name@),
        "markdown"@,
        version.raw_markdown@,
    );
    let base = new_document(
        SearchEntityKind::AgentVersion,
        version.version_id@,
        version.name@,
        joined_values(fields),
        millis_of(at_second(version.created_at)),
    );
    let filled = document_with_fields(base, fields);
    let placed = DocumentView { parent_id: Some(version.agent_id@), ..filled };
    let known = document_with_business(
        placed,
        BusinessView {
            created_at_ms: Some(millis_of(at_second(version.created_at))),
            updated_at_ms: Some(millis_of(at_second(version.updated_at))),
            status: None,
            datatype: None,
            category: None,
            source: None,
            app_id: None,
            agent_id: Some(version.agent_id@),
            session_id: None,
            collection_uuid: None,
            collection_type: None,
            archived: None,
        },
    );
    DocumentView {
        metadata: JsonView::Object(
            seq![
                ("version_id"@, JsonView::Text(version.version_id@)),
                ("agent_id"@, JsonView::Text(version.agent_id@)),
                ("name"@, JsonView::Text(version.name@)),
                ("created_at"@, time_json(at_second(version.created_at))),
                ("updated_at"@, time_json(at_second(version.updated_at))),
                ("applied_at"@, opt_second_json(version.applied_at)),
            ],
        ),
        ..known
    }
}

impl SearchDocument {
    /// The document of a collection.
    pub fn from_collection(collection: &ThingCollectionEntry) -> (d: Self)
        ensures
            d@ == collection_document(collection@),
    {
        let content_fields = vec![SearchContentField::new("title", collection.title.as_str())];
        proof {
            reveal_strlit("");
            assert(""@ =~= Seq::empty());
            assert(field_views(content_fields@) =~= seq![("title"@, collection.title@)]);
        }
        let base = SearchDocument::new(
            SearchEntityKind::Collection,
            collection.uuid.as_str(),
            collection.title.as_str(),
            "",
            timestamp_millis(collection.created_at),
        );
        let filled = base.with_content_fields(content_fields);
        let known = filled.with_business_fields(
            SearchBusinessFields {
                created_at_ms: Some(timestamp_millis(collection.created_at)),
                updated_at_ms: Some(timestamp_millis(collection.updated_at)),
                status: None,
                datatype: None,
                category: None,
                source: None,
                app_id: collection.app_id.clone(),
                agent_id: None,
                session_id: None,
                collection_uuid: Some(collection.uuid.clone()),
                collection_type: Some(owned(collection.collection_type.as_str())),
                archived: Some(collection.archived_at.is_some()),
            },
        );
        let metadata = vec![
            entry("collection_type", Json::text(collection.collection_type.as_str())),
            entry("app_id", Json::opt_text(&collection.app_id)),
            entry("archived_at", opt_time_value(collection.archived_at)),
            entry("created_at", time_value(collection.created_at)),
            entry("updated_at", time_value(collection.updated_at)),
            entry("actor_type", Json::opt_text(&collection.actor_type)),
            entry("actor_app_id", Json::opt_text(&collection.actor_app_id)),
            entry("actor_display_name", Json::opt_text(&collection.actor_display_name)),
        ];
        proof {
            assert(entries_view(metadata@) =~= seq![
                ("collection_type"@, JsonView::Text(collection_type_name(collection.collection_type))),
                ("app_id"@, opt_text_json(collection@.app_id)),
                ("archived_at"@, opt_time_json(collection.archived_at)),
                ("created_at"@, time_json(collection.created_at)),
                ("updated_at"@, time_json(collection.updated_at)),
                ("actor_type"@, opt_text_json(collection@.actor_type)),
                ("actor_app_id"@, opt_text_json(collection@.actor_app_id)),
                ("actor_display_name"@, opt_text_json(collection@.actor_display_name)),
            ]);
        }
        known.with_metadata(Json::object(metadata))
    }

    /// The document of a thing.
    pub fn from_thing(thing: &ThingEntry) -> (d: Self)
        ensures
            d@ == thing_document(thing@),
    {
        let mut content_fields: Vec<SearchContentField> = Vec::new();
        proof {
            assert(field_views(content_fields@) =~= Seq::empty());
        }
        push_content_field(&mut content_fields, "title", thing.title.as_str());
        push_json_content_fields(&mut content_fields, thing.datatype.as_str(), &thing.data);
        let body = join_content_field_values(&content_fields);
        let base = SearchDocument::new(
            SearchEntityKind::Thing,
            thing.uuid.as_str(),
            thing.title.as_str(),
            body.as_str(),
            timestamp_millis(thing.created_at),
        );
        let filled = base.with_content_fields(content_fields);
        let placed = filled.with_parent_id(thing.collection_uuid.as_str());
        let known = placed.with_business_fields(
            SearchBusinessFields {
                created_at_ms: Some(timestamp_millis(thing.created_at)),
                updated_at_ms: Some(timestamp_millis(thing.updated_at)),
                status: Some(thing.status.clone()),
                datatype: Some(owned(thing.datatype.as_str())),
                category: None,
                source: None,
                app_id: None,
                agent_id: None,
                session_id: None,
                collection_uuid: Some(thing.collection_uuid.clone()),
                collection_type: None,
                archived: Some(thing.archived_at.is_some()),
            },
        );
        let metadata = vec![
            entry("datatype", Json::text(thing.datatype.as_str())),
            entry("collection_uuid", Json::text(thing.collection_uuid.as_str())),
            entry("parent_uuid", Json::opt_text(&thing.parent_uuid)),
            entry("archived_at", opt_time_value(thing.archived_at)),
            entry("archived_from_collection_uuid", Json::opt_text(&thing.archived_from_collection_uuid)),
            entry("created_at", time_value(thing.created_at)),
            entry("updated_at", time_value(thing.updated_at)),
            entry("status", Json::text(thing.status.as_str())),
            entry("status_timestamp_ms", opt_int_value(thing.status_timestamp_ms)),
            entry("actor_type", Json::opt_text(&thing.actor_type)),
            entry("actor_app_id", Json::opt_text(&thing.actor_app_id)),
            entry("actor_display_name", Json::opt_text(&thing.actor_display_name)),
        ];
        proof {
            assert(entries_view(metadata@) =~= seq![
                ("datatype"@, JsonView::Text(thing@.datatype)),
                ("collection_uuid"@, JsonView::Text(thing@.collection_uuid)),
                ("parent_uuid"@, opt_text_json(thing@.parent_uuid)),
                ("archived_at"@, opt_time_json(thing.archived_at)),
                ("archived_from_collection_uuid"@, opt_text_json(thing@.archived_from_collection_uuid)),
                ("created_at"@, time_json(thing.created_at)),
                ("updated_at"@, time_json(thing.updated_at)),
                ("status"@, JsonView::Text(thing@.status)),
                ("status_timestamp_ms"@, opt_int_json(thing.status_timestamp_ms)),
                ("actor_type"@, opt_text_json(thing@.actor_type)),
                ("actor_app_id"@, opt_text_json(thing@.actor_app_id)),
                ("actor_display_name"@, opt_text_json(thing@.actor_display_name)),
            ]);
        }
        known.with_metadata(Json::object(metadata))
    }

    /// The document of a conversation.
    pub fn from_chat_session(session: &ChatSession) -> (d: Self)
        ensures
            d@ == chat_session_document(*session),
    {
        let title = match &session.title {
            Some(t) => t.clone(),
            None => session.session_id.clone(),
        };
        let content_fields = vec![SearchContentField::new("title", title.as_str())];
        proof {
            reveal_strlit("");
            assert(""@ =~= Seq::empty());
            assert(field_views(content_fields@) =~= seq![("title"@, title@)]);
        }
        let base = SearchDocument::new(
            SearchEntityKind::ChatSession,
            session.session_id.as_str(),
            title.as_str(),
            "",
            timestamp_millis(second(session.created_at)),
        );
        let filled = base.with_content_fields(content_fields);
        let known = filled.with_business_fields(
            SearchBusinessFields {
                created_at_ms: Some(timestamp_millis(second(session.created_at))),
                updated_at_ms: Some(timestamp_millis(second(session.last_activity))),
                status: None,
                datatype: None,
                category: None,
                source: None,
                app_id: None,
                agent_id: None,
                session_id: Some(session.session_id.clone()),
                collection_uuid: None,
                collection_type: None,
                archived: None,
            },
        );
        let metadata = vec![
            entry("session_id", Json::text(session.session_id.as_str())),
            entry("title", Json::opt_text(&session.title)),
            entry("created_at", time_value(second(session.created_at))),
            entry("last_activity", time_value(second(session.last_activity))),
            entry("message_count", Json::signed(session.message_count)),
        ];
        proof {
            assert(entries_view(metadata@) =~= seq![
                ("session_id"@, JsonView::Text(session.session_id@)),
                ("title"@, opt_text_json(opt_view(session.title))),
                ("created_at"@, time_json(at_second(session.created_at))),
                ("last_activity"@, time_json(at_second(session.last_activity))),
                ("message_count"@, JsonView::Number(int_text(session.message_count as int))),
            ]);
        }
        known.with_metadata(Json::object(metadata))
    }

    /// The document of a message.
    pub fn from_chat_message(session_id: &str, message_id: &str, created_at_ms: i64, message_json: &str) -> (d: Self)
        ensures
            d@ == chat_message_document(session_id@, message_id@, created_at_ms, message_json@),
    {
        let parsed = match read_json(message_json) {
            Ok(j) => j,
            Err(_) => Json::Null,
        };
        let title = match extract_chat_message_title(&parsed) {
            Some(t) => t,
            None => owned(message_id),
        };
        let mut content_fields: Vec<SearchContentField> = Vec::new();
        proof {
            assert(field_views(content_fields@) =~= Seq::empty());
        }
        push_content_field(&mut content_fields, "title", title.as_str());
        push_chat_message_content_field(&mut content_fields, &parsed, message_json);
        let body = join_content_field_values(&content_fields);
        let prefix = cat3("chat_message:", session_id, ":");
        let doc_id = cat(prefix.as_str(), message_id);
        let ghost value = parsed@;
        let base = SearchDocument::new(
            SearchEntityKind::ChatMessage,
            message_id,
            title.as_str(),
            body.as_str(),
            created_at_ms,
        );
        let filled = base.with_content_fields(content_fields);
        let named = filled.with_doc_id(doc_id.as_str());
        let placed = named.with_parent_id(session_id);
        let known = placed.with_business_fields(
            SearchBusinessFields {
                created_at_ms: Some(created_at_ms),
                updated_at_ms: None,
                status: None,
                datatype: None,
                category: None,
                source: None,
                app_id: None,
                agent_id: None,
                session_id: Some(owned(session_id)),
                collection_uuid: None,
                collection_type: None,
                archived: None,
            },
        );
        let metadata = vec![
            entry("session_id", Json::text(session_id)),
            entry("message_id", Json::text(message_id)),
            entry("message_json", parsed),
        ];
        proof {
            assert(entries_view(metadata@) =~= seq![
                ("session_id"@, JsonView::Text(session_id@)),
                ("message_id"@, JsonView::Text(message_id@)),
                ("message_json"@, value),
            ]);
        }
        known.with_metadata(Json::object(metadata))
    }

    /// The document of a notification.
    pub fn from_notification(notification: &NotificationEntry) -> (d: Self)
        ensures
            d@ == notification_document(*notification),
    {
        let mut content_fields: Vec<SearchContentField> = Vec::new();
        proof {
            assert(field_views(content_fields@) =~= Seq::empty());
        }
        push_content_field(&mut content_fields, "title", notification.title.as_str());
        push_content_field(&mut content_fields, "notification_body", notification.body.as_str());
        let body = join_content_field_values(&content_fields);
        let id = signed_text(notification.id);
        let base = SearchDocument::new(
            SearchEntityKind::Notification,
            id.as_str(),
            notification.title.as_str(),
            body.as_str(),
            timestamp_millis(second(notification.created_at)),
        );
        let filled = base.with_content_fields(content_fields);
        let placed = filled.with_parent_id(notification.category.as_str());
        let known = placed.with_business_fields(
            SearchBusinessFields {
                created_at_ms: Some(timestamp_millis(second(notification.created_at))),
                updated_at_ms: None,
                status: None,
                datatype: None,
                category: Some(notification.category.clone()),
                source: Some(notification.source.clone()),
                app_id: None,
                agent_id: None,
                session_id: None,
                collection_uuid: None,
                collection_type: None,
                archived: None,
            },
        );
        let metadata = vec![
            entry("id", Json::signed(notification.id)),
            entry("source", Json::text(notification.source.as_str())),
            entry("category", Json::text(notification.category.as_str())),
            entry("is_read", Json::Bool(notification.is_read)),
            entry("response_action", Json::opt_text(&notification.response_action)),
            entry("responded_at", opt_second_value(notification.responded_at)),
            entry("created_at", time_value(second(notification.created_at))),
        ];
        proof {
            assert(entries_view(metadata@) =~= seq![
                ("id"@, JsonView::Number(int_text(notification.id as int))),
                ("source"@, JsonView::Text(notification.source@)),
                ("category"@, JsonView::Text(notification.category@)),
                ("is_read"@, JsonView::Bool(notification.is_read)),
                ("response_action"@, opt_text_json(opt_view(notification.response_action))),
                ("responded_at"@, opt_second_json(notification.responded_at)),
                ("created_at"@, time_json(at_second(notification.created_at))),
            ]);
        }
        known.with_metadata(Json::object(metadata))
    }

    /// The document of an action.
    pub fn from_action(action: &ActionDefinition) -> (d: Self)
        ensures
            d@ == action_document(*action),
    {
        let mut content_fields: Vec<SearchContentField> = Vec::new();
        proof {
            assert(field_views(content_fields@) =~= Seq::empty());
        }
        push_content_field(&mut content_fields, "title", action.title.as_str());
        push_content_field(&mut content_fields, "action_name", action.name.as_str());
        push_content_field(&mut content_fields, "description", action.description.as_str());
        push_content_field(&mut content_fields, "script_source", action.script_source.as_str());
        let body = join_content_field_values(&content_fields);
        let base = SearchDocument::new(
            SearchEntityKind::Action,
            action.action_uuid.as_str(),
            action.title.as_str(),
            body.as_str(),
            0,
        );
        let filled = base.with_content_fields(content_fields);
        let known = filled.with_business_fields(
            SearchBusinessFields {
                created_at_ms: None,
                updated_at_ms: None,
                status: None,
                datatype: None,
                category: Some(action.category.clone()),
                source: Some(owned("action")),
                app_id: None,
                agent_id: None,
                session_id: None,
                collection_uuid: None,
                collection_type: None,
                archived: None,
            },
        );
        let metadata = vec![
            entry("action_uuid", Json::text(action.action_uuid.as_str())),
            entry("name", Json::text(action.name.as_str())),
            entry("version", Json::text(action.version.as_str())),
            entry("category", Json::text(action.category.as_str())),
            entry("enabled", Json::Bool(action.enabled)),
            entry("metadata_json", read_json_or_empty(action.metadata_json.as_str())),
            entry("input_schema_json", read_json_or_empty(action.input_schema_json.as_str())),
            entry("output_schema_json", read_stored_json(&action.output_schema_json)),
        ];
        proof {
            assert(entries_view(metadata@) =~= seq![
                ("action_uuid"@, JsonView::Text(action.action_uuid@)),
                ("name"@, JsonView::Text(action.name@)),
                ("version"@, JsonView::Text(action.version@)),
                ("category"@, JsonView::Text(action.category@)),
                ("enabled"@, JsonView::Bool(action.enabled)),
                ("metadata_json"@, json_or_empty(action.metadata_json@)),
                ("input_schema_json"@, json_or_empty(action.input_schema_json@)),
                ("output_schema_json"@, stored_json(opt_view(action.output_schema_json))),
            ]);
        }
        known.with_metadata(Json::object(metadata))
    }

    /// The document of a version of an agent.
    pub fn from_agent_version(version: &AgentVersion) -> (d: Self)
        ensures
            d@ == agent_version_document(*version),
    {
        let mut content_fields: Vec<SearchContentField> = Vec::new();
        proof {
            assert(field_views(content_fields@) =~= Seq::empty());
        }
        push_content_field(&mut content_fields, "title", version.name.as_str());
        push_content_field(&mut content_fields, "markdown", version.raw_markdown.as_str());
        let body = join_content_field_values(&content_fields);
        let base = SearchDocument::new(
            SearchEntityKind::AgentVersion,
            version.version_id.as_str(),
            version.name.as_str(),
            body.as_str(),
            timestamp_millis(second(version.created_at)),
        );
        let filled = base.with_content_fields(content_fields);
        let placed = filled.with_parent_id(version.agent_id.as_str());
        let known = placed.with_business_fields(
            SearchBusinessFields {
                created_at_ms: Some(timestamp_millis(second(version.created_at))),
                updated_at_ms: Some(timestamp_millis(second(version.updated_at))),
                status: None,
                datatype: None,
                category: None,
                source: None,
                app_id: None,
                agent_id: Some(version.agent_id.clone()),
                session_id: None,
                collection_uuid: None,
                collection_type: None,
                archived: None,
            },
        );
        let metadata = vec![
            entry("version_id", Json::text(version.version_id.as_str())),
            entry("agent_id", Json::text(version.agent_id.as_str())),
            entry("name", Json::text(version.name.as_str())),
            entry("created_at", time_value(second(version.created_at))),
            entry("updated_at", time_value(second(version.updated_at))),
            entry("applied_at", opt_second_value(version.applied_at)),
        ];
        proof {
            assert(entries_view(metadata@) =~= seq![
                ("version_id"@, JsonView::Text(version.version_id@)),
                ("agent_id"@, JsonView::Text(version.agent_id@)),
                ("name"@, JsonView::Text(version.name@)),
                ("created_at"@, time_json(at_second(version.created_at))),
                ("updated_at"@, time_json(at_second(version.updated_at))),
                ("applied_at"@, opt_second_json(version.applied_at)),
            ]);
        }
        known.with_metadata(Json::object(metadata))
    }

    /// The document of a stored message.
    pub fn from_stored_chat_message(message: &ChatMessage) -> (d: Self)
        ensures
            d@ == chat_message_document(
                message.session_id@,
                message.message_id@,
                message.created_at_ms,
                message.message_json@,
            ),
    {
        SearchDocument::from_chat_message(
            message.session_id.as_str(),
            message.message_id.as_str(),
            message.created_at_ms,
            message.message_json.as_str(),
        )
    }
}

/// What is done to the index.
#[derive(Debug)]
pub enum SearchIngestAction {
    Upsert { document: SearchDocument },
    Delete { doc_id: String },
    DeleteByParent { kind: SearchEntityKind, parent_id: String },
    Clear,
}

/// What is done to the index, over character sequences.
pub enum IngestView {
    Upsert { document: DocumentView },
    Delete { doc_id: Seq<char> },
    DeleteByParent { kind: SearchEntityKind, parent_id: Seq<char> },
    Clear,
}

impl View for SearchIngestAction {
    type V = IngestView;

    open spec fn view(&self) -> IngestView {
        match self {
            SearchIngestAction::Upsert { document } => IngestView::Upsert { document: document@ },
            SearchIngestAction::Delete { doc_id } => IngestView::Delete { doc_id: doc_id@ },
            SearchIngestAction::DeleteByParent { kind, parent_id } => IngestView::DeleteByParent {
                kind: *kind,
                parent_id: parent_id@,
            },
            SearchIngestAction::Clear => IngestView::Clear,
        }
    }
}

pub open spec fn ingest_views(list: Seq<SearchIngestAction>) -> Seq<IngestView> {
    list.map_values(|a: SearchIngestAction| a@)
}

/// The id of the document of an entity.
pub open spec fn entity_doc_id(kind: SearchEntityKind, entity_id: Seq<char>) -> Seq<char> {
    kind_name(kind) + ":"@ + entity_id
}

impl SearchIngestAction {
    /// Puts a document in, in place of the one with its id.
    pub fn upsert(document: SearchDocument) -> (a: Self)
        ensures
            a@ == (IngestView::Upsert { document: document@ }),
    {
        SearchIngestAction::Upsert { document }
    }

    /// Takes a document out.
    pub fn delete_doc_id(doc_id: &str) -> (a: Self)
        ensures
            a@ == (IngestView::Delete { doc_id: doc_id@ }),
    {
        SearchIngestAction::Delete { doc_id: owned(doc_id) }
    }

    /// Takes the document of an entity out.
    pub fn delete_entity(kind: SearchEntityKind, entity_id: &str) -> (a: Self)
        ensures
            a@ == (IngestView::Delete { doc_id: entity_doc_id(kind, entity_id@) }),
    {
        SearchIngestAction::Delete { doc_id: cat3(kind.as_str(), ":", entity_id) }
    }
}

/// The document of a collection, a thing or an action is the one that removing the entity
/// takes out.
pub proof fn law_removal_hits_document(
    c: CollectionEntryView,
    t: ThingEntryView,
    a: ActionDefinition,
)
    ensures
        collection_document(c).doc_id == entity_doc_id(SearchEntityKind::Collection, c.uuid),
        thing_document(t).doc_id == entity_doc_id(SearchEntityKind::Thing, t.uuid),
        action_document(a).doc_id == entity_doc_id(SearchEntityKind::Action, a.action_uuid@),
{
}

} // verus!
