//! The virtual filesystem: editing, deleting and moving.
use super::things::{object_data, object_schema, shown};
use super::paths::{entry_by_index, locate, located, text_out};
use super::trigger_paths::{opt_binding, opt_binding_json, opt_binding_to_json, trigger_rebound};
use super::RemiSdk;
use crate::bindings::{
    BindingView, EntityActionBinding, binding_views, bindings_given, bindings_json,
    bindings_to_json, given_view, parse_entity_action_bindings_value,
};
use crate::clock::clock_text;
use crate::content_registry::{
    ContentEntryPayload, ContentTypeRegistry, PayloadView, entry_json, payload_fault, payload_of,
};
use crate::error::{ErrorView, SdkError, failure, refused};
use crate::json::{
    Json, JsonView, entries_view, entry, field, float_field, json_opt_view, json_read,
    opt_text_json, opt_view, read_json, text_field,
};
use crate::rows::StoredTrigger;
use crate::storage::documents::opt_str_view;
use crate::text::{cat, cat3, cat5, decimal, decimal_text, owned, same, trim, trimmed};
use crate::things_docs::{Content, SetView};
use crate::things_local::{collection_in, find_collection_entry, find_thing_entry, thing_in};
use crate::things_types::{
    CollectionEntryView, CollectionType, SnapshotOptions, ThingCollectionEntry, ThingDatatype,
    ThingEntry, datatype_name,
};
use crate::timestamps::now_timestamp_rfc3339;
use crate::uuids::{is_uuid_text, random_uuid};
use crate::virtual_path::{
    CollectionFile, PathView, ThingFile, TriggerFile, VirtualPath, normalize_path, normalized,
    parse_virtual_path, parsed, path_fault,
};
use vstd::prelude::*;
use vstd::string::StringExecFns;

verus! {

/// A collection as it is to be written.
#[derive(Debug)]
pub struct ThingCollectionUpsert {
    pub uuid: String,
    pub title: String,
    pub collection_type: CollectionType,
    pub app_id: Option<String>,
}

/// A collection as it is to be written, over character sequences.
pub struct CollectionUpsertView {
    pub uuid: Seq<char>,
    pub title: Seq<char>,
    pub collection_type: CollectionType,
    pub app_id: Option<Seq<char>>,
}

impl View for ThingCollectionUpsert {
    type V = CollectionUpsertView;

    open spec fn view(&self) -> CollectionUpsertView {
        CollectionUpsertView {
            uuid: self.uuid@,
            title: self.title@,
            collection_type: self.collection_type,
            app_id: opt_view(self.app_id),
        }
    }
}

/// A thing as it is to be written; without data its content stays.
#[derive(Debug)]
pub struct ThingUpsert {
    pub uuid: String,
    pub title: String,
    pub datatype: ThingDatatype,
    pub data: Option<Json>,
    pub collection_uuid: String,
    pub parent_uuid: Option<String>,
}

/// A thing as it is to be written, over character sequences.
pub struct ThingUpsertView {
    pub uuid: Seq<char>,
    pub title: Seq<char>,
    pub datatype: Seq<char>,
    pub data: Option<JsonView>,
    pub collection_uuid: Seq<char>,
    pub parent_uuid: Option<Seq<char>>,
}

impl View for ThingUpsert {
    type V = ThingUpsertView;

    open spec fn view(&self) -> ThingUpsertView {
        ThingUpsertView {
            uuid: self.uuid@,
            title: self.title@,
            datatype: datatype_name(self.datatype),
            data: json_opt_view(self.data),
            collection_uuid: self.collection_uuid@,
            parent_uuid: opt_view(self.parent_uuid),
        }
    }
}

/// What changes of a content entry. A title of `Some(None)` takes the title away.
#[derive(Debug)]
pub struct ContentEntryUpdate {
    pub id: String,
    pub title: Option<Option<String>>,
    pub order: Option<String>,
    pub payload: Option<ContentEntryPayload>,
}

/// What changes of a content entry, over character sequences.
pub struct EntryUpdateView {
    pub id: Seq<char>,
    pub title: Option<Option<Seq<char>>>,
    pub order: Option<Seq<char>>,
    pub payload: Option<PayloadView>,
}

impl View for ContentEntryUpdate {
    type V = EntryUpdateView;

    open spec fn view(&self) -> EntryUpdateView {
        EntryUpdateView {
            id: self.id@,
            title: match self.title {
                Some(title) => Some(opt_view(title)),
                None => None,
            },
            order: opt_view(self.order),
            payload: match self.payload {
                Some(p) => Some(p@),
                None => None,
            },
        }
    }
}

/// What an edit of a file asks for.
#[derive(Debug)]
pub enum EditChange {
    CollectionActions { collection_uuid: String, bindings: Vec<EntityActionBinding> },
    CollectionCard { collection_uuid: String, card_jsx: String },
    CollectionName { collection: ThingCollectionUpsert },
    ThingName { thing: ThingUpsert },
    ThingActions { thing_uuid: String, bindings: Vec<EntityActionBinding> },
    ThingStatus { thing_uuid: String, status: String },
    Content {
        thing_uuid: String,
        operation: String,
        text: Option<String>,
        old_str: Option<String>,
        new_str: Option<String>,
        line_number: Option<usize>,
    },
    Entry { thing_uuid: String, index: usize, update: ContentEntryUpdate },
    EntryData { thing_uuid: String, index: usize, entry_id: String, data: Json },
    EntrySchema { thing_uuid: String, index: usize, entry_id: String, schema: Option<Json> },
    TriggerAction { trigger_uuid: String, binding: Option<EntityActionBinding> },
}

/// What an edit of a file asks for, over character sequences.
#[allow(inconsistent_fields)]
pub enum EditView {
    CollectionActions { collection: Seq<char>, bindings: Seq<BindingView> },
    CollectionCard { collection: Seq<char>, card_jsx: Seq<char> },
    CollectionName { written: CollectionUpsertView },
    ThingName { written_thing: ThingUpsertView },
    ThingActions { thing: Seq<char>, bindings: Seq<BindingView> },
    ThingStatus { thing: Seq<char>, status: Seq<char> },
    Content {
        thing: Seq<char>,
        operation: Seq<char>,
        text: Option<Seq<char>>,
        old_str: Option<Seq<char>>,
        new_str: Option<Seq<char>>,
        line_number: Option<usize>,
    },
    Entry { thing: Seq<char>, index: nat, update: EntryUpdateView },
    EntryData { thing: Seq<char>, index: nat, entry_id: Seq<char>, data: JsonView },
    EntrySchema { thing: Seq<char>, index: nat, entry_id: Seq<char>, schema: Option<JsonView> },
    TriggerAction { trigger: Seq<char>, binding: Option<BindingView> },
}

impl View for EditChange {
    type V = EditView;

    open spec fn view(&self) -> EditView {
        match self {
            EditChange::CollectionActions { collection_uuid, bindings } => {
                EditView::CollectionActions {
                    collection: collection_uuid@,
                    bindings: binding_views(bindings@),
                }
            },
            EditChange::CollectionCard { collection_uuid, card_jsx } => {
                EditView::CollectionCard { collection: collection_uuid@, card_jsx: card_jsx@ }
            },
            EditChange::CollectionName { collection } => EditView::CollectionName {
                written: collection@,
            },
            EditChange::ThingName { thing } => EditView::ThingName { written_thing: thing@ },
            EditChange::ThingActions { thing_uuid, bindings } => EditView::ThingActions {
                thing: thing_uuid@,
                bindings: binding_views(bindings@),
            },
            EditChange::ThingStatus { thing_uuid, status } => EditView::ThingStatus {
                thing: thing_uuid@,
                status: status@,
            },
            EditChange::Content { thing_uuid, operation, text, old_str, new_str, line_number } => {
                EditView::Content {
                    thing: thing_uuid@,
                    operation: operation@,
                    text: opt_view(*text),
                    old_str: opt_view(*old_str),
                    new_str: opt_view(*new_str),
                    line_number: *line_number,
                }
            },
            EditChange::Entry { thing_uuid, index, update } => EditView::Entry {
                thing: thing_uuid@,
                index: *index as nat,
                update: update@,
            },
            EditChange::EntryData { thing_uuid, index, entry_id, data } => EditView::EntryData {
                thing: thing_uuid@,
                index: *index as nat,
                entry_id: entry_id@,
                data: data@,
            },
            EditChange::EntrySchema { thing_uuid, index, entry_id, schema } => {
                EditView::EntrySchema {
                    thing: thing_uuid@,
                    index: *index as nat,
                    entry_id: entry_id@,
                    schema: json_opt_view(*schema),
                }
            },
            EditChange::TriggerAction { trigger_uuid, binding } => EditView::TriggerAction {
                trigger: trigger_uuid@,
                binding: opt_binding(*binding),
            },
        }
    }
}

/// An edit of a file: which one, and what is asked for.
#[derive(Debug)]
pub struct PathEdit {
    pub path: String,
    pub change: EditChange,
}

pub open spec fn edit_out(out: Result<PathEdit, SdkError>) -> Result<
    (Seq<char>, EditView),
    ErrorView,
> {
    match out {
        Ok(edit) => Ok((edit.path@, edit.change@)),
        Err(e) => Err(e@),
    }
}

pub open spec fn change_out(out: Result<EditChange, SdkError>) -> Result<EditView, ErrorView> {
    match out {
        Ok(change) => Ok(change@),
        Err(e) => Err(e@),
    }
}

/// The operation that a name stands for: a blank one overwrites.
pub open spec fn operation_of(name: Seq<char>) -> Seq<char> {
    if trimmed(name).len() == 0 {
        "overwrite"@
    } else {
        trimmed(name)
    }
}

/// The operation that a name stands for: a blank one overwrites.
pub fn normalize_operation(operation: &str) -> (out: String)
    ensures
        out@ == operation_of(operation@),
{
    let name = trim(operation);
    if name.as_str().unicode_len() == 0 {
        owned("overwrite")
    } else {
        name
    }
}

/// The text of a value that was given.
pub open spec fn given_text(value: Option<JsonView>) -> Option<Seq<char>> {
    match value {
        Some(JsonView::Text(s)) => Some(s),
        _ => None,
    }
}

fn text_given(value: Option<&Json>) -> (out: Option<String>)
    ensures
        opt_view(out) == given_text(given_view(value)),
{
    match value {
        Some(Json::Text(s)) => Some(s.clone()),
        _ => None,
    }
}

pub(crate) fn owned_opt(s: Option<&str>) -> (out: Option<String>)
    ensures
        opt_view(out) == opt_str_view(s),
{
    match s {
        Some(s) => Some(owned(s)),
        None => None,
    }
}

/// A text that an edit needs, or the refusal with what the edit needs it for.
pub open spec fn needed_text(path: Seq<char>, value: Option<JsonView>, message: Seq<char>) -> Result<
    Seq<char>,
    ErrorView,
> {
    match given_text(value) {
        Some(s) => Ok(s),
        None => Err(path_fault(path, "invalid_value"@, message)),
    }
}

fn need_text(path: &str, value: Option<&Json>, message: &str) -> (out: Result<String, SdkError>)
    ensures
        text_out(out) == needed_text(path@, given_view(value), message@),
{
    match text_given(value) {
        Some(s) => Ok(s),
        None => Err(refused(path, "invalid_value", message)),
    }
}

pub open spec fn read_only_action(path: Seq<char>) -> ErrorView {
    path_fault(path, "read_only_action_path"@, "The /action subtree is read-only in v1."@)
}

pub open spec fn is_content_operation(operation: Seq<char>) -> bool {
    operation == "overwrite"@ || operation == "append"@ || operation == "str_replace"@ || operation
        == "insert_at_line"@
}

/// A collection with another title, or why there is none.
pub open spec fn renamed_collection(
    sdk: RemiSdk,
    collection: Seq<char>,
    title: Seq<char>,
    now: Seq<char>,
) -> Result<EditView, ErrorView> {
    match shown(sdk, false, now) {
        Err(e) => Err(e),
        Ok(s) => match collection_in(s.collections, collection) {
            Some(c) => Ok(
                EditView::CollectionName {
                    written: CollectionUpsertView {
                        uuid: collection,
                        title,
                        collection_type: c.collection_type,
                        app_id: c.app_id,
                    },
                },
            ),
            None => Err(
                path_fault(
                    "/collection/"@ + collection + "/name"@,
                    "collection_not_found"@,
                    "Collection '"@ + collection + "' was not found."@,
                ),
            ),
        },
    }
}

/// A thing with another title, or why there is none.
pub open spec fn renamed_thing(
    sdk: RemiSdk,
    thing: Seq<char>,
    title: Seq<char>,
    now: Seq<char>,
) -> Result<EditView, ErrorView> {
    match shown(sdk, false, now) {
        Err(e) => Err(e),
        Ok(s) => match thing_in(s.things, thing) {
            Some(t) => Ok(
                EditView::ThingName {
                    written_thing: ThingUpsertView {
                        uuid: t.uuid,
                        title,
                        datatype: t.datatype,
                        data: None,
                        collection_uuid: t.collection_uuid,
                        parent_uuid: t.parent_uuid,
                    },
                },
            ),
            None => Err(
                path_fault(
                    "/thing/"@ + thing + "/name"@,
                    "thing_not_found"@,
                    "Thing '"@ + thing + "' was not found."@,
                ),
            ),
        },
    }
}

/// What an edit of the text of a thing asks for.
pub open spec fn content_change(
    path: Seq<char>,
    thing: Seq<char>,
    operation: Seq<char>,
    value: Option<JsonView>,
    old_str: Option<Seq<char>>,
    new_str: Option<Seq<char>>,
    line_number: Option<usize>,
) -> Result<EditView, ErrorView> {
    if is_content_operation(operation) {
        Ok(
            EditView::Content {
                thing,
                operation,
                text: given_text(value),
                old_str,
                new_str,
                line_number,
            },
        )
    } else {
        Err(
            path_fault(
                path,
                "invalid_operation"@,
                "Unsupported content.md edit operation '"@ + operation
                    + "'. Valid operations are overwrite, append, str_replace, and insert_at_line."@,
            ),
        )
    }
}

/// What an edit of a content entry asks for. `fresh` is the id of a document that the new
/// payload needs and does not name.
pub open spec fn entry_change(
    set: SetView,
    path: Seq<char>,
    thing: Seq<char>,
    index: nat,
    value: Option<JsonView>,
    fresh: Seq<char>,
) -> Result<EditView, ErrorView> {
    match value {
        None => Err(
            path_fault(
                path,
                "invalid_value"@,
                "Editing an entry requires an object value with optional title, order, and payload."@,
            ),
        ),
        Some(j) => match entry_by_index(set, thing, index) {
            Err(e) => Err(e),
            Ok(current) => if !(j is Object) {
                Err(
                    path_fault(
                        path,
                        "invalid_value"@,
                        "entries.{idx} overwrite requires an object value."@,
                    ),
                )
            } else if field(j, "payload"@) matches Some(p) && payload_fault(p) is Some {
                Err(ErrorView::Failure { message: "Invalid payload for '"@ + path + "'"@ })
            } else {
                Ok(
                    EditView::Entry {
                        thing,
                        index,
                        update: EntryUpdateView {
                            id: current.id,
                            title: if field(j, "title"@) is Some {
                                Some(text_field(j, "title"@))
                            } else {
                                None
                            },
                            order: float_field(j, "order"@),
                            payload: match field(j, "payload"@) {
                                Some(p) => Some(payload_of(p, fresh)),
                                None => None,
                            },
                        },
                    },
                )
            },
        },
    }
}

/// What an edit of the data of an object asks for.
pub open spec fn data_change(
    set: SetView,
    path: Seq<char>,
    thing: Seq<char>,
    index: nat,
    operation: Seq<char>,
    value: Option<JsonView>,
) -> Result<EditView, ErrorView> {
    if operation != "overwrite"@ {
        Err(
            path_fault(
                path,
                "invalid_operation"@,
                "entries.{idx}.data.json only supports overwrite."@,
            ),
        )
    } else {
        match entry_by_index(set, thing, index) {
            Err(e) => Err(e),
            Ok(entry) => match value {
                None => Err(
                    path_fault(
                        path,
                        "invalid_value"@,
                        "entries.{idx}.data.json overwrite requires a JSON value."@,
                    ),
                ),
                Some(data) => Ok(EditView::EntryData { thing, index, entry_id: entry.id, data }),
            },
        }
    }
}

/// What an edit of the schema of an object asks for.
pub open spec fn schema_change(
    set: SetView,
    path: Seq<char>,
    thing: Seq<char>,
    index: nat,
    operation: Seq<char>,
    value: Option<JsonView>,
) -> Result<EditView, ErrorView> {
    if operation != "overwrite"@ {
        Err(
            path_fault(
                path,
                "invalid_operation"@,
                "entries.{idx}.schema.json only supports overwrite."@,
            ),
        )
    } else {
        match entry_by_index(set, thing, index) {
            Err(e) => Err(e),
            Ok(entry) => Ok(
                EditView::EntrySchema { thing, index, entry_id: entry.id, schema: value },
            ),
        }
    }
}

pub open spec fn directory_edit(path: Seq<char>) -> ErrorView {
    path_fault(
        path,
        "is_directory"@,
        "The target path is a directory. Use tree_tool for listing or target a file node such as name, status, content.md, entries.{idx}, entries.{idx}.data.json, entries.{idx}.schema.json, or rule.json."@,
    )
}

/// What an edit is given besides the path.
pub struct EditGiven {
    pub operation: Seq<char>,
    pub value: Option<JsonView>,
    pub old_str: Option<Seq<char>>,
    pub new_str: Option<Seq<char>>,
    pub line_number: Option<usize>,
}

/// What an edit of a file of a collection asks for at `now`.
pub open spec fn collection_change(
    sdk: RemiSdk,
    path: Seq<char>,
    collection: Seq<char>,
    file: CollectionFile,
    value: Option<JsonView>,
    now: Seq<char>,
) -> Result<EditView, ErrorView> {
    match file {
        CollectionFile::Actions => match bindings_given(path, value) {
            Ok(bindings) => Ok(EditView::CollectionActions { collection, bindings }),
            Err(e) => Err(e),
        },
        CollectionFile::CardJsx => match needed_text(
            path,
            value,
            "Editing collection card.jsx requires a string value. Use an empty string to clear the template."@,
        ) {
            Ok(card_jsx) => Ok(EditView::CollectionCard { collection, card_jsx }),
            Err(e) => Err(e),
        },
        CollectionFile::Name => match needed_text(
            path,
            value,
            "Editing collection name requires a string value."@,
        ) {
            Ok(title) => renamed_collection(sdk, collection, title, now),
            Err(e) => Err(e),
        },
        _ => Err(directory_edit(path)),
    }
}

/// What an edit of a file of a thing asks for at `now`.
pub open spec fn thing_change(
    sdk: RemiSdk,
    path: Seq<char>,
    thing: Seq<char>,
    file: ThingFile,
    given: EditGiven,
    now: Seq<char>,
    fresh: Seq<char>,
) -> Result<EditView, ErrorView> {
    match file {
        ThingFile::Name => match needed_text(
            path,
            given.value,
            "Editing thing name requires a string value."@,
        ) {
            Ok(title) => renamed_thing(sdk, thing, title, now),
            Err(e) => Err(e),
        },
        ThingFile::Actions => match bindings_given(path, given.value) {
            Ok(bindings) => Ok(EditView::ThingActions { thing, bindings }),
            Err(e) => Err(e),
        },
        ThingFile::Status => match needed_text(
            path,
            given.value,
            "Editing thing status requires a string value."@,
        ) {
            Ok(status) => Ok(EditView::ThingStatus { thing, status }),
            Err(e) => Err(e),
        },
        ThingFile::Content => content_change(
            path,
            thing,
            operation_of(given.operation),
            given.value,
            given.old_str,
            given.new_str,
            given.line_number,
        ),
        ThingFile::Entry(index) => entry_change(
            sdk.documents@,
            path,
            thing,
            index,
            given.value,
            fresh,
        ),
        ThingFile::EntryData(index) => data_change(
            sdk.documents@,
            path,
            thing,
            index,
            operation_of(given.operation),
            given.value,
        ),
        ThingFile::EntrySchema(index) => schema_change(
            sdk.documents@,
            path,
            thing,
            index,
            operation_of(given.operation),
            given.value,
        ),
        _ => Err(directory_edit(path)),
    }
}

/// What an edit of a node of a trigger asks for.
pub open spec fn trigger_change(
    triggers: Seq<StoredTrigger>,
    path: Seq<char>,
    trigger: Seq<char>,
    file: TriggerFile,
    value: Option<JsonView>,
) -> Result<EditView, ErrorView> {
    match file {
        TriggerFile::Dir => Err(directory_edit(path)),
        TriggerFile::Action => match trigger_rebound(triggers, path, trigger, value) {
            Ok(binding) => Ok(EditView::TriggerAction { trigger, binding }),
            Err(e) => Err(e),
        },
    }
}

/// What an edit of a node asks for at `now`.
pub open spec fn node_change(
    sdk: RemiSdk,
    path: Seq<char>,
    node: PathView,
    given: EditGiven,
    now: Seq<char>,
    fresh: Seq<char>,
) -> Result<EditView, ErrorView> {
    match node {
        PathView::ActionRoot => Err(read_only_action(path)),
        PathView::Action { action, file } => Err(read_only_action(path)),
        PathView::Collection { collection, file } => collection_change(
            sdk,
            path,
            collection,
            file,
            given.value,
            now,
        ),
        PathView::Thing { collection, thing, file } => thing_change(
            sdk,
            path,
            thing,
            file,
            given,
            now,
            fresh,
        ),
        PathView::Trigger { trigger, file } => trigger_change(
            sdk.storage.triggers.data(),
            path,
            trigger,
            file,
            given.value,
        ),
        _ => Err(directory_edit(path)),
    }
}

/// What an edit of a path asks for at `now`: the path in its normal form, and the change.
pub open spec fn path_edit(
    sdk: RemiSdk,
    path: Seq<char>,
    given: EditGiven,
    now: Seq<char>,
    fresh: Seq<char>,
) -> Result<(Seq<char>, EditView), ErrorView> {
    match located(path) {
        Err(e) => Err(e),
        Ok((p, node)) => match node_change(sdk, p, node, given, now, fresh) {
            Err(e) => Err(e),
            Ok(change) => Ok((p, change)),
        },
    }
}

pub open spec fn edit_given(
    operation: &str,
    value: Option<&Json>,
    old_str: Option<&str>,
    new_str: Option<&str>,
    line_number: Option<usize>,
) -> EditGiven {
    EditGiven {
        operation: operation@,
        value: given_view(value),
        old_str: opt_str_view(old_str),
        new_str: opt_str_view(new_str),
        line_number,
    }
}

pub open spec fn answer_out(out: Result<Json, SdkError>) -> Result<JsonView, ErrorView> {
    match out {
        Ok(j) => Ok(j@),
        Err(e) => Err(e@),
    }
}

/// The answer to a change that was made, with the new value under a name.
pub open spec fn change_answer(
    message: Seq<char>,
    path: Seq<char>,
    key: Seq<char>,
    value: JsonView,
) -> JsonView {
    if key == "entry"@ {
        JsonView::Object(
            seq![
                (key, value),
                ("message"@, JsonView::Text(message)),
                ("ok"@, JsonView::Bool(true)),
                ("path"@, JsonView::Text(path)),
            ],
        )
    } else {
        JsonView::Object(
            seq![
                ("message"@, JsonView::Text(message)),
                ("ok"@, JsonView::Bool(true)),
                ("path"@, JsonView::Text(path)),
                (key, value),
            ],
        )
    }
}

fn answer_with_value(message: &str, path: &str, value: Json) -> (j: Json)
    ensures
        j@ == change_answer(message@, path@, "value"@, value@),
{
    let ghost shown_value = value@;
    let entries = vec![
        entry("message", Json::text(message)),
        entry("ok", Json::Bool(true)),
        entry("path", Json::text(path)),
        entry("value", value),
    ];
    proof {
        reveal_strlit("entry");
        reveal_strlit("value");
        assert("entry"@[0] == 'e' && "value"@[0] == 'v');
        assert(entries_view(entries@) =~= change_answer(
            message@,
            path@,
            "value"@,
            shown_value,
        )->Object_0);
    }
    Json::object(entries)
}

fn answer_with_entry(message: &str, path: &str, value: Json) -> (j: Json)
    ensures
        j@ == change_answer(message@, path@, "entry"@, value@),
{
    let ghost shown_value = value@;
    let entries = vec![
        entry("entry", value),
        entry("message", Json::text(message)),
        entry("ok", Json::Bool(true)),
        entry("path", Json::text(path)),
    ];
    proof {
        assert(entries_view(entries@) =~= change_answer(
            message@,
            path@,
            "entry"@,
            shown_value,
        )->Object_0);
    }
    Json::object(entries)
}

/// The answer to an edit that was asked for, where `done` is what the change gave, and
/// `set` the documents after it.
pub open spec fn edit_answer(
    set: SetView,
    path: Seq<char>,
    change: EditView,
    done: Result<Seq<char>, ErrorView>,
) -> Result<JsonView, ErrorView> {
    match done {
        Err(e) => match change {
            EditView::ThingStatus { thing, status } => Err(
                ErrorView::Failure { message: "Failed to update thing status for "@ + thing },
            ),
            _ => Err(e),
        },
        Ok(text) => match change {
            EditView::CollectionActions { collection, bindings } => Ok(
                change_answer(
                    "Updated collection action bindings for '"@ + collection + "'"@,
                    path,
                    "value"@,
                    bindings_json(bindings),
                ),
            ),
            EditView::CollectionCard { collection, card_jsx } => Ok(
                change_answer(
                    "Updated collection card JSX for '"@ + collection + "'"@,
                    path,
                    "value"@,
                    JsonView::Text(card_jsx),
                ),
            ),
            EditView::CollectionName { written } => Ok(
                change_answer(
                    "Updated collection name for '"@ + written.uuid + "'"@,
                    path,
                    "value"@,
                    JsonView::Text(written.title),
                ),
            ),
            EditView::ThingName { written_thing } => Ok(
                change_answer(
                    "Updated thing name for '"@ + written_thing.uuid + "'"@,
                    path,
                    "value"@,
                    JsonView::Text(written_thing.title),
                ),
            ),
            EditView::ThingActions { thing, bindings } => Ok(
                change_answer(
                    "Updated thing action bindings for '"@ + thing + "'"@,
                    path,
                    "value"@,
                    bindings_json(bindings),
                ),
            ),
            EditView::ThingStatus { thing, status } => Ok(
                change_answer(
                    "Updated thing status for '"@ + thing + "'"@,
                    path,
                    "value"@,
                    JsonView::Text(status),
                ),
            ),
            EditView::Content { thing, operation, text: given, old_str, new_str, line_number } => {
                match json_read(text) {
                    Ok(j) => Ok(j),
                    Err(e) => Err(
                        ErrorView::Failure { message: "Failed to decode content.md edit result"@ },
                    ),
                }
            },
            EditView::Entry { thing, index, update } => match entry_by_index(set, thing, index) {
                Err(e) => Err(e),
                Ok(updated) => Ok(
                    change_answer(
                        "Updated content entry "@ + decimal(index) + " for thing '"@ + thing
                            + "'"@,
                        path,
                        "entry"@,
                        entry_json(updated),
                    ),
                ),
            },
            EditView::EntryData { thing, index, entry_id, data } => match object_data(
                set,
                thing,
                entry_id,
            ) {
                Err(e) => Err(e),
                Ok(kept) => Ok(
                    change_answer(
                        "Updated json_object data for entry "@ + decimal(index) + " on thing '"@
                            + thing + "'"@,
                        path,
                        "value"@,
                        match kept {
                            Some(j) => j,
                            None => JsonView::Object(Seq::empty()),
                        },
                    ),
                ),
            },
            EditView::EntrySchema { thing, index, entry_id, schema } => match object_schema(
                set,
                thing,
                entry_id,
            ) {
                Err(e) => Err(e),
                Ok(kept) => Ok(
                    change_answer(
                        "Updated json_object schema for entry "@ + decimal(index) + " on thing '"@
                            + thing + "'"@,
                        path,
                        "value"@,
                        match kept {
                            Some(j) => j,
                            None => JsonView::Null,
                        },
                    ),
                ),
            },
            EditView::TriggerAction { trigger, binding } => Ok(
                change_answer(
                    "Updated trigger action binding for '"@ + trigger + "'"@,
                    path,
                    "value"@,
                    opt_binding_json(binding),
                ),
            ),
        },
    }
}

pub(crate) fn empty_object() -> (j: Json)
    ensures
        j@ == JsonView::Object(Seq::empty()),
{
    let none: Vec<(String, Json)> = Vec::new();
    proof {
        assert(entries_view(none@) =~= Seq::empty());
    }
    Json::object(none)
}

impl RemiSdk {
    /// A collection with another title, as it is to be written at `now`.
    fn rename_collection(&self, collection_uuid: &str, title: String, now: &String) -> (out: Result<
        EditChange,
        SdkError,
    >)
        ensures
            change_out(out) == renamed_collection(*self, collection_uuid@, title@, now@),
    {
        let snapshot = match self.things_local_service().snapshot_with_options_at(
            SnapshotOptions { include_content: false },
            now,
        ) {
            Ok(s) => s,
            Err(e) => return Err(e),
        };
        let mut collections = snapshot.collections;
        match find_collection_entry(&collections, collection_uuid) {
            Some(at) => {
                let c = collections.remove(at);
                Ok(
                    EditChange::CollectionName {
                        collection: ThingCollectionUpsert {
                            uuid: owned(collection_uuid),
                            title,
                            collection_type: c.collection_type,
                            app_id: c.app_id,
                        },
                    },
                )
            },
            None => {
                let name = cat3("/collection/", collection_uuid, "/name");
                let message = cat3("Collection '", collection_uuid, "' was not found.");
                Err(refused(name.as_str(), "collection_not_found", message.as_str()))
            },
        }
    }

    /// A thing with another title, as it is to be written at `now`.
    fn rename_thing(&self, thing_uuid: &str, title: String, now: &String) -> (out: Result<
        EditChange,
        SdkError,
    >)
        ensures
            change_out(out) == renamed_thing(*self, thing_uuid@, title@, now@),
    {
        let snapshot = match self.things_local_service().snapshot_with_options_at(
            SnapshotOptions { include_content: false },
            now,
        ) {
            Ok(s) => s,
            Err(e) => return Err(e),
        };
        let mut things = snapshot.things;
        match find_thing_entry(&things, thing_uuid) {
            Some(at) => {
                let t = things.remove(at);
                Ok(
                    EditChange::ThingName {
                        thing: ThingUpsert {
                            uuid: t.uuid,
                            title,
                            datatype: t.datatype,
                            data: None,
                            collection_uuid: t.collection_uuid,
                            parent_uuid: t.parent_uuid,
                        },
                    },
                )
            },
            None => {
                let name = cat3("/thing/", thing_uuid, "/name");
                let message = cat3("Thing '", thing_uuid, "' was not found.");
                Err(refused(name.as_str(), "thing_not_found", message.as_str()))
            },
        }
    }

    fn edit_thing_content_path(
        &self,
        path: &str,
        thing_uuid: &str,
        operation: String,
        value: Option<&Json>,
        old_str: Option<&str>,
        new_str: Option<&str>,
        line_number: Option<usize>,
    ) -> (out: Result<EditChange, SdkError>)
        ensures
            change_out(out) == content_change(
                path@,
                thing_uuid@,
                operation@,
                given_view(value),
                opt_str_view(old_str),
                opt_str_view(new_str),
                line_number,
            ),
    {
        let name = operation.as_str();
        if same(name, "overwrite") || same(name, "append") || same(name, "str_replace") || same(
            name,
            "insert_at_line",
        ) {
            Ok(
                EditChange::Content {
                    thing_uuid: owned(thing_uuid),
                    operation,
                    text: text_given(value),
                    old_str: owned_opt(old_str),
                    new_str: owned_opt(new_str),
                    line_number,
                },
            )
        } else {
            let message = cat3(
                "Unsupported content.md edit operation '",
                name,
                "'. Valid operations are overwrite, append, str_replace, and insert_at_line.",
            );
            Err(refused(path, "invalid_operation", message.as_str()))
        }
    }

    fn edit_thing_entry_path(
        &self,
        path: &str,
        thing_uuid: &str,
        index: usize,
        value: Option<&Json>,
        fresh: &String,
    ) -> (out: Result<EditChange, SdkError>)
        ensures
            change_out(out) == entry_change(
                self.documents@,
                path@,
                thing_uuid@,
                index as nat,
                given_view(value),
                fresh@,
            ),
    {
        let value = match value {
            Some(value) => value,
            None => return Err(
                refused(
                    path,
                    "invalid_value",
                    "Editing an entry requires an object value with optional title, order, and payload.",
                ),
            ),
        };
        let current = match self.content_entry_by_index(thing_uuid, index) {
            Ok(current) => current,
            Err(e) => return Err(e),
        };
        match value {
            Json::Object(_) => {},
            _ => return Err(
                refused(
                    path,
                    "invalid_value",
                    "entries.{idx} overwrite requires an object value.",
                ),
            ),
        }
        let title = match value.get("title") {
            Some(_) => Some(value.get_text("title")),
            None => None,
        };
        let order = value.get_float("order");
        let payload = match value.get("payload") {
            Some(p) => match ContentTypeRegistry::new().parse_content_entry_payload_with(p, fresh) {
                Ok(payload) => Some(payload),
                Err(_) => {
                    let message = cat3("Invalid payload for '", path, "'");
                    return Err(failure(message.as_str()));
                },
            },
            None => None,
        };
        Ok(
            EditChange::Entry {
                thing_uuid: owned(thing_uuid),
                index,
                update: ContentEntryUpdate { id: current.id, title, order, payload },
            },
        )
    }

    fn edit_thing_entry_data_path(
        &self,
        path: &str,
        thing_uuid: &str,
        index: usize,
        operation: &str,
        value: Option<&Json>,
    ) -> (out: Result<EditChange, SdkError>)
        ensures
            change_out(out) == data_change(
                self.documents@,
                path@,
                thing_uuid@,
                index as nat,
                operation@,
                given_view(value),
            ),
    {
        if !same(operation, "overwrite") {
            return Err(
                refused(
                    path,
                    "invalid_operation",
                    "entries.{idx}.data.json only supports overwrite.",
                ),
            );
        }
        let entry = match self.content_entry_by_index(thing_uuid, index) {
            Ok(entry) => entry,
            Err(e) => return Err(e),
        };
        match value {
            Some(data) => Ok(
                EditChange::EntryData {
                    thing_uuid: owned(thing_uuid),
                    index,
                    entry_id: entry.id,
                    data: data.duplicate_json(),
                },
            ),
            None => Err(
                refused(
                    path,
                    "invalid_value",
                    "entries.{idx}.data.json overwrite requires a JSON value.",
                ),
            ),
        }
    }

    fn edit_thing_entry_schema_path(
        &self,
        path: &str,
        thing_uuid: &str,
        index: usize,
        operation: &str,
        value: Option<&Json>,
    ) -> (out: Result<EditChange, SdkError>)
        ensures
            change_out(out) == schema_change(
                self.documents@,
                path@,
                thing_uuid@,
                index as nat,
                operation@,
                given_view(value),
            ),
    {
        if !same(operation, "overwrite") {
            return Err(
                refused(
                    path,
                    "invalid_operation",
                    "entries.{idx}.schema.json only supports overwrite.",
                ),
            );
        }
        let entry = match self.content_entry_by_index(thing_uuid, index) {
            Ok(entry) => entry,
            Err(e) => return Err(e),
        };
        let schema = match value {
            Some(schema) => Some(schema.duplicate_json()),
            None => None,
        };
        Ok(
            EditChange::EntrySchema {
                thing_uuid: owned(thing_uuid),
                index,
                entry_id: entry.id,
                schema,
            },
        )
    }

    fn edit_collection_path(
        &self,
        path: &str,
        node: &VirtualPath,
        value: Option<&Json>,
        now: &String,
    ) -> (out: Result<EditChange, SdkError>)
        requires
            node@ is Collection,
        ensures
            change_out(out) == collection_change(
                *self,
                path@,
                node@->Collection_collection,
                node@->Collection_file,
                given_view(value),
                now@,
            ),
    {
        match node {
            VirtualPath::CollectionActions { collection_uuid } => {
                match parse_entity_action_bindings_value(path, value) {
                    Ok(bindings) => Ok(
                        EditChange::CollectionActions {
                            collection_uuid: collection_uuid.clone(),
                            bindings,
                        },
                    ),
                    Err(e) => Err(e),
                }
            },
            VirtualPath::CollectionCardJsx { collection_uuid } => {
                match need_text(
                    path,
                    value,
                    "Editing collection card.jsx requires a string value. Use an empty string to clear the template.",
                ) {
                    Ok(card_jsx) => Ok(
                        EditChange::CollectionCard {
                            collection_uuid: collection_uuid.clone(),
                            card_jsx,
                        },
                    ),
                    Err(e) => Err(e),
                }
            },
            VirtualPath::CollectionName { collection_uuid } => {
                match need_text(path, value, "Editing collection name requires a string value.") {
                    Ok(title) => self.rename_collection(collection_uuid.as_str(), title, now),
                    Err(e) => Err(e),
                }
            },
            _ => Err(refuse_directory(path)),
        }
    }

    fn edit_thing_path(
        &self,
        path: &str,
        node: &VirtualPath,
        operation: &str,
        value: Option<&Json>,
        old_str: Option<&str>,
        new_str: Option<&str>,
        line_number: Option<usize>,
        now: &String,
        fresh: &String,
    ) -> (out: Result<EditChange, SdkError>)
        requires
            node@ is Thing,
        ensures
            change_out(out) == thing_change(
                *self,
                path@,
                node@->thing,
                node@->Thing_file,
                edit_given(operation, value, old_str, new_str, line_number),
                now@,
                fresh@,
            ),
    {
        let operation = normalize_operation(operation);
        match node {
            VirtualPath::ThingName { thing_uuid, .. } => {
                match need_text(path, value, "Editing thing name requires a string value.") {
                    Ok(title) => self.rename_thing(thing_uuid.as_str(), title, now),
                    Err(e) => Err(e),
                }
            },
            VirtualPath::ThingActions { thing_uuid, .. } => {
                match parse_entity_action_bindings_value(path, value) {
                    Ok(bindings) => Ok(
                        EditChange::ThingActions { thing_uuid: thing_uuid.clone(), bindings },
                    ),
                    Err(e) => Err(e),
                }
            },
            VirtualPath::ThingStatus { thing_uuid, .. } => {
                match need_text(path, value, "Editing thing status requires a string value.") {
                    Ok(status) => Ok(
                        EditChange::ThingStatus { thing_uuid: thing_uuid.clone(), status },
                    ),
                    Err(e) => Err(e),
                }
            },
            VirtualPath::ThingContent { thing_uuid, .. } => self.edit_thing_content_path(
                path,
                thing_uuid.as_str(),
                operation,
                value,
                old_str,
                new_str,
                line_number,
            ),
            VirtualPath::ThingEntry { thing_uuid, index, .. } => self.edit_thing_entry_path(
                path,
                thing_uuid.as_str(),
                *index,
                value,
                fresh,
            ),
            VirtualPath::ThingEntryData { thing_uuid, index, .. } => {
                self.edit_thing_entry_data_path(
                    path,
                    thing_uuid.as_str(),
                    *index,
                    operation.as_str(),
                    value,
                )
            },
            VirtualPath::ThingEntrySchema { thing_uuid, index, .. } => {
                self.edit_thing_entry_schema_path(
                    path,
                    thing_uuid.as_str(),
                    *index,
                    operation.as_str(),
                    value,
                )
            },
            _ => Err(refuse_directory(path)),
        }
    }

    /// What an edit of a file asks for at `now`. `fresh` is the id of a document that a new
    /// payload needs and does not name.
    pub fn edit_virtual_path_at(
        &self,
        path: &str,
        operation: &str,
        value: Option<&Json>,
        old_str: Option<&str>,
        new_str: Option<&str>,
        line_number: Option<usize>,
        now: &String,
        fresh: &String,
    ) -> (out: Result<PathEdit, SdkError>)
        ensures
            edit_out(out) == path_edit(
                *self,
                path@,
                edit_given(operation, value, old_str, new_str, line_number),
                now@,
                fresh@,
            ),
    {
        let (normal, node) = match locate(path) {
            Ok(found) => found,
            Err(e) => return Err(e),
        };
        let change = match &node {
            VirtualPath::ActionRoot
            | VirtualPath::ActionDir { .. }
            | VirtualPath::ActionName { .. }
            | VirtualPath::ActionMetadata { .. }
            | VirtualPath::ActionInputSchema { .. }
            | VirtualPath::ActionOutputSchema { .. }
            | VirtualPath::ActionScript { .. }
            | VirtualPath::ActionLatestInvocation { .. } => Err(
                refuse_read_only(normal.as_str()),
            ),
            VirtualPath::CollectionDir { .. }
            | VirtualPath::CollectionName { .. }
            | VirtualPath::CollectionCardJsx { .. }
            | VirtualPath::CollectionActions { .. }
            | VirtualPath::CollectionThingsDir { .. } => self.edit_collection_path(
                normal.as_str(),
                &node,
                value,
                now,
            ),
            VirtualPath::Root | VirtualPath::CollectionRoot | VirtualPath::TriggerDir { .. } => Err(
                refuse_directory(normal.as_str()),
            ),
            VirtualPath::TriggerAction { trigger_uuid } => {
                match self.rebind_trigger(normal.as_str(), trigger_uuid.as_str(), value) {
                    Ok(binding) => Ok(
                        EditChange::TriggerAction { trigger_uuid: trigger_uuid.clone(), binding },
                    ),
                    Err(e) => Err(e),
                }
            },
            _ => self.edit_thing_path(
                normal.as_str(),
                &node,
                operation,
                value,
                old_str,
                new_str,
                line_number,
                now,
                fresh,
            ),
        };
        match change {
            Ok(change) => Ok(PathEdit { path: normal, change }),
            Err(e) => Err(e),
        }
    }

    /// What an edit of a file asks for now.
    pub fn edit_virtual_path(
        &self,
        path: &str,
        operation: &str,
        value: Option<&Json>,
        old_str: Option<&str>,
        new_str: Option<&str>,
        line_number: Option<usize>,
    ) -> (out: Result<PathEdit, SdkError>)
        ensures
            exists|now: Seq<char>, fresh: Seq<char>|
                clock_text(now) && is_uuid_text(fresh) && edit_out(out) == #[trigger] path_edit(
                    *self,
                    path@,
                    edit_given(operation, value, old_str, new_str, line_number),
                    now,
                    fresh,
                ),
    {
        let now = now_timestamp_rfc3339();
        let fresh = random_uuid();
        self.edit_virtual_path_at(
            path,
            operation,
            value,
            old_str,
            new_str,
            line_number,
            &now,
            &fresh,
        )
    }

    /// The answer to an edit, once the change was tried: `done` is what it gave, and the
    /// documents are those after it.
    pub fn edit_virtual_path_answer(&self, edit: &PathEdit, done: Result<String, SdkError>) -> (out:
        Result<Json, SdkError>)
        ensures
            answer_out(out) == edit_answer(
                self.documents@,
                edit.path@,
                edit.change@,
                text_out(done),
            ),
    {
        let path = edit.path.as_str();
        let text = match done {
            Ok(text) => text,
            Err(e) => {
                return match &edit.change {
                    EditChange::ThingStatus { thing_uuid, .. } => {
                        let message = cat(
                            "Failed to update thing status for ",
                            thing_uuid.as_str(),
                        );
                        Err(failure(message.as_str()))
                    },
                    _ => Err(e),
                };
            },
        };
        match &edit.change {
            EditChange::CollectionActions { collection_uuid, bindings } => {
                let message = cat3(
                    "Updated collection action bindings for '",
                    collection_uuid.as_str(),
                    "'",
                );
                Ok(answer_with_value(message.as_str(), path, bindings_to_json(bindings)))
            },
            EditChange::CollectionCard { collection_uuid, card_jsx } => {
                let message = cat3(
                    "Updated collection card JSX for '",
                    collection_uuid.as_str(),
                    "'",
                );
                Ok(answer_with_value(message.as_str(), path, Json::text(card_jsx.as_str())))
            },
            EditChange::CollectionName { collection } => {
                let message = cat3(
                    "Updated collection name for '",
                    collection.uuid.as_str(),
                    "'",
                );
                Ok(
                    answer_with_value(
                        message.as_str(),
                        path,
                        Json::text(collection.title.as_str()),
                    ),
                )
            },
            EditChange::ThingName { thing } => {
                let message = cat3("Updated thing name for '", thing.uuid.as_str(), "'");
                Ok(answer_with_value(message.as_str(), path, Json::text(thing.title.as_str())))
            },
            EditChange::ThingActions { thing_uuid, bindings } => {
                let message = cat3(
                    "Updated thing action bindings for '",
                    thing_uuid.as_str(),
                    "'",
                );
                Ok(answer_with_value(message.as_str(), path, bindings_to_json(bindings)))
            },
            EditChange::ThingStatus { thing_uuid, status } => {
                let message = cat3("Updated thing status for '", thing_uuid.as_str(), "'");
                Ok(answer_with_value(message.as_str(), path, Json::text(status.as_str())))
            },
            EditChange::Content { .. } => match read_json(text.as_str()) {
                Ok(j) => Ok(j),
                Err(_) => Err(failure("Failed to decode content.md edit result")),
            },
            EditChange::Entry { thing_uuid, index, .. } => {
                match self.content_entry_by_index(thing_uuid.as_str(), *index) {
                    Ok(updated) => {
                        let number = decimal_text(*index as u64);
                        let message = cat5(
                            "Updated content entry ",
                            number.as_str(),
                            " for thing '",
                            thing_uuid.as_str(),
                            "'",
                        );
                        let j = ContentTypeRegistry::new().serialize_content_entry(&updated);
                        Ok(answer_with_entry(message.as_str(), path, j))
                    },
                    Err(e) => Err(e),
                }
            },
            EditChange::EntryData { thing_uuid, index, entry_id, .. } => {
                match self.things_get_json_object_entry_data(
                    thing_uuid.as_str(),
                    entry_id.as_str(),
                ) {
                    Ok(kept) => {
                        let number = decimal_text(*index as u64);
                        let message = cat5(
                            "Updated json_object data for entry ",
                            number.as_str(),
                            " on thing '",
                            thing_uuid.as_str(),
                            "'",
                        );
                        let value = match kept {
                            Some(j) => j,
                            None => empty_object(),
                        };
                        Ok(answer_with_value(message.as_str(), path, value))
                    },
                    Err(e) => Err(e),
                }
            },
            EditChange::EntrySchema { thing_uuid, index, entry_id, .. } => {
                match self.things_get_json_object_entry_schema(
                    thing_uuid.as_str(),
                    entry_id.as_str(),
                ) {
                    Ok(kept) => {
                        let number = decimal_text(*index as u64);
                        let message = cat5(
                            "Updated json_object schema for entry ",
                            number.as_str(),
                            " on thing '",
                            thing_uuid.as_str(),
                            "'",
                        );
                        let value = match kept {
                            Some(j) => j,
                            None => Json::Null,
                        };
                        Ok(answer_with_value(message.as_str(), path, value))
                    },
                    Err(e) => Err(e),
                }
            },
            EditChange::TriggerAction { trigger_uuid, binding } => {
                let message = cat3(
                    "Updated trigger action binding for '",
                    trigger_uuid.as_str(),
                    "'",
                );
                Ok(answer_with_value(message.as_str(), path, opt_binding_to_json(binding)))
            },
        }
    }
}

fn refuse_read_only(path: &str) -> (e: SdkError)
    ensures
        e@ == read_only_action(path@),
{
    refused(path, "read_only_action_path", "The /action subtree is read-only in v1.")
}

fn refuse_directory(path: &str) -> (e: SdkError)
    ensures
        e@ == directory_edit(path@),
{
    refused(
        path,
        "is_directory",
        "The target path is a directory. Use tree_tool for listing or target a file node such as name, status, content.md, entries.{idx}, entries.{idx}.data.json, entries.{idx}.schema.json, or rule.json.",
    )
}

/// What a deletion of a node asks for.
#[derive(Debug)]
pub enum DeleteChange {
    /// `before` is the collection as it was shown before.
    Collection { collection_uuid: String, before: Option<ThingCollectionEntry> },
    Thing { collection_uuid: String, thing_uuid: String },
    Entry { thing_uuid: String, index: usize, entry_id: String },
}

/// What a deletion of a node asks for, over character sequences.
#[allow(inconsistent_fields)]
pub enum DeletionView {
    Collection { collection: Seq<char>, before: Option<CollectionEntryView> },
    Thing { collection: Seq<char>, thing: Seq<char> },
    Entry { thing: Seq<char>, index: nat, entry_id: Seq<char> },
}

impl View for DeleteChange {
    type V = DeletionView;

    open spec fn view(&self) -> DeletionView {
        match self {
            DeleteChange::Collection { collection_uuid, before } => DeletionView::Collection {
                collection: collection_uuid@,
                before: match before {
                    Some(c) => Some(c@),
                    None => None,
                },
            },
            DeleteChange::Thing { collection_uuid, thing_uuid } => DeletionView::Thing {
                collection: collection_uuid@,
                thing: thing_uuid@,
            },
            DeleteChange::Entry { thing_uuid, index, entry_id } => DeletionView::Entry {
                thing: thing_uuid@,
                index: *index as nat,
                entry_id: entry_id@,
            },
        }
    }
}

/// A deletion: which path, and what is asked for.
#[derive(Debug)]
pub struct PathDelete {
    pub path: String,
    pub change: DeleteChange,
}

pub open spec fn delete_out(out: Result<PathDelete, SdkError>) -> Result<
    (Seq<char>, DeletionView),
    ErrorView,
> {
    match out {
        Ok(delete) => Ok((delete.path@, delete.change@)),
        Err(e) => Err(e@),
    }
}

pub open spec fn delete_unsupported(path: Seq<char>) -> ErrorView {
    path_fault(
        path,
        "delete_unsupported"@,
        "Delete only supports entity directories (/collection/{uuid}, /collection/{collection_uuid}/things/{thing_uuid}) or entry files (/entries.{idx})."@,
    )
}

/// What a deletion of a node asks for at `now`.
pub open spec fn node_deletion(sdk: RemiSdk, path: Seq<char>, node: PathView, now: Seq<char>) -> Result<
    DeletionView,
    ErrorView,
> {
    match node {
        PathView::ActionRoot => Err(read_only_action(path)),
        PathView::Action { action, file } => Err(read_only_action(path)),
        PathView::Collection { collection, file } => match file {
            CollectionFile::Actions => Err(read_only_action(path)),
            CollectionFile::Dir => match shown(sdk, false, now) {
                Err(e) => Err(e),
                Ok(s) => Ok(
                    DeletionView::Collection {
                        collection,
                        before: collection_in(s.collections, collection),
                    },
                ),
            },
            _ => Err(delete_unsupported(path)),
        },
        PathView::Thing { collection, thing, file } => match file {
            ThingFile::Actions => Err(read_only_action(path)),
            ThingFile::Dir => Ok(DeletionView::Thing { collection, thing }),
            ThingFile::Entry(index) => match entry_by_index(sdk.documents@, thing, index) {
                Err(e) => Err(
                    ErrorView::Failure {
                        message: "Failed to resolve content entry at '"@ + path + "'"@,
                    },
                ),
                Ok(entry) => Ok(DeletionView::Entry { thing, index, entry_id: entry.id }),
            },
            ThingFile::EntryData(index) => Err(delete_parts_unsupported(path)),
            ThingFile::EntrySchema(index) => Err(delete_parts_unsupported(path)),
            _ => Err(delete_unsupported(path)),
        },
        _ => Err(delete_unsupported(path)),
    }
}

pub open spec fn delete_parts_unsupported(path: Seq<char>) -> ErrorView {
    path_fault(
        path,
        "delete_unsupported"@,
        "Delete the entry shell path entries.{idx} to remove a json_object entry and its associated schema/data documents."@,
    )
}

/// What a deletion of a path asks for at `now`: the path in its normal form, and the change.
pub open spec fn path_deletion(sdk: RemiSdk, path: Seq<char>, now: Seq<char>) -> Result<
    (Seq<char>, DeletionView),
    ErrorView,
> {
    match located(path) {
        Err(e) => Err(e),
        Ok((p, node)) => match node_deletion(sdk, p, node, now) {
            Err(e) => Err(e),
            Ok(change) => Ok((p, change)),
        },
    }
}

/// Whether a collection is one that every device has.
pub open spec fn is_system(t: CollectionType) -> bool {
    t == CollectionType::Default || t == CollectionType::Trash
}

/// What is said of a deletion that was tried, where `deleted` says whether anything was
/// deleted.
pub open spec fn deletion_message(change: DeletionView, deleted: bool) -> Seq<char> {
    match change {
        DeletionView::Collection { collection, before } => if deleted {
            "Deleted collection '"@ + collection + "'"@
        } else if before matches Some(c) && c.archived_at is Some {
            "Collection '"@ + collection + "' was already archived"@
        } else if before matches Some(c) && is_system(c.collection_type) {
            "Collection '"@ + collection + "' is a protected system collection"@
        } else {
            "Collection '"@ + collection + "' was already absent"@
        },
        DeletionView::Thing { collection, thing } => if deleted {
            "Deleted thing '"@ + thing + "'"@
        } else {
            "Thing '"@ + thing + "' was already absent"@
        },
        DeletionView::Entry { thing, index, entry_id } => "Deleted content entry "@ + decimal(index)
            + " from thing '"@ + thing + "'"@,
    }
}

/// The answer to a deletion that was tried.
pub open spec fn deletion_answer(
    path: Seq<char>,
    change: DeletionView,
    done: Result<bool, ErrorView>,
) -> Result<JsonView, ErrorView> {
    match done {
        Err(e) => Err(e),
        Ok(deleted) => {
            let message = deletion_message(change, deleted);
            match change {
                DeletionView::Entry { thing, index, entry_id } => Ok(
                    JsonView::Object(
                        seq![
                            ("deleted_entry_id"@, JsonView::Text(entry_id)),
                            ("message"@, JsonView::Text(message)),
                            ("ok"@, JsonView::Bool(true)),
                            ("path"@, JsonView::Text(path)),
                        ],
                    ),
                ),
                _ => Ok(
                    JsonView::Object(
                        seq![
                            ("message"@, JsonView::Text(message)),
                            ("ok"@, JsonView::Bool(deleted)),
                            ("path"@, JsonView::Text(path)),
                        ],
                    ),
                ),
            }
        },
    }
}

pub open spec fn bool_out(out: Result<bool, SdkError>) -> Result<bool, ErrorView> {
    match out {
        Ok(b) => Ok(b),
        Err(e) => Err(e@),
    }
}

fn say_deletion(change: &DeleteChange, deleted: bool) -> (message: String)
    ensures
        message@ == deletion_message(change@, deleted),
{
    match change {
        DeleteChange::Collection { collection_uuid, before } => {
            let (archived, system) = match before {
                Some(c) => (
                    c.archived_at.is_some(),
                    c.collection_type == CollectionType::Default || c.collection_type
                        == CollectionType::Trash,
                ),
                None => (false, false),
            };
            if deleted {
                cat3("Deleted collection '", collection_uuid.as_str(), "'")
            } else if archived {
                cat3("Collection '", collection_uuid.as_str(), "' was already archived")
            } else if system {
                cat3(
                    "Collection '",
                    collection_uuid.as_str(),
                    "' is a protected system collection",
                )
            } else {
                cat3("Collection '", collection_uuid.as_str(), "' was already absent")
            }
        },
        DeleteChange::Thing { thing_uuid, .. } => if deleted {
            cat3("Deleted thing '", thing_uuid.as_str(), "'")
        } else {
            cat3("Thing '", thing_uuid.as_str(), "' was already absent")
        },
        DeleteChange::Entry { thing_uuid, index, .. } => {
            let number = decimal_text(*index as u64);
            cat5(
                "Deleted content entry ",
                number.as_str(),
                " from thing '",
                thing_uuid.as_str(),
                "'",
            )
        },
    }
}

impl RemiSdk {
    /// What a deletion of a path asks for at `now`.
    pub fn delete_virtual_path_at(&self, path: &str, now: &String) -> (out: Result<
        PathDelete,
        SdkError,
    >)
        ensures
            delete_out(out) == path_deletion(*self, path@, now@),
    {
        let (normal, node) = match locate(path) {
            Ok(found) => found,
            Err(e) => return Err(e),
        };
        match node {
            VirtualPath::ActionRoot
            | VirtualPath::ActionDir { .. }
            | VirtualPath::ActionName { .. }
            | VirtualPath::ActionMetadata { .. }
            | VirtualPath::ActionInputSchema { .. }
            | VirtualPath::ActionOutputSchema { .. }
            | VirtualPath::ActionScript { .. }
            | VirtualPath::ActionLatestInvocation { .. }
            | VirtualPath::CollectionActions { .. }
            | VirtualPath::ThingActions { .. } => Err(refuse_read_only(normal.as_str())),
            VirtualPath::CollectionDir { collection_uuid } => {
                match self.things_local_service().snapshot_with_options_at(
                    SnapshotOptions { include_content: false },
                    now,
                ) {
                    Ok(s) => {
                        let mut collections = s.collections;
                        let before = match find_collection_entry(
                            &collections,
                            collection_uuid.as_str(),
                        ) {
                            Some(at) => Some(collections.remove(at)),
                            None => None,
                        };
                        Ok(
                            PathDelete {
                                path: normal,
                                change: DeleteChange::Collection { collection_uuid, before },
                            },
                        )
                    },
                    Err(e) => Err(e),
                }
            },
            VirtualPath::ThingDir { collection_uuid, thing_uuid } => Ok(
                PathDelete {
                    path: normal,
                    change: DeleteChange::Thing { collection_uuid, thing_uuid },
                },
            ),
            VirtualPath::ThingEntry { thing_uuid, index, .. } => {
                match self.content_entry_by_index(thing_uuid.as_str(), index) {
                    Ok(entry) => Ok(
                        PathDelete {
                            path: normal,
                            change: DeleteChange::Entry { thing_uuid, index, entry_id: entry.id },
                        },
                    ),
                    Err(_) => {
                        let message = cat3(
                            "Failed to resolve content entry at '",
                            normal.as_str(),
                            "'",
                        );
                        Err(failure(message.as_str()))
                    },
                }
            },
            VirtualPath::ThingEntryData { .. } | VirtualPath::ThingEntrySchema { .. } => Err(
                refused(
                    normal.as_str(),
                    "delete_unsupported",
                    "Delete the entry shell path entries.{idx} to remove a json_object entry and its associated schema/data documents.",
                ),
            ),
            _ => Err(
                refused(
                    normal.as_str(),
                    "delete_unsupported",
                    "Delete only supports entity directories (/collection/{uuid}, /collection/{collection_uuid}/things/{thing_uuid}) or entry files (/entries.{idx}).",
                ),
            ),
        }
    }

    /// What a deletion of a path asks for now.
    pub fn delete_virtual_path(&self, path: &str) -> (out: Result<PathDelete, SdkError>)
        ensures
            exists|now: Seq<char>| clock_text(now) && delete_out(out) == #[trigger] path_deletion(
                *self,
                path@,
                now,
            ),
    {
        let now = now_timestamp_rfc3339();
        self.delete_virtual_path_at(path, &now)
    }

    /// The answer to a deletion, once it was tried: `done` says whether anything was deleted.
    pub fn delete_virtual_path_answer(&self, delete: &PathDelete, done: Result<bool, SdkError>) -> (
    out: Result<Json, SdkError>)
        ensures
            answer_out(out) == deletion_answer(delete.path@, delete.change@, bool_out(done)),
    {
        let deleted = match done {
            Ok(deleted) => deleted,
            Err(e) => return Err(e),
        };
        let ghost wanted = deletion_answer(
            delete.path@,
            delete.change@,
            Ok::<bool, ErrorView>(deleted),
        );
        let message = say_deletion(&delete.change, deleted);
        match &delete.change {
            DeleteChange::Entry { entry_id, .. } => {
                let entries = vec![
                    entry("deleted_entry_id", Json::text(entry_id.as_str())),
                    entry("message", Json::text(message.as_str())),
                    entry("ok", Json::Bool(true)),
                    entry("path", Json::text(delete.path.as_str())),
                ];
                proof {
                    assert(entries_view(entries@) =~= wanted->Ok_0->Object_0);
                }
                Ok(Json::object(entries))
            },
            _ => {
                let entries = vec![
                    entry("message", Json::text(message.as_str())),
                    entry("ok", Json::Bool(deleted)),
                    entry("path", Json::text(delete.path.as_str())),
                ];
                proof {
                    assert(entries_view(entries@) =~= wanted->Ok_0->Object_0);
                }
                Ok(Json::object(entries))
            },
        }
    }
}

/// What moving a thing asks for.
#[derive(Debug)]
pub struct PathMove {
    pub from_path: String,
    pub to_path: String,
    pub source_collection_uuid: String,
    pub thing_uuid: String,
    pub target_collection_uuid: String,
    pub target_parent_uuid: Option<String>,
}

/// What moving a thing asks for, over character sequences.
pub struct MoveView {
    pub from_path: Seq<char>,
    pub to_path: Seq<char>,
    pub source_collection: Seq<char>,
    pub thing: Seq<char>,
    pub target_collection: Seq<char>,
    pub target_parent: Option<Seq<char>>,
}

impl View for PathMove {
    type V = MoveView;

    open spec fn view(&self) -> MoveView {
        MoveView {
            from_path: self.from_path@,
            to_path: self.to_path@,
            source_collection: self.source_collection_uuid@,
            thing: self.thing_uuid@,
            target_collection: self.target_collection_uuid@,
            target_parent: opt_view(self.target_parent_uuid),
        }
    }
}

pub open spec fn move_out(out: Result<PathMove, SdkError>) -> Result<MoveView, ErrorView> {
    match out {
        Ok(m) => Ok(m@),
        Err(e) => Err(e@),
    }
}

/// The two ends of a move: paths in their normal form and the nodes that they name.
pub open spec fn located_both(from: Seq<char>, to: Seq<char>) -> Result<
    (Seq<char>, PathView, Seq<char>, PathView),
    ErrorView,
> {
    match normalized(from) {
        Err(e) => Err(e),
        Ok(from) => match normalized(to) {
            Err(e) => Err(e),
            Ok(to) => match parsed(from) {
                Err(e) => Err(e),
                Ok(source) => match parsed(to) {
                    Err(e) => Err(e),
                    Ok(target) => Ok((from, source, to, target)),
                },
            },
        },
    }
}

/// Which thing a path names as the source of a move.
pub open spec fn move_source(path: Seq<char>, node: PathView) -> Result<
    (Seq<char>, Seq<char>),
    ErrorView,
> {
    match node {
        PathView::Thing { collection, thing, file: ThingFile::Dir } => Ok((collection, thing)),
        PathView::Collection { collection, file: CollectionFile::Dir } => Err(
            collection_move(path),
        ),
        PathView::Collection { collection, file: CollectionFile::Name } => Err(
            collection_move(path),
        ),
        _ => Err(
            path_fault(
                path,
                "invalid_source"@,
                "Move source must be a thing directory path like /collection/{collection_uuid}/things/{thing_uuid}."@,
            ),
        ),
    }
}

pub open spec fn collection_move(path: Seq<char>) -> ErrorView {
    path_fault(path, "move_unsupported"@, "Collection paths do not support move."@)
}

/// Which place a path names as the target of a move: a collection, and a thing above where
/// there is one.
pub open spec fn move_target(path: Seq<char>, node: PathView) -> Result<
    (Seq<char>, Option<Seq<char>>),
    ErrorView,
> {
    match node {
        PathView::Collection { collection, file: CollectionFile::Things } => Ok((collection, None)),
        PathView::Thing { collection, thing, file: ThingFile::Children } => Ok(
            (collection, Some(thing)),
        ),
        _ => Err(
            path_fault(
                path,
                "invalid_destination"@,
                "Move destination must be a things directory path like /collection/{collection_uuid}/things or /collection/{collection_uuid}/things/{thing_uuid}/things."@,
            ),
        ),
    }
}

/// What moving a thing asks for at `now`.
pub open spec fn path_move(sdk: RemiSdk, from: Seq<char>, to: Seq<char>, now: Seq<char>) -> Result<
    MoveView,
    ErrorView,
> {
    match located_both(from, to) {
        Err(e) => Err(e),
        Ok((from, source, to, target)) => match move_source(from, source) {
            Err(e) => Err(e),
            Ok((source_collection, thing)) => match move_target(to, target) {
                Err(e) => Err(e),
                Ok((target_collection, target_parent)) => match shown(sdk, false, now) {
                    Err(e) => Err(e),
                    Ok(s) => match thing_in(s.things, thing) {
                        None => Err(
                            path_fault(
                                from,
                                "thing_not_found"@,
                                "Thing '"@ + thing + "' was not found."@,
                            ),
                        ),
                        Some(t) => Ok(
                            MoveView {
                                from_path: from,
                                to_path: to,
                                source_collection,
                                thing,
                                target_collection,
                                target_parent,
                            },
                        ),
                    },
                },
            },
        },
    }
}

/// What is said of a move.
pub open spec fn move_message(m: MoveView) -> Seq<char> {
    "Moved thing '"@ + m.thing + "' from collection '"@ + m.source_collection + "' to collection '"@
        + m.target_collection + "'"@ + match m.target_parent {
        Some(parent) => " under parent '"@ + parent + "'"@,
        None => Seq::empty(),
    }
}

/// The answer to a move.
pub open spec fn move_answer(m: MoveView, done: Result<(), ErrorView>) -> Result<
    JsonView,
    ErrorView,
> {
    match done {
        Err(e) => Err(e),
        Ok(_) => Ok(
            JsonView::Object(
                seq![
                    ("from_path"@, JsonView::Text(m.from_path)),
                    ("message"@, JsonView::Text(move_message(m))),
                    ("ok"@, JsonView::Bool(true)),
                    ("target_collection_uuid"@, JsonView::Text(m.target_collection)),
                    ("target_parent_uuid"@, opt_text_json(m.target_parent)),
                    ("thing_uuid"@, JsonView::Text(m.thing)),
                    ("to_path"@, JsonView::Text(m.to_path)),
                ],
            ),
        ),
    }
}

pub open spec fn done_out(out: Result<(), SdkError>) -> Result<(), ErrorView> {
    match out {
        Ok(_) => Ok(()),
        Err(e) => Err(e@),
    }
}

impl RemiSdk {
    /// What moving a thing asks for at `now`.
    pub fn move_virtual_path_at(&self, from_path: &str, to_path: &str, now: &String) -> (out: Result<
        PathMove,
        SdkError,
    >)
        ensures
            move_out(out) == path_move(*self, from_path@, to_path@, now@),
    {
        let from_path = match normalize_path(from_path) {
            Ok(p) => p,
            Err(e) => return Err(e),
        };
        let to_path = match normalize_path(to_path) {
            Ok(p) => p,
            Err(e) => return Err(e),
        };
        let source = match parse_virtual_path(from_path.as_str()) {
            Ok(node) => node,
            Err(e) => return Err(e),
        };
        let target = match parse_virtual_path(to_path.as_str()) {
            Ok(node) => node,
            Err(e) => return Err(e),
        };
        let (source_collection_uuid, thing_uuid) = match source {
            VirtualPath::ThingDir { collection_uuid, thing_uuid } => (collection_uuid, thing_uuid),
            VirtualPath::CollectionDir { .. } | VirtualPath::CollectionName { .. } => return Err(
                refused(
                    from_path.as_str(),
                    "move_unsupported",
                    "Collection paths do not support move.",
                ),
            ),
            _ => return Err(
                refused(
                    from_path.as_str(),
                    "invalid_source",
                    "Move source must be a thing directory path like /collection/{collection_uuid}/things/{thing_uuid}.",
                ),
            ),
        };
        let (target_collection_uuid, target_parent_uuid) = match target {
            VirtualPath::CollectionThingsDir { collection_uuid } => (collection_uuid, None),
            VirtualPath::ThingChildrenDir { collection_uuid, thing_uuid } => (
                collection_uuid,
                Some(thing_uuid),
            ),
            _ => return Err(
                refused(
                    to_path.as_str(),
                    "invalid_destination",
                    "Move destination must be a things directory path like /collection/{collection_uuid}/things or /collection/{collection_uuid}/things/{thing_uuid}/things.",
                ),
            ),
        };
        let snapshot = match self.things_local_service().snapshot_with_options_at(
            SnapshotOptions { include_content: false },
            now,
        ) {
            Ok(s) => s,
            Err(e) => return Err(e),
        };
        match find_thing_entry(&snapshot.things, thing_uuid.as_str()) {
            Some(_) => Ok(
                PathMove {
                    from_path,
                    to_path,
                    source_collection_uuid,
                    thing_uuid,
                    target_collection_uuid,
                    target_parent_uuid,
                },
            ),
            None => {
                let message = cat3("Thing '", thing_uuid.as_str(), "' was not found.");
                Err(refused(from_path.as_str(), "thing_not_found", message.as_str()))
            },
        }
    }

    /// What moving a thing asks for now.
    pub fn move_virtual_path(&self, from_path: &str, to_path: &str) -> (out: Result<
        PathMove,
        SdkError,
    >)
        ensures
            exists|now: Seq<char>|
                clock_text(now) && move_out(out) == #[trigger] path_move(
                    *self,
                    from_path@,
                    to_path@,
                    now,
                ),
    {
        let now = now_timestamp_rfc3339();
        self.move_virtual_path_at(from_path, to_path, &now)
    }

    /// The answer to a move, once it was tried.
    pub fn move_virtual_path_answer(&self, moving: &PathMove, done: Result<(), SdkError>) -> (out:
        Result<Json, SdkError>)
        ensures
            answer_out(out) == move_answer(moving@, done_out(done)),
    {
        if let Err(e) = done {
            return Err(e);
        }
        let message = cat5(
            "Moved thing '",
            moving.thing_uuid.as_str(),
            "' from collection '",
            moving.source_collection_uuid.as_str(),
            "' to collection '",
        );
        let message = cat3(message.as_str(), moving.target_collection_uuid.as_str(), "'");
        let parent = match &moving.target_parent_uuid {
            Some(parent) => cat3(" under parent '", parent.as_str(), "'"),
            None => owned(""),
        };
        let message = cat(message.as_str(), parent.as_str());
        proof {
            reveal_strlit("");
            assert(""@ =~= Seq::<char>::empty());
            assert(message@ == move_message(moving@));
        }
        let entries = vec![
            entry("from_path", Json::text(moving.from_path.as_str())),
            entry("message", Json::text(message.as_str())),
            entry("ok", Json::Bool(true)),
            entry(
                "target_collection_uuid",
                Json::text(moving.target_collection_uuid.as_str()),
            ),
            entry("target_parent_uuid", Json::opt_text(&moving.target_parent_uuid)),
            entry("thing_uuid", Json::text(moving.thing_uuid.as_str())),
            entry("to_path", Json::text(moving.to_path.as_str())),
        ];
        proof {
            assert(entries_view(entries@) =~= move_answer(
                moving@,
                Ok::<(), ErrorView>(()),
            )->Ok_0->Object_0);
        }
        Ok(Json::object(entries))
    }
}

/// Nothing under `/action` is changed: every edit and every deletion of a path there is
/// refused, whatever is given, and no move starts or ends there.
pub proof fn law_actions_are_read_only(
    sdk: RemiSdk,
    path: Seq<char>,
    given: EditGiven,
    now: Seq<char>,
    fresh: Seq<char>,
)
    requires
        located(path) is Ok,
        located(path)->Ok_0.1 is ActionRoot || located(path)->Ok_0.1 is Action,
    ensures
        path_edit(sdk, path, given, now, fresh) == Err::<(Seq<char>, EditView), ErrorView>(
            read_only_action(located(path)->Ok_0.0),
        ),
        path_deletion(sdk, path, now) == Err::<(Seq<char>, DeletionView), ErrorView>(
            read_only_action(located(path)->Ok_0.0),
        ),
        forall|other: Seq<char>| (#[trigger] path_move(sdk, path, other, now)) is Err,
        forall|other: Seq<char>| (#[trigger] path_move(sdk, other, path, now)) is Err,
{
}

} // verus!
