//! The virtual filesystem: listing and reading.
use super::things::{
    collection_bindings, entries_shown, object_data, object_schema, shown, thing_bindings,
};
use super::trigger_paths::{
    no_trigger, opt_binding_json, opt_binding_to_json, read_trigger_binding, trigger_binding,
    trigger_missing,
};
use super::RemiSdk;
use crate::bindings::{
    BindingView, EntityActionBinding, bindings_out, resolve_entity_action_bindings,
    resolved_bindings, resolved_list_json, resolved_list_to_json,
};
use crate::clock::{clock_millis, clock_text, now_millis};
use crate::content_registry::{
    ContentEntry, ContentEntryPayload, ContentTypeRegistry, EntryView, PayloadView, entry_json,
};
use crate::error::{ErrorView, SdkError, refused};
use crate::json::{
    Json, JsonView, entries_view, entry, int_text, json_pretty, lemma_json_list_view,
    lemma_json_object_view, opt_text_json, opt_view, put_entry, with_entry, write_json_pretty,
};
use crate::letters::{bytes_of, capped_bytes};
use crate::path_tree::{
    TreeNode, action_missing, build_tree_node_from_tree_data, no_action, node_out, render_tree,
    tree_node, tree_text,
};
use crate::rows::{ActionDefinition, ActionInvocationRecord, StoredTrigger};
use crate::search::documents::{read_stored_json, stored_json};
use crate::storage::chat::every;
use crate::storage::triggers::{
    by_action_creation, is_action, is_trigger, json_or_empty, latest_invocation,
    read_json_or_empty,
};
use crate::table::{first_data, ranked};
use crate::text::{cat, cat3, chars_of, decimal, decimal_text, owned};
use crate::things_content::{content_of, main_text};
use crate::things_crdt::{no_collection, no_thing};
use crate::things_docs::{Content, SetView};
use crate::things_local::{
    collection_in, find_collection_entry, find_thing_entry, live_thing_in, references_replaced,
    thing_in,
};
use crate::things_reader::{snapshot_collections, tree_collections, tree_things};
use crate::things_types::{
    CollectionEntryView, SnapshotOptions, ThingCollectionEntry, ThingEntry, ThingEntryView,
};
use crate::timestamps::now_timestamp_rfc3339;
use crate::virtual_path::{
    ActionFile, CollectionFile, PathView, ThingFile, TriggerFile, VirtualPath, display_path,
    displayed,
    normalize_path, normalized, parse_virtual_path, parsed, path_fault,
};
use vstd::prelude::*;

verus! {

/// What a path of the tree stands for.
#[derive(Clone, Copy, Debug, PartialEq, Eq, Structural)]
pub enum VirtualFsNodeKind {
    Directory,
    File,
}

/// What was read from a path.
#[derive(Debug)]
pub struct VirtualFsReadResult {
    pub path: String,
    pub kind: VirtualFsNodeKind,
    pub content: String,
}

/// What is shown of a path: a text, or a picture by its address.
#[derive(Debug)]
pub enum VirtualFsCatResult {
    Text(VirtualFsReadResult),
    Image { uri: String },
}

/// What is shown of a path, over character sequences.
pub enum CatView {
    Text { path: Seq<char>, kind: VirtualFsNodeKind, content: Seq<char> },
    Image { uri: Seq<char> },
}

impl View for VirtualFsCatResult {
    type V = CatView;

    open spec fn view(&self) -> CatView {
        match self {
            VirtualFsCatResult::Text(read) => CatView::Text {
                path: read.path@,
                kind: read.kind,
                content: read.content@,
            },
            VirtualFsCatResult::Image { uri } => CatView::Image { uri: uri@ },
        }
    }
}

/// A step of a request, and how long it took.
#[derive(Debug)]
pub struct VirtualFsProfileStep {
    pub name: &'static str,
    pub elapsed_ms: u64,
}

/// How long a request took.
#[derive(Debug)]
pub struct VirtualFsProfileResult {
    pub operation: &'static str,
    pub path: String,
    pub total_ms: u64,
    pub output_bytes: usize,
    pub steps: Vec<VirtualFsProfileStep>,
}

pub open spec fn step_names(steps: Seq<VirtualFsProfileStep>) -> Seq<Seq<char>> {
    steps.map_values(|s: VirtualFsProfileStep| s.name@)
}

/// The metadata of an action with what else is known of it.
pub open spec fn action_metadata(a: ActionDefinition) -> JsonView {
    let start = match json_or_empty(a.metadata_json@) {
        JsonView::Object(entries) => entries,
        other => seq![("metadata"@, other)],
    };
    let e1 = with_entry(start, "action_uuid"@, JsonView::Text(a.action_uuid@));
    let e2 = with_entry(e1, "name"@, JsonView::Text(a.name@));
    let e3 = with_entry(e2, "title"@, JsonView::Text(a.title@));
    let e4 = with_entry(e3, "description"@, JsonView::Text(a.description@));
    let e5 = with_entry(e4, "version"@, JsonView::Text(a.version@));
    let e6 = with_entry(e5, "category"@, JsonView::Text(a.category@));
    JsonView::Object(with_entry(e6, "enabled"@, JsonView::Bool(a.enabled)))
}

/// The metadata of an action with what else is known of it.
pub fn action_metadata_json(a: &ActionDefinition) -> (j: Json)
    ensures
        j@ == action_metadata(*a),
{
    broadcast use {lemma_json_list_view, lemma_json_object_view};

    let metadata = read_json_or_empty(a.metadata_json.as_str());
    let mut entries = match metadata {
        Json::Object(entries) => entries,
        other => {
            let entries = vec![entry("metadata", other)];
            proof {
                assert(entries_view(entries@) =~= seq![("metadata"@, other@)]);
            }
            entries
        },
    };
    put_entry(&mut entries, "action_uuid", Json::text(a.action_uuid.as_str()));
    put_entry(&mut entries, "name", Json::text(a.name.as_str()));
    put_entry(&mut entries, "title", Json::text(a.title.as_str()));
    put_entry(&mut entries, "description", Json::text(a.description.as_str()));
    put_entry(&mut entries, "version", Json::text(a.version.as_str()));
    put_entry(&mut entries, "category", Json::text(a.category.as_str()));
    put_entry(&mut entries, "enabled", Json::Bool(a.enabled));
    Json::object(entries)
}

/// The JSON form of a run of an action.
pub open spec fn invocation_json(r: ActionInvocationRecord) -> JsonView {
    JsonView::Object(
        seq![
            ("action_uuid"@, JsonView::Text(r.action_uuid@)),
            ("args_json"@, stored_json(Some(r.args_json@))),
            ("console_logs_json"@, stored_json(Some(r.console_logs_json@))),
            ("device_id"@, opt_text_json(opt_view(r.device_id))),
            ("duration_ms"@, JsonView::Number(int_text(r.duration_ms as int))),
            ("error_json"@, stored_json(opt_view(r.error_json))),
            ("finished_at"@, JsonView::Number(int_text(r.finished_at as int))),
            ("invocation_uuid"@, JsonView::Text(r.invocation_uuid@)),
            ("result_json"@, stored_json(opt_view(r.result_json))),
            ("source_entity_type"@, opt_text_json(opt_view(r.source_entity_type))),
            ("source_entity_uuid"@, opt_text_json(opt_view(r.source_entity_uuid))),
            ("source_kind"@, JsonView::Text(r.source_kind@)),
            ("started_at"@, JsonView::Number(int_text(r.started_at as int))),
        ],
    )
}

fn invocation_to_json(r: &ActionInvocationRecord) -> (j: Json)
    ensures
        j@ == invocation_json(*r),
{
    let args = Some(r.args_json.clone());
    let logs = Some(r.console_logs_json.clone());
    let entries = vec![
        entry("action_uuid", Json::text(r.action_uuid.as_str())),
        entry("args_json", read_stored_json(&args)),
        entry("console_logs_json", read_stored_json(&logs)),
        entry("device_id", Json::opt_text(&r.device_id)),
        entry("duration_ms", Json::signed(r.duration_ms)),
        entry("error_json", read_stored_json(&r.error_json)),
        entry("finished_at", Json::signed(r.finished_at)),
        entry("invocation_uuid", Json::text(r.invocation_uuid.as_str())),
        entry("result_json", read_stored_json(&r.result_json)),
        entry("source_entity_type", Json::opt_text(&r.source_entity_type)),
        entry("source_entity_uuid", Json::opt_text(&r.source_entity_uuid)),
        entry("source_kind", Json::text(r.source_kind.as_str())),
        entry("started_at", Json::signed(r.started_at)),
    ];
    proof {
        assert(entries_view(entries@) =~= invocation_json(*r)->Object_0);
    }
    Json::object(entries)
}

/// A content entry of a thing by its place.
pub open spec fn entry_by_index(set: SetView, thing: Seq<char>, index: nat) -> Result<
    EntryView,
    ErrorView,
> {
    match entries_shown(set, thing) {
        Err(e) => Err(e),
        Ok(entries) => if index < entries.len() {
            Ok(entries[index as int])
        } else {
            Err(
                path_fault(
                    "entries."@ + decimal(index),
                    "entry_index_out_of_range"@,
                    "entries."@ + decimal(index) + " is out of range for thing '"@ + thing + "'."@,
                ),
            )
        },
    }
}

pub open spec fn entry_out(out: Result<ContentEntry, SdkError>) -> Result<EntryView, ErrorView> {
    match out {
        Ok(e) => Ok(e@),
        Err(e) => Err(e@),
    }
}

/// The rendered text of a thing.
pub open spec fn content_shown(set: SetView, collection: Seq<char>, thing: Seq<char>) -> Result<
    Seq<char>,
    ErrorView,
> {
    match live_thing_in(set, collection, thing) {
        None => Err(no_thing(thing)),
        Some(t) => Ok(
            references_replaced(
                match main_text(content_of(set, thing)) {
                    Some(text) => text,
                    None => ""@,
                },
                collection,
                thing,
                t.entries,
                t.entries.len() as int,
            ),
        ),
    }
}

/// The file of an action.
pub open spec fn action_file(a: ActionDefinition, file: ActionFile) -> Seq<char> {
    match file {
        ActionFile::Name => a.title@,
        ActionFile::Metadata => json_pretty(action_metadata(a)),
        ActionFile::InputSchema => json_pretty(json_or_empty(a.input_schema_json@)),
        ActionFile::OutputSchema => json_pretty(stored_json(opt_view(a.output_schema_json))),
        _ => a.script_source@,
    }
}

pub open spec fn read_unsupported(path: PathView) -> ErrorView {
    path_fault(
        displayed(path),
        "read_unsupported"@,
        "cat_tool only supports file nodes such as name, card.jsx, status, content.md, entries.{idx}, entries.{idx}.data.json, entries.{idx}.schema.json, metadata.json, input.schema.json, output.schema.json, script.js, and latest-invocation.json."@,
    )
}

/// The thing with a uuid among what is shown at `now`, for a path.
pub open spec fn shown_thing(
    sdk: RemiSdk,
    path: PathView,
    thing: Seq<char>,
    now: Seq<char>,
) -> Result<ThingEntryView, ErrorView> {
    match shown(sdk, false, now) {
        Err(e) => Err(e),
        Ok(s) => match thing_in(s.things, thing) {
            Some(t) => Ok(t),
            None => Err(
                path_fault(
                    displayed(path),
                    "thing_not_found"@,
                    "Thing '"@ + thing + "' was not found."@,
                ),
            ),
        },
    }
}

/// The collection with a uuid among what is shown at `now`, for a path.
pub open spec fn shown_collection(
    sdk: RemiSdk,
    path: PathView,
    collection: Seq<char>,
    now: Seq<char>,
) -> Result<CollectionEntryView, ErrorView> {
    match shown(sdk, false, now) {
        Err(e) => Err(e),
        Ok(s) => match collection_in(s.collections, collection) {
            Some(c) => Ok(c),
            None => Err(
                path_fault(
                    displayed(path),
                    "collection_not_found"@,
                    "Collection '"@ + collection + "' was not found."@,
                ),
            ),
        },
    }
}

pub open spec fn bindings_text(
    bindings: Result<Seq<BindingView>, ErrorView>,
    actions: Seq<ActionDefinition>,
) -> Result<Seq<char>, ErrorView> {
    match bindings {
        Ok(list) => Ok(json_pretty(resolved_list_json(resolved_bindings(list, actions)))),
        Err(e) => Err(e),
    }
}

/// What a path of a trigger holds.
pub open spec fn read_trigger(
    triggers: Seq<StoredTrigger>,
    path: PathView,
    trigger: Seq<char>,
    file: TriggerFile,
) -> Result<Seq<char>, ErrorView> {
    match file {
        TriggerFile::Dir => Err(read_unsupported(path)),
        TriggerFile::Action => match first_data(triggers, is_trigger(trigger)) {
            None => Err(trigger_missing(displayed(path), trigger)),
            Some(t) => Ok(json_pretty(opt_binding_json(trigger_binding(t)))),
        },
    }
}

/// What a path of an action holds.
pub open spec fn read_action(sdk: RemiSdk, path: PathView, action: Seq<char>, file: ActionFile) -> Result<
    Seq<char>,
    ErrorView,
> {
    match file {
        ActionFile::Dir => Err(read_unsupported(path)),
        ActionFile::LatestInvocation => match latest_invocation(
            sdk.storage.action_invocations.data(),
            action,
        ) {
            Ok(Some(r)) => Ok(json_pretty(invocation_json(r))),
            Ok(None) => Ok(json_pretty(JsonView::Null)),
            Err(e) => Err(e),
        },
        _ => match first_data(sdk.storage.actions.data(), is_action(action)) {
            None => Err(action_missing(displayed(path), action)),
            Some(a) => Ok(action_file(a, file)),
        },
    }
}

/// What a path of a collection holds at `now`.
pub open spec fn read_collection(
    sdk: RemiSdk,
    path: PathView,
    collection: Seq<char>,
    file: CollectionFile,
    now: Seq<char>,
) -> Result<Seq<char>, ErrorView> {
    match file {
        CollectionFile::Actions => bindings_text(
            collection_bindings(sdk.documents@, collection),
            sdk.storage.actions.data(),
        ),
        CollectionFile::CardJsx => match collection_in(
            snapshot_collections(sdk.documents@),
            collection,
        ) {
            Some(c) => Ok(
                match c.card_jsx {
                    Some(card) => card,
                    None => ""@,
                },
            ),
            None => Err(no_collection(collection)),
        },
        CollectionFile::Name => match shown_collection(sdk, path, collection, now) {
            Ok(c) => Ok(c.title),
            Err(e) => Err(e),
        },
        _ => Err(read_unsupported(path)),
    }
}

/// What a path of a thing holds at `now`.
pub open spec fn read_thing(
    sdk: RemiSdk,
    path: PathView,
    collection: Seq<char>,
    thing: Seq<char>,
    file: ThingFile,
    now: Seq<char>,
) -> Result<Seq<char>, ErrorView> {
    match file {
        ThingFile::Name => match shown_thing(sdk, path, thing, now) {
            Ok(t) => Ok(t.title),
            Err(e) => Err(e),
        },
        ThingFile::Status => match shown_thing(sdk, path, thing, now) {
            Ok(t) => Ok(t.status),
            Err(e) => Err(e),
        },
        ThingFile::Actions => bindings_text(
            thing_bindings(sdk.documents@, thing),
            sdk.storage.actions.data(),
        ),
        ThingFile::Content => content_shown(sdk.documents@, collection, thing),
        ThingFile::Entry(index) => match entry_by_index(sdk.documents@, thing, index) {
            Ok(e) => Ok(json_pretty(entry_json(e))),
            Err(e) => Err(e),
        },
        ThingFile::EntryData(index) => match entry_by_index(sdk.documents@, thing, index) {
            Ok(e) => match object_data(sdk.documents@, thing, e.id) {
                Ok(data) => Ok(
                    json_pretty(
                        match data {
                            Some(j) => j,
                            None => JsonView::Object(Seq::empty()),
                        },
                    ),
                ),
                Err(e) => Err(e),
            },
            Err(e) => Err(e),
        },
        ThingFile::EntrySchema(index) => match entry_by_index(sdk.documents@, thing, index) {
            Ok(e) => match object_schema(sdk.documents@, thing, e.id) {
                Ok(schema) => Ok(
                    json_pretty(
                        match schema {
                            Some(j) => j,
                            None => JsonView::Null,
                        },
                    ),
                ),
                Err(e) => Err(e),
            },
            Err(e) => Err(e),
        },
        _ => Err(read_unsupported(path)),
    }
}

/// What a path holds at `now`.
pub open spec fn read_path(sdk: RemiSdk, path: PathView, now: Seq<char>) -> Result<
    Seq<char>,
    ErrorView,
> {
    match path {
        PathView::Action { action, file } => read_action(sdk, path, action, file),
        PathView::Collection { collection, file } => read_collection(
            sdk,
            path,
            collection,
            file,
            now,
        ),
        PathView::Thing { collection, thing, file } => read_thing(
            sdk,
            path,
            collection,
            thing,
            file,
            now,
        ),
        PathView::Trigger { trigger, file } => read_trigger(
            sdk.storage.triggers.data(),
            path,
            trigger,
            file,
        ),
        _ => Err(read_unsupported(path)),
    }
}

/// A path in its normal form and the node that it names.
pub open spec fn located(path: Seq<char>) -> Result<(Seq<char>, PathView), ErrorView> {
    match normalized(path) {
        Err(e) => Err(e),
        Ok(p) => match parsed(p) {
            Err(e) => Err(e),
            Ok(node) => Ok((p, node)),
        },
    }
}

/// Reads a path in its normal form and the node that it names.
pub fn locate(path: &str) -> (out: Result<(String, VirtualPath), SdkError>)
    ensures
        match located(path@) {
            Ok(found) => out matches Ok(o) && o.0@ == found.0 && o.1@ == found.1,
            Err(e) => out matches Err(o) && o@ == e,
        },
{
    let normal = match normalize_path(path) {
        Ok(p) => p,
        Err(e) => return Err(e),
    };
    match parse_virtual_path(normal.as_str()) {
        Ok(node) => Ok((normal, node)),
        Err(e) => Err(e),
    }
}

pub open spec fn text_out(out: Result<String, SdkError>) -> Result<Seq<char>, ErrorView> {
    match out {
        Ok(s) => Ok(s@),
        Err(e) => Err(e@),
    }
}

/// What reading a path at `now` answers: the path in its normal form, and what it holds.
pub open spec fn read_answer(sdk: RemiSdk, path: Seq<char>, now: Seq<char>) -> Result<
    (Seq<char>, Seq<char>),
    ErrorView,
> {
    match located(path) {
        Err(e) => Err(e),
        Ok((p, node)) => match read_path(sdk, node, now) {
            Err(e) => Err(e),
            Ok(content) => Ok((p, content)),
        },
    }
}

pub open spec fn read_out(out: Result<VirtualFsReadResult, SdkError>) -> Result<
    (Seq<char>, Seq<char>),
    ErrorView,
> {
    match out {
        Ok(r) => Ok((r.path@, r.content@)),
        Err(e) => Err(e@),
    }
}

/// What showing a path at `now` answers: a picture by its address, everything else as text.
pub open spec fn cat_answer(sdk: RemiSdk, path: Seq<char>, now: Seq<char>) -> Result<
    CatView,
    ErrorView,
> {
    match located(path) {
        Err(e) => Err(e),
        Ok((p, node)) => {
            let text = match read_answer(sdk, p, now) {
                Ok(read) => Ok(
                    CatView::Text { path: read.0, kind: VirtualFsNodeKind::File, content: read.1 },
                ),
                Err(e) => Err(e),
            };
            match node {
                PathView::Thing { collection, thing, file: ThingFile::Entry(index) } => {
                    match entry_by_index(sdk.documents@, thing, index) {
                        Err(e) => Err(e),
                        Ok(e) => match e.payload {
                            PayloadView::Image {
                                uri,
                                caption,
                                width,
                                height,
                                size_bytes,
                                device_id,
                            } => Ok(CatView::Image { uri }),
                            _ => text,
                        },
                    }
                },
                _ => text,
            }
        },
    }
}

pub open spec fn cat_out(out: Result<VirtualFsCatResult, SdkError>) -> Result<CatView, ErrorView> {
    match out {
        Ok(r) => Ok(r@),
        Err(e) => Err(e@),
    }
}

/// The listing of a path.
pub open spec fn tree_answer(sdk: RemiSdk, path: Seq<char>) -> Result<
    (Seq<char>, Seq<char>),
    ErrorView,
> {
    match located(path) {
        Err(e) => Err(e),
        Ok((p, node)) => match tree_node(
            node,
            ranked(sdk.storage.actions.data(), every(), by_action_creation(), false),
            match node {
                PathView::Action { action, file } => first_data(
                    sdk.storage.actions.data(),
                    is_action(action),
                ),
                _ => None,
            },
            tree_collections(sdk.documents@),
            tree_things(sdk.documents@),
        ) {
            Err(e) => Err(e),
            Ok(root) => Ok((p, tree_text(root))),
        },
    }
}

pub open spec fn path_or_root(path: Option<&str>) -> Seq<char> {
    match path {
        Some(p) => p@,
        None => "/"@,
    }
}

/// The milliseconds from one point in time to another; none where the other is not later.
pub open spec fn millis_between(start: i64, end: i64) -> int {
    if end > start {
        end - start
    } else {
        0
    }
}

/// The milliseconds since a point in time.
fn elapsed_since(start: i64) -> (ms: u64)
    ensures
        exists|now: i64| clock_millis(now) && ms == #[trigger] millis_between(start, now),
{
    let now: i64 = now_millis();
    assert(clock_millis(now) && millis_between(start, now) >= 0);
    if now > start {
        (now as i128 - start as i128) as u64
    } else {
        0
    }
}

fn count_bytes(text: &str) -> (bytes: usize)
    ensures
        bytes == capped_bytes(text@, usize::MAX as nat),
{
    let chars = chars_of(text);
    proof {
        assert(chars@.take(chars@.len() as int) =~= chars@);
    }
    bytes_of(&chars, chars.len())
}

impl RemiSdk {
    /// The node that is shown for a path.
    fn build_tree_node(&self, path: &VirtualPath) -> (out: Result<TreeNode, SdkError>)
        ensures
            node_out(out) == tree_node(
                path@,
                ranked(self.storage.actions.data(), every(), by_action_creation(), false),
                match path@ {
                    PathView::Action { action, file } => first_data(
                        self.storage.actions.data(),
                        is_action(action),
                    ),
                    _ => None,
                },
                tree_collections(self.documents@),
                tree_things(self.documents@),
            ),
    {
        let actions = self.storage.list_actions();
        let found = match path {
            VirtualPath::ActionDir { action_uuid } => self.storage.fetch_action(
                action_uuid.as_str(),
            ),
            _ => None,
        };
        let tree = self.things_local_service().tree_data();
        build_tree_node_from_tree_data(path, &actions, &found, &tree)
    }

    /// The listing of a directory as a tree.
    pub fn tree_virtual_path(&self, path: Option<&str>) -> (out: Result<String, SdkError>)
        ensures
            match tree_answer(*self, path_or_root(path)) {
                Ok(found) => out matches Ok(text) && text@ == found.1,
                Err(e) => out matches Err(o) && o@ == e,
            },
    {
        let given = match path {
            Some(p) => p,
            None => "/",
        };
        let (_normal, node) = match locate(given) {
            Ok(found) => found,
            Err(e) => return Err(e),
        };
        match self.build_tree_node(&node) {
            Ok(root) => Ok(render_tree(&root)),
            Err(e) => Err(e),
        }
    }

    /// The listing of a directory.
    pub fn ls_virtual_path(&self, path: Option<&str>) -> (out: Result<String, SdkError>)
        ensures
            match tree_answer(*self, path_or_root(path)) {
                Ok(found) => out matches Ok(text) && text@ == found.1,
                Err(e) => out matches Err(o) && o@ == e,
            },
    {
        self.tree_virtual_path(path)
    }

    /// How long the listing of a directory takes. The times are those of the clock.
    pub fn profile_tree_virtual_path(&self, path: Option<&str>) -> (out: Result<
        VirtualFsProfileResult,
        SdkError,
    >)
        ensures
            match tree_answer(*self, path_or_root(path)) {
                Ok(found) => out matches Ok(r) && r.operation@ == "tree_virtual_path"@ && r.path@
                    == found.0 && r.output_bytes == capped_bytes(found.1, usize::MAX as nat)
                    && step_names(r.steps@) == seq![
                    "normalize_parse"@,
                    "list_actions"@,
                    "extract_tree_data"@,
                    "render_tree"@,
                ],
                Err(e) => out matches Err(o) && o@ == e,
            },
    {
        let total: i64 = now_millis();
        let given = match path {
            Some(p) => p,
            None => "/",
        };
        let (normal, node) = match locate(given) {
            Ok(found) => found,
            Err(e) => return Err(e),
        };
        let parsing: u64 = elapsed_since(total);
        let start: i64 = now_millis();
        let actions = self.storage.list_actions();
        let listing: u64 = elapsed_since(start);
        let found = match &node {
            VirtualPath::ActionDir { action_uuid } => self.storage.fetch_action(
                action_uuid.as_str(),
            ),
            _ => None,
        };
        let start: i64 = now_millis();
        let tree = self.things_local_service().tree_data();
        let extracting: u64 = elapsed_since(start);
        let start: i64 = now_millis();
        let root = match build_tree_node_from_tree_data(&node, &actions, &found, &tree) {
            Ok(root) => root,
            Err(e) => return Err(e),
        };
        let rendered = render_tree(&root);
        let rendering: u64 = elapsed_since(start);
        let steps = vec![
            VirtualFsProfileStep { name: "normalize_parse", elapsed_ms: parsing },
            VirtualFsProfileStep { name: "list_actions", elapsed_ms: listing },
            VirtualFsProfileStep { name: "extract_tree_data", elapsed_ms: extracting },
            VirtualFsProfileStep { name: "render_tree", elapsed_ms: rendering },
        ];
        proof {
            assert(step_names(steps@) =~= seq![
                "normalize_parse"@,
                "list_actions"@,
                "extract_tree_data"@,
                "render_tree"@,
            ]);
        }
        Ok(
            VirtualFsProfileResult {
                operation: "tree_virtual_path",
                path: normal,
                total_ms: elapsed_since(total),
                output_bytes: count_bytes(rendered.as_str()),
                steps,
            },
        )
    }

    /// A content entry of a thing by its place.
    pub fn content_entry_by_index(&self, thing_uuid: &str, index: usize) -> (out: Result<
        ContentEntry,
        SdkError,
    >)
        ensures
            entry_out(out) == entry_by_index(self.documents@, thing_uuid@, index as nat),
    {
        let mut entries = match self.things_get_content_entries(thing_uuid) {
            Ok(entries) => entries,
            Err(e) => return Err(e),
        };
        if index < entries.len() {
            return Ok(entries.remove(index));
        }
        let number = decimal_text(index as u64);
        let name = cat("entries.", number.as_str());
        let message = cat3(name.as_str(), " is out of range for thing '", thing_uuid);
        let message = cat(message.as_str(), "'.");
        Err(refused(name.as_str(), "entry_index_out_of_range", message.as_str()))
    }

    fn find_shown_thing(&self, path: &VirtualPath, thing_uuid: &str, now: &String) -> (out: Result<
        ThingEntry,
        SdkError,
    >)
        ensures
            match shown_thing(*self, path@, thing_uuid@, now@) {
                Ok(t) => out matches Ok(o) && o@ == t,
                Err(e) => out matches Err(o) && o@ == e,
            },
    {
        let snapshot = match self.things_local_service().snapshot_with_options_at(
            SnapshotOptions { include_content: false },
            now,
        ) {
            Ok(s) => s,
            Err(e) => return Err(e),
        };
        let mut things = snapshot.things;
        match find_thing_entry(&things, thing_uuid) {
            Some(at) => Ok(things.remove(at)),
            None => {
                let name = display_path(path);
                let message = cat3("Thing '", thing_uuid, "' was not found.");
                Err(refused(name.as_str(), "thing_not_found", message.as_str()))
            },
        }
    }

    fn find_shown_collection(&self, path: &VirtualPath, collection_uuid: &str, now: &String) -> (out:
        Result<ThingCollectionEntry, SdkError>)
        ensures
            match shown_collection(*self, path@, collection_uuid@, now@) {
                Ok(c) => out matches Ok(o) && o@ == c,
                Err(e) => out matches Err(o) && o@ == e,
            },
    {
        let snapshot = match self.things_local_service().snapshot_with_options_at(
            SnapshotOptions { include_content: false },
            now,
        ) {
            Ok(s) => s,
            Err(e) => return Err(e),
        };
        let mut collections = snapshot.collections;
        match find_collection_entry(&collections, collection_uuid) {
            Some(at) => Ok(collections.remove(at)),
            None => {
                let name = display_path(path);
                let message = cat3("Collection '", collection_uuid, "' was not found.");
                Err(refused(name.as_str(), "collection_not_found", message.as_str()))
            },
        }
    }

    fn fetch_action_or_err(&self, action_uuid: &str, path: &VirtualPath) -> (out: Result<
        ActionDefinition,
        SdkError,
    >)
        ensures
            match first_data(self.storage.actions.data(), is_action(action_uuid@)) {
                Some(a) => out == Ok::<ActionDefinition, SdkError>(a),
                None => out matches Err(e) && e@ == action_missing(displayed(path@), action_uuid@),
            },
    {
        match self.storage.fetch_action(action_uuid) {
            Some(a) => Ok(a),
            None => {
                let name = display_path(path);
                Err(no_action(name.as_str(), action_uuid))
            },
        }
    }

    fn refuse_reading(&self, path: &VirtualPath) -> (out: Result<String, SdkError>)
        ensures
            text_out(out) == Err::<Seq<char>, ErrorView>(read_unsupported(path@)),
    {
        let name = display_path(path);
        Err(
            refused(
                name.as_str(),
                "read_unsupported",
                "cat_tool only supports file nodes such as name, card.jsx, status, content.md, entries.{idx}, entries.{idx}.data.json, entries.{idx}.schema.json, metadata.json, input.schema.json, output.schema.json, script.js, and latest-invocation.json.",
            ),
        )
    }

    fn read_bindings_text(&self, found: Result<Vec<EntityActionBinding>, SdkError>) -> (out: Result<
        String,
        SdkError,
    >)
        ensures
            text_out(out) == bindings_text(bindings_out(found), self.storage.actions.data()),
    {
        match found {
            Ok(list) => {
                let resolved = resolve_entity_action_bindings(&self.storage, list);
                let j = resolved_list_to_json(&resolved);
                Ok(write_json_pretty(&j))
            },
            Err(e) => Err(e),
        }
    }

    fn read_thing_path(&self, path: &VirtualPath, now: &String) -> (out: Result<String, SdkError>)
        requires
            path@ is Thing,
        ensures
            text_out(out) == read_path(*self, path@, now@),
    {
        match path {
            VirtualPath::ThingName { thing_uuid, .. } => {
                match self.find_shown_thing(path, thing_uuid.as_str(), now) {
                    Ok(t) => Ok(t.title),
                    Err(e) => Err(e),
                }
            },
            VirtualPath::ThingStatus { thing_uuid, .. } => {
                match self.find_shown_thing(path, thing_uuid.as_str(), now) {
                    Ok(t) => Ok(t.status),
                    Err(e) => Err(e),
                }
            },
            VirtualPath::ThingActions { thing_uuid, .. } => {
                self.read_bindings_text(self.list_thing_action_bindings(thing_uuid.as_str()))
            },
            VirtualPath::ThingContent { collection_uuid, thing_uuid } => {
                self.things_local_service().render_thing_content_markdown(
                    collection_uuid.as_str(),
                    thing_uuid.as_str(),
                )
            },
            VirtualPath::ThingEntry { thing_uuid, index, .. } => {
                match self.content_entry_by_index(thing_uuid.as_str(), *index) {
                    Ok(e) => {
                        let j = ContentTypeRegistry::new().serialize_content_entry(&e);
                        Ok(write_json_pretty(&j))
                    },
                    Err(e) => Err(e),
                }
            },
            VirtualPath::ThingEntryData { thing_uuid, index, .. } => {
                let entry = match self.content_entry_by_index(thing_uuid.as_str(), *index) {
                    Ok(e) => e,
                    Err(e) => return Err(e),
                };
                match self.things_get_json_object_entry_data(
                    thing_uuid.as_str(),
                    entry.id.as_str(),
                ) {
                    Ok(Some(j)) => Ok(write_json_pretty(&j)),
                    Ok(None) => {
                        let none: Vec<(String, Json)> = Vec::new();
                        proof {
                            assert(entries_view(none@) =~= Seq::empty());
                        }
                        let j = Json::object(none);
                        Ok(write_json_pretty(&j))
                    },
                    Err(e) => Err(e),
                }
            },
            VirtualPath::ThingEntrySchema { thing_uuid, index, .. } => {
                let entry = match self.content_entry_by_index(thing_uuid.as_str(), *index) {
                    Ok(e) => e,
                    Err(e) => return Err(e),
                };
                match self.things_get_json_object_entry_schema(
                    thing_uuid.as_str(),
                    entry.id.as_str(),
                ) {
                    Ok(Some(j)) => Ok(write_json_pretty(&j)),
                    Ok(None) => Ok(write_json_pretty(&Json::Null)),
                    Err(e) => Err(e),
                }
            },
            _ => self.refuse_reading(path),
        }
    }

    fn read_collection_path(&self, path: &VirtualPath, now: &String) -> (out: Result<
        String,
        SdkError,
    >)
        requires
            path@ is Collection,
        ensures
            text_out(out) == read_path(*self, path@, now@),
    {
        match path {
            VirtualPath::CollectionActions { collection_uuid } => {
                self.read_bindings_text(
                    self.list_collection_action_bindings(collection_uuid.as_str()),
                )
            },
            VirtualPath::CollectionCardJsx { collection_uuid } => {
                match self.get_collection_card_jsx(collection_uuid.as_str()) {
                    Ok(Some(card)) => Ok(card),
                    Ok(None) => Ok(owned("")),
                    Err(e) => Err(e),
                }
            },
            VirtualPath::CollectionName { collection_uuid } => {
                match self.find_shown_collection(path, collection_uuid.as_str(), now) {
                    Ok(c) => Ok(c.title),
                    Err(e) => Err(e),
                }
            },
            _ => self.refuse_reading(path),
        }
    }

    fn read_action_path(&self, path: &VirtualPath) -> (out: Result<String, SdkError>)
        requires
            path@ is Action,
        ensures
            forall|now: Seq<char>| text_out(out) == #[trigger] read_path(*self, path@, now),
    {
        match path {
            VirtualPath::ActionName { action_uuid } => {
                match self.fetch_action_or_err(action_uuid.as_str(), path) {
                    Ok(a) => Ok(a.title),
                    Err(e) => Err(e),
                }
            },
            VirtualPath::ActionMetadata { action_uuid } => {
                match self.fetch_action_or_err(action_uuid.as_str(), path) {
                    Ok(a) => {
                        let j = action_metadata_json(&a);
                        Ok(write_json_pretty(&j))
                    },
                    Err(e) => Err(e),
                }
            },
            VirtualPath::ActionInputSchema { action_uuid } => {
                match self.fetch_action_or_err(action_uuid.as_str(), path) {
                    Ok(a) => {
                        let j = read_json_or_empty(a.input_schema_json.as_str());
                        Ok(write_json_pretty(&j))
                    },
                    Err(e) => Err(e),
                }
            },
            VirtualPath::ActionOutputSchema { action_uuid } => {
                match self.fetch_action_or_err(action_uuid.as_str(), path) {
                    Ok(a) => {
                        let j = read_stored_json(&a.output_schema_json);
                        Ok(write_json_pretty(&j))
                    },
                    Err(e) => Err(e),
                }
            },
            VirtualPath::ActionScript { action_uuid } => {
                match self.fetch_action_or_err(action_uuid.as_str(), path) {
                    Ok(a) => Ok(a.script_source),
                    Err(e) => Err(e),
                }
            },
            VirtualPath::ActionLatestInvocation { action_uuid } => {
                match self.storage.latest_action_invocation(action_uuid.as_str()) {
                    Ok(Some(r)) => Ok(write_json_pretty(&invocation_to_json(&r))),
                    Ok(None) => Ok(write_json_pretty(&Json::Null)),
                    Err(e) => Err(e),
                }
            },
            _ => self.refuse_reading(path),
        }
    }

    fn read_trigger_path(&self, path: &VirtualPath) -> (out: Result<String, SdkError>)
        requires
            path@ is Trigger,
        ensures
            forall|now: Seq<char>| text_out(out) == #[trigger] read_path(*self, path@, now),
    {
        match path {
            VirtualPath::TriggerAction { trigger_uuid } => {
                match self.storage.fetch_trigger(trigger_uuid.as_str()) {
                    Some(t) => {
                        let binding = read_trigger_binding(&t);
                        let j = opt_binding_to_json(&binding);
                        Ok(write_json_pretty(&j))
                    },
                    None => {
                        let name = display_path(path);
                        Err(no_trigger(name.as_str(), trigger_uuid.as_str()))
                    },
                }
            },
            _ => self.refuse_reading(path),
        }
    }

    /// What a path holds at `now`.
    pub fn read_virtual_path_inner(&self, path: &VirtualPath, now: &String) -> (out: Result<
        String,
        SdkError,
    >)
        ensures
            text_out(out) == read_path(*self, path@, now@),
    {
        match path {
            VirtualPath::ActionDir { .. }
            | VirtualPath::ActionName { .. }
            | VirtualPath::ActionMetadata { .. }
            | VirtualPath::ActionInputSchema { .. }
            | VirtualPath::ActionOutputSchema { .. }
            | VirtualPath::ActionScript { .. }
            | VirtualPath::ActionLatestInvocation { .. } => self.read_action_path(path),
            VirtualPath::CollectionDir { .. }
            | VirtualPath::CollectionName { .. }
            | VirtualPath::CollectionCardJsx { .. }
            | VirtualPath::CollectionActions { .. }
            | VirtualPath::CollectionThingsDir { .. } => self.read_collection_path(path, now),
            VirtualPath::Root | VirtualPath::ActionRoot | VirtualPath::CollectionRoot => {
                self.refuse_reading(path)
            },
            VirtualPath::TriggerDir { .. } | VirtualPath::TriggerAction { .. } => {
                self.read_trigger_path(path)
            },
            _ => self.read_thing_path(path, now),
        }
    }

    /// Reads a file at `now`.
    pub fn read_virtual_path_at(&self, path: &str, now: &String) -> (out: Result<
        VirtualFsReadResult,
        SdkError,
    >)
        ensures
            read_out(out) == read_answer(*self, path@, now@),
            out matches Ok(r) ==> r.kind == VirtualFsNodeKind::File,
    {
        let (normal, node) = match locate(path) {
            Ok(found) => found,
            Err(e) => return Err(e),
        };
        match self.read_virtual_path_inner(&node, now) {
            Ok(content) => Ok(
                VirtualFsReadResult { path: normal, kind: VirtualFsNodeKind::File, content },
            ),
            Err(e) => Err(e),
        }
    }

    /// Reads a file now.
    pub fn read_virtual_path(&self, path: &str) -> (out: Result<VirtualFsReadResult, SdkError>)
        ensures
            exists|now: Seq<char>| clock_text(now) && read_out(out) == #[trigger] read_answer(
                *self,
                path@,
                now,
            ),
            out matches Ok(r) ==> r.kind == VirtualFsNodeKind::File,
    {
        let now = now_timestamp_rfc3339();
        self.read_virtual_path_at(path, &now)
    }

    /// Shows a file at `now`.
    pub fn cat_virtual_path_at(&self, path: &str, now: &String) -> (out: Result<
        VirtualFsCatResult,
        SdkError,
    >)
        ensures
            cat_out(out) == cat_answer(*self, path@, now@),
    {
        let (normal, node) = match locate(path) {
            Ok(found) => found,
            Err(e) => return Err(e),
        };
        if let VirtualPath::ThingEntry { thing_uuid, index, .. } = &node {
            let entry = match self.content_entry_by_index(thing_uuid.as_str(), *index) {
                Ok(e) => e,
                Err(e) => return Err(e),
            };
            if let ContentEntryPayload::Image(image) = entry.payload {
                return Ok(VirtualFsCatResult::Image { uri: image.uri });
            }
        }
        match self.read_virtual_path_at(normal.as_str(), now) {
            Ok(read) => Ok(VirtualFsCatResult::Text(read)),
            Err(e) => Err(e),
        }
    }

    /// Shows a file now.
    pub fn cat_virtual_path(&self, path: &str) -> (out: Result<VirtualFsCatResult, SdkError>)
        ensures
            exists|now: Seq<char>| clock_text(now) && cat_out(out) == #[trigger] cat_answer(
                *self,
                path@,
                now,
            ),
    {
        let now = now_timestamp_rfc3339();
        self.cat_virtual_path_at(path, &now)
    }

    /// How long reading a file takes. The times are those of the clock.
    pub fn profile_read_virtual_path(&self, path: &str) -> (out: Result<
        VirtualFsProfileResult,
        SdkError,
    >)
        ensures
            exists|now: Seq<char>|
                clock_text(now) && match #[trigger] read_answer(*self, path@, now) {
                    Ok(found) => out matches Ok(r) && r.operation@ == "read_virtual_path"@
                        && r.path@ == found.0 && r.output_bytes == capped_bytes(
                        found.1,
                        usize::MAX as nat,
                    ) && step_names(r.steps@) == seq![
                        "normalize_parse"@,
                        if located(path@) matches Ok((p, node)) && node matches PathView::Thing {
                            collection,
                            thing,
                            file: ThingFile::Content,
                        } {
                            "render_content_markdown"@
                        } else {
                            "read_virtual_path_total"@
                        },
                    ],
                    Err(e) => out matches Err(o) && o@ == e,
                },
    {
        let total: i64 = now_millis();
        let now = now_timestamp_rfc3339();
        let (normal, node) = match locate(path) {
            Ok(found) => found,
            Err(e) => {
                proof {
                    assert(read_answer(*self, path@, now@) is Err);
                }
                return Err(e);
            },
        };
        let parsing: u64 = elapsed_since(total);
        let start: i64 = now_millis();
        let name = match &node {
            VirtualPath::ThingContent { .. } => "render_content_markdown",
            _ => "read_virtual_path_total",
        };
        let output = match self.read_virtual_path_inner(&node, &now) {
            Ok(output) => output,
            Err(e) => {
                proof {
                    assert(read_answer(*self, path@, now@) is Err);
                }
                return Err(e);
            },
        };
        let reading: u64 = elapsed_since(start);
        let steps = vec![
            VirtualFsProfileStep { name: "normalize_parse", elapsed_ms: parsing },
            VirtualFsProfileStep { name, elapsed_ms: reading },
        ];
        proof {
            assert(step_names(steps@) =~= seq!["normalize_parse"@, name@]);
            assert(read_answer(*self, path@, now@) == Ok::<(Seq<char>, Seq<char>), ErrorView>(
                (normal@, output@),
            ));
        }
        Ok(
            VirtualFsProfileResult {
                operation: "read_virtual_path",
                path: normal,
                total_ms: elapsed_since(total),
                output_bytes: count_bytes(output.as_str()),
                steps,
            },
        )
    }
}

} // verus!
