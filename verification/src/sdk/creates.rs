//! The virtual filesystem: creating.
use super::things::{binds, collection_bindings, entries_shown, thing_bindings};
use super::paths::{entry_by_index, locate, located, text_out};
use super::edits::{
    CollectionUpsertView, ThingCollectionUpsert, ThingUpsert, ThingUpsertView, answer_out,
    empty_object, owned_opt,
};
use super::trigger_paths::trigger_bound;
use super::RemiSdk;
use crate::bindings::{BindingView, EntityActionBinding, binding_json, binding_views, bindings_out};
use crate::content_registry::{ContentEntry, EntryView, entry_views, or_text};
use crate::error::{ErrorView, SdkError, failure, refused};
use crate::json::{Json, JsonView, entries_view, entry, json_read, opt_view, read_json};
use crate::letters::{ascii_lower, to_ascii_lower};
use crate::rows::StoredTrigger;
use crate::storage::documents::opt_str_view;
use crate::table::{first_data, lemma_position_of};
use crate::text::{
    cat, cat3, cat5, decimal, decimal_text, has_prefix, owned, same, starts_with, trim, trimmed,
    views,
};
use crate::things_content::find_entry;
use crate::things_crdt::{entry_at, is_entry};
use crate::things_docs::SetView;
use crate::things_types::{CollectionType, ThingDatatype};
use crate::uuids::{is_uuid_text, random_uuid};
use crate::virtual_path::{
    CollectionFile, PathView, ThingFile, TriggerFile, VirtualPath, collection_view, displayed,
    normalize_path, normalized, path_fault, slashed, thing_view, trigger_view,
};
use vstd::prelude::*;
use vstd::string::StringExecFns;

verus! {

/// What creating a node asks for.
#[derive(Debug)]
pub enum CreateChange {
    Collection { collection: ThingCollectionUpsert },
    Thing { thing: ThingUpsert },
    CollectionBinding {
        collection_uuid: String,
        binding: EntityActionBinding,
        bindings: Vec<EntityActionBinding>,
    },
    ThingBinding {
        collection_uuid: String,
        thing_uuid: String,
        binding: EntityActionBinding,
        bindings: Vec<EntityActionBinding>,
    },
    /// A picture as a new content entry. `orders` are the orders of the entries that there
    /// are: the new one comes one after the greatest of them, and first where there is none.
    Image {
        collection_uuid: String,
        thing_uuid: String,
        entry_id: String,
        title: Option<String>,
        source_uri: String,
        orders: Vec<String>,
    },
    JsonObject {
        collection_uuid: String,
        thing_uuid: String,
        title: Option<String>,
        data: Json,
    },
    TriggerBinding { trigger_uuid: String, binding: EntityActionBinding },
}

/// What creating a node asks for, over character sequences.
#[allow(inconsistent_fields)]
pub enum CreateView {
    Collection { written: CollectionUpsertView },
    Thing { written_thing: ThingUpsertView },
    CollectionBinding {
        collection: Seq<char>,
        binding: BindingView,
        bindings: Seq<BindingView>,
    },
    ThingBinding {
        collection: Seq<char>,
        thing: Seq<char>,
        binding: BindingView,
        bindings: Seq<BindingView>,
    },
    Image {
        collection: Seq<char>,
        thing: Seq<char>,
        entry_id: Seq<char>,
        title: Option<Seq<char>>,
        source_uri: Seq<char>,
        orders: Seq<Seq<char>>,
    },
    JsonObject {
        collection: Seq<char>,
        thing: Seq<char>,
        title: Option<Seq<char>>,
        data: JsonView,
    },
    TriggerBinding { trigger: Seq<char>, binding: BindingView },
}

impl View for CreateChange {
    type V = CreateView;

    open spec fn view(&self) -> CreateView {
        match self {
            CreateChange::Collection { collection } => CreateView::Collection {
                written: collection@,
            },
            CreateChange::Thing { thing } => CreateView::Thing { written_thing: thing@ },
            CreateChange::CollectionBinding { collection_uuid, binding, bindings } => {
                CreateView::CollectionBinding {
                    collection: collection_uuid@,
                    binding: binding@,
                    bindings: binding_views(bindings@),
                }
            },
            CreateChange::ThingBinding { collection_uuid, thing_uuid, binding, bindings } => {
                CreateView::ThingBinding {
                    collection: collection_uuid@,
                    thing: thing_uuid@,
                    binding: binding@,
                    bindings: binding_views(bindings@),
                }
            },
            CreateChange::Image {
                collection_uuid,
                thing_uuid,
                entry_id,
                title,
                source_uri,
                orders,
            } => CreateView::Image {
                collection: collection_uuid@,
                thing: thing_uuid@,
                entry_id: entry_id@,
                title: opt_view(*title),
                source_uri: source_uri@,
                orders: views(orders@),
            },
            CreateChange::JsonObject { collection_uuid, thing_uuid, title, data } => {
                CreateView::JsonObject {
                    collection: collection_uuid@,
                    thing: thing_uuid@,
                    title: opt_view(*title),
                    data: data@,
                }
            },
            CreateChange::TriggerBinding { trigger_uuid, binding } => CreateView::TriggerBinding {
                trigger: trigger_uuid@,
                binding: binding@,
            },
        }
    }
}

pub open spec fn create_out(out: Result<CreateChange, SdkError>) -> Result<CreateView, ErrorView> {
    match out {
        Ok(change) => Ok(change@),
        Err(e) => Err(e@),
    }
}

/// What a creation is given besides the path of the parent and the kind.
pub struct CreateGiven {
    pub action_uuid: Option<Seq<char>>,
    pub title: Option<Seq<char>>,
    pub content: Option<Seq<char>>,
    pub source_uri: Option<Seq<char>>,
    pub uuid: Option<Seq<char>>,
}

/// A text without the space around it, where there is more than space.
pub open spec fn trimmed_given(s: Option<Seq<char>>) -> Option<Seq<char>> {
    match s {
        Some(s) => if trimmed(s).len() == 0 {
            None
        } else {
            Some(trimmed(s))
        },
        None => None,
    }
}

pub(crate) fn trim_given(s: Option<&str>) -> (out: Option<String>)
    ensures
        opt_view(out) == trimmed_given(opt_str_view(s)),
{
    match s {
        Some(s) => {
            let text = trim(s);
            if text.as_str().unicode_len() == 0 {
                None
            } else {
                Some(text)
            }
        },
        None => None,
    }
}

/// The id that was given as it is, unless it is blank; else `fresh`.
pub open spec fn given_or_fresh(uuid: Option<Seq<char>>, fresh: Seq<char>) -> Seq<char> {
    match uuid {
        Some(uuid) => if trimmed(uuid).len() == 0 {
            fresh
        } else {
            uuid
        },
        None => fresh,
    }
}

fn choose_id(uuid: Option<&str>, fresh: &String) -> (out: String)
    ensures
        out@ == given_or_fresh(opt_str_view(uuid), fresh@),
{
    match uuid {
        Some(uuid) => {
            if trim(uuid).as_str().unicode_len() == 0 {
                fresh.clone()
            } else {
                owned(uuid)
            }
        },
        None => fresh.clone(),
    }
}

/// The arguments of a new binding: none, or those that a text holds.
pub open spec fn action_args(path: Seq<char>, content: Option<Seq<char>>) -> Result<
    JsonView,
    ErrorView,
> {
    match trimmed_given(content) {
        None => Ok(JsonView::Object(Seq::empty())),
        Some(raw) => match json_read(raw) {
            Ok(j) => Ok(j),
            Err(e) => Err(
                path_fault(
                    path,
                    "invalid_content"@,
                    "Action binding content must be valid JSON: "@ + e,
                ),
            ),
        },
    }
}

/// Reads the arguments of a new binding.
pub fn parse_action_args_json(path: &str, content: Option<&str>) -> (out: Result<Json, SdkError>)
    ensures
        answer_out(out) == action_args(path@, opt_str_view(content)),
{
    match trim_given(content) {
        None => Ok(empty_object()),
        Some(raw) => match read_json(raw.as_str()) {
            Ok(j) => Ok(j),
            Err(e) => {
                let message = cat("Action binding content must be valid JSON: ", e.as_str());
                Err(refused(path, "invalid_content", message.as_str()))
            },
        },
    }
}

/// The bindings with a new one, and the new one.
pub open spec fn added_binding(
    path: Seq<char>,
    bindings: Result<Seq<BindingView>, ErrorView>,
    holder: Seq<char>,
    given: CreateGiven,
) -> Result<(BindingView, Seq<BindingView>), ErrorView> {
    match trimmed_given(given.action_uuid) {
        None => Err(
            path_fault(
                path,
                "missing_action_uuid"@,
                "Creating an action binding requires action_uuid."@,
            ),
        ),
        Some(action) => match bindings {
            Err(e) => Err(e),
            Ok(list) => if first_data(list, binds(action)) is Some {
                Err(
                    path_fault(
                        path,
                        "duplicate_action_binding"@,
                        holder
                            + " already has this action binding. Use edit_path_tool on actions.json to update it."@,
                    ),
                )
            } else {
                match action_args(path, given.content) {
                    Err(e) => Err(e),
                    Ok(args_json) => {
                        let binding = BindingView {
                            action_uuid: action,
                            label_override: given.title,
                            args_json,
                        };
                        Ok((binding, list.push(binding)))
                    },
                }
            },
        },
    }
}

fn has_binding(list: &Vec<EntityActionBinding>, action_uuid: &str) -> (r: bool)
    ensures
        r == (first_data(binding_views(list@), binds(action_uuid@)) is Some),
{
    let ghost all = binding_views(list@);
    let mut i: usize = 0;
    proof {
        assert(all.skip(0) =~= all);
    }
    while i < list.len()
        invariant
            i <= list@.len(),
            all == binding_views(list@),
            first_data(all, binds(action_uuid@)) == first_data(
                all.skip(i as int),
                binds(action_uuid@),
            ),
        decreases list@.len() - i,
    {
        proof {
            reveal_with_fuel(first_data, 2);
            assert(all.skip(i as int)[0] == all[i as int]);
            assert(all.skip(i as int).drop_first() =~= all.skip(i + 1));
        }
        if same(list[i].action_uuid.as_str(), action_uuid) {
            return true;
        }
        i = i + 1;
    }
    proof {
        assert(all.skip(i as int).len() == 0);
    }
    false
}

fn add_binding(
    path: &str,
    bindings: Result<Vec<EntityActionBinding>, SdkError>,
    holder: &str,
    action_uuid: Option<&str>,
    title: Option<&str>,
    content: Option<&str>,
    Ghost(given): Ghost<CreateGiven>,
) -> (out: Result<(EntityActionBinding, Vec<EntityActionBinding>), SdkError>)
    requires
        given.action_uuid == opt_str_view(action_uuid),
        given.title == opt_str_view(title),
        given.content == opt_str_view(content),
    ensures
        match added_binding(path@, bindings_out(bindings), holder@, given) {
            Ok(added) => out matches Ok(o) && o.0@ == added.0 && binding_views(o.1@) == added.1,
            Err(e) => out matches Err(o) && o@ == e,
        },
{
    let action_uuid = match trim_given(action_uuid) {
        Some(action_uuid) => action_uuid,
        None => return Err(
            refused(
                path,
                "missing_action_uuid",
                "Creating an action binding requires action_uuid.",
            ),
        ),
    };
    let mut list = match bindings {
        Ok(list) => list,
        Err(e) => return Err(e),
    };
    if has_binding(&list, action_uuid.as_str()) {
        let message = cat(
            holder,
            " already has this action binding. Use edit_path_tool on actions.json to update it.",
        );
        return Err(refused(path, "duplicate_action_binding", message.as_str()));
    }
    let args_json = match parse_action_args_json(path, content) {
        Ok(j) => j,
        Err(e) => return Err(e),
    };
    let binding = EntityActionBinding {
        action_uuid,
        label_override: owned_opt(title),
        args_json,
    };
    let copy = binding.duplicate_binding();
    let ghost was = list@;
    list.push(copy);
    proof {
        assert(binding_views(list@) =~= binding_views(was).push(binding@));
    }
    Ok((binding, list))
}

/// The refusal of a parent under which a kind cannot be created.
pub open spec fn invalid_parent(path: Seq<char>, message: Seq<char>) -> ErrorView {
    path_fault(path, "invalid_parent"@, message)
}

/// A new thing as it is to be written.
pub open spec fn new_thing(
    collection: Seq<char>,
    parent: Option<Seq<char>>,
    given: CreateGiven,
    fresh: Seq<char>,
) -> CreateView {
    CreateView::Thing {
        written_thing: ThingUpsertView {
            uuid: given_or_fresh(given.uuid, fresh),
            title: or_text(given.title, "New Thing"@),
            datatype: "markdown"@,
            data: Some(
                JsonView::Object(
                    seq![("markdown"@, JsonView::Text(or_text(given.content, ""@)))],
                ),
            ),
            collection_uuid: collection,
            parent_uuid: parent,
        },
    }
}

/// What creating a collection asks for.
pub open spec fn create_collection(
    path: Seq<char>,
    parent: PathView,
    given: CreateGiven,
    fresh: Seq<char>,
) -> Result<CreateView, ErrorView> {
    if parent is Root || parent is CollectionRoot {
        Ok(
            CreateView::Collection {
                written: CollectionUpsertView {
                    uuid: given_or_fresh(given.uuid, fresh),
                    title: or_text(given.title, "New Collection"@),
                    collection_type: CollectionType::Normal,
                    app_id: None,
                },
            },
        )
    } else {
        Err(
            invalid_parent(path, "Collections can only be created under '/' or '/collection'."@),
        )
    }
}

/// What creating a thing asks for.
pub open spec fn create_thing(
    path: Seq<char>,
    parent: PathView,
    given: CreateGiven,
    fresh: Seq<char>,
) -> Result<CreateView, ErrorView> {
    match parent {
        PathView::Collection { collection, file: CollectionFile::Things } => Ok(
            new_thing(collection, None, given, fresh),
        ),
        PathView::Thing { collection, thing, file: ThingFile::Children } => Ok(
            new_thing(collection, Some(thing), given, fresh),
        ),
        _ => Err(
            invalid_parent(
                path,
                "Things can only be created under a things directory such as '/collection/{collection_uuid}/things' or '/collection/{collection_uuid}/things/{thing_uuid}/things'."@,
            ),
        ),
    }
}

/// What creating a binding asks for.
pub open spec fn create_binding(
    set: SetView,
    triggers: Seq<StoredTrigger>,
    path: Seq<char>,
    parent: PathView,
    given: CreateGiven,
) -> Result<CreateView, ErrorView> {
    match parent {
        PathView::Collection { collection, file: CollectionFile::Dir } => {
            match added_binding(path, collection_bindings(set, collection), "Collection"@, given) {
                Err(e) => Err(e),
                Ok((binding, bindings)) => Ok(
                    CreateView::CollectionBinding { collection, binding, bindings },
                ),
            }
        },
        PathView::Thing { collection, thing, file: ThingFile::Dir } => {
            match added_binding(path, thing_bindings(set, thing), "Thing"@, given) {
                Err(e) => Err(e),
                Ok((binding, bindings)) => Ok(
                    CreateView::ThingBinding { collection, thing, binding, bindings },
                ),
            }
        },
        PathView::Trigger { trigger, file: TriggerFile::Dir } => {
            match trigger_bound(triggers, path, trigger, given) {
                Err(e) => Err(e),
                Ok(binding) => Ok(CreateView::TriggerBinding { trigger, binding }),
            }
        },
        _ => Err(
            invalid_parent(
                path,
                "action_binding can only be created under '/collection/{collection_uuid}' or '/collection/{collection_uuid}/things/{thing_uuid}'."@,
            ),
        ),
    }
}

pub open spec fn orders_of(entries: Seq<EntryView>) -> Seq<Seq<char>> {
    entries.map_values(|e: EntryView| e.order)
}

/// What creating a picture asks for.
pub open spec fn create_image(
    set: SetView,
    path: Seq<char>,
    parent: PathView,
    given: CreateGiven,
    fresh: Seq<char>,
) -> Result<CreateView, ErrorView> {
    match parent {
        PathView::Thing { collection, thing, file: ThingFile::Dir } => {
            match trimmed_given(given.source_uri) {
                None => Err(
                    path_fault(
                        path,
                        "missing_source_uri"@,
                        "Creating an image entry requires source_uri to be a remi:// URI from the current chat attachments."@,
                    ),
                ),
                Some(source_uri) => if !starts_with(source_uri, "remi://"@) {
                    Err(
                        path_fault(
                            source_uri,
                            "invalid_source_uri"@,
                            "Image source_uri must be a remi:// URI."@,
                        ),
                    )
                } else {
                    match entries_shown(set, thing) {
                        Err(e) => Err(e),
                        Ok(entries) => Ok(
                            CreateView::Image {
                                collection,
                                thing,
                                entry_id: given_or_fresh(given.uuid, fresh),
                                title: given.title,
                                source_uri,
                                orders: orders_of(entries),
                            },
                        ),
                    }
                },
            }
        },
        _ => Err(
            invalid_parent(
                path,
                "Images can only be created under a thing directory such as '/collection/{collection_uuid}/things/{thing_uuid}'."@,
            ),
        ),
    }
}

/// What creating an object asks for.
pub open spec fn create_object(path: Seq<char>, parent: PathView, given: CreateGiven) -> Result<
    CreateView,
    ErrorView,
> {
    match parent {
        PathView::Thing { collection, thing, file: ThingFile::Dir } => {
            match trimmed_given(given.content) {
                None => Ok(
                    CreateView::JsonObject {
                        collection,
                        thing,
                        title: given.title,
                        data: JsonView::Object(Seq::empty()),
                    },
                ),
                Some(raw) => match json_read(raw) {
                    Ok(data) => Ok(
                        CreateView::JsonObject { collection, thing, title: given.title, data },
                    ),
                    Err(e) => Err(
                        path_fault(
                            path,
                            "invalid_content"@,
                            "json_object content must be valid JSON: "@ + e,
                        ),
                    ),
                },
            }
        },
        _ => Err(
            invalid_parent(
                path,
                "json_object entries can only be created under a thing directory such as '/collection/{collection_uuid}/things/{thing_uuid}'."@,
            ),
        ),
    }
}

/// What creating a node of a kind under a parent asks for.
pub open spec fn node_creation(
    set: SetView,
    triggers: Seq<StoredTrigger>,
    path: Seq<char>,
    parent: PathView,
    kind: Seq<char>,
    given: CreateGiven,
    fresh: Seq<char>,
) -> Result<CreateView, ErrorView> {
    if kind == "collection"@ {
        create_collection(path, parent, given, fresh)
    } else if kind == "thing"@ {
        create_thing(path, parent, given, fresh)
    } else if kind == "image"@ {
        create_image(set, path, parent, given, fresh)
    } else if kind == "json_object"@ {
        create_object(path, parent, given)
    } else if kind == "action_binding"@ {
        create_binding(set, triggers, path, parent, given)
    } else {
        Err(
            path_fault(
                path,
                "invalid_type"@,
                "create_tool type must be 'collection', 'thing', 'image', 'json_object', or 'action_binding'."@,
            ),
        )
    }
}

/// The kind that a name stands for.
pub open spec fn kind_of(name: Seq<char>) -> Seq<char> {
    ascii_lower(trimmed(name))
}

/// What creating a node under a path asks for. A path to bind to is only held against the
/// form of paths, and the address of a picture is refused for any other kind.
pub open spec fn path_creation(
    set: SetView,
    triggers: Seq<StoredTrigger>,
    path: Seq<char>,
    kind: Seq<char>,
    bind_path: Option<Seq<char>>,
    given: CreateGiven,
    fresh: Seq<char>,
) -> Result<CreateView, ErrorView> {
    match located(path) {
        Err(e) => Err(e),
        Ok((p, parent)) => if bind_path matches Some(b) && normalized(b) is Err {
            Err(normalized(bind_path->0)->Err_0)
        } else if given.source_uri is Some && kind_of(kind) != "image"@ {
            Err(
                path_fault(
                    given.source_uri->0,
                    "source_uri_unsupported"@,
                    "source_uri is only supported when create_tool type is 'image'."@,
                ),
            )
        } else {
            node_creation(set, triggers, p, parent, kind_of(kind), given, fresh)
        },
    }
}

pub open spec fn create_given(
    action_uuid: Option<&str>,
    title: Option<&str>,
    content: Option<&str>,
    source_uri: Option<&str>,
    uuid: Option<&str>,
) -> CreateGiven {
    CreateGiven {
        action_uuid: opt_str_view(action_uuid),
        title: opt_str_view(title),
        content: opt_str_view(content),
        source_uri: opt_str_view(source_uri),
        uuid: opt_str_view(uuid),
    }
}

fn text_or(s: Option<&str>, default: &str) -> (out: String)
    ensures
        out@ == or_text(opt_str_view(s), default@),
{
    match s {
        Some(s) => owned(s),
        None => owned(default),
    }
}

fn plan_thing(
    collection_uuid: String,
    parent_uuid: Option<String>,
    title: Option<&str>,
    content: Option<&str>,
    uuid: Option<&str>,
    fresh: &String,
    Ghost(given): Ghost<CreateGiven>,
) -> (change: CreateChange)
    requires
        given.title == opt_str_view(title),
        given.content == opt_str_view(content),
        given.uuid == opt_str_view(uuid),
    ensures
        change@ == new_thing(collection_uuid@, opt_view(parent_uuid), given, fresh@),
{
    let text = text_or(content, "");
    let entries = vec![entry("markdown", Json::text(text.as_str()))];
    proof {
        assert(entries_view(entries@) =~= seq![
            ("markdown"@, JsonView::Text(or_text(given.content, ""@))),
        ]);
    }
    CreateChange::Thing {
        thing: ThingUpsert {
            uuid: choose_id(uuid, fresh),
            title: text_or(title, "New Thing"),
            datatype: ThingDatatype::Markdown,
            data: Some(Json::object(entries)),
            collection_uuid,
            parent_uuid,
        },
    }
}

fn copy_orders(entries: &Vec<ContentEntry>) -> (out: Vec<String>)
    ensures
        views(out@) == orders_of(entry_views(entries@)),
{
    let mut out: Vec<String> = Vec::new();
    let mut i: usize = 0;
    while i < entries.len()
        invariant
            i <= entries@.len(),
            out@.len() == i,
            forall|k: int| 0 <= k < i ==> (#[trigger] out@[k])@ == entries@[k].order@,
        decreases entries@.len() - i,
    {
        out.push(entries[i].order.clone());
        i = i + 1;
    }
    proof {
        assert(views(out@) =~= orders_of(entry_views(entries@)));
    }
    out
}

impl RemiSdk {
    fn plan_collection(&self, path: &str, parent: &VirtualPath, title: Option<&str>, uuid: Option<
        &str,
    >, fresh: &String, Ghost(given): Ghost<CreateGiven>) -> (out: Result<CreateChange, SdkError>)
        requires
            given.title == opt_str_view(title),
            given.uuid == opt_str_view(uuid),
        ensures
            create_out(out) == create_collection(path@, parent@, given, fresh@),
    {
        match parent {
            VirtualPath::Root | VirtualPath::CollectionRoot => Ok(
                CreateChange::Collection {
                    collection: ThingCollectionUpsert {
                        uuid: choose_id(uuid, fresh),
                        title: text_or(title, "New Collection"),
                        collection_type: CollectionType::Normal,
                        app_id: None,
                    },
                },
            ),
            _ => Err(
                refused(
                    path,
                    "invalid_parent",
                    "Collections can only be created under '/' or '/collection'.",
                ),
            ),
        }
    }

    fn plan_image(
        &self,
        path: &str,
        parent: VirtualPath,
        title: Option<&str>,
        source_uri: Option<&str>,
        uuid: Option<&str>,
        fresh: &String,
        Ghost(given): Ghost<CreateGiven>,
    ) -> (out: Result<CreateChange, SdkError>)
        requires
            given.title == opt_str_view(title),
            given.source_uri == opt_str_view(source_uri),
            given.uuid == opt_str_view(uuid),
        ensures
            create_out(out) == create_image(self.documents@, path@, parent@, given, fresh@),
    {
        match parent {
            VirtualPath::ThingDir { collection_uuid, thing_uuid } => {
                let source_uri = match trim_given(source_uri) {
                    Some(uri) => uri,
                    None => return Err(
                        refused(
                            path,
                            "missing_source_uri",
                            "Creating an image entry requires source_uri to be a remi:// URI from the current chat attachments.",
                        ),
                    ),
                };
                if !has_prefix(source_uri.as_str(), "remi://") {
                    return Err(
                        refused(
                            source_uri.as_str(),
                            "invalid_source_uri",
                            "Image source_uri must be a remi:// URI.",
                        ),
                    );
                }
                let entries = match self.things_get_content_entries(thing_uuid.as_str()) {
                    Ok(entries) => entries,
                    Err(e) => return Err(e),
                };
                let orders = copy_orders(&entries);
                Ok(
                    CreateChange::Image {
                        collection_uuid,
                        thing_uuid,
                        entry_id: choose_id(uuid, fresh),
                        title: owned_opt(title),
                        source_uri,
                        orders,
                    },
                )
            },
            _ => Err(
                refused(
                    path,
                    "invalid_parent",
                    "Images can only be created under a thing directory such as '/collection/{collection_uuid}/things/{thing_uuid}'.",
                ),
            ),
        }
    }

    fn plan_object(
        &self,
        path: &str,
        parent: VirtualPath,
        title: Option<&str>,
        content: Option<&str>,
        Ghost(given): Ghost<CreateGiven>,
    ) -> (out: Result<CreateChange, SdkError>)
        requires
            given.title == opt_str_view(title),
            given.content == opt_str_view(content),
        ensures
            create_out(out) == create_object(path@, parent@, given),
    {
        match parent {
            VirtualPath::ThingDir { collection_uuid, thing_uuid } => {
                let data = match trim_given(content) {
                    None => empty_object(),
                    Some(raw) => match read_json(raw.as_str()) {
                        Ok(j) => j,
                        Err(e) => {
                            let message = cat(
                                "json_object content must be valid JSON: ",
                                e.as_str(),
                            );
                            return Err(refused(path, "invalid_content", message.as_str()));
                        },
                    },
                };
                Ok(
                    CreateChange::JsonObject {
                        collection_uuid,
                        thing_uuid,
                        title: owned_opt(title),
                        data,
                    },
                )
            },
            _ => Err(
                refused(
                    path,
                    "invalid_parent",
                    "json_object entries can only be created under a thing directory such as '/collection/{collection_uuid}/things/{thing_uuid}'.",
                ),
            ),
        }
    }

    fn plan_binding(
        &self,
        path: &str,
        parent: VirtualPath,
        action_uuid: Option<&str>,
        title: Option<&str>,
        content: Option<&str>,
        Ghost(given): Ghost<CreateGiven>,
    ) -> (out: Result<CreateChange, SdkError>)
        requires
            given.action_uuid == opt_str_view(action_uuid),
            given.title == opt_str_view(title),
            given.content == opt_str_view(content),
        ensures
            create_out(out) == create_binding(
                self.documents@,
                self.storage.triggers.data(),
                path@,
                parent@,
                given,
            ),
    {
        match parent {
            VirtualPath::CollectionDir { collection_uuid } => {
                let bindings = self.list_collection_action_bindings(collection_uuid.as_str());
                match add_binding(
                    path,
                    bindings,
                    "Collection",
                    action_uuid,
                    title,
                    content,
                    Ghost(given),
                ) {
                    Ok((binding, bindings)) => Ok(
                        CreateChange::CollectionBinding { collection_uuid, binding, bindings },
                    ),
                    Err(e) => Err(e),
                }
            },
            VirtualPath::ThingDir { collection_uuid, thing_uuid } => {
                let bindings = self.list_thing_action_bindings(thing_uuid.as_str());
                match add_binding(
                    path,
                    bindings,
                    "Thing",
                    action_uuid,
                    title,
                    content,
                    Ghost(given),
                ) {
                    Ok((binding, bindings)) => Ok(
                        CreateChange::ThingBinding {
                            collection_uuid,
                            thing_uuid,
                            binding,
                            bindings,
                        },
                    ),
                    Err(e) => Err(e),
                }
            },
            VirtualPath::TriggerDir { trigger_uuid } => {
                match self.bind_trigger(
                    path,
                    trigger_uuid.as_str(),
                    action_uuid,
                    title,
                    content,
                    Ghost(given),
                ) {
                    Ok(binding) => Ok(CreateChange::TriggerBinding { trigger_uuid, binding }),
                    Err(e) => Err(e),
                }
            },
            _ => Err(
                refused(
                    path,
                    "invalid_parent",
                    "action_binding can only be created under '/collection/{collection_uuid}' or '/collection/{collection_uuid}/things/{thing_uuid}'.",
                ),
            ),
        }
    }

    /// What creating a node under a path asks for. `fresh` is the id for a node that is not
    /// given one.
    pub fn create_virtual_path_with(
        &self,
        parent_path: &str,
        kind: &str,
        action_uuid: Option<&str>,
        title: Option<&str>,
        content: Option<&str>,
        source_uri: Option<&str>,
        bind_path: Option<&str>,
        uuid: Option<&str>,
        fresh: &String,
    ) -> (out: Result<CreateChange, SdkError>)
        ensures
            create_out(out) == path_creation(
                self.documents@,
                self.storage.triggers.data(),
                parent_path@,
                kind@,
                opt_str_view(bind_path),
                create_given(action_uuid, title, content, source_uri, uuid),
                fresh@,
            ),
    {
        let ghost given = create_given(action_uuid, title, content, source_uri, uuid);
        let (normal, parent) = match locate(parent_path) {
            Ok(found) => found,
            Err(e) => return Err(e),
        };
        let name = trim(kind);
        let kind = to_ascii_lower(name.as_str());
        let kind = kind.as_str();
        if let Some(bind_path) = bind_path {
            match normalize_path(bind_path) {
                Ok(_) => {},
                Err(e) => return Err(e),
            }
        }
        if let Some(uri) = source_uri {
            if !same(kind, "image") {
                return Err(
                    refused(
                        uri,
                        "source_uri_unsupported",
                        "source_uri is only supported when create_tool type is 'image'.",
                    ),
                );
            }
        }
        let path = normal.as_str();
        if same(kind, "collection") {
            self.plan_collection(path, &parent, title, uuid, fresh, Ghost(given))
        } else if same(kind, "thing") {
            match parent {
                VirtualPath::CollectionThingsDir { collection_uuid } => Ok(
                    plan_thing(collection_uuid, None, title, content, uuid, fresh, Ghost(given)),
                ),
                VirtualPath::ThingChildrenDir { collection_uuid, thing_uuid } => Ok(
                    plan_thing(
                        collection_uuid,
                        Some(thing_uuid),
                        title,
                        content,
                        uuid,
                        fresh,
                        Ghost(given),
                    ),
                ),
                _ => Err(
                    refused(
                        path,
                        "invalid_parent",
                        "Things can only be created under a things directory such as '/collection/{collection_uuid}/things' or '/collection/{collection_uuid}/things/{thing_uuid}/things'.",
                    ),
                ),
            }
        } else if same(kind, "image") {
            self.plan_image(path, parent, title, source_uri, uuid, fresh, Ghost(given))
        } else if same(kind, "json_object") {
            self.plan_object(path, parent, title, content, Ghost(given))
        } else if same(kind, "action_binding") {
            self.plan_binding(path, parent, action_uuid, title, content, Ghost(given))
        } else {
            Err(
                refused(
                    path,
                    "invalid_type",
                    "create_tool type must be 'collection', 'thing', 'image', 'json_object', or 'action_binding'.",
                ),
            )
        }
    }

    /// What creating a node under a path asks for; a node that is not given an id gets a
    /// random one.
    pub fn create_virtual_path(
        &self,
        parent_path: &str,
        kind: &str,
        action_uuid: Option<&str>,
        title: Option<&str>,
        content: Option<&str>,
        source_uri: Option<&str>,
        bind_path: Option<&str>,
        uuid: Option<&str>,
    ) -> (out: Result<CreateChange, SdkError>)
        ensures
            exists|fresh: Seq<char>|
                is_uuid_text(fresh) && create_out(out) == #[trigger] path_creation(
                    self.documents@,
                    self.storage.triggers.data(),
                    parent_path@,
                    kind@,
                    opt_str_view(bind_path),
                    create_given(action_uuid, title, content, source_uri, uuid),
                    fresh,
                ),
    {
        let fresh = random_uuid();
        self.create_virtual_path_with(
            parent_path,
            kind,
            action_uuid,
            title,
            content,
            source_uri,
            bind_path,
            uuid,
            &fresh,
        )
    }
}

/// The kind of what was created.
pub open spec fn created_kind(change: CreateView) -> Seq<char> {
    match change {
        CreateView::Collection { .. } => "collection"@,
        CreateView::Thing { .. } => "thing"@,
        CreateView::CollectionBinding { .. } => "action_binding"@,
        CreateView::ThingBinding { .. } => "action_binding"@,
        CreateView::Image { .. } => "image"@,
        CreateView::JsonObject { .. } => "json_object"@,
        CreateView::TriggerBinding { .. } => "action_binding"@,
    }
}

pub open spec fn thing_path(collection: Seq<char>, thing: Seq<char>) -> Seq<char> {
    "/collection/"@ + collection + "/things/"@ + thing
}

/// The path of a content entry that was created, by its id.
pub open spec fn created_entry_path(
    set: SetView,
    collection: Seq<char>,
    thing: Seq<char>,
    entry_id: Seq<char>,
    kind: Seq<char>,
) -> Result<Seq<char>, ErrorView> {
    match entries_shown(set, thing) {
        Err(e) => Err(e),
        Ok(entries) => {
            let at = entry_at(entries, entry_id);
            if at < entries.len() {
                Ok(thing_path(collection, thing) + "/entries."@ + decimal(at as nat))
            } else {
                Err(
                    ErrorView::Failure {
                        message: "Created "@ + kind + " entry '"@ + entry_id
                            + "' was not found after insertion"@,
                    },
                )
            }
        },
    }
}

/// Where what was created stands and its id: `id` is that of a new object.
pub open spec fn created_place(set: SetView, change: CreateView, id: Seq<char>) -> Result<
    (Seq<char>, Seq<char>),
    ErrorView,
> {
    match change {
        CreateView::Collection { written } => Ok(("/collection/"@ + written.uuid, written.uuid)),
        CreateView::Thing { written_thing } => Ok(
            (thing_path(written_thing.collection_uuid, written_thing.uuid), written_thing.uuid),
        ),
        CreateView::CollectionBinding { collection, binding, bindings } => Ok(
            ("/collection/"@ + collection + "/actions.json"@, binding.action_uuid),
        ),
        CreateView::ThingBinding { collection, thing, binding, bindings } => Ok(
            (thing_path(collection, thing) + "/actions.json"@, binding.action_uuid),
        ),
        CreateView::Image { collection, thing, entry_id, title, source_uri, orders } => {
            match created_entry_path(set, collection, thing, entry_id, "image"@) {
                Ok(path) => Ok((path, entry_id)),
                Err(e) => Err(e),
            }
        },
        CreateView::JsonObject { collection, thing, title, data } => {
            match created_entry_path(set, collection, thing, id, "json_object"@) {
                Ok(path) => Ok((path, id)),
                Err(e) => Err(e),
            }
        },
        CreateView::TriggerBinding { trigger, binding } => Ok(
            ("/trigger/"@ + trigger + "/action.json"@, binding.action_uuid),
        ),
    }
}

pub open spec fn opt_entry(key: Seq<char>, value: Option<JsonView>) -> Seq<(Seq<char>, JsonView)> {
    match value {
        Some(j) => seq![(key, j)],
        None => Seq::empty(),
    }
}

/// The collection, the thing, the binding and the picture that a creation is about.
pub open spec fn created_binding(change: CreateView) -> Option<JsonView> {
    match change {
        CreateView::CollectionBinding { collection, binding, bindings } => Some(
            binding_json(binding),
        ),
        CreateView::ThingBinding { collection, thing, binding, bindings } => Some(
            binding_json(binding),
        ),
        CreateView::TriggerBinding { trigger, binding } => Some(binding_json(binding)),
        _ => None,
    }
}

pub open spec fn created_in_collection(change: CreateView) -> Option<JsonView> {
    match change {
        CreateView::CollectionBinding { collection, binding, bindings } => Some(
            JsonView::Text(collection),
        ),
        CreateView::ThingBinding { collection, thing, binding, bindings } => Some(
            JsonView::Text(collection),
        ),
        CreateView::Image { collection, thing, entry_id, title, source_uri, orders } => Some(
            JsonView::Text(collection),
        ),
        CreateView::JsonObject { collection, thing, title, data } => Some(
            JsonView::Text(collection),
        ),
        _ => None,
    }
}

pub open spec fn created_in_thing(change: CreateView) -> Option<JsonView> {
    match change {
        CreateView::ThingBinding { collection, thing, binding, bindings } => Some(
            JsonView::Text(thing),
        ),
        CreateView::Image { collection, thing, entry_id, title, source_uri, orders } => Some(
            JsonView::Text(thing),
        ),
        CreateView::JsonObject { collection, thing, title, data } => Some(JsonView::Text(thing)),
        _ => None,
    }
}

pub open spec fn created_on_trigger(change: CreateView) -> Option<JsonView> {
    match change {
        CreateView::TriggerBinding { trigger, binding } => Some(JsonView::Text(trigger)),
        _ => None,
    }
}

pub open spec fn created_source(change: CreateView) -> Option<JsonView> {
    match change {
        CreateView::Image { collection, thing, entry_id, title, source_uri, orders } => Some(
            JsonView::Text(source_uri),
        ),
        _ => None,
    }
}

/// The answer to a creation that was made.
pub open spec fn created_json(change: CreateView, path: Seq<char>, id: Seq<char>) -> JsonView {
    JsonView::Object(
        opt_entry("binding"@, created_binding(change)) + opt_entry(
            "collection_uuid"@,
            created_in_collection(change),
        ) + seq![("ok"@, JsonView::Bool(true)), ("path"@, JsonView::Text(path))] + opt_entry(
            "source_uri"@,
            created_source(change),
        ) + opt_entry("thing_uuid"@, created_in_thing(change)) + opt_entry(
            "trigger_uuid"@,
            created_on_trigger(change),
        ) + seq![
            ("type"@, JsonView::Text(created_kind(change))),
            ("uuid"@, JsonView::Text(id)),
        ],
    )
}

/// The answer to a creation, where `done` is what it gave: for an object its id.
pub open spec fn creation_answer(
    set: SetView,
    change: CreateView,
    done: Result<Seq<char>, ErrorView>,
) -> Result<JsonView, ErrorView> {
    match done {
        Err(e) => Err(e),
        Ok(id) => match created_place(set, change, id) {
            Err(e) => Err(e),
            Ok((path, id)) => Ok(created_json(change, path, id)),
        },
    }
}

fn push_text(entries: &mut Vec<(String, Json)>, key: &str, value: Option<&String>)
    ensures
        entries_view(final(entries)@) == entries_view(old(entries)@) + opt_entry(
            key@,
            match value {
                Some(s) => Some(JsonView::Text(s@)),
                None => None,
            },
        ),
{
    let ghost was = entries@;
    if let Some(value) = value {
        entries.push(entry(key, Json::text(value.as_str())));
    }
    proof {
        assert(entries_view(entries@) =~= entries_view(was) + opt_entry(
            key@,
            match value {
                Some(s) => Some(JsonView::Text(s@)),
                None => None,
            },
        ));
    }
}

impl RemiSdk {
    fn find_created_entry(
        &self,
        collection_uuid: &str,
        thing_uuid: &str,
        entry_id: &str,
        kind: &str,
    ) -> (out: Result<String, SdkError>)
        ensures
            text_out(out) == created_entry_path(
                self.documents@,
                collection_uuid@,
                thing_uuid@,
                entry_id@,
                kind@,
            ),
    {
        let entries = match self.things_get_content_entries(thing_uuid) {
            Ok(entries) => entries,
            Err(e) => return Err(e),
        };
        let at: usize = find_entry(&entries, entry_id);
        if at < entries.len() {
            let number = decimal_text(at as u64);
            let path = cat("/collection/", collection_uuid);
            Ok(cat5(path.as_str(), "/things/", thing_uuid, "/entries.", number.as_str()))
        } else {
            let message = cat5(
                "Created ",
                kind,
                " entry '",
                entry_id,
                "' was not found after insertion",
            );
            Err(failure(message.as_str()))
        }
    }

    /// The answer to a creation, once it was tried: `done` is what it gave, for an object its
    /// id, and the documents are those after it.
    pub fn create_virtual_path_answer(&self, change: &CreateChange, done: Result<String, SdkError>) -> (
    out: Result<Json, SdkError>)
        ensures
            answer_out(out) == creation_answer(self.documents@, change@, text_out(done)),
    {
        let id = match done {
            Ok(id) => id,
            Err(e) => return Err(e),
        };
        let (path, id) = match change {
            CreateChange::Collection { collection } => (
                cat("/collection/", collection.uuid.as_str()),
                collection.uuid.clone(),
            ),
            CreateChange::Thing { thing } => {
                let path = cat("/collection/", thing.collection_uuid.as_str());
                (cat3(path.as_str(), "/things/", thing.uuid.as_str()), thing.uuid.clone())
            },
            CreateChange::CollectionBinding { collection_uuid, binding, .. } => (
                cat3("/collection/", collection_uuid.as_str(), "/actions.json"),
                binding.action_uuid.clone(),
            ),
            CreateChange::ThingBinding { collection_uuid, thing_uuid, binding, .. } => (
                cat5(
                    "/collection/",
                    collection_uuid.as_str(),
                    "/things/",
                    thing_uuid.as_str(),
                    "/actions.json",
                ),
                binding.action_uuid.clone(),
            ),
            CreateChange::Image { collection_uuid, thing_uuid, entry_id, .. } => {
                match self.find_created_entry(
                    collection_uuid.as_str(),
                    thing_uuid.as_str(),
                    entry_id.as_str(),
                    "image",
                ) {
                    Ok(path) => (path, entry_id.clone()),
                    Err(e) => return Err(e),
                }
            },
            CreateChange::JsonObject { collection_uuid, thing_uuid, .. } => {
                match self.find_created_entry(
                    collection_uuid.as_str(),
                    thing_uuid.as_str(),
                    id.as_str(),
                    "json_object",
                ) {
                    Ok(path) => (path, id),
                    Err(e) => return Err(e),
                }
            },
            CreateChange::TriggerBinding { trigger_uuid, binding } => (
                cat3("/trigger/", trigger_uuid.as_str(), "/action.json"),
                binding.action_uuid.clone(),
            ),
        };
        let kind = match change {
            CreateChange::Collection { .. } => "collection",
            CreateChange::Thing { .. } => "thing",
            CreateChange::CollectionBinding { .. }
            | CreateChange::ThingBinding { .. }
            | CreateChange::TriggerBinding { .. } => "action_binding",
            CreateChange::Image { .. } => "image",
            CreateChange::JsonObject { .. } => "json_object",
        };
        let collection = match change {
            CreateChange::CollectionBinding { collection_uuid, .. }
            | CreateChange::ThingBinding { collection_uuid, .. }
            | CreateChange::Image { collection_uuid, .. }
            | CreateChange::JsonObject { collection_uuid, .. } => Some(collection_uuid),
            _ => None,
        };
        let thing = match change {
            CreateChange::ThingBinding { thing_uuid, .. }
            | CreateChange::Image { thing_uuid, .. }
            | CreateChange::JsonObject { thing_uuid, .. } => Some(thing_uuid),
            _ => None,
        };
        let trigger = match change {
            CreateChange::TriggerBinding { trigger_uuid, .. } => Some(trigger_uuid),
            _ => None,
        };
        let source = match change {
            CreateChange::Image { source_uri, .. } => Some(source_uri),
            _ => None,
        };
        let mut entries: Vec<(String, Json)> = Vec::new();
        match change {
            CreateChange::CollectionBinding { binding, .. }
            | CreateChange::ThingBinding { binding, .. }
            | CreateChange::TriggerBinding { binding, .. } => {
                entries.push(entry("binding", binding.to_json()));
            },
            _ => {},
        }
        proof {
            assert(entries_view(entries@) =~= opt_entry("binding"@, created_binding(change@)));
        }
        push_text(&mut entries, "collection_uuid", collection);
        let ghost first = entries@;
        entries.push(entry("ok", Json::Bool(true)));
        entries.push(entry("path", Json::text(path.as_str())));
        proof {
            assert(entries_view(entries@) =~= entries_view(first) + seq![
                ("ok"@, JsonView::Bool(true)),
                ("path"@, JsonView::Text(path@)),
            ]);
        }
        push_text(&mut entries, "source_uri", source);
        push_text(&mut entries, "thing_uuid", thing);
        push_text(&mut entries, "trigger_uuid", trigger);
        let ghost second = entries@;
        entries.push(entry("type", Json::text(kind)));
        entries.push(entry("uuid", Json::text(id.as_str())));
        proof {
            assert(entries_view(entries@) =~= entries_view(second) + seq![
                ("type"@, JsonView::Text(kind@)),
                ("uuid"@, JsonView::Text(id@)),
            ]);
            assert(entries_view(entries@) == created_json(change@, path@, id@)->Object_0);
        }
        Ok(Json::object(entries))
    }
}

proof fn lemma_slashed_push(parts: Seq<Seq<char>>, part: Seq<char>)
    ensures
        slashed(parts.push(part)) == slashed(parts).push('/') + part,
{
    assert(parts.push(part).drop_last() =~= parts);
}

proof fn lemma_collection_dir(collection: Seq<char>)
    ensures
        slashed(seq!["collection"@, collection]) == "/collection/"@ + collection,
{
    let none = Seq::<Seq<char>>::empty();
    lemma_slashed_push(none, "collection"@);
    lemma_slashed_push(none.push("collection"@), collection);
    assert(none.push("collection"@).push(collection) =~= seq!["collection"@, collection]);
    reveal_strlit("/collection/");
    reveal_strlit("collection");
    assert(slashed(none) =~= Seq::empty());
    assert((Seq::<char>::empty().push('/') + "collection"@).push('/') =~= "/collection/"@);
}

proof fn lemma_trigger_action(trigger: Seq<char>)
    ensures
        slashed(seq!["trigger"@, trigger, "action.json"@]) == "/trigger/"@ + trigger
            + "/action.json"@,
{
    let none = Seq::<Seq<char>>::empty();
    let dir = none.push("trigger"@).push(trigger);
    lemma_slashed_push(none, "trigger"@);
    lemma_slashed_push(none.push("trigger"@), trigger);
    lemma_slashed_push(dir, "action.json"@);
    assert(dir.push("action.json"@) =~= seq!["trigger"@, trigger, "action.json"@]);
    reveal_strlit("/trigger/");
    reveal_strlit("trigger");
    reveal_strlit("/action.json");
    reveal_strlit("action.json");
    assert(slashed(none) =~= Seq::empty());
    assert((Seq::<char>::empty().push('/') + "trigger"@).push('/') =~= "/trigger/"@);
    let base = "/trigger/"@ + trigger;
    assert(base.push('/') + "action.json"@ =~= base + "/action.json"@);
}

proof fn lemma_thing_dir(collection: Seq<char>, thing: Seq<char>)
    ensures
        slashed(seq!["collection"@, collection, "things"@, thing]) == thing_path(collection, thing),
{
    let dir = seq!["collection"@, collection];
    lemma_collection_dir(collection);
    lemma_slashed_push(dir, "things"@);
    lemma_slashed_push(dir.push("things"@), thing);
    assert(dir.push("things"@).push(thing) =~= seq![
        "collection"@,
        collection,
        "things"@,
        thing,
    ]);
    reveal_strlit("/things/");
    reveal_strlit("things");
    let base = "/collection/"@ + collection;
    assert((base.push('/') + "things"@).push('/') =~= base + "/things/"@);
}

proof fn lemma_file(dir: Seq<Seq<char>>, base: Seq<char>)
    requires
        slashed(dir) == base,
    ensures
        slashed(dir.push("actions.json"@)) == base + "/actions.json"@,
        forall|index: nat|
            slashed(#[trigger] dir.push("entries."@ + decimal(index))) == base + "/entries."@
                + decimal(index),
{
    lemma_slashed_push(dir, "actions.json"@);
    reveal_strlit("/actions.json");
    reveal_strlit("actions.json");
    reveal_strlit("/entries.");
    reveal_strlit("entries.");
    assert(base.push('/') + "actions.json"@ =~= base + "/actions.json"@);
    assert forall|index: nat|
        slashed(#[trigger] dir.push("entries."@ + decimal(index))) == base + "/entries."@ + decimal(
            index,
        ) by {
        lemma_slashed_push(dir, "entries."@ + decimal(index));
        assert(base.push('/') + ("entries."@ + decimal(index)) =~= base + "/entries."@ + decimal(
            index,
        ));
    }
}

/// The path in the answer to a creation is that of the node that was created: under it the
/// virtual filesystem shows the collection, the thing, the bindings, the action of the trigger,
/// or the entry with the id in the answer.
pub proof fn law_created_path(set: SetView, change: CreateView, id: Seq<char>)
    requires
        created_place(set, change, id) is Ok,
    ensures
        ({
            let (path, named) = created_place(set, change, id)->Ok_0;
            match change {
                CreateView::Collection { written } => path == displayed(
                    collection_view(named, CollectionFile::Dir),
                ),
                CreateView::Thing { written_thing } => path == displayed(
                    thing_view(written_thing.collection_uuid, named, ThingFile::Dir),
                ),
                CreateView::CollectionBinding { collection, binding, bindings } => path
                    == displayed(collection_view(collection, CollectionFile::Actions)),
                CreateView::ThingBinding { collection, thing, binding, bindings } => path
                    == displayed(thing_view(collection, thing, ThingFile::Actions)),
                CreateView::Image { collection, thing, entry_id, title, source_uri, orders } => {
                    exists|at: nat|
                        path == #[trigger] displayed(
                            thing_view(collection, thing, ThingFile::Entry(at)),
                        ) && entry_by_index(set, thing, at) is Ok && entry_by_index(
                            set,
                            thing,
                            at,
                        )->Ok_0.id == named
                },
                CreateView::JsonObject { collection, thing, title, data } => {
                    exists|at: nat|
                        path == #[trigger] displayed(
                            thing_view(collection, thing, ThingFile::Entry(at)),
                        ) && entry_by_index(set, thing, at) is Ok && entry_by_index(
                            set,
                            thing,
                            at,
                        )->Ok_0.id == named
                },
                CreateView::TriggerBinding { trigger, binding } => path == displayed(
                    trigger_view(trigger, TriggerFile::Action),
                ),
            }
        }),
{
    let named = created_place(set, change, id)->Ok_0.1;
    match change {
        CreateView::Collection { written } => {
            lemma_collection_dir(named);
        },
        CreateView::Thing { written_thing } => {
            lemma_thing_dir(written_thing.collection_uuid, named);
        },
        CreateView::CollectionBinding { collection, binding, bindings } => {
            let dir = seq!["collection"@, collection];
            lemma_collection_dir(collection);
            lemma_file(dir, "/collection/"@ + collection);
            assert(dir.push("actions.json"@) =~= seq!["collection"@, collection, "actions.json"@]);
        },
        CreateView::ThingBinding { collection, thing, binding, bindings } => {
            let dir = seq!["collection"@, collection, "things"@, thing];
            lemma_thing_dir(collection, thing);
            lemma_file(dir, thing_path(collection, thing));
        },
        CreateView::Image { collection, thing, entry_id, title, source_uri, orders } => {
            let entries = entries_shown(set, thing)->Ok_0;
            let at = entry_at(entries, named) as nat;
            lemma_position_of(entries, is_entry(named));
            assert(entry_by_index(set, thing, at)->Ok_0.id == named);
            lemma_thing_dir(collection, thing);
            lemma_file(
                seq!["collection"@, collection, "things"@, thing],
                thing_path(collection, thing),
            );
            assert(created_place(set, change, id)->Ok_0.0 == displayed(
                thing_view(collection, thing, ThingFile::Entry(at)),
            ));
        },
        CreateView::JsonObject { collection, thing, title, data } => {
            let entries = entries_shown(set, thing)->Ok_0;
            let at = entry_at(entries, named) as nat;
            lemma_position_of(entries, is_entry(named));
            assert(entry_by_index(set, thing, at)->Ok_0.id == named);
            lemma_thing_dir(collection, thing);
            lemma_file(
                seq!["collection"@, collection, "things"@, thing],
                thing_path(collection, thing),
            );
            assert(created_place(set, change, id)->Ok_0.0 == displayed(
                thing_view(collection, thing, ThingFile::Entry(at)),
            ));
        },
        CreateView::TriggerBinding { trigger, binding } => {
            lemma_trigger_action(trigger);
        },
    }
}

} // verus!
