//! What the client answers to requests on virtual paths, and what further files of a path hold.
use super::creates::{created_json, created_kind, created_place, creation_answer, CreateView};
use super::edits::{edit_answer, move_answer, EditView, MoveView};
use super::paths::{action_metadata, cat_answer, entry_by_index, located, read_path, CatView};
use super::RemiSdk;
use super::things::{collection_bindings, thing_bindings};
use super::trigger_paths::trigger_binding;
use crate::bindings::{
    bindings_json, resolved_bindings, resolved_json, resolved_list_json, ResolvedView,
};
use crate::error::ErrorView;
use crate::json::{
    bool_field, field, json_pretty, law_with_entry, lemma_lookup_at, text_field, with_entry,
    JsonView,
};
use crate::rows::{ActionDefinition, ActionInvocationRecord, StoredTrigger};
use crate::storage::listing_laws::lemma_listed;
use crate::storage::triggers::{by_start, invocation_of, json_or_empty, latest_invocation};
use crate::table::ranked;
use crate::things_docs::SetView;
use crate::things_local::collection_in;
use crate::things_reader::snapshot_collections;
use crate::virtual_path::{CollectionFile, PathView, ThingFile};
use vstd::prelude::*;

verus! {

proof fn lemma_answer_names()
    ensures
        "message"@.len() == 7 && "message"@[0] == 'm',
        "ok"@.len() == 2,
        "path"@.len() == 4 && "path"@[0] == 'p',
        "value"@.len() == 5 && "value"@[0] == 'v',
        "entry"@.len() == 5 && "entry"@[0] == 'e',
        "binding"@.len() == 7 && "binding"@[0] == 'b',
        "collection_uuid"@.len() == 15,
        "source_uri"@.len() == 10 && "source_uri"@[0] == 's',
        "thing_uuid"@.len() == 10 && "thing_uuid"@[0] == 't',
        "trigger_uuid"@.len() == 12,
        "type"@.len() == 4 && "type"@[0] == 't',
        "uuid"@.len() == 4 && "uuid"@[0] == 'u',
        "from_path"@.len() == 9,
        "target_collection_uuid"@.len() == 22,
        "target_parent_uuid"@.len() == 18,
        "to_path"@.len() == 7 && "to_path"@[0] == 't',
{
    reveal_strlit("message");
    reveal_strlit("ok");
    reveal_strlit("path");
    reveal_strlit("value");
    reveal_strlit("entry");
    reveal_strlit("binding");
    reveal_strlit("collection_uuid");
    reveal_strlit("source_uri");
    reveal_strlit("thing_uuid");
    reveal_strlit("trigger_uuid");
    reveal_strlit("type");
    reveal_strlit("uuid");
    reveal_strlit("from_path");
    reveal_strlit("target_collection_uuid");
    reveal_strlit("target_parent_uuid");
    reveal_strlit("to_path");
}

/// The value that an edit asks for.
pub open spec fn asked_value(change: EditView) -> Option<JsonView> {
    match change {
        EditView::CollectionActions { collection, bindings } => Some(bindings_json(bindings)),
        EditView::CollectionCard { collection, card_jsx } => Some(JsonView::Text(card_jsx)),
        EditView::CollectionName { written } => Some(JsonView::Text(written.title)),
        EditView::ThingName { written_thing } => Some(JsonView::Text(written_thing.title)),
        EditView::ThingActions { thing, bindings } => Some(bindings_json(bindings)),
        EditView::ThingStatus { thing, status } => Some(JsonView::Text(status)),
        _ => None,
    }
}

/// An edit that was made is answered with the path and the value that was asked for; one that was
/// not made is answered with an error.
pub proof fn law_edits_are_answered(
    set: SetView,
    path: Seq<char>,
    change: EditView,
    text: Seq<char>,
    e: ErrorView,
)
    requires
        asked_value(change) is Some,
    ensures
        ({
            let out = edit_answer(set, path, change, Ok::<Seq<char>, ErrorView>(text));
            &&& out is Ok
            &&& bool_field(out->Ok_0, "ok"@) == Some(true)
            &&& text_field(out->Ok_0, "path"@) == Some(path)
            &&& field(out->Ok_0, "value"@) == asked_value(change)
        }),
        edit_answer(set, path, change, Err::<Seq<char>, ErrorView>(e)) is Err,
{
    lemma_answer_names();
    let out = edit_answer(set, path, change, Ok::<Seq<char>, ErrorView>(text))->Ok_0;
    lemma_lookup_at(out->Object_0, "ok"@, 1);
    lemma_lookup_at(out->Object_0, "path"@, 2);
    lemma_lookup_at(out->Object_0, "value"@, 3);
}

/// A move that was made is answered with where the thing was and where it is.
pub proof fn law_moves_are_answered(m: MoveView, e: ErrorView)
    ensures
        ({
            let out = move_answer(m, Ok::<(), ErrorView>(()));
            &&& out is Ok
            &&& bool_field(out->Ok_0, "ok"@) == Some(true)
            &&& text_field(out->Ok_0, "thing_uuid"@) == Some(m.thing)
            &&& text_field(out->Ok_0, "from_path"@) == Some(m.from_path)
            &&& text_field(out->Ok_0, "to_path"@) == Some(m.to_path)
            &&& text_field(out->Ok_0, "target_collection_uuid"@) == Some(m.target_collection)
            &&& text_field(out->Ok_0, "target_parent_uuid"@) == m.target_parent
        }),
        move_answer(m, Err::<(), ErrorView>(e)) is Err,
{
    lemma_answer_names();
    let entries = move_answer(m, Ok::<(), ErrorView>(()))->Ok_0->Object_0;
    lemma_lookup_at(entries, "from_path"@, 0);
    lemma_lookup_at(entries, "ok"@, 2);
    lemma_lookup_at(entries, "target_collection_uuid"@, 3);
    lemma_lookup_at(entries, "target_parent_uuid"@, 4);
    lemma_lookup_at(entries, "thing_uuid"@, 5);
    lemma_lookup_at(entries, "to_path"@, 6);
}

proof fn lemma_created(change: CreateView, path: Seq<char>, id: Seq<char>, n: int, last: int)
    requires
        last == n + 2 || last == n + 3 || last == n + 4,
        created_json(change, path, id)->Object_0.len() == last + 2,
        0 <= n,
        ({
            let entries = created_json(change, path, id)->Object_0;
            &&& entries[n] == ("ok"@, JsonView::Bool(true))
            &&& entries[n + 1] == ("path"@, JsonView::Text(path))
            &&& entries[last] == ("type"@, JsonView::Text(created_kind(change)))
            &&& entries[last + 1] == ("uuid"@, JsonView::Text(id))
            &&& forall|k: int|
                0 <= k < n ==> (#[trigger] entries[k]).0 == "binding"@ || entries[k].0
                    == "collection_uuid"@
            &&& forall|k: int|
                n + 1 < k < last ==> (#[trigger] entries[k]).0 == "source_uri"@ || entries[k].0
                    == "thing_uuid"@ || entries[k].0 == "trigger_uuid"@
        }),
    ensures
        bool_field(created_json(change, path, id), "ok"@) == Some(true),
        text_field(created_json(change, path, id), "path"@) == Some(path),
        text_field(created_json(change, path, id), "type"@) == Some(created_kind(change)),
        text_field(created_json(change, path, id), "uuid"@) == Some(id),
{
    lemma_answer_names();
    let entries = created_json(change, path, id)->Object_0;
    lemma_lookup_at(entries, "ok"@, n);
    lemma_lookup_at(entries, "path"@, n + 1);
    lemma_lookup_at(entries, "type"@, last);
    lemma_lookup_at(entries, "uuid"@, last + 1);
}

/// A creation that was made is answered with the path of what was created, its kind and its id.
pub proof fn law_creations_are_answered(set: SetView, change: CreateView, id: Seq<char>)
    requires
        created_place(set, change, id) is Ok,
    ensures
        ({
            let out = creation_answer(set, change, Ok::<Seq<char>, ErrorView>(id));
            let (path, named) = created_place(set, change, id)->Ok_0;
            &&& out is Ok
            &&& bool_field(out->Ok_0, "ok"@) == Some(true)
            &&& text_field(out->Ok_0, "path"@) == Some(path)
            &&& text_field(out->Ok_0, "uuid"@) == Some(named)
            &&& change is Collection ==> text_field(out->Ok_0, "type"@) == Some("collection"@)
                && named == change->written.uuid
            &&& change is Thing ==> text_field(out->Ok_0, "type"@) == Some("thing"@) && named
                == change->written_thing.uuid
            &&& change is Image ==> text_field(out->Ok_0, "type"@) == Some("image"@) && named
                == change->Image_entry_id
            &&& change is JsonObject ==> text_field(out->Ok_0, "type"@) == Some("json_object"@)
                && named == id
            &&& change is CollectionBinding || change is ThingBinding || change is TriggerBinding
                ==> text_field(out->Ok_0, "type"@) == Some("action_binding"@)
        }),
{
    let (path, named) = created_place(set, change, id)->Ok_0;
    match change {
        CreateView::Collection { .. } => lemma_created(change, path, named, 0, 2),
        CreateView::Thing { .. } => lemma_created(change, path, named, 0, 2),
        CreateView::CollectionBinding { .. } => lemma_created(change, path, named, 2, 4),
        CreateView::ThingBinding { .. } => lemma_created(change, path, named, 2, 5),
        CreateView::Image { .. } => lemma_created(change, path, named, 1, 5),
        CreateView::JsonObject { .. } => lemma_created(change, path, named, 1, 4),
        CreateView::TriggerBinding { .. } => lemma_created(change, path, named, 1, 4),
    }
}

proof fn lemma_resolved_names()
    ensures
        "action_description"@.len() == 18,
        "action_enabled"@.len() == 14 && "action_enabled"@[7] == 'e',
        "action_missing"@.len() == 14 && "action_missing"@[7] == 'm',
        "action_title"@.len() == 12,
        "action_uuid"@.len() == 11,
        "args_json"@.len() == 9,
        "label_override"@.len() == 14 && "label_override"@[7] == 'v',
{
    reveal_strlit("action_description");
    reveal_strlit("action_enabled");
    reveal_strlit("action_missing");
    reveal_strlit("action_title");
    reveal_strlit("action_uuid");
    reveal_strlit("args_json");
    reveal_strlit("label_override");
}

/// A resolved binding is written out with the action, its title, the label and the arguments, each
/// under its name.
pub proof fn law_resolved_bindings_are_written_out(r: ResolvedView)
    ensures
        ({
            let j = resolved_json(r);
            &&& text_field(j, "action_uuid"@) == Some(r.binding.action_uuid)
            &&& field(j, "args_json"@) == Some(r.binding.args_json)
            &&& text_field(j, "label_override"@) == r.binding.label_override
            &&& text_field(j, "action_title"@) == r.action_title
            &&& text_field(j, "action_description"@) == r.action_description
            &&& bool_field(j, "action_missing"@) == Some(r.action_missing)
            &&& bool_field(j, "action_enabled"@) == r.action_enabled
        }),
{
    lemma_resolved_names();
    let entries = resolved_json(r)->Object_0;
    lemma_lookup_at(entries, "action_description"@, 0);
    lemma_lookup_at(entries, "action_enabled"@, 1);
    lemma_lookup_at(entries, "action_missing"@, 2);
    lemma_lookup_at(entries, "action_title"@, 3);
    lemma_lookup_at(entries, "action_uuid"@, 4);
    lemma_lookup_at(entries, "args_json"@, 5);
    lemma_lookup_at(entries, "label_override"@, 6);
}

/// The file `actions.json` of a collection and of a thing lists their bindings, each in its place;
/// the file `card.jsx` holds the card of the collection that is shown.
pub proof fn law_files_of_bindings_and_cards(
    sdk: RemiSdk,
    collection: Seq<char>,
    thing: Seq<char>,
    now: Seq<char>,
)
    ensures
        ({
            let actions = sdk.storage.actions.data();
            let own = collection_bindings(sdk.documents@, collection);
            let its = thing_bindings(sdk.documents@, thing);
            let card = collection_in(snapshot_collections(sdk.documents@), collection);
            &&& own matches Ok(list) ==> read_path(
                sdk,
                PathView::Collection { collection, file: CollectionFile::Actions },
                now,
            ) == Ok::<Seq<char>, ErrorView>(
                json_pretty(
                    JsonView::List(
                        resolved_bindings(list, actions).map_values(
                            |r: ResolvedView| resolved_json(r),
                        ),
                    ),
                ),
            )
            &&& its matches Ok(list) ==> read_path(
                sdk,
                PathView::Thing { collection, thing, file: ThingFile::Actions },
                now,
            ) == Ok::<Seq<char>, ErrorView>(
                json_pretty(
                    JsonView::List(
                        resolved_bindings(list, actions).map_values(
                            |r: ResolvedView| resolved_json(r),
                        ),
                    ),
                ),
            )
            &&& card is Some && card->0.card_jsx is Some ==> read_path(
                sdk,
                PathView::Collection { collection, file: CollectionFile::CardJsx },
                now,
            ) == Ok::<Seq<char>, ErrorView>(card->0.card_jsx->0)
            &&& card is None ==> read_path(
                sdk,
                PathView::Collection { collection, file: CollectionFile::CardJsx },
                now,
            ) is Err
        }),
{
    let actions = sdk.storage.actions.data();
    if let Ok(list) = collection_bindings(sdk.documents@, collection) {
        assert(resolved_list_json(resolved_bindings(list, actions)) == JsonView::List(
            resolved_bindings(list, actions).map_values(|r: ResolvedView| resolved_json(r)),
        ));
    }
    if let Ok(list) = thing_bindings(sdk.documents@, thing) {
        assert(resolved_list_json(resolved_bindings(list, actions)) == JsonView::List(
            resolved_bindings(list, actions).map_values(|r: ResolvedView| resolved_json(r)),
        ));
    }
}

/// The metadata of an action hold its id, its name, its title, its description, its version, its
/// category and whether it is on.
pub proof fn law_metadata_hold_the_action(a: ActionDefinition)
    ensures
        ({
            let j = action_metadata(a);
            &&& text_field(j, "action_uuid"@) == Some(a.action_uuid@)
            &&& text_field(j, "name"@) == Some(a.name@)
            &&& text_field(j, "title"@) == Some(a.title@)
            &&& text_field(j, "description"@) == Some(a.description@)
            &&& text_field(j, "version"@) == Some(a.version@)
            &&& text_field(j, "category"@) == Some(a.category@)
            &&& bool_field(j, "enabled"@) == Some(a.enabled)
        }),
{
    reveal_strlit("action_uuid");
    reveal_strlit("name");
    reveal_strlit("title");
    reveal_strlit("description");
    reveal_strlit("version");
    reveal_strlit("category");
    reveal_strlit("enabled");
    assert("action_uuid"@.len() == 11 && "action_uuid"@[0] == 'a');
    assert("description"@.len() == 11 && "description"@[0] == 'd');
    assert("name"@.len() == 4 && "title"@.len() == 5 && "category"@.len() == 8);
    assert("version"@.len() == 7 && "version"@[0] == 'v');
    assert("enabled"@.len() == 7 && "enabled"@[0] == 'e');
    let start = match json_or_empty(a.metadata_json@) {
        JsonView::Object(entries) => entries,
        other => seq![("metadata"@, other)],
    };
    let e1 = with_entry(start, "action_uuid"@, JsonView::Text(a.action_uuid@));
    let e2 = with_entry(e1, "name"@, JsonView::Text(a.name@));
    let e3 = with_entry(e2, "title"@, JsonView::Text(a.title@));
    let e4 = with_entry(e3, "description"@, JsonView::Text(a.description@));
    let e5 = with_entry(e4, "version"@, JsonView::Text(a.version@));
    let e6 = with_entry(e5, "category"@, JsonView::Text(a.category@));
    let on = JsonView::Bool(a.enabled);
    law_with_entry(start, "action_uuid"@, JsonView::Text(a.action_uuid@), "name"@);
    law_with_entry(e1, "name"@, JsonView::Text(a.name@), "action_uuid"@);
    law_with_entry(e2, "title"@, JsonView::Text(a.title@), "action_uuid"@);
    law_with_entry(e2, "title"@, JsonView::Text(a.title@), "name"@);
    law_with_entry(e3, "description"@, JsonView::Text(a.description@), "action_uuid"@);
    law_with_entry(e3, "description"@, JsonView::Text(a.description@), "name"@);
    law_with_entry(e3, "description"@, JsonView::Text(a.description@), "title"@);
    law_with_entry(e4, "version"@, JsonView::Text(a.version@), "action_uuid"@);
    law_with_entry(e4, "version"@, JsonView::Text(a.version@), "name"@);
    law_with_entry(e4, "version"@, JsonView::Text(a.version@), "title"@);
    law_with_entry(e4, "version"@, JsonView::Text(a.version@), "description"@);
    law_with_entry(e5, "category"@, JsonView::Text(a.category@), "action_uuid"@);
    law_with_entry(e5, "category"@, JsonView::Text(a.category@), "name"@);
    law_with_entry(e5, "category"@, JsonView::Text(a.category@), "title"@);
    law_with_entry(e5, "category"@, JsonView::Text(a.category@), "description"@);
    law_with_entry(e5, "category"@, JsonView::Text(a.category@), "version"@);
    law_with_entry(e6, "enabled"@, on, "action_uuid"@);
    law_with_entry(e6, "enabled"@, on, "name"@);
    law_with_entry(e6, "enabled"@, on, "title"@);
    law_with_entry(e6, "enabled"@, on, "description"@);
    law_with_entry(e6, "enabled"@, on, "version"@);
    law_with_entry(e6, "enabled"@, on, "category"@);
}

/// The latest run of an action is one of its runs, and none of them started later.
pub proof fn law_latest_run_is_the_last_one(
    data: Seq<ActionInvocationRecord>,
    action: Seq<char>,
    k: int,
)
    requires
        latest_invocation(data, action) is Ok,
        0 <= k < data.len(),
        data[k].action_uuid@ == action,
    ensures
        latest_invocation(data, action)->Ok_0 matches Some(r) && data.contains(r)
            && r.action_uuid@ == action && r.started_at >= data[k].started_at,
{
    let list = ranked(data, invocation_of(action), by_start(), true);
    lemma_listed(data, invocation_of(action), by_start(), true, data[k]);
    assert(list.contains(data[k]));
    let m = choose|m: int| 0 <= m < list.len() && list[m] == data[k];
    lemma_listed(data, invocation_of(action), by_start(), true, list[0]);
    assert(list.contains(list[0]));
    assert(crate::table::rank_before(true, by_start()(list[0]), by_start()(list[m])));
}

/// The binding of a trigger is to its action with its arguments; without an action there is none.
pub proof fn law_trigger_binding_is_its_action(t: StoredTrigger)
    ensures
        t.action_uuid matches Some(a) ==> trigger_binding(t) matches Some(b) && b.action_uuid
            == a@ && b.args_json == json_or_empty(t.action_args_json@),
        t.action_uuid is None ==> trigger_binding(t) is None,
{
}

/// A picture is answered with its address, and every other file with what it holds and its path.
pub proof fn law_cat_answers_the_file(sdk: RemiSdk, path: Seq<char>, now: Seq<char>)
    requires
        located(path) is Ok,
        located(located(path)->Ok_0.0) == located(path),
    ensures
        ({
            let node = located(path)->Ok_0.1;
            let out = cat_answer(sdk, path, now);
            let read = read_path(sdk, node, now);
            &&& !(node is Thing && node->Thing_file is Entry) && read is Ok ==> out is Ok
                && out->Ok_0 is Text && out->Ok_0->path == located(path)->Ok_0.0
                && out->Ok_0->content == read->Ok_0
            &&& node is Thing && node->Thing_file is Entry ==> {
                let e = entry_by_index(
                    sdk.documents@,
                    node->Thing_thing,
                    node->Thing_file->Entry_0,
                );
                &&& e is Err ==> out is Err
                &&& e is Ok && e->Ok_0.payload is Image ==> out == Ok::<CatView, ErrorView>(
                    CatView::Image { uri: e->Ok_0.payload->uri },
                )
                &&& e is Ok && !(e->Ok_0.payload is Image) && read is Ok ==> out is Ok
                    && out->Ok_0 is Text && out->Ok_0->content == read->Ok_0
            }
        }),
{
}

} // verus!
