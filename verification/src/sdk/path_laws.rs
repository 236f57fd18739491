//! What requests on virtual paths ask for: what is created, edited, deleted and moved is what the
//! request names, with what it gives; and what a file shows is what the node has.
use super::creates::{kind_of, path_creation, CreateGiven, CreateView};
use super::edits::{
    deletion_answer, operation_of, path_deletion, path_edit, path_move, DeletionView, EditGiven,
    EditView,
};
use super::paths::{entry_by_index, located, read_path};
use super::RemiSdk;
use super::things::{binds, collection_bindings, entries_shown, shown, thing_bindings};
use crate::bindings::{
    binding_json, bindings_fault, bindings_json, bindings_of, law_binding_round_trip, BindingView,
};
use crate::content_registry::{entry_json, payload_fault, payload_of};
use crate::error::ErrorView;
use crate::json::{
    field, float_field, json_pretty, json_read, lemma_lookup_at, text_field, JsonView,
};
use crate::rows::StoredTrigger;
use crate::storage::triggers::is_action;
use crate::table::{first_data, law_first_data, lemma_position_is};
use crate::text::{starts_with, trimmed};
use crate::things_content::{content_of, main_text};
use crate::things_crdt::is_entry;
use crate::things_docs::{ContentView, SetView};
use crate::things_laws::entries_apart;
use crate::things_local::{
    collection_in, has_entry_uuid, has_thing_uuid, law_plain_text_stays, live_thing_in, thing_in,
};
use crate::things_types::CollectionType;
use crate::virtual_path::{action_view, ActionFile, PathView, ThingFile};
use vstd::prelude::*;

verus! {

proof fn lemma_kinds_differ()
    ensures
        "collection"@ != "thing"@,
        "collection"@ != "image"@,
        "collection"@ != "json_object"@,
        "collection"@ != "action_binding"@,
        "thing"@ != "image"@,
        "thing"@ != "json_object"@,
        "thing"@ != "action_binding"@,
        "image"@ != "json_object"@,
        "image"@ != "action_binding"@,
        "json_object"@ != "action_binding"@,
{
    reveal_strlit("collection");
    reveal_strlit("thing");
    reveal_strlit("image");
    reveal_strlit("json_object");
    reveal_strlit("action_binding");
    assert("collection"@.len() == 10 && "thing"@.len() == 5 && "image"@.len() == 5);
    assert("json_object"@.len() == 11 && "action_binding"@.len() == 14);
    assert("thing"@[0] == 't' && "image"@[0] == 'i');
}

proof fn lemma_markdown_field(s: Seq<char>)
    ensures
        text_field(JsonView::Object(seq![("markdown"@, JsonView::Text(s))]), "markdown"@) == Some(
            s,
        ),
{
    lemma_lookup_at(seq![("markdown"@, JsonView::Text(s))], "markdown"@, 0);
}

/// The markdown that a new thing is to have.
pub open spec fn asked_markdown(change: Result<CreateView, ErrorView>) -> Option<Seq<char>> {
    match change {
        Ok(CreateView::Thing { written_thing }) => match written_thing.data {
            Some(data) => text_field(data, "markdown"@),
            None => None,
        },
        _ => None,
    }
}

/// A thing that is asked for under a directory of things has the title, the text and the id that
/// are given, and stands where the path says: in the collection, and under the thing whose
/// directory it is. Without a text it has an empty one.
pub proof fn law_created_thing_is_as_asked(
    set: SetView,
    triggers: Seq<StoredTrigger>,
    path: Seq<char>,
    kind: Seq<char>,
    given: CreateGiven,
    fresh: Seq<char>,
)
    requires
        located(path) is Ok,
        kind_of(kind) == "thing"@,
        given.source_uri is None,
    ensures
        ({
            let node = located(path)->Ok_0.1;
            let out = path_creation(set, triggers, path, kind, None, given, fresh);
            &&& out is Ok <==> (node is Collection && node->Collection_file is Things) || (node
                is Thing && node->Thing_file is Children)
            &&& out is Ok ==> {
                let t = out->Ok_0->written_thing;
                &&& out->Ok_0 is Thing
                &&& given.title is Some ==> Some(t.title) == given.title
                &&& given.content is Some ==> asked_markdown(out) == given.content
                &&& given.content is None ==> asked_markdown(out) == Some(Seq::<char>::empty())
                &&& given.uuid is Some && trimmed(given.uuid->0).len() > 0 ==> Some(t.uuid)
                    == given.uuid
                &&& given.uuid is None ==> t.uuid == fresh
                &&& node is Collection ==> t.collection_uuid == node->Collection_collection
                    && t.parent_uuid is None
                &&& node is Thing ==> t.collection_uuid == node->Thing_collection
                    && t.parent_uuid == Some(node->Thing_thing)
            }
        }),
{
    lemma_kinds_differ();
    reveal_strlit("");
    assert(""@ =~= Seq::<char>::empty());
    lemma_markdown_field(""@);
    if let Some(s) = given.content {
        lemma_markdown_field(s);
    }
}

/// Two requests for a thing that differ in the text only ask for different texts, and two that
/// differ in the title only ask for the same text.
pub proof fn law_text_of_a_new_thing_is_its_own(
    set: SetView,
    triggers: Seq<StoredTrigger>,
    path: Seq<char>,
    kind: Seq<char>,
    given: CreateGiven,
    title: Option<Seq<char>>,
    content: Option<Seq<char>>,
    fresh: Seq<char>,
)
    requires
        located(path) is Ok,
        kind_of(kind) == "thing"@,
        given.source_uri is None,
        path_creation(set, triggers, path, kind, None, given, fresh) is Ok,
        given.content is Some,
        content is Some,
        content != given.content,
    ensures
        asked_markdown(path_creation(set, triggers, path, kind, None, given, fresh))
            != asked_markdown(
            path_creation(
                set,
                triggers,
                path,
                kind,
                None,
                CreateGiven { content, ..given },
                fresh,
            ),
        ),
        asked_markdown(path_creation(set, triggers, path, kind, None, given, fresh))
            == asked_markdown(
            path_creation(set, triggers, path, kind, None, CreateGiven { title, ..given }, fresh),
        ),
{
    law_created_thing_is_as_asked(set, triggers, path, kind, given, fresh);
    law_created_thing_is_as_asked(
        set,
        triggers,
        path,
        kind,
        CreateGiven { content, ..given },
        fresh,
    );
    law_created_thing_is_as_asked(
        set,
        triggers,
        path,
        kind,
        CreateGiven { title, ..given },
        fresh,
    );
}

/// A collection, a picture and an object that are asked for have what is given: the title, the id,
/// the address of the picture without the white space around it, and the value that the
/// text of the object holds.
pub proof fn law_created_node_is_as_asked(
    set: SetView,
    triggers: Seq<StoredTrigger>,
    path: Seq<char>,
    kind: Seq<char>,
    given: CreateGiven,
    fresh: Seq<char>,
)
    requires
        located(path) is Ok,
    ensures
        ({
            let node = located(path)->Ok_0.1;
            let out = path_creation(set, triggers, path, kind, None, given, fresh);
            let id_given = given.uuid is Some && trimmed(given.uuid->0).len() > 0;
            &&& kind_of(kind) == "collection"@ && given.source_uri is None ==> {
                &&& out is Ok <==> node is Root || node is CollectionRoot
                &&& out is Ok ==> out->Ok_0 is Collection
                &&& out is Ok && given.title is Some ==> Some(out->Ok_0->written.title)
                    == given.title
                &&& out is Ok && id_given ==> Some(out->Ok_0->written.uuid) == given.uuid
                &&& out is Ok && given.uuid is None ==> out->Ok_0->written.uuid == fresh
            }
            &&& kind_of(kind) == "image"@ && out is Ok ==> {
                &&& out->Ok_0 is Image && node is Thing && node->Thing_file is Dir
                &&& out->Ok_0->Image_collection == node->Thing_collection
                &&& out->Ok_0->Image_thing == node->Thing_thing
                &&& out->Ok_0->Image_title == given.title
                &&& given.source_uri is Some && out->Ok_0->Image_source_uri == trimmed(
                    given.source_uri->0,
                )
                &&& id_given ==> Some(out->Ok_0->Image_entry_id) == given.uuid
                &&& given.uuid is None ==> out->Ok_0->Image_entry_id == fresh
            }
            &&& kind_of(kind) == "json_object"@ && out is Ok ==> {
                &&& out->Ok_0 is JsonObject && node is Thing && node->Thing_file is Dir
                &&& out->Ok_0->JsonObject_collection == node->Thing_collection
                &&& out->Ok_0->JsonObject_thing == node->Thing_thing
                &&& out->Ok_0->JsonObject_title == given.title
                &&& given.content is Some && trimmed(given.content->0).len() > 0 ==> json_read(
                    trimmed(given.content->0),
                ) == Ok::<JsonView, Seq<char>>(out->Ok_0->JsonObject_data)
                &&& given.content is None ==> out->Ok_0->JsonObject_data == JsonView::Object(
                    Seq::empty(),
                )
            }
        }),
{
    lemma_kinds_differ();
}

/// The binding that a creation asks for, with the bindings before it.
pub open spec fn asked_binding(change: CreateView) -> Option<BindingView> {
    match change {
        CreateView::CollectionBinding { collection, binding, bindings } => Some(binding),
        CreateView::ThingBinding { collection, thing, binding, bindings } => Some(binding),
        CreateView::TriggerBinding { trigger, binding } => Some(binding),
        _ => None,
    }
}

/// A binding that is asked for is one to the action that is named, with the title as its label and
/// the value of the text as its arguments. A collection and a thing keep the bindings that
/// they have, and the new one comes last; one to an action that they are bound to already
/// is refused.
pub proof fn law_created_binding_is_as_asked(
    set: SetView,
    triggers: Seq<StoredTrigger>,
    path: Seq<char>,
    kind: Seq<char>,
    given: CreateGiven,
    fresh: Seq<char>,
)
    requires
        located(path) is Ok,
        kind_of(kind) == "action_binding"@,
        path_creation(set, triggers, path, kind, None, given, fresh) is Ok,
    ensures
        ({
            let node = located(path)->Ok_0.1;
            let change = path_creation(set, triggers, path, kind, None, given, fresh)->Ok_0;
            &&& asked_binding(change) matches Some(b) && given.action_uuid is Some
                && b.action_uuid == trimmed(given.action_uuid->0) && b.label_override
                == given.title
            &&& given.content is Some && trimmed(given.content->0).len() > 0 ==> json_read(
                trimmed(given.content->0),
            ) == Ok::<JsonView, Seq<char>>(asked_binding(change)->0.args_json)
            &&& change matches CreateView::CollectionBinding { collection, binding, bindings }
                ==> node is Collection && collection == node->Collection_collection
                && collection_bindings(set, collection) is Ok && bindings
                == collection_bindings(set, collection)->Ok_0.push(binding) && forall|i: int|
                0 <= i < bindings.len() - 1 ==> (#[trigger] bindings[i]).action_uuid
                    != binding.action_uuid
            &&& change matches CreateView::ThingBinding { collection, thing, binding, bindings }
                ==> node is Thing && thing == node->Thing_thing && collection
                == node->Thing_collection && thing_bindings(set, thing) is Ok && bindings
                == thing_bindings(set, thing)->Ok_0.push(binding) && forall|i: int|
                0 <= i < bindings.len() - 1 ==> (#[trigger] bindings[i]).action_uuid
                    != binding.action_uuid
            &&& change matches CreateView::TriggerBinding { trigger, binding } ==> node is Trigger
                && trigger == node->Trigger_trigger
        }),
{
    lemma_kinds_differ();
    let node = located(path)->Ok_0.1;
    let change = path_creation(set, triggers, path, kind, None, given, fresh)->Ok_0;
    let action = trimmed(given.action_uuid->0);
    if let CreateView::CollectionBinding { collection, binding, bindings } = change {
        lemma_no_such_binding(collection_bindings(set, collection)->Ok_0, action);
    }
    if let CreateView::ThingBinding { collection, thing, binding, bindings } = change {
        lemma_no_such_binding(thing_bindings(set, thing)->Ok_0, action);
    }
}

proof fn lemma_no_such_binding(list: Seq<BindingView>, action: Seq<char>)
    ensures
        !(first_data(list, binds(action)) is Some) ==> forall|i: int|
            0 <= i < list.len() ==> (#[trigger] list[i]).action_uuid != action,
{
    law_first_data(list, binds(action));
    if !(first_data(list, binds(action)) is Some) {
        assert forall|i: int| 0 <= i < list.len() implies (#[trigger] list[i]).action_uuid
            != action by {
            assert(!binds(action)(list[i]));
        }
    }
}

/// An edit that is accepted asks for what is given, of the node that the path names: another title,
/// status, card or text is the text that is given; other data and another schema are the
/// value that is given, of the entry at the index.
pub proof fn law_edit_asks_for_what_is_given(
    sdk: RemiSdk,
    path: Seq<char>,
    given: EditGiven,
    now: Seq<char>,
    fresh: Seq<char>,
    s: Seq<char>,
)
    requires
        path_edit(sdk, path, given, now, fresh) is Ok,
        given.value == Some(JsonView::Text(s)),
    ensures
        ({
            let node = located(path)->Ok_0.1;
            let change = path_edit(sdk, path, given, now, fresh)->Ok_0.1;
            &&& path_edit(sdk, path, given, now, fresh)->Ok_0.0 == located(path)->Ok_0.0
            &&& node is Collection && node->Collection_file is Name ==> change is CollectionName
                && change->written.uuid == node->Collection_collection && change->written.title
                == s
            &&& node is Collection && node->Collection_file is CardJsx ==> change
                == (EditView::CollectionCard {
                collection: node->Collection_collection,
                card_jsx: s,
            })
            &&& node is Thing && node->Thing_file is Name ==> change is ThingName
                && change->written_thing.uuid == node->Thing_thing && change->written_thing.title
                == s && change->written_thing.data is None
            &&& node is Thing && node->Thing_file is Status ==> change == (EditView::ThingStatus {
                thing: node->Thing_thing,
                status: s,
            })
            &&& node is Thing && node->Thing_file is Content ==> change is Content
                && change->Content_thing == node->Thing_thing && change->Content_text == Some(s)
                && change->Content_operation == operation_of(given.operation)
                && change->Content_old_str == given.old_str && change->Content_new_str
                == given.new_str && change->Content_line_number == given.line_number
        }),
{
    let node = located(path)->Ok_0.1;
    if let PathView::Thing { collection, thing, file } = node {
        if file is Name {
            let list = shown(sdk, false, now)->Ok_0.things;
            law_first_data(list, has_thing_uuid(thing));
        }
    }
}

/// An edit of the data or the schema of an object asks for the value that is given, of the entry
/// at the index in the path.
pub proof fn law_edit_of_an_object_asks_for_the_value(
    sdk: RemiSdk,
    path: Seq<char>,
    given: EditGiven,
    now: Seq<char>,
    fresh: Seq<char>,
    index: nat,
)
    requires
        path_edit(sdk, path, given, now, fresh) is Ok,
        located(path)->Ok_0.1 is Thing,
    ensures
        ({
            let node = located(path)->Ok_0.1;
            let thing = node->Thing_thing;
            let change = path_edit(sdk, path, given, now, fresh)->Ok_0.1;
            let e = entry_by_index(sdk.documents@, thing, index);
            &&& node->Thing_file == ThingFile::EntryData(index) ==> e is Ok && given.value is Some
                && change == (EditView::EntryData {
                thing,
                index,
                entry_id: e->Ok_0.id,
                data: given.value->0,
            })
            &&& node->Thing_file == ThingFile::EntrySchema(index) ==> e is Ok && change == (
            EditView::EntrySchema { thing, index, entry_id: e->Ok_0.id, schema: given.value })
            &&& node->Thing_file == ThingFile::Entry(index) ==> e is Ok && change is Entry
                && change->Entry_thing == thing && change->Entry_index == index
                && change->Entry_update.id == e->Ok_0.id
            &&& node->Thing_file == ThingFile::Entry(index) && given.value is Some && text_field(
                given.value->0,
                "title"@,
            ) is Some ==> change->Entry_update.title == Some(
                text_field(given.value->0, "title"@),
            )
            &&& node->Thing_file == ThingFile::Entry(index) && given.value is Some && field(
                given.value->0,
                "title"@,
            ) is None ==> change->Entry_update.title is None
            &&& node->Thing_file == ThingFile::Entry(index) && given.value is Some && field(
                given.value->0,
                "payload"@,
            ) is None ==> change->Entry_update.payload is None
        }),
{
}

/// Bindings are edited to those that are given: none for null, the one of an object, and all of a
/// list, in their order.
pub proof fn law_edit_of_bindings_asks_for_them(
    sdk: RemiSdk,
    path: Seq<char>,
    given: EditGiven,
    now: Seq<char>,
    fresh: Seq<char>,
    list: Seq<BindingView>,
)
    requires
        located(path) is Ok,
        given.value == Some(bindings_json(list)) || (list.len() == 1 && given.value == Some(
            binding_json(list[0]),
        )) || (list.len() == 0 && given.value == Some(JsonView::Null)),
    ensures
        ({
            let node = located(path)->Ok_0.1;
            let out = path_edit(sdk, path, given, now, fresh);
            &&& node is Collection && node->Collection_file is Actions ==> out is Ok
                && out->Ok_0.1 == (EditView::CollectionActions {
                collection: node->Collection_collection,
                bindings: list,
            })
            &&& node is Thing && node->Thing_file is Actions ==> out is Ok && out->Ok_0.1 == (
            EditView::ThingActions { thing: node->Thing_thing, bindings: list })
        }),
{
    let items = bindings_json(list)->List_0;
    law_bindings_come_back(list);
    if list.len() == 1 {
        law_binding_round_trip(list[0]);
        assert(seq![list[0]] =~= list);
    }
    if list.len() == 0 {
        assert(list =~= Seq::empty());
    }
}

/// A list of bindings that is written out and read again is the same list.
pub proof fn law_bindings_come_back(list: Seq<BindingView>)
    ensures
        bindings_fault(bindings_json(list)->List_0) is None,
        bindings_of(bindings_json(list)->List_0) == list,
    decreases list.len(),
{
    let items = bindings_json(list)->List_0;
    if list.len() > 0 {
        let front = list.drop_last();
        law_bindings_come_back(front);
        law_binding_round_trip(list.last());
        assert(items.drop_last() =~= bindings_json(front)->List_0);
        assert(items.last() == binding_json(list.last()));
    }
    assert forall|i: int| 0 <= i < list.len() implies #[trigger] bindings_of(items)[i]
        == list[i] by {
        law_binding_round_trip(list[i]);
        assert(items[i] == binding_json(list[i]));
    }
    assert(bindings_of(items) =~= list);
}

/// A deletion that is accepted asks for the node that the path names: the collection, the thing, or
/// the content entry at the index. The answer says whether it was deleted.
pub proof fn law_deletion_asks_for_the_node(
    sdk: RemiSdk,
    path: Seq<char>,
    now: Seq<char>,
    deleted: bool,
)
    requires
        path_deletion(sdk, path, now) is Ok,
    ensures
        ({
            let node = located(path)->Ok_0.1;
            let (p, change) = path_deletion(sdk, path, now)->Ok_0;
            &&& p == located(path)->Ok_0.0
            &&& match change {
                DeletionView::Collection { collection, before } => node is Collection
                    && node->Collection_file is Dir && collection == node->Collection_collection,
                DeletionView::Thing { collection, thing } => node is Thing && node->Thing_file
                    is Dir && collection == node->Thing_collection && thing == node->Thing_thing,
                DeletionView::Entry { thing, index, entry_id } => node is Thing && node->Thing_file
                    == ThingFile::Entry(index) && thing == node->Thing_thing && entry_by_index(
                    sdk.documents@,
                    thing,
                    index,
                ) is Ok && entry_id == entry_by_index(sdk.documents@, thing, index)->Ok_0.id,
            }
            &&& field(
                deletion_answer(p, change, Ok::<bool, ErrorView>(deleted))->Ok_0,
                "path"@,
            ) == Some(JsonView::Text(p))
            &&& !(change is Entry) ==> field(
                deletion_answer(p, change, Ok::<bool, ErrorView>(deleted))->Ok_0,
                "ok"@,
            ) == Some(JsonView::Bool(deleted))
        }),
{
    let (p, change) = path_deletion(sdk, path, now)->Ok_0;
    let entries = deletion_answer(p, change, Ok::<bool, ErrorView>(deleted))->Ok_0->Object_0;
    reveal_strlit("message");
    reveal_strlit("ok");
    reveal_strlit("path");
    reveal_strlit("deleted_entry_id");
    assert("message"@.len() == 7 && "ok"@.len() == 2 && "path"@.len() == 4);
    assert("deleted_entry_id"@.len() == 16);
    if change is Entry {
        lemma_lookup_at(entries, "path"@, 3);
    } else {
        lemma_lookup_at(entries, "ok"@, 1);
        lemma_lookup_at(entries, "path"@, 2);
    }
}

/// A move that is accepted takes the thing that the first path names, from its collection there, to
/// the place that the second path names: the things of a collection, or those of a thing.
/// The thing is one that is shown.
pub proof fn law_move_goes_where_it_is_asked(
    sdk: RemiSdk,
    from: Seq<char>,
    to: Seq<char>,
    now: Seq<char>,
)
    requires
        path_move(sdk, from, to, now) is Ok,
    ensures
        ({
            let m = path_move(sdk, from, to, now)->Ok_0;
            let source = located(from)->Ok_0.1;
            let target = located(to)->Ok_0.1;
            &&& located(from) is Ok && located(to) is Ok
            &&& source is Thing && source->Thing_file is Dir
            &&& m.thing == source->Thing_thing
            &&& m.source_collection == source->Thing_collection
            &&& (target is Collection && target->Collection_file is Things && m.target_collection
                == target->Collection_collection && m.target_parent is None) || (target is Thing
                && target->Thing_file is Children && m.target_collection
                == target->Thing_collection && m.target_parent == Some(target->Thing_thing))
            &&& m.from_path == located(from)->Ok_0.0 && m.to_path == located(to)->Ok_0.0
            &&& shown(sdk, false, now) is Ok && exists|i: int|
                0 <= i < shown(sdk, false, now)->Ok_0.things.len() && (#[trigger] shown(
                    sdk,
                    false,
                    now,
                )->Ok_0.things[i]).uuid == m.thing
        }),
{
    let m = path_move(sdk, from, to, now)->Ok_0;
    let list = shown(sdk, false, now)->Ok_0.things;
    law_first_data(list, has_thing_uuid(m.thing));
    let t = thing_in(list, m.thing)->0;
    let i = choose|i: int| 0 <= i < list.len() && list[i] == t;
    assert(list[i].uuid == m.thing);
}

/// The files `name` and `status` hold the title and the status of what is shown under the id in
/// the path.
pub proof fn law_files_hold_what_is_shown(
    sdk: RemiSdk,
    path: PathView,
    now: Seq<char>,
)
    requires
        read_path(sdk, path, now) is Ok,
    ensures
        ({
            let text = read_path(sdk, path, now)->Ok_0;
            let s = shown(sdk, false, now)->Ok_0;
            &&& path is Thing && path->Thing_file is Name ==> exists|i: int|
                0 <= i < s.things.len() && (#[trigger] s.things[i]).uuid == path->Thing_thing
                    && text == s.things[i].title
            &&& path is Thing && path->Thing_file is Status ==> exists|i: int|
                0 <= i < s.things.len() && (#[trigger] s.things[i]).uuid == path->Thing_thing
                    && text == s.things[i].status
            &&& path is Collection && path->Collection_file is Name ==> exists|i: int|
                0 <= i < s.collections.len() && (#[trigger] s.collections[i]).uuid
                    == path->Collection_collection && text == s.collections[i].title
        }),
{
    let s = shown(sdk, false, now)->Ok_0;
    if let PathView::Thing { collection, thing, file } = path {
        if file is Name || file is Status {
            law_first_data(s.things, has_thing_uuid(thing));
            let t = thing_in(s.things, thing)->0;
            let i = choose|i: int| 0 <= i < s.things.len() && s.things[i] == t;
            assert(s.things[i].uuid == thing);
        }
    }
    if let PathView::Collection { collection, file } = path {
        if file is Name {
            law_first_data(s.collections, has_entry_uuid(collection));
            let c = collection_in(s.collections, collection)->0;
            let i = choose|i: int| 0 <= i < s.collections.len() && s.collections[i] == c;
            assert(s.collections[i].uuid == collection);
        }
    }
}

/// The file `content.md` of a live thing holds its text where no content entry is referred to in
/// it, and nothing where the thing has no text.
pub proof fn law_content_file_holds_the_text(
    sdk: RemiSdk,
    collection: Seq<char>,
    thing: Seq<char>,
    now: Seq<char>,
)
    requires
        live_thing_in(sdk.documents@, collection, thing) is Some,
        live_thing_in(sdk.documents@, collection, thing)->0.entries.len() == 0,
    ensures
        ({
            let path = PathView::Thing { collection, thing, file: ThingFile::Content };
            let text = main_text(content_of(sdk.documents@, thing));
            &&& text is Some ==> read_path(sdk, path, now) == Ok::<Seq<char>, ErrorView>(text->0)
            &&& text is None ==> read_path(sdk, path, now) == Ok::<Seq<char>, ErrorView>(
                Seq::empty(),
            )
        }),
{
    let t = live_thing_in(sdk.documents@, collection, thing)->0;
    reveal_strlit("");
    assert(""@ =~= Seq::<char>::empty());
    let text = match main_text(content_of(sdk.documents@, thing)) {
        Some(text) => text,
        None => ""@,
    };
    law_plain_text_stays(text, collection, thing, t.entries, t.entries.len() as int);
}

/// The files of a content entry hold the entry at the index, and the data and the schema of the
/// object that it is: what the documents that it names hold.
pub proof fn law_entry_files_hold_the_entry(
    sdk: RemiSdk,
    collection: Seq<char>,
    thing: Seq<char>,
    index: nat,
    now: Seq<char>,
    j: JsonView,
)
    requires
        entries_shown(sdk.documents@, thing) is Ok,
        index < entries_shown(sdk.documents@, thing)->Ok_0.len(),
        entries_apart(entries_shown(sdk.documents@, thing)->Ok_0),
    ensures
        ({
            let e = entries_shown(sdk.documents@, thing)->Ok_0[index as int];
            let set = sdk.documents@;
            &&& read_path(
                sdk,
                PathView::Thing { collection, thing, file: ThingFile::Entry(index) },
                now,
            ) == Ok::<Seq<char>, ErrorView>(json_pretty(entry_json(e)))
            &&& e.payload is JsonObject && content_of(set, e.payload->data_doc_uuid) == Some(
                ContentView::Payload(j),
            ) ==> read_path(
                sdk,
                PathView::Thing { collection, thing, file: ThingFile::EntryData(index) },
                now,
            ) == Ok::<Seq<char>, ErrorView>(json_pretty(j))
            &&& e.payload is JsonObject && e.payload->schema_doc_uuid is Some && content_of(
                set,
                e.payload->schema_doc_uuid->0,
            ) == Some(ContentView::Payload(j)) ==> read_path(
                sdk,
                PathView::Thing { collection, thing, file: ThingFile::EntrySchema(index) },
                now,
            ) == Ok::<Seq<char>, ErrorView>(json_pretty(j))
        }),
{
    let entries = entries_shown(sdk.documents@, thing)->Ok_0;
    let e = entries[index as int];
    assert forall|k: int| 0 <= k < index implies !is_entry(e.id)(#[trigger] entries[k]) by {
        assert(entries[k].id != entries[index as int].id);
    }
    lemma_position_is(entries, is_entry(e.id), index as int);
}

/// The files of an action hold its title and its script.
pub proof fn law_action_files_hold_the_action(
    sdk: RemiSdk,
    action: Seq<char>,
    now: Seq<char>,
    i: int,
)
    requires
        0 <= i < sdk.storage.actions.data().len(),
        sdk.storage.actions.data()[i].action_uuid@ == action,
        forall|k: int|
            0 <= k < sdk.storage.actions.data().len() && k != i ==> (
            #[trigger] sdk.storage.actions.data()[k]).action_uuid@ != action,
    ensures
        read_path(sdk, action_view(action, ActionFile::Name), now) == Ok::<Seq<char>, ErrorView>(
            sdk.storage.actions.data()[i].title@,
        ),
        read_path(sdk, action_view(action, ActionFile::Script), now) == Ok::<
            Seq<char>,
            ErrorView,
        >(sdk.storage.actions.data()[i].script_source@),
{
    let data = sdk.storage.actions.data();
    law_first_data(data, is_action(action));
    assert(is_action(action)(data[i]));
    let a = first_data(data, is_action(action))->0;
    let k = choose|k: int| 0 <= k < data.len() && data[k] == a;
    assert(k == i);
}

/// A new title is all that a renaming asks for: a thing stays of its kind, in its collection and
/// under its parent, without a new text; a collection stays of its type and of its app.
pub proof fn law_renaming_moves_nothing(
    sdk: RemiSdk,
    path: Seq<char>,
    given: EditGiven,
    now: Seq<char>,
    fresh: Seq<char>,
    s: Seq<char>,
)
    requires
        path_edit(sdk, path, given, now, fresh) is Ok,
        given.value == Some(JsonView::Text(s)),
    ensures
        ({
            let node = located(path)->Ok_0.1;
            let change = path_edit(sdk, path, given, now, fresh)->Ok_0.1;
            let seen = shown(sdk, false, now)->Ok_0;
            &&& node is Thing && node->Thing_file is Name ==> exists|i: int|
                0 <= i < seen.things.len() && (#[trigger] seen.things[i]).uuid
                    == node->Thing_thing && change->written_thing.datatype
                    == seen.things[i].datatype && change->written_thing.collection_uuid
                    == seen.things[i].collection_uuid && change->written_thing.parent_uuid
                    == seen.things[i].parent_uuid && change->written_thing.data is None
            &&& node is Collection && node->Collection_file is Name ==> exists|i: int|
                0 <= i < seen.collections.len() && (#[trigger] seen.collections[i]).uuid
                    == node->Collection_collection && change->written.collection_type
                    == seen.collections[i].collection_type && change->written.app_id
                    == seen.collections[i].app_id
        }),
{
    let node = located(path)->Ok_0.1;
    let seen = shown(sdk, false, now)->Ok_0;
    if let PathView::Thing { collection, thing, file } = node {
        if file is Name {
            law_first_data(seen.things, has_thing_uuid(thing));
            let t = thing_in(seen.things, thing)->0;
            let i = choose|i: int| 0 <= i < seen.things.len() && seen.things[i] == t;
            assert(seen.things[i].uuid == thing);
        }
    }
    if let PathView::Collection { collection, file } = node {
        if file is Name {
            law_first_data(seen.collections, has_entry_uuid(collection));
            let c = collection_in(seen.collections, collection)->0;
            let i = choose|i: int| 0 <= i < seen.collections.len() && seen.collections[i] == c;
            assert(seen.collections[i].uuid == collection);
        }
    }
}

/// An edit of an entry asks for the order and the payload that are given, and for no other ones.
pub proof fn law_edit_of_an_entry_asks_for_its_parts(
    sdk: RemiSdk,
    path: Seq<char>,
    given: EditGiven,
    now: Seq<char>,
    fresh: Seq<char>,
    index: nat,
    p: JsonView,
)
    requires
        path_edit(sdk, path, given, now, fresh) is Ok,
        located(path)->Ok_0.1 is Thing,
        located(path)->Ok_0.1->Thing_file == ThingFile::Entry(index),
        given.value is Some,
    ensures
        ({
            let update = path_edit(sdk, path, given, now, fresh)->Ok_0.1->Entry_update;
            let j = given.value->0;
            &&& update.order == float_field(j, "order"@)
            &&& field(j, "payload"@) == Some(p) ==> payload_fault(p) is None && update.payload
                == Some(payload_of(p, fresh))
            &&& field(j, "payload"@) is None ==> update.payload is None
        }),
{
}

/// What is created without a title gets one; a thing is of the markdown kind, a collection is an
/// ordinary one, and a picture must have an address of the app and comes with the orders of
/// the entries that are there.
pub proof fn law_creations_have_what_is_missing(
    set: SetView,
    triggers: Seq<StoredTrigger>,
    path: Seq<char>,
    kind: Seq<char>,
    given: CreateGiven,
    fresh: Seq<char>,
)
    requires
        located(path) is Ok,
        path_creation(set, triggers, path, kind, None, given, fresh) is Ok,
    ensures
        ({
            let change = path_creation(set, triggers, path, kind, None, given, fresh)->Ok_0;
            &&& change matches CreateView::Thing { written_thing } ==> {
                &&& written_thing.datatype == "markdown"@
                &&& given.title is None ==> written_thing.title == "New Thing"@
            }
            &&& change matches CreateView::Collection { written } ==> {
                &&& written.collection_type == CollectionType::Normal && written.app_id is None
                &&& given.title is None ==> written.title == "New Collection"@
            }
            &&& change matches CreateView::Image {
                collection,
                thing,
                entry_id,
                title,
                source_uri,
                orders,
            } ==> {
                &&& starts_with(source_uri, "remi://"@)
                &&& entries_shown(set, thing) is Ok && orders.len() == entries_shown(
                    set,
                    thing,
                )->Ok_0.len()
                &&& forall|i: int|
                    0 <= i < orders.len() ==> #[trigger] orders[i] == entries_shown(
                        set,
                        thing,
                    )->Ok_0[i].order
            }
        }),
{
    lemma_kinds_differ();
}

} // verus!
