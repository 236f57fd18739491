//! What the client tells the search of, which call an action gets, and what is read of bindings and
//! objects.
use super::actors::{is_actor_meta, FetchedEntity};
use super::chat::{session_active, session_at, session_written};
use super::notifications::notification_indexed;
use super::path_laws::law_bindings_come_back;
use super::{rebuild_asked, search_asked, RemiSdk};
use super::things::{
    binds, bound_call, collection_told_at, entries_shown, event_after, event_until, object_data,
    object_schema, shown, thing_told_at, things_or_none, ThingsLocalEvent,
};
use crate::bindings::{bindings_json, kept_bindings, BindingView};
use crate::content_registry::PayloadView;
use crate::error::ErrorView;
use crate::json::{law_with_entry, opt_view, with_entry, JsonView};
use crate::rows::{ActionInvocationSourceKind, ActorMetaEntry};
use crate::search::documents::{
    collection_document, entity_doc_id, notification_document, thing_document, IngestView,
    SearchEntityKind,
};
use crate::search::worker::{CommandView, ServiceView};
use crate::storage::chat::session_taken_over;
use crate::storage::{has_session_id, Storage};
use crate::storage::notifications::is_notification;
use crate::table::{first_data, law_first_data, law_upsert_read_back, lemma_position_is};
use crate::things_content::content_of;
use crate::things_crdt::is_entry;
use crate::things_docs::{ContentView, SetView};
use crate::things_laws::entries_apart;
use crate::things_local::{
    collection_in, found_collection, found_thing, has_entry_uuid, has_thing_uuid,
    listed_collections, listed_things, thing_in, SnapshotView,
};
use crate::things_types::{CollectionEntryView, ThingEntryView};
use vstd::prelude::*;

verus! {

/// Asking the search for something puts it at the end of what is asked for; what was asked for
/// before stays.
pub proof fn law_search_is_asked(old: ServiceView, new: ServiceView, action: IngestView)
    requires
        search_asked(old, new, seq![action]),
    ensures
        new.commands.len() == old.commands.len() + 1,
        new.commands.last() == CommandView::Apply(seq![action]),
        forall|i: int|
            0 <= i < old.commands.len() ==> #[trigger] new.commands[i] == old.commands[i],
{
}

/// Asking for a rebuild puts it at the end of what is asked for.
pub proof fn law_rebuild_is_asked(old: ServiceView, new: ServiceView)
    requires
        rebuild_asked(old, new),
    ensures
        new.commands.len() == old.commands.len() + 1,
        new.commands.last() == CommandView::Rebuild,
        forall|i: int|
            0 <= i < old.commands.len() ==> #[trigger] new.commands[i] == old.commands[i],
{
}

/// The search is told of a thing what is shown of it: its document is put in where it is shown, and
/// taken out where it is not.
pub proof fn law_search_is_told_of_things(
    old: RemiSdk,
    new: RemiSdk,
    uuid: Seq<char>,
    now: Seq<char>,
)
    requires
        thing_told_at(old, new, uuid, now),
        shown(old, true, now) is Ok,
    ensures
        ({
            let things = shown(old, true, now)->Ok_0.things;
            let told = new.search@.commands.last();
            &&& new.search@.commands.len() == old.search@.commands.len() + 1
            &&& (exists|i: int| 0 <= i < things.len() && (#[trigger] things[i]).uuid == uuid)
                ==> exists|i: int|
                0 <= i < things.len() && (#[trigger] things[i]).uuid == uuid && told
                    == CommandView::Apply(
                    seq![IngestView::Upsert { document: thing_document(things[i]) }],
                )
            &&& !(exists|i: int| 0 <= i < things.len() && (#[trigger] things[i]).uuid == uuid)
                ==> told == CommandView::Apply(
                seq![IngestView::Delete { doc_id: entity_doc_id(SearchEntityKind::Thing, uuid) }],
            )
        }),
{
    let things = shown(old, true, now)->Ok_0.things;
    law_first_data(things, has_thing_uuid(uuid));
    match thing_in(things, uuid) {
        Some(t) => {
            let i = choose|i: int| 0 <= i < things.len() && things[i] == t;
            assert(things[i].uuid == uuid);
        },
        None => {
            if exists|i: int| 0 <= i < things.len() && (#[trigger] things[i]).uuid == uuid {
                let i = choose|i: int| 0 <= i < things.len() && (#[trigger] things[i]).uuid == uuid;
                assert(has_thing_uuid(uuid)(things[i]));
            }
        },
    }
}

/// The search is told of a collection what is shown of it.
pub proof fn law_search_is_told_of_collections(
    old: RemiSdk,
    new: RemiSdk,
    uuid: Seq<char>,
    now: Seq<char>,
)
    requires
        collection_told_at(old, new, uuid, now),
        shown(old, false, now) is Ok,
    ensures
        ({
            let list = shown(old, false, now)->Ok_0.collections;
            let told = new.search@.commands.last();
            &&& new.search@.commands.len() == old.search@.commands.len() + 1
            &&& (exists|i: int| 0 <= i < list.len() && (#[trigger] list[i]).uuid == uuid)
                ==> exists|i: int|
                0 <= i < list.len() && (#[trigger] list[i]).uuid == uuid && told
                    == CommandView::Apply(
                    seq![IngestView::Upsert { document: collection_document(list[i]) }],
                )
            &&& !(exists|i: int| 0 <= i < list.len() && (#[trigger] list[i]).uuid == uuid)
                ==> told == CommandView::Apply(
                seq![
                    IngestView::Delete {
                        doc_id: entity_doc_id(SearchEntityKind::Collection, uuid),
                    },
                ],
            )
        }),
{
    let list = shown(old, false, now)->Ok_0.collections;
    law_first_data(list, has_entry_uuid(uuid));
    match collection_in(list, uuid) {
        Some(c) => {
            let i = choose|i: int| 0 <= i < list.len() && list[i] == c;
            assert(list[i].uuid == uuid);
        },
        None => {
            if exists|i: int| 0 <= i < list.len() && (#[trigger] list[i]).uuid == uuid {
                let i = choose|i: int| 0 <= i < list.len() && (#[trigger] list[i]).uuid == uuid;
                assert(has_entry_uuid(uuid)(list[i]));
            }
        },
    }
}

/// An action is called with the arguments of a binding to it, for the entity that is bound to it; a
/// call is refused where there is no binding to the action.
pub proof fn law_calls_have_the_bound_arguments(
    list: Seq<BindingView>,
    source_kind: ActionInvocationSourceKind,
    device: Seq<char>,
    entity: Seq<char>,
    action: Seq<char>,
)
    ensures
        ({
            let out = bound_call(
                Ok::<Seq<BindingView>, ErrorView>(list),
                source_kind,
                device,
                entity,
                action,
            );
            &&& out is Ok <==> exists|i: int|
                0 <= i < list.len() && (#[trigger] list[i]).action_uuid == action
            &&& out is Ok ==> exists|i: int|
                0 <= i < list.len() && (#[trigger] list[i]).action_uuid == action
                    && out->Ok_0.args_json == list[i].args_json
            &&& out is Ok ==> out->Ok_0.action_uuid == action && out->Ok_0.source_entity_uuid
                == entity && out->Ok_0.device_id == device && out->Ok_0.source_kind == source_kind
            &&& out is Ok && source_kind == ActionInvocationSourceKind::CollectionManual
                ==> out->Ok_0.source_entity_type == "collection"@
            &&& out is Ok && source_kind == ActionInvocationSourceKind::ThingManual
                ==> out->Ok_0.source_entity_type == "thing"@
        }),
{
    law_first_data(list, binds(action));
    if let Some(b) = first_data(list, binds(action)) {
        let i = choose|i: int| 0 <= i < list.len() && list[i] == b;
        assert(list[i].action_uuid == action);
    } else {
        if exists|i: int| 0 <= i < list.len() && (#[trigger] list[i]).action_uuid == action {
            let i = choose|i: int|
                0 <= i < list.len() && (#[trigger] list[i]).action_uuid == action;
            assert(binds(action)(list[i]));
        }
    }
}

/// Bindings that are kept among the attributes are read as they were written, whatever else stands
/// there.
pub proof fn law_kept_bindings_are_read(
    entries: Seq<(Seq<char>, JsonView)>,
    list: Seq<BindingView>,
)
    ensures
        kept_bindings(
            Some(
                JsonView::Object(
                    with_entry(entries, "action_bindings"@, bindings_json(list)),
                ),
            ),
        ) == list,
        kept_bindings(None) == Seq::<BindingView>::empty(),
{
    law_with_entry(entries, "action_bindings"@, bindings_json(list), "action_bindings"@);
    law_bindings_come_back(list);
}

/// What is read of an object is what the documents hold that its entry names.
pub proof fn law_objects_are_read_from_their_documents(
    set: SetView,
    thing: Seq<char>,
    i: int,
    data: JsonView,
)
    requires
        entries_shown(set, thing) is Ok,
        entries_apart(entries_shown(set, thing)->Ok_0),
        0 <= i < entries_shown(set, thing)->Ok_0.len(),
    ensures
        ({
            let e = entries_shown(set, thing)->Ok_0[i];
            &&& e.payload matches PayloadView::JsonObject { data_doc_uuid, schema_doc_uuid } ==> {
                &&& content_of(set, data_doc_uuid) == Some(ContentView::Payload(data))
                    ==> object_data(set, thing, e.id) == Ok::<Option<JsonView>, ErrorView>(
                    Some(data),
                )
                &&& content_of(set, data_doc_uuid) is None ==> object_data(set, thing, e.id)
                    == Ok::<Option<JsonView>, ErrorView>(None)
                &&& schema_doc_uuid is None ==> object_schema(set, thing, e.id) == Ok::<
                    Option<JsonView>,
                    ErrorView,
                >(None)
                &&& schema_doc_uuid is Some && content_of(set, schema_doc_uuid->0) == Some(
                    ContentView::Payload(data),
                ) ==> object_schema(set, thing, e.id) == Ok::<Option<JsonView>, ErrorView>(
                    Some(data),
                )
            }
            &&& !(e.payload is JsonObject) ==> object_data(set, thing, e.id) is Err
                && object_schema(set, thing, e.id) is Err
        }),
{
    let entries = entries_shown(set, thing)->Ok_0;
    let e = entries[i];
    assert forall|k: int| 0 <= k < i implies !is_entry(e.id)(#[trigger] entries[k]) by {
        assert(entries[k].id != entries[i].id);
    }
    lemma_position_is(entries, is_entry(e.id), i);
}

/// What is kept of who made an entity is its creator: an app where the creator is one, and else a
/// user; an app without a name has none.
pub proof fn law_creators_are_kept(m: ActorMetaEntry, e: FetchedEntity, is_collection: bool)
    requires
        is_actor_meta(m, e, is_collection),
    ensures
        m.uuid@ == e.uuid@ && m.is_collection == is_collection,
        e.creator is None ==> m.actor_type@ == "user"@ && m.actor_app_id is None
            && m.actor_display_name is None,
        e.creator matches Some(c) ==> {
            &&& c.actor_type == 1 ==> m.actor_type@ == "application"@
            &&& c.actor_type != 1 ==> m.actor_type@ == "user"@
            &&& c.app_id@.len() > 0 ==> opt_view(m.actor_app_id) == Some(c.app_id@)
            &&& c.app_id@.len() == 0 ==> m.actor_app_id is None
            &&& c.app_name@.len() > 0 ==> opt_view(m.actor_display_name) == Some(c.app_name@)
            &&& c.app_name@.len() == 0 ==> m.actor_display_name is None
        },
{
}

/// A conversation that is written is found with the title and the number of messages that are
/// given, active now; one that was there keeps the time it came to be.
pub proof fn law_written_session_is_found(
    old: Storage,
    new: Storage,
    id: String,
    title: Option<String>,
    count: i32,
    now: i64,
)
    requires
        session_written(old, new, id, title, count, now),
    ensures
        first_data(new.chat_sessions.data(), has_session_id(id@)) matches Some(s)
            && s.session_id@ == id@ && s.title == title && s.message_count == count
            && s.last_activity == now && (first_data(old.chat_sessions.data(), has_session_id(id@))
            is None ==> s.created_at == now),
        first_data(old.chat_sessions.data(), has_session_id(id@)) matches Some(was) ==> first_data(
            new.chat_sessions.data(),
            has_session_id(id@),
        )->0.created_at == was.created_at,
{
    let hit = has_session_id(id@);
    let session = session_at(id, title, count, now);
    law_upsert_read_back(old.chat_sessions.rows@, hit, session_taken_over(session), session);
    law_first_data(old.chat_sessions.data(), hit);
}

/// A snapshot without things is one with them but for the things.
pub proof fn law_things_are_left_out(s: SnapshotView)
    ensures
        things_or_none(Ok::<SnapshotView, ErrorView>(s), true) == Ok::<SnapshotView, ErrorView>(s),
        things_or_none(Ok::<SnapshotView, ErrorView>(s), false) matches Ok(out)
            && out.things.len() == 0 && out.collections == s.collections && out.dirty == s.dirty,
{
}

/// An event is either acknowledged or still to be watched, by its id.
pub proof fn law_events_are_watched_after_the_last(e: ThingsLocalEvent, id: i64)
    ensures
        event_after(id)(e) <==> e.event_id > id,
        event_until(id)(e) <==> e.event_id <= id,
        event_after(id)(e) != event_until(id)(e),
{
}

/// The search is told of a notification what is stored of it.
pub proof fn law_search_is_told_of_notifications(old: RemiSdk, new: RemiSdk, id: i64)
    requires
        notification_indexed(old, new, id),
        exists|k: int|
            0 <= k < new.storage.notifications.data().len() && (
            #[trigger] new.storage.notifications.data()[k]).id == id,
    ensures
        new.search@.commands.len() == old.search@.commands.len() + 1,
        exists|k: int|
            0 <= k < new.storage.notifications.data().len() && (
            #[trigger] new.storage.notifications.data()[k]).id == id && new.search@.commands.last()
                == CommandView::Apply(
                seq![
                    IngestView::Upsert {
                        document: notification_document(new.storage.notifications.data()[k]),
                    },
                ],
            ),
{
    let data = new.storage.notifications.data();
    law_first_data(data, is_notification(id));
    let w = choose|k: int| 0 <= k < data.len() && (#[trigger] data[k]).id == id;
    assert(is_notification(id)(data[w]));
    let n = first_data(data, is_notification(id))->0;
    let k = choose|k: int| 0 <= k < data.len() && data[k] == n;
    assert(data[k].id == id);
}

/// What is listed of the collections and the things is what is shown of them, and one of them is
/// found where it is shown.
pub proof fn law_lists_are_what_is_shown(s: SnapshotView, uuid: Seq<char>)
    ensures
        listed_collections(Ok::<SnapshotView, ErrorView>(s)) == Ok::<
            Seq<CollectionEntryView>,
            ErrorView,
        >(s.collections),
        listed_things(Ok::<SnapshotView, ErrorView>(s)) == Ok::<Seq<ThingEntryView>, ErrorView>(
            s.things,
        ),
        found_thing(Ok::<SnapshotView, ErrorView>(s), uuid) matches Ok(Some(t)) ==> t.uuid == uuid
            && s.things.contains(t),
        found_collection(Ok::<SnapshotView, ErrorView>(s), uuid) matches Ok(Some(c)) ==> c.uuid
            == uuid && s.collections.contains(c),
        found_thing(Ok::<SnapshotView, ErrorView>(s), uuid) == Ok::<
            Option<ThingEntryView>,
            ErrorView,
        >(None) ==> forall|i: int|
            0 <= i < s.things.len() ==> (#[trigger] s.things[i]).uuid != uuid,
{
    law_first_data(s.things, has_thing_uuid(uuid));
    law_first_data(s.collections, has_entry_uuid(uuid));
    if thing_in(s.things, uuid) is None {
        assert forall|i: int| 0 <= i < s.things.len() implies (#[trigger] s.things[i]).uuid
            != uuid by {
            assert(!has_thing_uuid(uuid)(s.things[i]));
        }
    }
}

/// A conversation that was active has the time, the title and the count that are given, and is
/// otherwise as it was; every other conversation is as it was, and none comes or goes.
pub proof fn law_activity_is_noted(
    old: Storage,
    new: Storage,
    session_id: String,
    title: Option<String>,
    count: i32,
    now: i64,
    i: int,
)
    requires
        session_active(old, new, session_id, title, count, now),
        0 <= i < old.chat_sessions.rows@.len(),
    ensures
        new.chat_sessions.rows@.len() == old.chat_sessions.rows@.len(),
        new.chat_messages == old.chat_messages,
        ({
            let before = old.chat_sessions.rows@[i].data;
            let after = new.chat_sessions.rows@[i].data;
            &&& after.session_id@ == before.session_id@
            &&& before.session_id@ != session_id@ ==> after == before
            &&& before.session_id@ == session_id@ ==> after.last_activity == now && after.title
                == title && after.message_count == count && after.created_at == before.created_at
        }),
{
}

} // verus!
