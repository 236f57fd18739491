//! How values are written out: what stands under the name of each field, and the names of kinds.
use crate::bindings::{binding_json, BindingView};
use crate::clock::{rfc3339_text, DomainTime};
use crate::document_store::{CrdtDataType, KeyView};
use crate::json::{bool_field, field, int_text, lemma_lookup_at, opt_view, text_field, JsonView};
use crate::rows::{
    run_type_name, source_kind_name, ActionInvocationRecord, ActionInvocationSourceKind,
    NotificationEntry, TriggerRunType,
};
use crate::scheduling::{rule_json, RuleView};
use crate::sdk::documents::{stashed_json, StashedView};
use crate::sdk::notifications::{group_json, notification_json};
use crate::sdk::paths::invocation_json;
use crate::search::documents::stored_json;
use crate::storage::notifications::NotificationGroup;
use crate::things_client::{request_fault, RequestOutcome, RequestView};
use crate::things_events::{
    change_kind_name, collection_event, content_entry_event, entity_type_name, entity_uuid_of,
    thing_event, ThingsDocumentChangeKind, ThingsDocumentKind,
};
use crate::things_replay::{applied_payload, key_event};
use vstd::prelude::*;

verus! {

proof fn lemma_binding_names()
    ensures
        "action_uuid"@.len() == 11,
        "args_json"@.len() == 9,
        "label_override"@.len() == 14,
{
    reveal_strlit("action_uuid");
    reveal_strlit("args_json");
    reveal_strlit("label_override");
}

/// A binding is written out with its action, its label and its arguments, each under its name.
pub proof fn law_bindings_are_written_out(b: BindingView)
    ensures
        ({
            let j = binding_json(b);
            &&& text_field(j, "action_uuid"@) == Some(b.action_uuid)
            &&& field(j, "args_json"@) == Some(b.args_json)
            &&& text_field(j, "label_override"@) == b.label_override
        }),
{
    lemma_binding_names();
    let entries = binding_json(b)->Object_0;
    lemma_lookup_at(entries, "action_uuid"@, 0);
    lemma_lookup_at(entries, "args_json"@, 1);
    lemma_lookup_at(entries, "label_override"@, 2);
}

proof fn lemma_rule_names()
    ensures
        "description"@.len() == 11,
        "rule"@.len() == 4,
{
    reveal_strlit("description");
    reveal_strlit("rule");
}

/// A rule is written out with its text and its description.
pub proof fn law_rules_are_written_out(r: RuleView)
    ensures
        ({
            let j = rule_json(r);
            &&& text_field(j, "description"@) == Some(r.description)
            &&& text_field(j, "rule"@) == Some(r.rule)
        }),
{
    lemma_rule_names();
    let entries = rule_json(r)->Object_0;
    lemma_lookup_at(entries, "description"@, 0);
    lemma_lookup_at(entries, "rule"@, 1);
}

proof fn lemma_notification_names()
    ensures
        "body"@.len() == 4,
        "category"@.len() == 8,
        "created_at"@.len() == 10,
        "id"@.len() == 2,
        "is_read"@.len() == 7,
        "responded_at"@.len() == 12,
        "response_action"@.len() == 15,
        "source"@.len() == 6,
        "title"@.len() == 5,
{
    reveal_strlit("body");
    reveal_strlit("category");
    reveal_strlit("created_at");
    reveal_strlit("id");
    reveal_strlit("is_read");
    reveal_strlit("responded_at");
    reveal_strlit("response_action");
    reveal_strlit("source");
    reveal_strlit("title");
}

/// A notification is written out with its id, its title, its text, its category, its source, when
/// it came, whether it was read and what was answered.
pub proof fn law_notifications_are_written_out(n: NotificationEntry)
    ensures
        ({
            let j = notification_json(n);
            &&& text_field(j, "body"@) == Some(n.body@)
            &&& text_field(j, "category"@) == Some(n.category@)
            &&& text_field(j, "created_at"@) == Some(
                rfc3339_text(DomainTime { seconds: n.created_at, nanos: 0 }),
            )
            &&& field(j, "id"@) == Some(JsonView::Number(int_text(n.id as int)))
            &&& bool_field(j, "is_read"@) == Some(n.is_read)
            &&& text_field(j, "response_action"@) == opt_view(n.response_action)
            &&& text_field(j, "source"@) == Some(n.source@)
            &&& text_field(j, "title"@) == Some(n.title@)
        }),
{
    lemma_notification_names();
    let entries = notification_json(n)->Object_0;
    lemma_lookup_at(entries, "body"@, 0);
    lemma_lookup_at(entries, "category"@, 1);
    lemma_lookup_at(entries, "created_at"@, 2);
    lemma_lookup_at(entries, "id"@, 3);
    lemma_lookup_at(entries, "is_read"@, 4);
    lemma_lookup_at(entries, "response_action"@, 6);
    lemma_lookup_at(entries, "source"@, 7);
    lemma_lookup_at(entries, "title"@, 8);
}

proof fn lemma_group_names()
    ensures
        "category"@.len() == 8,
        "items"@.len() == 5 && "items"@[0] == 'i',
        "latest_at"@.len() == 9,
        "source"@.len() == 6,
        "title"@.len() == 5 && "title"@[0] == 't',
        "total_count"@.len() == 11,
        "unread_count"@.len() == 12,
{
    reveal_strlit("category");
    reveal_strlit("items");
    reveal_strlit("latest_at");
    reveal_strlit("source");
    reveal_strlit("title");
    reveal_strlit("total_count");
    reveal_strlit("unread_count");
}

/// A group of notifications is written out with its category, its notifications and how many there
/// are and were not read.
pub proof fn law_groups_are_written_out(g: NotificationGroup)
    ensures
        ({
            let j = group_json(g);
            &&& text_field(j, "category"@) == Some(g.category@)
            &&& field(j, "items"@) == Some(
                JsonView::List(g.items@.map_values(|n: NotificationEntry| notification_json(n))),
            )
            &&& text_field(j, "latest_at"@) == Some(
                rfc3339_text(DomainTime { seconds: g.latest_at, nanos: 0 }),
            )
            &&& text_field(j, "source"@) == Some(g.source@)
            &&& text_field(j, "title"@) == Some(g.title@)
            &&& field(j, "total_count"@) == Some(JsonView::Number(int_text(g.total_count as int)))
            &&& field(j, "unread_count"@) == Some(JsonView::Number(int_text(g.unread_count as int)))
        }),
{
    lemma_group_names();
    let entries = group_json(g)->Object_0;
    lemma_lookup_at(entries, "category"@, 0);
    lemma_lookup_at(entries, "items"@, 1);
    lemma_lookup_at(entries, "latest_at"@, 2);
    lemma_lookup_at(entries, "source"@, 3);
    lemma_lookup_at(entries, "title"@, 4);
    lemma_lookup_at(entries, "total_count"@, 5);
    lemma_lookup_at(entries, "unread_count"@, 6);
}

proof fn lemma_run_names()
    ensures
        "action_uuid"@.len() == 11 && "action_uuid"@[0] == 'a',
        "args_json"@.len() == 9 && "args_json"@[0] == 'a',
        "console_logs_json"@.len() == 17,
        "device_id"@.len() == 9 && "device_id"@[0] == 'd',
        "duration_ms"@.len() == 11 && "duration_ms"@[0] == 'd',
        "error_json"@.len() == 10 && "error_json"@[0] == 'e',
        "finished_at"@.len() == 11 && "finished_at"@[0] == 'f',
        "invocation_uuid"@.len() == 15,
        "result_json"@.len() == 11 && "result_json"@[0] == 'r',
        "source_entity_type"@.len() == 18 && "source_entity_type"@[14] == 't',
        "source_entity_uuid"@.len() == 18 && "source_entity_uuid"@[14] == 'u',
        "source_kind"@.len() == 11 && "source_kind"@[0] == 's',
        "started_at"@.len() == 10 && "started_at"@[0] == 's',
{
    reveal_strlit("action_uuid");
    reveal_strlit("args_json");
    reveal_strlit("console_logs_json");
    reveal_strlit("device_id");
    reveal_strlit("duration_ms");
    reveal_strlit("error_json");
    reveal_strlit("finished_at");
    reveal_strlit("invocation_uuid");
    reveal_strlit("result_json");
    reveal_strlit("source_entity_type");
    reveal_strlit("source_entity_uuid");
    reveal_strlit("source_kind");
    reveal_strlit("started_at");
}

/// A run of an action is written out with the action, what it was called from and with, when it ran
/// and what came of it.
pub proof fn law_runs_are_written_out(r: ActionInvocationRecord)
    ensures
        ({
            let j = invocation_json(r);
            &&& text_field(j, "action_uuid"@) == Some(r.action_uuid@)
            &&& field(j, "args_json"@) == Some(stored_json(Some(r.args_json@)))
            &&& field(j, "console_logs_json"@) == Some(stored_json(Some(r.console_logs_json@)))
            &&& field(j, "duration_ms"@) == Some(JsonView::Number(int_text(r.duration_ms as int)))
            &&& field(j, "error_json"@) == Some(stored_json(opt_view(r.error_json)))
            &&& field(j, "finished_at"@) == Some(JsonView::Number(int_text(r.finished_at as int)))
            &&& text_field(j, "invocation_uuid"@) == Some(r.invocation_uuid@)
            &&& field(j, "result_json"@) == Some(stored_json(opt_view(r.result_json)))
            &&& text_field(j, "source_entity_type"@) == opt_view(r.source_entity_type)
            &&& text_field(j, "source_entity_uuid"@) == opt_view(r.source_entity_uuid)
            &&& text_field(j, "source_kind"@) == Some(r.source_kind@)
            &&& field(j, "started_at"@) == Some(JsonView::Number(int_text(r.started_at as int)))
        }),
{
    lemma_run_names();
    let entries = invocation_json(r)->Object_0;
    lemma_lookup_at(entries, "action_uuid"@, 0);
    lemma_lookup_at(entries, "args_json"@, 1);
    lemma_lookup_at(entries, "console_logs_json"@, 2);
    lemma_lookup_at(entries, "duration_ms"@, 4);
    lemma_lookup_at(entries, "error_json"@, 5);
    lemma_lookup_at(entries, "finished_at"@, 6);
    lemma_lookup_at(entries, "invocation_uuid"@, 7);
    lemma_lookup_at(entries, "result_json"@, 8);
    lemma_lookup_at(entries, "source_entity_type"@, 9);
    lemma_lookup_at(entries, "source_entity_uuid"@, 10);
    lemma_lookup_at(entries, "source_kind"@, 11);
    lemma_lookup_at(entries, "started_at"@, 12);
}

proof fn lemma_stash_names()
    ensures
        "automerge_doc_base64"@.len() == 20,
        "data_type"@.len() == 9,
        "uuid"@.len() == 4,
{
    reveal_strlit("automerge_doc_base64");
    reveal_strlit("data_type");
    reveal_strlit("uuid");
}

/// A document in the stash is written out with its id, its kind and its bytes in base64.
pub proof fn law_stashed_documents_are_written_out(d: StashedView)
    ensures
        ({
            let j = stashed_json(d);
            &&& text_field(j, "automerge_doc_base64"@) == Some(d.automerge_doc_base64)
            &&& text_field(j, "data_type"@) == Some(d.data_type)
            &&& text_field(j, "uuid"@) == Some(d.uuid)
        }),
{
    lemma_stash_names();
    let entries = stashed_json(d)->Object_0;
    lemma_lookup_at(entries, "automerge_doc_base64"@, 0);
    lemma_lookup_at(entries, "data_type"@, 1);
    lemma_lookup_at(entries, "uuid"@, 2);
}

proof fn lemma_sync_names()
    ensures
        "created_at"@.len() == 10,
        "event_range"@.len() == 11,
        "type"@.len() == 4,
{
    reveal_strlit("created_at");
    reveal_strlit("event_range");
    reveal_strlit("type");
}

/// What is told of a sync is when it was applied and which events it made.
pub proof fn law_applied_syncs_are_written_out(range: Option<(i64, i64)>, at: Seq<char>)
    ensures
        ({
            let j = applied_payload(range, at);
            &&& text_field(j, "created_at"@) == Some(at)
            &&& field(j, "event_range"@) == Some(
                match range {
                    Some((low, high)) => JsonView::List(
                        seq![
                            JsonView::Number(int_text(low as int)),
                            JsonView::Number(int_text(high as int)),
                        ],
                    ),
                    None => JsonView::Null,
                },
            )
            &&& text_field(j, "type"@) == Some("sync_applied"@)
        }),
{
    lemma_sync_names();
    let entries = applied_payload(range, at)->Object_0;
    lemma_lookup_at(entries, "created_at"@, 0);
    lemma_lookup_at(entries, "event_range"@, 1);
    lemma_lookup_at(entries, "type"@, 2);
}

/// The names under which kinds are stored.
pub proof fn law_stored_kinds_have_their_names(
    run_type: TriggerRunType,
    source: ActionInvocationSourceKind,
)
    ensures
        run_type_name(run_type) == match run_type {
            TriggerRunType::Automatic => "automatic"@,
            TriggerRunType::Manual => "manual"@,
        },
        source_kind_name(source) == match source {
            ActionInvocationSourceKind::Trigger => "trigger"@,
            ActionInvocationSourceKind::CollectionManual => "collection_manual"@,
            ActionInvocationSourceKind::ThingManual => "thing_manual"@,
            ActionInvocationSourceKind::System => "system"@,
        },
{
}

/// An event of the documents is told of the entity that it is about: of the entry, else of the
/// thing, else of the collection.
pub proof fn law_events_name_their_entity(
    kind: ThingsDocumentChangeKind,
    collection: Seq<char>,
    thing: Seq<char>,
    entry: Seq<char>,
)
    ensures
        entity_uuid_of(collection_event(kind, collection)) == collection,
        entity_uuid_of(thing_event(kind, collection, thing)) == thing,
        entity_uuid_of(content_entry_event(kind, collection, thing, entry)) == entry,
        entity_type_name(collection_event(kind, collection).document_kind) == "collection"@,
        entity_type_name(thing_event(kind, collection, thing).document_kind) == "thing"@,
        entity_type_name(content_entry_event(kind, collection, thing, entry).document_kind)
            == "content_entry"@,
        change_kind_name(kind) == match kind {
            ThingsDocumentChangeKind::Created => "created"@,
            ThingsDocumentChangeKind::Updated => "updated"@,
            ThingsDocumentChangeKind::Deleted => "deleted"@,
        },
        collection_event(kind, collection).change_kind == kind,
        thing_event(kind, collection, thing).change_kind == kind,
        content_entry_event(kind, collection, thing, entry).change_kind == kind,
{
}

/// A request that was answered has no fault; one that was refused has that of the server, and one
/// that took too long says which it was.
pub proof fn law_faults_of_requests(r: RequestView, outcome: RequestOutcome<bool>)
    ensures
        request_fault(r, outcome) is None <==> outcome is Answered,
        outcome matches RequestOutcome::Refused { fault } ==> request_fault(r, outcome) == Some(
            fault@,
        ),
        outcome is TimedOut && r is CreateThing ==> request_fault(r, outcome) == Some(
            "CreateThing"@ + " request timed out"@,
        ),
        outcome is TimedOut && r is UpdateThing ==> request_fault(r, outcome) == Some(
            "UpdateThing"@ + " request timed out"@,
        ),
        outcome is TimedOut && r is GetThing ==> request_fault(r, outcome) == Some(
            "GetThing"@ + " request timed out"@,
        ),
        outcome is TimedOut && r is ListThings ==> request_fault(r, outcome) == Some(
            "ListThings"@ + " request timed out"@,
        ),
{
}

/// The event of a document that came from elsewhere is about that document.
pub proof fn law_events_of_keys(uuid: Seq<char>, kind: ThingsDocumentChangeKind)
    ensures
        ({
            let c = key_event(KeyView { uuid, data_type: CrdtDataType::Collection }, kind);
            let m = key_event(KeyView { uuid, data_type: CrdtDataType::ThingMarkdown }, kind);
            let r = key_event(KeyView { uuid, data_type: CrdtDataType::Root }, kind);
            &&& c.document_kind == ThingsDocumentKind::Collection && c.document_uuid == uuid
                && c.collection_uuid == Some(uuid)
            &&& m.document_kind == ThingsDocumentKind::ThingMarkdown && m.document_uuid == uuid
                && m.thing_uuid == Some(uuid)
            &&& r.document_kind == ThingsDocumentKind::Root
            &&& c.change_kind == kind && m.change_kind == kind && r.change_kind == kind
        }),
{
}

} // verus!
