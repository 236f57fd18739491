use remi_client_sdk::things_client::{RequestOutcome, ThingsClient, ThingsRequest};
use remi_client_sdk::content_edit::{edit_content, read_content_edit};
use remi_client_sdk::content_registry::{ContentEntry, ContentEntryPayload, JsonObjectField};
use remi_client_sdk::error::SdkError;
use remi_client_sdk::json::Json;
use remi_client_sdk::rows::ThingsOperationType;
use remi_client_sdk::sdk::actors::{refresh_things_actor_meta, Creator, FetchedEntity};
use remi_client_sdk::sdk::documents::parse_bootstrap_replay_source;
use remi_client_sdk::sdk::creates::CreateChange;
use remi_client_sdk::sdk::edits::{DeleteChange, EditChange};
use remi_client_sdk::sdk::things::ThingsLocalEvent;
use remi_client_sdk::sdk::{NotificationEvent, RemiSdk};
use remi_client_sdk::search::index_state::SearchIndexState;
use remi_client_sdk::search::worker::{SearchCommand, SearchService};
use remi_client_sdk::storage::Storage;
use remi_client_sdk::things_docs::ThingsDocumentSet;
use remi_client_sdk::things_replay::sync_content_entries_from_snapshot_payload;
use remi_client_sdk::things_types::{CollectionType, SnapshotOptions, ThingDatatype};

fn text(s: &str) -> Option<String> {
    Some(s.to_string())
}

fn client() -> RemiSdk {
    let mut docs = ThingsDocumentSet::new("device");
    docs.update_collection_meta("col", text("Inbox"), None).unwrap();
    docs.upsert_thing_meta("col", "th", Some(ThingDatatype::Markdown), None, text("Task"), None)
        .unwrap();
    RemiSdk::new(
        Storage::new("sdk.sqlite3"),
        docs,
        SearchService::new(SearchIndexState::new("index", true)),
    )
}

#[test]
fn the_collections_of_the_system_are_always_shown() {
    let sdk = client();
    let types: Vec<CollectionType> =
        sdk.things_list_collections().unwrap().into_iter().map(|c| c.collection_type).collect();
    assert!(types.contains(&CollectionType::Default));
    assert!(types.contains(&CollectionType::Trash));
    assert_eq!(sdk.things_get_collection("col").unwrap().unwrap().title, "Inbox");
    assert!(sdk.things_get_thing("th", false).unwrap().is_some());
    assert!(sdk.things_get_thing("none", false).unwrap().is_none());
    assert!(sdk.things_has_pending_changes());
}

#[test]
fn an_app_gets_its_collection_once() {
    let mut sdk = client();
    let first = sdk.things_ensure_app_collection(" notes ", text("Notes")).unwrap();
    assert_eq!(first.title, "Notes");
    let shown = sdk.things_list_collections().unwrap().len();
    let second = sdk.things_ensure_app_collection("notes", None).unwrap();
    assert_eq!(first.uuid, second.uuid);
    assert_eq!(second.title, "notes");
    assert_eq!(second.app_id, text("notes"));
    assert_eq!(second.collection_type, CollectionType::App);
    assert!(second.archived_at.is_none());
    assert_eq!(sdk.things_list_collections().unwrap().len(), shown);
    let err = sdk.things_ensure_app_collection("  ", None).unwrap_err();
    assert_eq!(err.to_text(), "app_id must not be empty");
}

#[test]
fn a_time_with_an_offset_stays_the_same_point_in_time() {
    let mut sdk = client();
    let first = sdk.things_ensure_app_collection("notes", text("Notes")).unwrap();
    let attrs = object(vec![("__remi_created_at", Json::text("2024-01-02T08:00:00+08:00"))]);
    let kept = sdk.documents.collections.iter_mut().find(|c| c.id == first.uuid).unwrap();
    kept.attrs = Some(attrs);
    let second = sdk.things_ensure_app_collection("notes", text("Notes")).unwrap();
    assert_eq!(second.uuid, first.uuid);
    assert_eq!(second.created_at.seconds, 1704153600);
    let shown = sdk.things_get_collection(&first.uuid).unwrap().unwrap();
    assert_eq!(shown.created_at.seconds, 1704153600);
    assert_eq!(shown.app_id, text("notes"));
}

#[test]
fn a_short_snapshot_shows_all_but_the_content() {
    let mut sdk = client();
    sdk.documents.set_thing_markdown_text("th", "hello");
    let full = sdk.things_list_snapshot().unwrap();
    let lite = sdk.things_list_snapshot_lite().unwrap();
    assert_eq!(full.collections.len(), lite.collections.len());
    assert_eq!(full.things.len(), 1);
    assert_eq!(lite.things.len(), 1);
    assert_eq!(full.things[0].uuid, lite.things[0].uuid);
    assert_eq!(full.things[0].title, lite.things[0].title);
    assert_eq!(full.things[0].updated_at, lite.things[0].updated_at);
    assert!(full.things[0].data.get("content").is_some());
    assert!(lite.things[0].data.get("content").is_none());
    assert_eq!(lite.things[0].data.get_text("status"), full.things[0].data.get_text("status"));
    assert_eq!(full.last_sync_at, None);
    let options = SnapshotOptions { include_content: true };
    let bare = sdk.things_list_snapshot_with_options(false, options).unwrap();
    assert!(bare.things.is_empty());
    assert_eq!(bare.collections.len(), full.collections.len());
    let options = SnapshotOptions { include_content: false };
    let some = sdk.things_list_snapshot_with_options(true, options).unwrap();
    assert!(some.things[0].data.get("content").is_none());
}

#[test]
fn who_made_things_is_shown_and_indexed() {
    let mut sdk = client();
    refresh_things_actor_meta(&mut sdk, &None, &Some(vec![]));
    assert!(sdk.search.commands.is_empty());
    let made = FetchedEntity {
        uuid: "th".to_string(),
        creator: Some(Creator { actor_type: 1, app_id: "app".to_string(), app_name: String::new() }),
    };
    let own = FetchedEntity { uuid: "col".to_string(), creator: None };
    refresh_things_actor_meta(&mut sdk, &Some(vec![own]), &Some(vec![made]));
    assert!(matches!(sdk.search.commands[0], SearchCommand::Rebuild));
    let thing = sdk.things_get_thing("th", false).unwrap().unwrap();
    assert_eq!(thing.actor_type, text("application"));
    assert_eq!(thing.actor_app_id, text("app"));
    assert_eq!(thing.actor_display_name, None);
    let collection = sdk.things_get_collection("col").unwrap().unwrap();
    assert_eq!(collection.actor_type, text("user"));
}

#[test]
fn reading_notifications_is_told() {
    let mut sdk = client();
    let id = sdk.storage.insert_notification_at("app", "mail", "One", "1", 10);
    assert_eq!(sdk.get_unread_notification_count(), 1);
    sdk.mark_notification_read(id);
    sdk.record_notification_response(id, "open");
    sdk.mark_all_notifications_read();
    assert_eq!(sdk.get_unread_notification_count(), 0);
    assert!(matches!(
        sdk.notification_events[0],
        NotificationEvent::Read { notification_id } if notification_id == id
    ));
    assert!(matches!(
        &sdk.notification_events[1],
        NotificationEvent::Responded { action, .. } if action == "open"
    ));
    assert!(matches!(sdk.notification_events[2], NotificationEvent::AllRead));
    let flat = sdk.list_notifications_flat_json(10, 0);
    let list: serde_json::Value = serde_json::from_str(&flat).unwrap();
    assert_eq!(list[0]["title"], "One");
    assert!(sdk.get_latest_unread_notification_json().is_none());
}

#[test]
fn conversations_are_kept() {
    let mut sdk = client();
    sdk.upsert_chat_session("s".to_string(), text("Talk"), 2);
    assert_eq!(sdk.get_chat_session("s").unwrap().message_count, 2);
    sdk.upsert_chat_message_json("s".to_string(), "m".to_string(), 1, "{}".to_string());
    assert_eq!(sdk.list_chat_messages_json("s", None, 0), vec!["{}".to_string()]);
    sdk.delete_chat_session("s");
    assert!(sdk.get_chat_session("s").is_none());
}

#[test]
fn a_stash_holds_the_local_documents() {
    let mut sdk = client();
    assert!(!sdk.things_bootstrap_has_stash());
    sdk.storage
        .save_crdt_document("col", "collection", &[1, 2, 255], &[], true, None)
        .unwrap();
    assert!(sdk.things_bootstrap_stash_local_snapshot_if_needed());
    assert!(sdk.things_bootstrap_has_stash());
    let stashed = sdk.things_bootstrap_replay_source().unwrap();
    assert_eq!(stashed.len(), 1);
    assert_eq!(stashed[0].uuid, "col");
    assert_eq!(stashed[0].data_type, "collection");
    assert_eq!(stashed[0].automerge_doc_base64, "AQL/");
    let refused = sdk.things_bootstrap_replay_stash_onto_current_documents(Err(SdkError::Failure {
        message: "no room".to_string(),
    }));
    assert_eq!(
        refused.unwrap_err().to_text(),
        "Failed to merge bootstrap-stashed CRDT documents"
    );
    assert!(sdk.things_bootstrap_has_stash());
    // The documents are gone when the stash is brought back.
    sdk.storage.delete_all_crdt_documents().unwrap();
    let revision = sdk.storage.get_crdt_documents_revision().unwrap();
    sdk.things_bootstrap_from_server_snapshot_and_replay_stash(vec![9], Some("then"), &[7]).unwrap();
    let row = sdk.storage.get_crdt_document("col", "collection").unwrap();
    assert_eq!(*row.automerge_doc, vec![1, 2, 255]);
    assert_eq!(*row.sync_state, vec![7]);
    assert!(row.dirty);
    assert_eq!(row.last_sync_at, None);
    assert_eq!(sdk.storage.get_dirty_crdt_documents().len(), 1);
    assert_eq!(sdk.storage.get_crdt_documents_revision().unwrap(), revision + 1);
    assert!(!sdk.things_bootstrap_has_stash());
    assert_eq!(sdk.storage.get_internal_kv("things.bootstrap.done"), text("1"));
    let again = sdk.things_bootstrap_from_server_snapshot_and_replay_stash(vec![], None, &[]);
    assert_eq!(again.unwrap_err().to_text(), "No bootstrap stash found");
    let again = sdk.things_bootstrap_replay_stash_onto_current_documents(Ok(()));
    assert_eq!(again.unwrap_err().to_text(), "No bootstrap stash found");
}

fn object(entries: Vec<(&str, Json)>) -> Json {
    Json::object(entries.into_iter().map(|(k, v)| (k.to_string(), v)).collect())
}

const COLLECTION: &str = "col-test";
const THING: &str = "thing-test";

/// A client with one thing and its text.
fn seeded() -> RemiSdk {
    let mut docs = ThingsDocumentSet::new("device-test");
    docs.update_collection_meta(COLLECTION, text("Test Collection"), None).unwrap();
    docs.upsert_thing_meta(
        COLLECTION,
        THING,
        Some(ThingDatatype::Markdown),
        None,
        text("Test Thing"),
        None,
    )
    .unwrap();
    docs.set_thing_markdown_text(THING, "before");
    let mut storage = Storage::new("sdk.sqlite3");
    storage.save_crdt_document(THING, "thing_markdown", &[1, 2], &[], true, None).unwrap();
    RemiSdk::new(storage, docs, SearchService::new(SearchIndexState::new("index", true)))
}

/// Adds a JSON object to the content of the thing.
fn add_object(sdk: &mut RemiSdk, title: Option<String>, data: &Json) -> String {
    let entry_id = "entry-test".to_string();
    let added = sdk
        .documents
        .add_content_entry(
            COLLECTION,
            THING,
            ContentEntry {
                id: entry_id.clone(),
                title,
                order: "0".to_string(),
                payload: ContentEntryPayload::JsonObject(JsonObjectField {
                    data_doc_uuid: "data-doc".to_string(),
                    schema_doc_uuid: text("schema-doc"),
                }),
            },
        )
        .map(|_| entry_id);
    sdk.documents.set_thing_json_content("data-doc", THING, "json_object", data);
    sdk.storage.save_crdt_document("data-doc", "thing_markdown", &[3], &[], true, None).unwrap();
    sdk.things_add_json_object_content_entry(THING, added).unwrap()
}

fn config(enabled: bool, count: i64) -> Json {
    object(vec![("count", Json::signed(count)), ("enabled", Json::Bool(enabled))])
}

fn config_schema() -> Json {
    let typed = |name: &str| object(vec![("type", Json::text(name))]);
    object(vec![
        ("properties", object(vec![("count", typed("integer")), ("enabled", typed("boolean"))])),
        ("type", Json::text("object")),
    ])
}

/// The value of a text, to be held against that of another one.
fn value(text: &str) -> serde_json::Value {
    serde_json::from_str(text).unwrap()
}

fn local_event(event_id: i64, entity_type: &str, entity_uuid: &str) -> ThingsLocalEvent {
    ThingsLocalEvent {
        event_id,
        entity_type: entity_type.to_string(),
        entity_uuid: entity_uuid.to_string(),
        change_kind: "updated".to_string(),
        payload_json: "{}".to_string(),
    }
}

/// Puts the documents aside, puts them back on an empty snapshot, and holds what is left
/// against what was there.
fn stash_and_replay(sdk: &mut RemiSdk, entry_id: &str, count: u64) {
    assert!(sdk.things_bootstrap_stash_local_snapshot_if_needed());
    let kept = vec![local_event(1, "collection", COLLECTION), local_event(2, "thing", THING)];
    let last_event_id = sdk
        .things_watch_since(Ok(kept), 0, 500)
        .unwrap()
        .last()
        .map(|event| event.event_id)
        .unwrap_or(0);

    sdk.things_bootstrap_from_server_snapshot_and_replay_stash(Vec::new(), None, &[]).unwrap();

    let restored_data = sdk.things_get_json_object_entry_data(THING, entry_id).unwrap().unwrap();
    assert_eq!(restored_data.get_bool("enabled"), Some(true));
    assert_eq!(restored_data.get_uint("count"), Some(count));
    let kept = vec![local_event(2, "thing", THING), local_event(3, "thing", THING)];
    let replay_events = sdk.things_watch_since(Ok(kept), last_event_id, 100).unwrap();
    assert_eq!(replay_events.len(), 1);
    assert!(replay_events
        .iter()
        .any(|event| event.entity_type == "thing" && event.entity_uuid == THING));
    assert!(sdk.storage.get_dirty_crdt_documents().iter().any(|row| row.uuid == THING));
}

#[test]
fn bootstrap_stash_round_trip_preserves_json_object_content_docs() {
    let mut sdk = seeded();
    let entry_id = add_object(&mut sdk, text("Config"), &config(true, 1));
    sdk.documents.set_thing_json_content("schema-doc", THING, "json_schema", &config_schema());
    stash_and_replay(&mut sdk, &entry_id, 1);
    sdk.things_get_json_object_entry_schema(THING, &entry_id).unwrap().unwrap();
    let path = format!("/collection/{COLLECTION}/things/{THING}/entries.0.schema.json");
    let restored_schema = sdk.read_virtual_path(&path).unwrap().content;
    assert_eq!(
        value(&restored_schema),
        value(
            r#"{
                "type": "object",
                "properties": {
                    "enabled": { "type": "boolean" },
                    "count": { "type": "integer" }
                }
            }"#
        )
    );
}

#[test]
fn bootstrap_stash_still_runs_after_done_flag_when_new_local_docs_exist() {
    let mut sdk = seeded();
    sdk.storage.set_internal_kv("things.bootstrap.done", "1");
    let entry_id = add_object(&mut sdk, text("Config"), &config(true, 2));
    sdk.documents.set_thing_json_content("schema-doc", THING, "json_schema", &config_schema());
    stash_and_replay(&mut sdk, &entry_id, 2);
}

#[test]
fn document_set_cache_returns_fresh_result_after_same_sdk_write() {
    let mut sdk = seeded();
    let content_path = format!("/collection/{COLLECTION}/things/{THING}/content.md");
    let initial = sdk.read_virtual_path(&content_path).unwrap();
    assert_eq!(initial.content, "before");

    let edit = read_content_edit("overwrite", None, Some("after"), None, None, None, None, None);
    let left = match edit {
        Ok(edit) => edit_content(&initial.content, &edit).unwrap(),
        Err(_) => panic!("no edit"),
    };
    sdk.documents.set_thing_markdown_text(THING, &left.text);
    assert_eq!(sdk.things_edit_content(THING, Ok(left.text)).unwrap(), "after");

    let updated = sdk.read_virtual_path(&content_path).unwrap();
    assert_eq!(updated.content, "after");
}

#[test]
fn json_object_cache_returns_fresh_result_after_same_sdk_write_and_delete() {
    let mut sdk = seeded();
    let thing_path = format!("/collection/{COLLECTION}/things/{THING}");

    let plan = sdk
        .create_virtual_path(
            &thing_path,
            "json_object",
            None,
            Some("Config"),
            Some(r#"{"enabled":true,"count":1}"#),
            None,
            None,
            None,
        )
        .unwrap();
    let done = match &plan {
        CreateChange::JsonObject { title, data, .. } => add_object(&mut sdk, title.clone(), data),
        other => panic!("{other:?}"),
    };
    let created = sdk.create_virtual_path_answer(&plan, Ok(done)).unwrap();
    let entry_path = created.get_text("path").unwrap();
    let data_path = format!("{entry_path}.data.json");
    let schema_path = format!("{entry_path}.schema.json");

    let initial = sdk.read_virtual_path(&data_path).unwrap();
    assert_eq!(value(&initial.content), value(r#"{"enabled":true,"count":1}"#));

    let count = object(vec![("minimum", Json::signed(0)), ("type", Json::text("integer"))]);
    let enabled = object(vec![("type", Json::text("boolean"))]);
    let schema = object(vec![
        ("properties", object(vec![("count", count), ("enabled", enabled)])),
        ("required", Json::list(vec![Json::text("enabled"), Json::text("count")])),
        ("type", Json::text("object")),
    ]);
    let data = config(false, 2);
    for (path, given) in [(&schema_path, &schema), (&data_path, &data)] {
        let edit =
            sdk.edit_virtual_path(path, "overwrite", Some(given), None, None, None).unwrap();
        match &edit.change {
            EditChange::EntrySchema { schema: Some(schema), .. } => {
                sdk.documents.set_thing_json_content("schema-doc", THING, "json_schema", schema)
            }
            EditChange::EntryData { data, .. } => {
                sdk.documents.set_thing_json_content("data-doc", THING, "json_object", data)
            }
            other => panic!("{other:?}"),
        }
        sdk.edit_virtual_path_answer(&edit, Ok(String::new())).unwrap();
    }

    let updated = sdk.read_virtual_path(&data_path).unwrap();
    assert_eq!(value(&updated.content), value(r#"{"enabled":false,"count":2}"#));
    let shown = sdk.read_virtual_path(&schema_path).unwrap();
    assert_eq!(
        value(&shown.content),
        value(
            r#"{
                "type": "object",
                "properties": {
                    "enabled": { "type": "boolean" },
                    "count": { "type": "integer", "minimum": 0 }
                },
                "required": ["enabled", "count"]
            }"#
        )
    );

    let delete = sdk.delete_virtual_path(&entry_path).unwrap();
    let done = match &delete.change {
        DeleteChange::Entry { thing_uuid, entry_id, .. } => {
            sdk.documents.delete_content_entry(COLLECTION, thing_uuid, entry_id).map(|_| true)
        }
        other => panic!("{other:?}"),
    };
    sdk.delete_virtual_path_answer(&delete, done).unwrap();
    assert!(sdk.read_virtual_path(&data_path).is_err());
    assert!(sdk.read_virtual_path(&schema_path).is_err());
}

#[test]
fn things_upsert_thing_restores_json_object_entries_from_snapshot_payload() {
    let mut sdk = seeded();
    let entry_id = add_object(&mut sdk, text("Config"), &config(true, 1));

    let snapshot = sdk.things_list_snapshot().unwrap();
    let thing_snapshot = snapshot.things.into_iter().find(|thing| thing.uuid == THING).unwrap();

    sdk.documents.delete_thing(COLLECTION, THING);
    assert!(sdk.things_delete_thing(THING, Ok(true)).unwrap());
    assert!(sdk.things_get_thing(THING, false).unwrap().is_none());

    sdk.documents
        .upsert_thing_meta(
            &thing_snapshot.collection_uuid,
            &thing_snapshot.uuid,
            Some(ThingDatatype::Markdown),
            None,
            Some(thing_snapshot.title.clone()),
            thing_snapshot.parent_uuid.clone(),
        )
        .unwrap();
    sync_content_entries_from_snapshot_payload(
        &mut sdk.documents,
        COLLECTION,
        THING,
        &thing_snapshot.data,
    )
    .unwrap();

    let restored_entries = sdk.things_get_content_entries(THING).unwrap();
    assert_eq!(restored_entries.len(), 1);
    assert_eq!(restored_entries[0].id, entry_id);
    match &restored_entries[0].payload {
        ContentEntryPayload::JsonObject(_) => {}
        other => panic!("expected json_object payload, got {other:?}"),
    }
}

#[test]
fn events_are_watched_and_taken_for_seen() {
    let sdk = client();
    let kept = || {
        (1..=5)
            .map(|event_id| local_event(event_id, "thing", &event_id.to_string()))
            .collect::<Vec<_>>()
    };
    let ids = |after: i64, limit: u32| -> Vec<i64> {
        let events = sdk.things_watch_since(Ok(kept()), after, limit).unwrap();
        events.into_iter().map(|e| e.event_id).collect()
    };
    assert_eq!(ids(0, 100), vec![1, 2, 3, 4, 5]);
    assert_eq!(ids(2, 2), vec![3, 4]);
    assert!(ids(5, 100).is_empty());
    assert_eq!(sdk.things_ack_events(Ok(kept()), 3).unwrap(), 3);
    let fault = || SdkError::Failure { message: "gone".to_string() };
    assert_eq!(sdk.things_watch_since(Err(fault()), 0, 1).unwrap_err().to_text(), "gone");
    assert_eq!(sdk.things_ack_events(Err(fault()), 0).unwrap_err().to_text(), "gone");
}

fn log_change(sdk: &mut RemiSdk, parent: Option<i64>, at: i64) -> i64 {
    sdk.storage
        .insert_things_change_log_at(
            "dev",
            ThingsOperationType::UpdateThing,
            "thing",
            "th",
            "changed",
            "{}",
            parent,
            true,
            at,
        )
        .unwrap()
}

#[test]
fn old_changes_go_with_their_snapshots() {
    let mut sdk = client();
    let old = log_change(&mut sdk, None, 100);
    sdk.storage.insert_things_content_snapshot_at("dev", "th", "{}", Some(old), 100).unwrap();
    let new = log_change(&mut sdk, None, 300);
    sdk.storage.insert_things_content_snapshot_at("dev", "th", "{}", Some(new), 300).unwrap();
    assert_eq!(sdk.things_cleanup_change_logs_before(250).unwrap(), (1, 1));
    assert!(sdk.things_get_change_log(old).is_none());
    assert!(sdk.things_get_change_log(new).is_some());
    assert_eq!(sdk.things_list_content_snapshots("th", 10).len(), 1);
    assert_eq!(sdk.things_cleanup_change_logs_before(250).unwrap(), (0, 0));
    assert_eq!(sdk.things_cleanup_change_logs(1).unwrap(), (1, 1));
}

#[test]
fn a_change_that_something_later_refers_to_stays() {
    let mut sdk = client();
    let old = log_change(&mut sdk, None, 100);
    sdk.storage.insert_things_content_snapshot_at("dev", "th", "{}", Some(old), 100).unwrap();
    let child = log_change(&mut sdk, Some(old), 300);
    let err = sdk.things_cleanup_change_logs_before(250).unwrap_err();
    assert_eq!(err.to_text(), "FOREIGN KEY constraint failed");
    assert!(sdk.things_get_change_log(old).is_some());
    assert!(sdk.things_get_change_log(child).is_some());
    assert!(sdk.things_list_content_snapshots("th", 10).is_empty());
    assert_eq!(sdk.things_cleanup_change_logs_before(350).unwrap(), (2, 0));
}

#[test]
fn an_undo_is_previewed() {
    let mut sdk = client();
    let id = log_change(&mut sdk, None, 100);
    let preview = sdk.things_preview_undo(id).unwrap();
    assert_eq!(preview.change.id, id);
    assert_eq!(preview.change.entity_uuid, "th");
    let gone = sdk
        .storage
        .insert_things_change_log_at(
            "dev",
            ThingsOperationType::CreateThing,
            "thing",
            "t9",
            "made",
            "{}",
            None,
            true,
            100,
        )
        .unwrap();
    let preview = sdk.things_preview_undo(gone).unwrap();
    assert_eq!(preview.conflict.unwrap().description, "Thing no longer exists");
    let err = sdk.things_preview_undo(99).unwrap_err();
    assert_eq!(err.to_text(), "Change log entry not found: 99");
}

#[test]
fn a_stash_that_cannot_be_decoded_is_kept() {
    let mut sdk = client();
    let stash = r#"{"version": 1, "documents": [
        {"uuid": "u", "data_type": "collection", "automerge_doc_base64": "AQ=="},
        {"uuid": "v", "data_type": "collection", "automerge_doc_base64": "?"}
    ]}"#;
    sdk.storage.set_internal_kv("things.bootstrap.stash_snapshot_json", stash);
    let err = sdk
        .things_bootstrap_from_server_snapshot_and_replay_stash(vec![], None, &[])
        .unwrap_err();
    assert_eq!(err.to_text(), "Failed to restore bootstrap-stashed CRDT documents");
    assert!(sdk.things_bootstrap_has_stash());
    assert!(sdk.storage.list_crdt_documents().is_empty());
    sdk.storage.set_internal_kv("things.bootstrap.stash_snapshot_json", "{}");
    let err = sdk
        .things_bootstrap_from_server_snapshot_and_replay_stash(vec![], None, &[])
        .unwrap_err();
    assert_eq!(err.to_text(), "Failed to parse bootstrap stash payload");
}

#[test]
fn a_stash_is_an_object_or_a_list_of_its_fields() {
    for text in [
        r#"{"version": 1, "documents": [{"uuid": "u", "data_type": "t", "automerge_doc_base64": "AQ=="}]}"#,
        r#"[1, [["u", "t", "AQ=="]]]"#,
        r#"{"documents": [["u", "t", "AQ=="]], "version": 255, "more": null}"#,
    ] {
        let stashed = parse_bootstrap_replay_source(text).unwrap();
        assert_eq!(stashed.len(), 1);
        assert_eq!(stashed[0].uuid, "u");
        assert_eq!(stashed[0].data_type, "t");
        assert_eq!(stashed[0].automerge_doc_base64, "AQ==");
    }
    for text in ["[1]", "[1, [], 2]", "[256, []]", r#"[1, [["u", "t"]]]"#, r#"{"version": 1}"#, "x"] {
        let err = parse_bootstrap_replay_source(text).unwrap_err();
        assert_eq!(err.to_text(), "Failed to parse bootstrap stash payload");
    }
}

#[test]
fn content_of_things_is_shown_with_its_references() {
    let mut sdk = client();
    sdk.documents.set_thing_markdown_text("th", "hello");
    assert_eq!(sdk.things_get_thing_markdown("th"), text("hello"));
    assert!(sdk.things_get_content_entries("th").unwrap().is_empty());
    assert!(sdk.things_get_content_entries("none").is_err());
    let err = sdk.things_get_json_object_entry_data("th", "e").unwrap_err();
    assert_eq!(err.to_text(), "Content entry not found: e");
    let attrs = Json::object(vec![("card_jsx".to_string(), Json::text("<X/>"))]);
    sdk.documents.update_collection_attrs("col", Some(attrs)).unwrap();
    assert_eq!(sdk.get_collection_card_jsx("col").unwrap(), text("<X/>"));
}

#[test]
fn requests_fill_what_is_not_given_with_empty_texts() {
    let client = ThingsClient::new("token");
    assert_eq!(client.request_timeout_secs, 60);
    assert_eq!(ThingsClient::new_with_shared_transport("token", 5).request_timeout_secs, 5);
    let request = client.create_thing("c", "note", "{}", None, Some("Title".to_string()), None);
    match request {
        ThingsRequest::CreateThing { collection_uuid, datatype, data_json, parent_uuid, title, uuid } => {
            assert_eq!(collection_uuid, "c");
            assert_eq!(datatype, "note");
            assert_eq!(data_json, "{}");
            assert_eq!(parent_uuid, "");
            assert_eq!(title, "Title");
            assert_eq!(uuid, "");
        }
        _ => panic!("not a creation"),
    }
    match client.list_things(Some("c".to_string()), None, None, None, 500, 10) {
        ThingsRequest::ListThings { collection_uuid, creator_app_id, limit, offset, .. } => {
            assert_eq!(collection_uuid, "c");
            assert_eq!(creator_app_id, "");
            assert_eq!((limit, offset), (500, 10));
        }
        _ => panic!("not a list"),
    }
}

#[test]
fn requests_without_answers_are_told() {
    let client = ThingsClient::new("token");
    let request = client.get_collection("c");
    let answer = client.finish(&request, RequestOutcome::Answered { answer: 7u64 });
    assert_eq!(answer.unwrap(), 7);
    let late: RequestOutcome<u64> = RequestOutcome::TimedOut;
    let error = client.finish(&request, late).unwrap_err();
    assert_eq!(error.to_text(), "GetThingCollection request timed out");
    let refused: RequestOutcome<u64> = RequestOutcome::Refused { fault: "denied".to_string() };
    assert_eq!(client.finish(&request, refused).unwrap_err().to_text(), "denied");
    assert_eq!(ThingsClient::authorized(Some("t".to_string())).unwrap(), "t");
    let error = ThingsClient::authorized(None).unwrap_err();
    assert_eq!(error.to_text(), "Authentication bearer token is not configured");
}

#[test]
fn synchronised_documents_ask_for_a_new_index() {
    let mut sdk = client();
    let before = sdk.search.commands.len();
    assert_eq!(sdk.things_apply_remote_documents(Ok(None)).unwrap(), None);
    assert_eq!(sdk.search.commands.len(), before);
    assert_eq!(sdk.things_apply_remote_documents(Ok(Some((3, 5)))).unwrap(), Some((3, 5)));
    assert_eq!(sdk.search.commands.len(), before + 1);
    assert_eq!(sdk.things_save_synced_document_clean(Ok(Some((6, 6)))).unwrap(), Some((6, 6)));
    assert_eq!(sdk.search.commands.len(), before + 2);
    let fault = || remi_client_sdk::error::failure("no");
    let error = sdk.things_save_synced_document_clean(Err(fault())).unwrap_err();
    assert_eq!(error.to_text(), "Failed to save synced Things CRDT document clean");
    let error = sdk.things_delete_raw_document_for_sync(Err(fault())).unwrap_err();
    assert_eq!(error.to_text(), "Failed to delete raw Things CRDT document through pipeline");
    assert_eq!(sdk.search.commands.len(), before + 2);
    sdk.crdt_save_document("r", "root", &[1], &[2], true, None).unwrap();
    assert_eq!(*sdk.crdt_get_document("r", "root").unwrap().sync_state, vec![2]);
}
