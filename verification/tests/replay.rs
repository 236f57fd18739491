use remi_client_sdk::content_registry::{ContentEntry, ContentEntryPayload};
use remi_client_sdk::document_store::{CrdtDataType, DocumentKey};
use remi_client_sdk::json::Json;
use remi_client_sdk::rows::{ThingsChangeLogEntry, ThingsOperationType};
use remi_client_sdk::things_docs::ThingsDocumentSet;
use remi_client_sdk::things_events::ThingsDocumentChangeKind;
use remi_client_sdk::things_replay::{
    check_undo_conflict, diff_snapshot_document_events, document_event_for_key, event_range,
    merge_event_ranges, replay_missing_snapshot_into_document_set,
    replay_snapshot_thing_into_document_set, resolve_thing_collection_uuid, sync_applied_payload_at,
    sync_content_entries, sync_content_entries_from_snapshot_payload, thing_is_known_in_collection,
};
use remi_client_sdk::things_types::ThingDatatype;

const NOW: &str = "2026-01-05T00:00:00Z";

fn text(s: &str) -> Option<String> {
    Some(s.to_string())
}

fn set_with(things: &[&str]) -> ThingsDocumentSet {
    let mut docs = ThingsDocumentSet::new("device");
    docs.init_root();
    docs.get_or_init_collection("c1");
    docs.update_collection_meta_with_timestamps("c1", text("One"), None, text(NOW), text(NOW)).unwrap();
    for thing in things {
        docs.upsert_thing_meta(
            "c1",
            thing,
            Some(ThingDatatype::Markdown),
            text("none"),
            text(thing),
            None,
        )
        .unwrap();
    }
    docs
}

#[test]
fn what_is_missing_is_replayed() {
    let source = set_with(&["t1", "t2"]).extract_snapshot();
    let mut target = ThingsDocumentSet::new("other");
    target.init_root();
    let now = NOW.to_string();
    let events = replay_missing_snapshot_into_document_set(&mut target, &source, &now).unwrap();
    assert!(!events.is_empty());
    assert!(thing_is_known_in_collection(&target, "c1", "t1"));
    assert!(thing_is_known_in_collection(&target, "c1", "t2"));
    let shown = target.extract_snapshot();
    assert_eq!(shown.collections.iter().find(|c| c.uuid == "c1").unwrap().title, "One");
    assert_eq!(shown.things.len(), 2);
    let again = replay_missing_snapshot_into_document_set(&mut target, &source, &now).unwrap();
    assert!(again.is_empty());
}

#[test]
fn one_thing_is_replayed() {
    let source = set_with(&["t1"]).extract_snapshot();
    let mut target = set_with(&[]);
    replay_snapshot_thing_into_document_set(&mut target, &source.things[0], &NOW.to_string()).unwrap();
    assert_eq!(target.extract_snapshot().things[0].title, "t1");
    assert_eq!(resolve_thing_collection_uuid(&target, "t1").unwrap(), "c1");
    assert!(resolve_thing_collection_uuid(&target, "nope").is_err());
}

#[test]
fn differences_are_reported() {
    let before = set_with(&["t1"]).extract_snapshot();
    let after = set_with(&["t2"]).extract_snapshot();
    let mut renamed = set_with(&["t1"]);
    renamed
        .update_collection_meta_with_timestamps("c1", text("Two"), None, text(NOW), text(NOW))
        .unwrap();
    let renamed = renamed.extract_snapshot();
    assert!(diff_snapshot_document_events(&before, &before).is_empty());
    let events = diff_snapshot_document_events(&before, &after);
    assert!(events.iter().any(|e| e.thing_uuid.as_deref() == Some("t2")));
    assert!(events.iter().any(|e| e.thing_uuid.as_deref() == Some("t1")));
    let events = diff_snapshot_document_events(&before, &renamed);
    assert!(events.iter().any(|e| e.document_uuid == "c1"));
}

fn log(op_type: ThingsOperationType, entity_uuid: &str, details_json: &str) -> ThingsChangeLogEntry {
    ThingsChangeLogEntry {
        id: 1,
        device_id: "device".to_string(),
        op_type,
        entity_type: "thing".to_string(),
        entity_uuid: entity_uuid.to_string(),
        summary: "".to_string(),
        details_json: details_json.to_string(),
        parent_log_id: None,
        cascade_log_ids_json: None,
        created_at: 1,
        can_undo: true,
        synced: false,
    }
}

#[test]
fn undoing_can_be_in_conflict() {
    let now = set_with(&["t1"]).extract_snapshot();
    let told = |entry: &ThingsChangeLogEntry| check_undo_conflict(entry, &now).map(|c| c.description);
    assert_eq!(told(&log(ThingsOperationType::CreateThing, "t1", "{}")), None);
    assert_eq!(
        told(&log(ThingsOperationType::CreateThing, "t9", "{}")),
        text("Thing no longer exists")
    );
    assert_eq!(
        told(&log(ThingsOperationType::DeleteThing, "t1", "{}")),
        text("Thing already exists")
    );
    assert_eq!(
        told(&log(ThingsOperationType::CreateCollection, "c9", "{}")),
        text("Collection no longer exists")
    );
    assert_eq!(
        told(&log(ThingsOperationType::DeleteCollection, "c1", "{}")),
        text("Collection already exists")
    );
}

#[test]
fn ranges_and_payloads_of_events() {
    assert_eq!(event_range(&vec![7, 3, 5]), Some((3, 7)));
    assert_eq!(event_range(&vec![]), None);
    assert_eq!(merge_event_ranges(Some((1, 2)), Some((5, 6))), Some((1, 6)));
    let payload = sync_applied_payload_at(Some((3, 7)), NOW);
    assert_eq!(payload.get_text("type"), text("sync_applied"));
    assert_eq!(payload.get_text("created_at"), text(NOW));
    match payload.get("event_range") {
        Some(Json::List(items)) => assert_eq!(items.len(), 2),
        _ => panic!("no range"),
    }
    let key = DocumentKey { uuid: "c1".to_string(), data_type: CrdtDataType::Collection };
    let event = document_event_for_key(&key, ThingsDocumentChangeKind::Updated);
    assert_eq!(event.document_uuid, "c1");
}

#[test]
fn entries_follow_a_payload() {
    let mut docs = set_with(&["t1"]);
    let wanted = vec![ContentEntry {
        id: "e1".to_string(),
        title: text("Link"),
        order: "0".to_string(),
        payload: ContentEntryPayload::Markdown { doc_uuid: "d1".to_string() },
    }];
    sync_content_entries(&mut docs, "c1", "t1", &wanted).unwrap();
    let entries = docs.get_content_entries("c1", "t1").unwrap();
    assert_eq!(entries.len(), 1);
    assert_eq!(entries[0].id, "e1");
    let same = sync_content_entries(&mut docs, "c1", "t1", &wanted).unwrap();
    assert!(same.is_empty());
    let payload = Json::object(vec![("other".to_string(), Json::Null)]);
    let events = sync_content_entries_from_snapshot_payload(&mut docs, "c1", "t1", &payload).unwrap();
    assert!(events.is_empty());
    assert_eq!(docs.get_content_entries("c1", "t1").unwrap().len(), 1);
    sync_content_entries(&mut docs, "c1", "t1", &vec![]).unwrap();
    assert!(docs.get_content_entries("c1", "t1").unwrap().is_empty());
}

#[test]
fn documents_are_saved_and_removed() {
    let mut docs = set_with(&[]);
    let dirty = docs.dirty_document_keys_public();
    assert!(dirty.iter().any(|k| k.uuid == "c1"));
    let key = DocumentKey { uuid: "c1".to_string(), data_type: CrdtDataType::Collection };
    docs.set_persisted_state(&key, true, Some(NOW));
    assert!(docs.dirty_document_keys_public().iter().all(|k| k.uuid != "c1"));
    docs.remove_document(&key);
    assert!(docs.collection_view("c1").is_none());
    assert!(docs.active_content_document_uuids().is_empty());
}
