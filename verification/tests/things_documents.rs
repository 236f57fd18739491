use remi_client_sdk::clock::format_domain_datetime;
use remi_client_sdk::content_registry::{ContentEntry, ContentEntryPayload};
use remi_client_sdk::json::Json;
use remi_client_sdk::storage::Storage;
use remi_client_sdk::things_docs::ThingsDocumentSet;
use remi_client_sdk::things_events::{ThingsDocumentChangeKind, ThingsDocumentEvent};
use remi_client_sdk::things_types::{SnapshotOptions, ThingDatatype};

fn text(s: &str) -> Option<String> {
    Some(s.to_string())
}

fn add_thing(docs: &mut ThingsDocumentSet, thing: &str, title: &str) -> Vec<ThingsDocumentEvent> {
    docs.upsert_thing_meta(
        "coll-1",
        thing,
        Some(ThingDatatype::Markdown),
        text("none"),
        text(title),
        None,
    )
    .unwrap()
}

#[test]
fn test_document_set_basic() {
    let mut docs = ThingsDocumentSet::new("test-device");
    docs.init_root();

    docs.get_or_init_collection("coll-1");
    let snapshot = docs.extract_snapshot();
    assert!(snapshot.collections.iter().any(|coll| coll.uuid == "coll-1"));

    add_thing(&mut docs, "thing-1", "My Task");

    let coll = docs.collection_view("coll-1").unwrap();
    assert_eq!(coll.things.len(), 1);
    assert_eq!(coll.things[0].id, "thing-1");
}

#[test]
fn test_load_or_init_document_set_does_not_persist_on_read() {
    let storage = Storage::new("sdk.sqlite3");
    let docs = ThingsDocumentSet::new("test-device").loaded_or_init();
    assert!(docs.has_root_document());
    assert!(docs.has_pending_changes());
    assert!(storage.list_crdt_documents().is_empty());
}

#[test]
fn test_document_set_snapshot() {
    let mut docs = ThingsDocumentSet::new("test-device");
    docs.get_or_init_collection("coll-1");
    docs.update_collection_meta_with_timestamps(
        "coll-1",
        text("My Collection"),
        None,
        text("2026-01-01T00:00:00Z"),
        text("2026-01-02T00:00:00Z"),
    )
    .unwrap();
    docs.upsert_thing_meta_with_timestamps(
        "coll-1",
        "thing-1",
        Some(ThingDatatype::Markdown),
        text("none"),
        text("Task 1"),
        None,
        text("2026-01-03T00:00:00Z"),
        text("2026-01-04T00:00:00Z"),
    )
    .unwrap();

    let snapshot = docs.extract_snapshot_with_options(SnapshotOptions { include_content: false });
    assert_eq!(snapshot.collections.len(), 1);
    assert_eq!(snapshot.collections[0].title, "My Collection");
    assert_eq!(
        format_domain_datetime(snapshot.collections[0].created_at),
        "2026-01-01T00:00:00Z"
    );
    assert_eq!(
        format_domain_datetime(snapshot.collections[0].updated_at),
        "2026-01-02T00:00:00Z"
    );
    assert_eq!(snapshot.things.len(), 1);
    assert_eq!(snapshot.things[0].title, "Task 1");
    assert_eq!(
        format_domain_datetime(snapshot.things[0].created_at),
        "2026-01-03T00:00:00Z"
    );
    assert_eq!(
        format_domain_datetime(snapshot.things[0].updated_at),
        "2026-01-04T00:00:00Z"
    );
    assert!(matches!(snapshot.things[0].data.get("attrs"), Some(Json::Null)));
}

#[test]
fn test_document_set_normalizes_rfc3339_timestamps_to_utc() {
    let mut docs = ThingsDocumentSet::new("test-device");
    docs.update_collection_meta_with_timestamps(
        "coll-1",
        text("My Collection"),
        None,
        text("2026-01-01T08:00:00+08:00"),
        text("2026-01-02T08:00:00+08:00"),
    )
    .unwrap();

    let snapshot = docs.extract_snapshot();
    assert_eq!(
        format_domain_datetime(snapshot.collections[0].created_at),
        "2026-01-01T00:00:00Z"
    );
    assert_eq!(
        format_domain_datetime(snapshot.collections[0].updated_at),
        "2026-01-02T00:00:00Z"
    );
}

#[test]
fn test_document_set_rejects_invalid_timestamps_before_writing() {
    let mut docs = ThingsDocumentSet::new("test-device");
    assert!(docs
        .update_collection_meta_with_timestamps(
            "coll-1",
            text("My Collection"),
            None,
            text("not-a-date"),
            None,
        )
        .is_err());

    docs.get_or_init_collection("coll-1");
    assert!(docs
        .upsert_thing_meta_with_timestamps(
            "coll-1",
            "thing-1",
            Some(ThingDatatype::Markdown),
            text("none"),
            text("Task 1"),
            None,
            None,
            text("2026-99-99T00:00:00Z"),
        )
        .is_err());
}

#[test]
fn test_document_set_preserves_created_at_across_updates() {
    let mut docs = ThingsDocumentSet::new("test-device");
    docs.get_or_init_collection("coll-1");
    docs.upsert_thing_meta_with_timestamps(
        "coll-1",
        "thing-1",
        Some(ThingDatatype::Markdown),
        text("none"),
        text("Task 1"),
        None,
        text("2026-01-03T00:00:00Z"),
        text("2026-01-04T00:00:00Z"),
    )
    .unwrap();
    docs.upsert_thing_meta_with_timestamps(
        "coll-1",
        "thing-1",
        Some(ThingDatatype::Markdown),
        text("none"),
        text("Task 1 renamed"),
        None,
        None,
        text("2026-01-05T00:00:00Z"),
    )
    .unwrap();

    let snapshot = docs.extract_snapshot();
    assert_eq!(snapshot.things.len(), 1);
    assert_eq!(
        format_domain_datetime(snapshot.things[0].created_at),
        "2026-01-03T00:00:00Z"
    );
    assert_eq!(
        format_domain_datetime(snapshot.things[0].updated_at),
        "2026-01-05T00:00:00Z"
    );
}

#[test]
fn test_document_events_follow_crdt_mutations() {
    let mut docs = ThingsDocumentSet::new("test-device");

    let collection_events = docs
        .update_collection_meta("coll-1", text("Inbox"), None)
        .unwrap();
    assert_eq!(
        collection_events,
        vec![
            ThingsDocumentEvent::root(ThingsDocumentChangeKind::Updated),
            ThingsDocumentEvent::collection(ThingsDocumentChangeKind::Created, "coll-1"),
        ]
    );

    let thing_events = add_thing(&mut docs, "thing-1", "Task");
    assert_eq!(
        thing_events,
        vec![ThingsDocumentEvent::thing(
            ThingsDocumentChangeKind::Created,
            "coll-1",
            "thing-1",
        )]
    );

    let markdown_create = docs.set_thing_markdown_text("thing-1", "hello");
    assert_eq!(
        markdown_create,
        vec![ThingsDocumentEvent::thing_markdown(
            ThingsDocumentChangeKind::Created,
            Some("coll-1"),
            "thing-1",
        )]
    );

    let markdown_update = docs
        .try_splice_thing_text("thing-1", "main", 5, 0, " world")
        .unwrap();
    assert_eq!(
        markdown_update,
        vec![ThingsDocumentEvent::thing_markdown(
            ThingsDocumentChangeKind::Updated,
            Some("coll-1"),
            "thing-1",
        )]
    );

    let entry = ContentEntry {
        id: "entry-1".to_string(),
        title: text("Example"),
        order: "0.0".to_string(),
        payload: ContentEntryPayload::Custom {
            content_type: "test/custom".to_string(),
            data: Json::object(vec![("value".to_string(), Json::signed(1))]),
        },
    };

    let add_entry_events = docs.add_content_entry("coll-1", "thing-1", entry).unwrap();
    assert_eq!(
        add_entry_events,
        vec![ThingsDocumentEvent::content_entry(
            ThingsDocumentChangeKind::Created,
            "coll-1",
            "thing-1",
            "entry-1",
        )]
    );

    let update_entry_events = docs
        .update_content_entry(
            "coll-1",
            "thing-1",
            "entry-1",
            Some(text("Renamed")),
            None,
            None,
        )
        .unwrap();
    assert_eq!(
        update_entry_events,
        vec![ThingsDocumentEvent::content_entry(
            ThingsDocumentChangeKind::Updated,
            "coll-1",
            "thing-1",
            "entry-1",
        )]
    );

    let delete_entry_events = docs
        .delete_content_entry("coll-1", "thing-1", "entry-1")
        .unwrap();
    assert_eq!(
        delete_entry_events,
        vec![ThingsDocumentEvent::content_entry(
            ThingsDocumentChangeKind::Deleted,
            "coll-1",
            "thing-1",
            "entry-1",
        )]
    );
}

#[test]
fn first_splice_creates_main_markdown_block() {
    let mut docs = ThingsDocumentSet::new("test-device");
    docs.get_or_init_collection("coll-1");

    let thing_events = add_thing(&mut docs, "thing-empty", "Empty");
    assert_eq!(
        thing_events,
        vec![ThingsDocumentEvent::thing(
            ThingsDocumentChangeKind::Created,
            "coll-1",
            "thing-empty",
        )]
    );

    let markdown_create = docs
        .try_splice_thing_text("thing-empty", "main", 0, 0, "hello")
        .unwrap();
    assert_eq!(
        markdown_create,
        vec![ThingsDocumentEvent::thing_markdown(
            ThingsDocumentChangeKind::Created,
            Some("coll-1"),
            "thing-empty",
        )]
    );
    assert_eq!(
        docs.get_thing_markdown_text("thing-empty"),
        text("hello")
    );
}

#[test]
fn replace_markdown_text_creates_main_block_when_missing() {
    let mut docs = ThingsDocumentSet::new("test-device");
    docs.get_or_init_collection("coll-1");
    add_thing(&mut docs, "thing-overwrite", "Overwrite");

    let markdown_create = docs.replace_thing_markdown_text("thing-overwrite", "seed");
    assert_eq!(
        markdown_create,
        vec![ThingsDocumentEvent::thing_markdown(
            ThingsDocumentChangeKind::Created,
            Some("coll-1"),
            "thing-overwrite",
        )]
    );
    assert_eq!(
        docs.get_thing_markdown_text("thing-overwrite"),
        text("seed")
    );
}

#[test]
fn test_upsert_thing_requires_existing_collection() {
    let mut docs = ThingsDocumentSet::new("test-device");
    let err = docs
        .upsert_thing_meta(
            "missing-coll",
            "thing-1",
            Some(ThingDatatype::Markdown),
            text("none"),
            text("Task 1"),
            None,
        )
        .expect_err("thing upsert without collection should fail");

    assert!(
        err.to_text()
            .contains("must exist before adding or reparenting things"),
        "{err:?}"
    );
}

#[test]
fn test_live_reachability_skips_deleted_things() {
    let mut docs = ThingsDocumentSet::new("test-device");
    docs.get_or_init_collection("coll-1");
    add_thing(&mut docs, "thing-1", "Task 1");
    docs.set_thing_markdown_text("thing-1", "hello");

    let live_collections = docs.active_collection_uuids();
    let live_things = docs.active_thing_uuids();
    assert!(live_collections.contains(&"coll-1".to_string()));
    assert!(live_things.contains(&"thing-1".to_string()));

    docs.delete_thing("coll-1", "thing-1");
    let live_things = docs.active_thing_uuids();
    assert!(!live_things.contains(&"thing-1".to_string()));

    let live_collections = docs.active_collection_uuids();
    let live_things = docs.active_thing_uuids();
    assert!(live_collections.contains(&"coll-1".to_string()));
    assert!(!live_things.contains(&"thing-1".to_string()));
}

#[test]
fn a_deleted_thing_is_not_shown() {
    let mut docs = ThingsDocumentSet::new("test-device");
    docs.get_or_init_collection("coll-1");
    add_thing(&mut docs, "thing-1", "One");
    add_thing(&mut docs, "thing-2", "Two");
    docs.delete_thing("coll-1", "thing-1");
    let titles: Vec<String> = docs.extract_snapshot().things.into_iter().map(|t| t.title).collect();
    assert_eq!(titles, vec!["Two".to_string()]);
    add_thing(&mut docs, "thing-1", "One again");
    assert_eq!(docs.extract_snapshot().things.len(), 2);
}

#[test]
fn a_refused_write_changes_nothing() {
    let mut docs = ThingsDocumentSet::new("test-device");
    docs.get_or_init_collection("coll-1");
    let before = format!("{:?}", docs);
    let err = docs
        .upsert_thing_meta_with_timestamps(
            "coll-1",
            "thing-1",
            None,
            None,
            text("Task"),
            None,
            text("yesterday"),
            None,
        )
        .unwrap_err();
    assert_eq!(err.to_text(), "Invalid RFC 3339 timestamp: yesterday");
    assert_eq!(format!("{:?}", docs), before);
    let err = docs.update_thing_attrs("coll-1", "thing-1", None).unwrap_err();
    assert_eq!(err.to_text(), "Thing not found: thing-1");
    let err = docs.update_collection_attrs("coll-2", None).unwrap_err();
    assert_eq!(err.to_text(), "Collection not found: coll-2");
    assert_eq!(format!("{:?}", docs), before);
}

#[test]
fn json_content_is_read_back() {
    let mut docs = ThingsDocumentSet::new("test-device");
    let value = Json::object(vec![("k".to_string(), Json::text("v"))]);
    docs.set_thing_json_content("doc-1", "thing-1", "json", &value);
    docs.set_thing_markdown_text("thing-1", "text");
    let read = docs.get_thing_json_content("doc-1").unwrap();
    assert_eq!(read.get_text("k"), text("v"));
    assert!(docs.get_thing_json_content("doc-2").is_none());
    assert!(docs.get_thing_json_content("thing-1").is_none());
    assert_eq!(docs.get_thing_markdown_text("doc-1"), None);
}

#[test]
fn a_splice_past_the_end_appends() {
    let mut docs = ThingsDocumentSet::new("test-device");
    docs.set_thing_markdown_text("thing-1", "héllo");
    assert!(docs.try_splice_thing_text("thing-1", "main", 1, 4, "i").is_some());
    assert_eq!(docs.get_thing_markdown_text("thing-1"), text("hi"));
    assert!(docs.try_splice_thing_text("thing-1", "main", 99, 99, "!").is_some());
    assert_eq!(docs.get_thing_markdown_text("thing-1"), text("hi!"));
    assert!(docs.try_splice_thing_text("thing-1", "main", 0, 0, "").is_none());
    assert!(docs.try_splice_thing_text("thing-2", "main", 3, 0, "x").is_none());
}

#[test]
fn an_embedded_payload_is_kept_in_the_attributes_of_its_block() {
    let mut docs = ThingsDocumentSet::new("test-device");
    let payload = Json::object(vec![("a".to_string(), Json::signed(1))]);
    docs.set_thing_content_from_payload(
        "thing-1",
        &ThingDatatype::Embedded("chart".to_string()),
        &payload,
    );
    assert_eq!(docs.get_thing_markdown_text("thing-1"), None);
    docs.set_thing_content_from_payload("thing-2", &ThingDatatype::Markdown, &payload);
    assert_eq!(docs.get_thing_markdown_text("thing-2"), text("{\"a\":1}"));
    let named = Json::object(vec![("markdown".to_string(), Json::text("# hi"))]);
    docs.set_thing_content_from_payload("thing-3", &ThingDatatype::Markdown, &named);
    assert_eq!(docs.get_thing_markdown_text("thing-3"), text("# hi"));
}
