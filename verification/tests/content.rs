use remi_client_sdk::content_registry::{
    ContentEntry, ContentEntryKind, ContentEntryPayload, ContentTypeRegistry, LocationField,
};
use remi_client_sdk::document_store::{CrdtDataType, DocumentKey};
use remi_client_sdk::json::Json;
use remi_client_sdk::letters::{replace_text, sort_texts, to_ascii_lower};
use remi_client_sdk::text::{join, parse_unsigned, trim};
use remi_client_sdk::things_local::{rewrite_embedded_entry_references, ThingsLocalService};
use remi_client_sdk::things_replay::merge_event_ranges;
use remi_client_sdk::things_types::{CollectionType, SnapshotOptions};

fn text(s: &str) -> Option<String> {
    Some(s.to_string())
}

fn object(entries: Vec<(&str, Json)>) -> Json {
    Json::object(entries.into_iter().map(|(k, v)| (k.to_string(), v)).collect())
}

fn payload(entries: Vec<(&str, Json)>) -> Result<ContentEntryPayload, String> {
    ContentTypeRegistry::new()
        .parse_content_entry_payload(&object(entries))
        .map_err(|e| e.to_text())
}

#[test]
fn payloads_are_read_by_their_type() {
    assert!(matches!(
        payload(vec![("type", Json::text("url")), ("url", Json::text("http://x"))]),
        Ok(ContentEntryPayload::Url(f)) if f.url == "http://x" && !f.resolved
    ));
    match payload(vec![("type", Json::text("markdown"))]) {
        Ok(ContentEntryPayload::Markdown { doc_uuid }) => {
            assert_eq!(doc_uuid.len(), 36);
            assert!(uuid::Uuid::parse_str(&doc_uuid).is_ok());
        }
        other => panic!("{other:?}"),
    }
    assert!(matches!(
        payload(vec![("type", Json::text("image")), ("width", Json::unsigned(0x1_0000_0002))]),
        Ok(ContentEntryPayload::Image(f)) if f.width == Some(2) && f.uri.is_empty()
    ));
    assert!(matches!(
        payload(vec![("type", Json::text("chart")), ("n", Json::signed(1))]),
        Ok(ContentEntryPayload::Custom { content_type, data })
            if content_type == "chart" && data.get_int("n") == Some(1) && data.get("type").is_none()
    ));
    assert_eq!(payload(vec![]).unwrap_err(), "Missing payload type");
    assert_eq!(
        payload(vec![("type", Json::text("date"))]).unwrap_err(),
        "Missing timestamp_ms"
    );
}

#[test]
fn payloads_come_back_from_their_json_form() {
    let registry = ContentTypeRegistry::new();
    for p in [
        payload(vec![("type", Json::text("date")), ("timestamp_ms", Json::signed(-3))]).unwrap(),
        payload(vec![("type", Json::text("json_object")), ("data_doc_uuid", Json::text("d"))]).unwrap(),
        ContentEntryPayload::Location(LocationField::Fuzzy {
            name: "home".to_string(),
            place_type: "house".to_string(),
        }),
    ] {
        let form = registry.serialize_content_entry_payload(&p);
        let back = registry.parse_content_entry_payload(&form).unwrap();
        assert_eq!(format!("{p:?}"), format!("{back:?}"));
    }
}

#[test]
fn fields_of_an_external_kind_come_back() {
    let registry = ContentTypeRegistry::new();
    let given = object(vec![
        ("a", Json::signed(1)),
        ("type", Json::text("com.example.note")),
        ("z", Json::list(vec![Json::Null])),
    ]);
    let read = registry.parse_content_entry_payload(&given).unwrap();
    let form = registry.serialize_content_entry_payload(&read);
    assert_eq!(form.get_text("type"), text("com.example.note"));
    assert_eq!(form.get_uint("a"), Some(1));
    assert!(matches!(form.get("z"), Some(Json::List(items)) if items.len() == 1));
    assert!(form.get("data").is_none());
    match &form {
        Json::Object(entries) => assert_eq!(entries.len(), 3),
        _ => panic!("no object"),
    }
}

#[test]
fn the_first_payload_of_a_kind_is_found() {
    let registry = ContentTypeRegistry::new();
    let entry = |id: &str, p: ContentEntryPayload| ContentEntry {
        id: id.to_string(),
        title: None,
        order: "0".to_string(),
        payload: p,
    };
    let entries = vec![
        entry("a", payload(vec![("type", Json::text("url")), ("url", Json::text("u"))]).unwrap()),
        entry("b", payload(vec![("type", Json::text("x")), ("n", Json::signed(1))]).unwrap()),
    ];
    let found = registry.find_first_payload_by_kind(&entries, &ContentEntryKind::Url).unwrap();
    assert_eq!(found.get_text("url"), text("u"));
    assert!(registry
        .find_first_payload_by_kind(&entries, &ContentEntryKind::Custom("x".to_string()))
        .is_some());
    assert!(registry
        .find_first_payload_by_kind(&entries, &ContentEntryKind::Custom("y".to_string()))
        .is_none());
    assert!(registry.find_first_payload_by_kind(&entries, &ContentEntryKind::Date).is_none());
}

#[test]
fn parts_of_a_snapshot_are_taken_out() {
    let registry = ContentTypeRegistry::new();
    let block = object(vec![("id", Json::text("main")), ("text", Json::text("hi"))]);
    let data = object(vec![(
        "content",
        object(vec![("blocks", Json::list(vec![block]))]),
    )]);
    let (markdown, entries) = registry.extract_thing_snapshot_parts(&data).unwrap();
    assert_eq!(markdown, text("hi"));
    assert!(entries.is_empty());
}

#[test]
fn keys_of_documents() {
    let key = DocumentKey::from_storage_parts("c", "collection").unwrap();
    assert_eq!(key.data_type, CrdtDataType::Collection);
    assert_eq!(key.data_type_str(), "collection");
    assert!(key.same_key(&DocumentKey::collection("c")));
    assert!(DocumentKey::from_storage_parts("c", "song").is_none());
    assert!(DocumentKey::root().data_type.sync_priority() < key.data_type.sync_priority());
}

#[test]
fn names_of_collection_types() {
    assert_eq!(CollectionType::from_name(&text("trash")), CollectionType::Trash);
    assert_eq!(CollectionType::from_name(&text("song")), CollectionType::Normal);
    assert_eq!(CollectionType::App.as_str(), "app");
    assert!(SnapshotOptions::default().include_content);
}

#[test]
fn references_to_entries_are_rewritten() {
    let entry = ContentEntry {
        id: "e1".to_string(),
        title: None,
        order: "0".to_string(),
        payload: payload(vec![("type", Json::text("url"))]).unwrap(),
    };
    let plain = rewrite_embedded_entry_references("no links", "c", "t", &vec![entry]);
    assert_eq!(plain, "no links");
}

#[test]
fn an_app_has_one_collection() {
    let first = ThingsLocalService::app_collection_uuid(" app ").unwrap();
    assert_eq!(ThingsLocalService::app_collection_uuid("app").unwrap(), first);
    assert_ne!(ThingsLocalService::app_collection_uuid("other").unwrap(), first);
    assert!(uuid::Uuid::parse_str(&first).is_ok());
    assert!(ThingsLocalService::app_collection_uuid("  ").is_err());
}

#[test]
fn ranges_of_events_are_merged() {
    assert_eq!(merge_event_ranges(Some((3, 5)), Some((1, 4))), Some((1, 5)));
    assert_eq!(merge_event_ranges(None, Some((1, 4))), Some((1, 4)));
    assert_eq!(merge_event_ranges(None, None), None);
}

#[test]
fn texts_and_letters() {
    assert_eq!(trim(" \u{3000}x\n"), "x");
    assert_eq!(to_ascii_lower("ÄBC"), "Äbc");
    assert_eq!(replace_text("aXbX", "X", "--"), "a--b--");
    assert_eq!(
        sort_texts(&vec!["b".to_string(), "a".to_string()]),
        vec!["a".to_string(), "b".to_string()]
    );
    assert_eq!(join(&vec!["a".to_string(), "b".to_string()], ", "), "a, b");
    assert_eq!(parse_unsigned("+12", 100), Some(12));
    assert_eq!(parse_unsigned("101", 100), None);
}
