use remi_client_sdk::bindings::{bindings_to_json, EntityActionBinding};
use remi_client_sdk::content_registry::{ContentEntry, ContentEntryPayload, ImageField, JsonObjectField};
use remi_client_sdk::error::SdkError;
use remi_client_sdk::json::Json;
use remi_client_sdk::rows::{
    ActionDefinition, ActionInvocationRecord, ActionInvocationSourceKind,
};
use remi_client_sdk::scheduling::TriggerRule;
use remi_client_sdk::sdk::creates::CreateChange;
use remi_client_sdk::sdk::edits::{DeleteChange, EditChange};
use remi_client_sdk::sdk::paths::{VirtualFsCatResult, VirtualFsNodeKind};
use remi_client_sdk::sdk::things::ActionCall;
use remi_client_sdk::sdk::RemiSdk;
use remi_client_sdk::search::index_state::SearchIndexState;
use remi_client_sdk::search::worker::SearchService;
use remi_client_sdk::storage::triggers::TriggerRegistration;
use remi_client_sdk::storage::Storage;
use remi_client_sdk::things_docs::ThingsDocumentSet;
use remi_client_sdk::things_types::{CollectionType, ThingDatatype};
use remi_client_sdk::virtual_path::{display_path, normalize_path, parse_virtual_path, VirtualPath};

fn text(s: &str) -> Option<String> {
    Some(s.to_string())
}

fn object(entries: Vec<(&str, Json)>) -> Json {
    Json::object(entries.into_iter().map(|(k, v)| (k.to_string(), v)).collect())
}

fn echo() -> ActionDefinition {
    ActionDefinition {
        action_uuid: "builtin.echo".to_string(),
        name: "echo".to_string(),
        title: "Echo".to_string(),
        description: "Says it again".to_string(),
        version: "1".to_string(),
        category: "test".to_string(),
        enabled: true,
        metadata_json: "{\"icon\":\"bell\"}".to_string(),
        script_source: "return args;".to_string(),
        input_schema_json: "not json".to_string(),
        output_schema_json: None,
        created_at: 1,
        updated_at: 1,
    }
}

fn sdk() -> RemiSdk {
    let mut storage = Storage::new("sdk.sqlite3");
    storage.seed_builtin_actions(&vec![echo()]);
    let mut docs = ThingsDocumentSet::new("device");
    docs.update_collection_meta("col", text("Inbox"), None).unwrap();
    docs.update_collection_attrs(
        "col",
        Some(object(vec![("card_jsx", Json::text("<Card/>"))])),
    )
    .unwrap();
    docs.upsert_thing_meta("col", "th", Some(ThingDatatype::Markdown), text("todo"), text("Task"), None)
        .unwrap();
    docs.set_thing_markdown_text("th", "hello");
    docs.add_content_entry(
        "col",
        "th",
        ContentEntry {
            id: "pic".to_string(),
            title: None,
            order: "0.0".to_string(),
            payload: ContentEntryPayload::Image(ImageField {
                uri: "remi://a.png".to_string(),
                caption: None,
                width: None,
                height: None,
                size_bytes: None,
                device_id: None,
            }),
        },
    )
    .unwrap();
    docs.add_content_entry(
        "col",
        "th",
        ContentEntry {
            id: "obj".to_string(),
            title: text("Data"),
            order: "1.0".to_string(),
            payload: ContentEntryPayload::JsonObject(JsonObjectField {
                data_doc_uuid: "data-doc".to_string(),
                schema_doc_uuid: None,
            }),
        },
    )
    .unwrap();
    docs.set_thing_json_content("data-doc", "th", "json", &object(vec![("n", Json::signed(1))]));
    RemiSdk::new(storage, docs, SearchService::new(SearchIndexState::new("index", false)))
}

#[test]
fn a_path_is_brought_to_its_normal_form() {
    assert_eq!(normalize_path(" /collection//a/ ").unwrap(), "/collection/a");
    assert_eq!(normalize_path("//").unwrap(), "/");
    let err = normalize_path("  ").unwrap_err();
    assert_eq!(
        err.to_text(),
        r#"{"error":"invalid_path","message":"Path must not be empty.","path":"/"}"#
    );
    let err = normalize_path("collection").unwrap_err();
    assert_eq!(
        err.to_text(),
        r#"{"error":"invalid_path","message":"Path must start with '/'.","path":"collection"}"#
    );
}

#[test]
fn every_kind_of_path_is_read_and_written() {
    for path in [
        "/", "/action", "/action/a", "/action/a/name", "/action/a/metadata.json",
        "/action/a/input.schema.json", "/action/a/output.schema.json", "/action/a/script.js",
        "/action/a/latest-invocation.json", "/collection", "/collection/c", "/collection/c/name",
        "/collection/c/card.jsx", "/collection/c/actions.json", "/collection/c/things",
        "/collection/c/things/t", "/collection/c/things/t/name",
        "/collection/c/things/t/actions.json", "/collection/c/things/t/status",
        "/collection/c/things/t/content.md", "/collection/c/things/t/entries.12",
        "/collection/c/things/t/entries.0.data.json",
        "/collection/c/things/t/entries.7.schema.json", "/collection/c/things/t/things",
        "/trigger/t", "/trigger/t/action.json",
    ] {
        let node = parse_virtual_path(path).unwrap();
        assert_eq!(display_path(&node), path);
    }
    assert!(matches!(
        parse_virtual_path("/collection/c/things/t/entries.+3").unwrap(),
        VirtualPath::ThingEntry { index: 3, .. }
    ));
    for path in ["/trigger", "/trigger/t/x", "/collection/c/x", "/action/a/b/c", "/collection/c/things/t/entries.x"] {
        assert!(parse_virtual_path(path).is_err(), "{path}");
    }
}

#[test]
fn files_of_an_action_are_read() {
    let mut sdk = sdk();
    let read = |sdk: &RemiSdk, path: &str| sdk.read_virtual_path(path).unwrap().content;
    assert_eq!(read(&sdk, "/action/builtin.echo/name"), "Echo");
    assert_eq!(read(&sdk, "/action/builtin.echo/script.js"), "return args;");
    assert_eq!(read(&sdk, "/action/builtin.echo/input.schema.json"), "{}");
    assert_eq!(read(&sdk, "/action/builtin.echo/output.schema.json"), "null");
    let metadata = read(&sdk, "/action/builtin.echo/metadata.json");
    assert!(metadata.contains("\"icon\": \"bell\""), "{metadata}");
    assert!(metadata.contains("\"enabled\": true"), "{metadata}");
    assert_eq!(read(&sdk, "/action/builtin.echo/latest-invocation.json"), "null");
    sdk.storage
        .insert_action_invocation(&ActionInvocationRecord {
            invocation_uuid: "inv".to_string(),
            action_uuid: "builtin.echo".to_string(),
            source_kind: "thing_manual".to_string(),
            source_entity_type: text("thing"),
            source_entity_uuid: text("th"),
            args_json: "{}".to_string(),
            result_json: None,
            console_logs_json: "[]".to_string(),
            error_json: None,
            started_at: 1,
            finished_at: 2,
            duration_ms: 1,
            device_id: None,
        })
        .unwrap();
    assert!(read(&sdk, "/action/builtin.echo/latest-invocation.json").contains("thing_manual"));
    let err = sdk.read_virtual_path("/action/none/name").unwrap_err();
    assert_eq!(
        err.to_text(),
        r#"{"error":"action_not_found","message":"Action 'none' was not found.","path":"/action/none/name"}"#
    );
    let err = sdk.read_virtual_path("/action/builtin.echo").unwrap_err();
    assert!(err.to_text().contains("read_unsupported"));
}

#[test]
fn files_of_collections_and_things_are_read() {
    let sdk = sdk();
    let read = |path: &str| sdk.read_virtual_path(path).unwrap().content;
    assert_eq!(read("/collection/col/name"), "Inbox");
    assert_eq!(read("/collection/col/card.jsx"), "<Card/>");
    assert_eq!(read("/collection/col/actions.json"), "[]");
    assert_eq!(read("/collection/col/things/th/name"), "Task");
    assert_eq!(read("/collection/col/things/th/status"), "todo");
    assert_eq!(read("/collection/col/things/th/content.md"), "hello");
    assert_eq!(read("/collection/col/things/th/entries.1.data.json"), "{\n  \"n\": 1\n}");
    assert_eq!(read("/collection/col/things/th/entries.1.schema.json"), "null");
    assert!(read("/collection/col/things/th/entries.1").contains("json_object"));
    let err = sdk.read_virtual_path("/collection/col/things/th/entries.9").unwrap_err();
    assert_eq!(
        err.to_text(),
        r#"{"error":"entry_index_out_of_range","message":"entries.9 is out of range for thing 'th'.","path":"entries.9"}"#
    );
    let err = sdk.read_virtual_path("/collection/none/name").unwrap_err();
    assert!(err.to_text().contains("collection_not_found"));
    let err = sdk.read_virtual_path("/collection/col/things/none/name").unwrap_err();
    assert!(err.to_text().contains("thing_not_found"));
}

#[test]
fn a_picture_is_shown_by_its_address() {
    let sdk = sdk();
    match sdk.cat_virtual_path("/collection/col/things/th/entries.0").unwrap() {
        VirtualFsCatResult::Image { uri } => assert_eq!(uri, "remi://a.png"),
        VirtualFsCatResult::Text(_) => panic!("a picture"),
    }
    match sdk.cat_virtual_path("/collection/col/things/th/name").unwrap() {
        VirtualFsCatResult::Text(read) => assert_eq!(read.content, "Task"),
        VirtualFsCatResult::Image { .. } => panic!("a text"),
    }
}

#[test]
fn the_tree_is_listed() {
    let sdk = sdk();
    let all = sdk.tree_virtual_path(None).unwrap();
    assert!(all.contains("action") && all.contains("collection"), "{all}");
    assert_eq!(sdk.ls_virtual_path(Some("/")).unwrap(), all);
    let thing = sdk.tree_virtual_path(Some("/collection/col/things/th")).unwrap();
    for part in ["name", "content.md", "entries.0", "entries.1"] {
        assert!(thing.contains(part), "{thing}");
    }
    assert!(sdk.tree_virtual_path(Some("/collection/none")).is_err());
    let profile = sdk.profile_tree_virtual_path(Some("/")).unwrap();
    assert_eq!(profile.output_bytes, all.len());
    let names: Vec<&str> = profile.steps.iter().map(|s| s.name).collect();
    assert_eq!(names, ["normalize_parse", "list_actions", "extract_tree_data", "render_tree"]);
    let profile = sdk.profile_read_virtual_path("/collection/col/things/th/content.md").unwrap();
    assert_eq!(profile.output_bytes, 5);
    assert_eq!(profile.steps[1].name, "render_content_markdown");
}

#[test]
fn the_system_is_read_where_nothing_is_stored() {
    let empty = RemiSdk::new(
        Storage::new("sdk.sqlite3"),
        ThingsDocumentSet::new("device"),
        SearchService::new(SearchIndexState::new("index", true)),
    );
    let shown = empty.things_list_snapshot().unwrap();
    assert_eq!(shown.collections.len(), 2);
    assert_eq!(shown.collections[0].title, "Drafts");
    assert_eq!(shown.collections[0].collection_type, CollectionType::Default);
    assert_eq!(shown.collections[1].title, "Trash");
    assert_eq!(shown.collections[1].collection_type, CollectionType::Trash);
    assert!(shown.collections.iter().all(|c| c.archived_at.is_none()));
    let path = "/collection/00000000-0000-0000-0000-000000000000/name";
    let read = empty.read_virtual_path(path).unwrap();
    assert_eq!(read.content, "Drafts");
    assert_eq!(read.kind, VirtualFsNodeKind::File);
    let profile = empty.profile_read_virtual_path(path).unwrap();
    assert_eq!(profile.path, read.path);
    assert_eq!(profile.output_bytes, read.content.len());
    assert!(empty.read_virtual_path("/collection/none/name").is_err());
    assert!(empty.profile_read_virtual_path("/collection/none/name").is_err());
}

#[test]
fn edits_are_planned() {
    let sdk = sdk();
    let edit = |path: &str, op: &str, value: Option<&Json>| {
        sdk.edit_virtual_path(path, op, value, Some("old"), None, Some(3))
    };
    let plan = edit("/collection/col/name", "", Some(&Json::text("Box"))).unwrap();
    assert_eq!(plan.path, "/collection/col/name");
    match &plan.change {
        EditChange::CollectionName { collection } => {
            assert_eq!(collection.uuid, "col");
            assert_eq!(collection.title, "Box");
            assert_eq!(collection.collection_type, CollectionType::Normal);
        }
        other => panic!("{other:?}"),
    }
    let answer = sdk.edit_virtual_path_answer(&plan, Ok(String::new())).unwrap();
    assert_eq!(answer.get_text("message"), text("Updated collection name for 'col'"));
    assert_eq!(answer.get_text("value"), text("Box"));
    assert_eq!(answer.get_bool("ok"), Some(true));

    match edit("/collection/col/things/th/content.md", " append ", Some(&Json::text("x"))).unwrap().change {
        EditChange::Content { operation, text: given, old_str, line_number, .. } => {
            assert_eq!(operation, "append");
            assert_eq!(given, text("x"));
            assert_eq!(old_str, text("old"));
            assert_eq!(line_number, Some(3));
        }
        other => panic!("{other:?}"),
    }
    let err = edit("/collection/col/things/th/content.md", "erase", None).unwrap_err();
    assert!(err.to_text().contains("Unsupported content.md edit operation 'erase'."));
    let err = edit("/action/builtin.echo/name", "", None).unwrap_err();
    assert!(err.to_text().contains("read_only_action_path"));
    let err = edit("/collection/col", "", None).unwrap_err();
    assert!(err.to_text().contains("is_directory"));
    let err = edit("/collection/col/name", "", Some(&Json::Null)).unwrap_err();
    assert!(err.to_text().contains("Editing collection name requires a string value."));
    let err = edit("/collection/none/name", "", Some(&Json::text("x"))).unwrap_err();
    assert!(err.to_text().contains("\"path\":\"/collection/none/name\""));
    let err = edit("/collection/col/things/none/name", "", Some(&Json::text("x"))).unwrap_err();
    assert!(err.to_text().contains("\"path\":\"/thing/none/name\""));
}

#[test]
fn edits_of_entries_are_planned() {
    let sdk = sdk();
    let base = "/collection/col/things/th";
    let edit = |name: &str, op: &str, value: Option<&Json>| {
        sdk.edit_virtual_path(&format!("{base}/{name}"), op, value, None, None, None)
    };
    let value = object(vec![("title", Json::Null), ("order", Json::signed(5))]);
    match edit("entries.1", "", Some(&value)).unwrap().change {
        EditChange::Entry { update, index, .. } => {
            assert_eq!(index, 1);
            assert_eq!(update.id, "obj");
            assert_eq!(update.title, Some(None));
            assert_eq!(update.order, text("5.0"));
            assert!(update.payload.is_none());
        }
        other => panic!("{other:?}"),
    }
    let bad = object(vec![("payload", object(vec![]))]);
    let err = edit("entries.1", "", Some(&bad)).unwrap_err();
    assert_eq!(err.to_text(), format!("Invalid payload for '{base}/entries.1'"));
    assert!(edit("entries.1", "", None).is_err());
    let err = edit("entries.1", "", Some(&Json::Null)).unwrap_err();
    assert!(err.to_text().contains("overwrite requires an object value"));
    let err = edit("entries.1.data.json", "append", None).unwrap_err();
    assert!(err.to_text().contains("entries.{idx}.data.json only supports overwrite."));
    let err = edit("entries.1.data.json", "overwrite", None).unwrap_err();
    assert!(err.to_text().contains("requires a JSON value"));
    let plan = edit("entries.1.data.json", "overwrite", Some(&Json::signed(2))).unwrap();
    let answer = sdk.edit_virtual_path_answer(&plan, Ok(String::new())).unwrap();
    assert_eq!(
        answer.get_text("message"),
        text("Updated json_object data for entry 1 on thing 'th'")
    );
    assert_eq!(answer.get("value").unwrap().get_int("n"), Some(1));
    let plan = edit("entries.1.schema.json", "", None).unwrap();
    let answer = sdk.edit_virtual_path_answer(&plan, Ok(String::new())).unwrap();
    assert!(matches!(answer.get("value"), Some(Json::Null)));
    let plan = edit("status", "", Some(&Json::text("done"))).unwrap();
    let failed = remi_client_sdk::error::failure("disk full");
    let err = sdk.edit_virtual_path_answer(&plan, Err(failed)).unwrap_err();
    assert_eq!(err.to_text(), "Failed to update thing status for th");
    let plan = edit("content.md", "", Some(&Json::text("x"))).unwrap();
    let answer = sdk.edit_virtual_path_answer(&plan, Ok("{\"ok\":true}".to_string())).unwrap();
    assert_eq!(answer.get_bool("ok"), Some(true));
    let err = sdk.edit_virtual_path_answer(&plan, Ok("?".to_string())).unwrap_err();
    assert_eq!(err.to_text(), "Failed to decode content.md edit result");
}

#[test]
fn deletions_are_planned_and_told() {
    let sdk = sdk();
    let plan = sdk.delete_virtual_path("/collection/col/things/th").unwrap();
    assert!(matches!(plan.change, DeleteChange::Thing { .. }));
    let answer = sdk.delete_virtual_path_answer(&plan, Ok(false)).unwrap();
    assert_eq!(answer.get_text("message"), text("Thing 'th' was already absent"));
    assert_eq!(answer.get_bool("ok"), Some(false));
    let plan = sdk.delete_virtual_path("/collection/col").unwrap();
    let answer = sdk.delete_virtual_path_answer(&plan, Ok(true)).unwrap();
    assert_eq!(answer.get_text("message"), text("Deleted collection 'col'"));
    let answer = sdk.delete_virtual_path_answer(&plan, Ok(false)).unwrap();
    assert_eq!(answer.get_text("message"), text("Collection 'col' was already absent"));
    let system = "00000000-0000-0000-0000-000000000001";
    let plan = sdk.delete_virtual_path(&format!("/collection/{system}")).unwrap();
    let answer = sdk.delete_virtual_path_answer(&plan, Ok(false)).unwrap();
    assert_eq!(
        answer.get_text("message"),
        Some(format!("Collection '{system}' is a protected system collection"))
    );
    let plan = sdk.delete_virtual_path("/collection/col/things/th/entries.0").unwrap();
    let answer = sdk.delete_virtual_path_answer(&plan, Ok(true)).unwrap();
    assert_eq!(answer.get_text("deleted_entry_id"), text("pic"));
    let err = sdk.delete_virtual_path("/collection/col/things/th/entries.5").unwrap_err();
    assert_eq!(
        err.to_text(),
        "Failed to resolve content entry at '/collection/col/things/th/entries.5'"
    );
    for (path, code) in [
        ("/action/a", "read_only_action_path"),
        ("/collection/col/actions.json", "read_only_action_path"),
        ("/collection/col/name", "delete_unsupported"),
        ("/collection/col/things/th/entries.0.data.json", "delete_unsupported"),
        ("/", "delete_unsupported"),
    ] {
        assert!(sdk.delete_virtual_path(path).unwrap_err().to_text().contains(code), "{path}");
    }
}

#[test]
fn moves_are_planned_and_told() {
    let sdk = sdk();
    let plan = sdk
        .move_virtual_path("/collection/col/things/th", "/collection/other/things/up/things")
        .unwrap();
    assert_eq!(plan.source_collection_uuid, "col");
    assert_eq!(plan.target_collection_uuid, "other");
    assert_eq!(plan.target_parent_uuid, text("up"));
    let answer = sdk.move_virtual_path_answer(&plan, Ok(())).unwrap();
    assert_eq!(
        answer.get_text("message"),
        text("Moved thing 'th' from collection 'col' to collection 'other' under parent 'up'")
    );
    for (from, to, code) in [
        ("/collection/col", "/collection/other/things", "move_unsupported"),
        ("/collection/col/things", "/collection/other/things", "invalid_source"),
        ("/collection/col/things/th", "/collection/other", "invalid_destination"),
        ("/collection/col/things/none", "/collection/other/things", "thing_not_found"),
    ] {
        assert!(sdk.move_virtual_path(from, to).unwrap_err().to_text().contains(code), "{from}");
    }
}

#[test]
fn creations_are_planned_and_told() {
    let sdk = sdk();
    let create = |parent: &str, kind: &str, uuid: Option<&str>| {
        sdk.create_virtual_path(parent, kind, None, None, None, None, None, uuid)
    };
    let plan = create("/", " Collection ", Some("new")).unwrap();
    match &plan {
        CreateChange::Collection { collection } => {
            assert_eq!(collection.uuid, "new");
            assert_eq!(collection.title, "New Collection");
        }
        other => panic!("{other:?}"),
    }
    let answer = sdk.create_virtual_path_answer(&plan, Ok(String::new())).unwrap();
    assert_eq!(answer.get_text("path"), text("/collection/new"));
    assert_eq!(answer.get_text("type"), text("collection"));
    assert_eq!(answer.get_text("uuid"), text("new"));
    match create("/collection/col/things/th/things", "thing", Some("  ")).unwrap() {
        CreateChange::Thing { thing } => {
            assert_eq!(thing.uuid.len(), 36);
            assert_eq!(thing.parent_uuid, text("th"));
            assert_eq!(thing.data.unwrap().get_text("markdown"), text(""));
        }
        other => panic!("{other:?}"),
    }
    for (parent, kind, code) in [
        ("/action", "collection", "invalid_parent"),
        ("/collection/col", "thing", "invalid_parent"),
        ("/collection/col", "image", "invalid_parent"),
        ("/collection/col", "json_object", "invalid_parent"),
        ("/", "action_binding", "invalid_parent"),
        ("/", "folder", "invalid_type"),
        ("/collection/col", "action_binding", "missing_action_uuid"),
        ("/collection/col/things/th", "image", "missing_source_uri"),
    ] {
        let err = create(parent, kind, None).unwrap_err().to_text();
        assert!(err.contains(code), "{err}");
    }
}

#[test]
fn pictures_and_objects_are_created_under_things() {
    let sdk = sdk();
    let parent = "/collection/col/things/th";
    let create = |kind: &str, content: Option<&str>, uri: Option<&str>, bind: Option<&str>| {
        sdk.create_virtual_path(parent, kind, None, text("T").as_deref(), content, uri, bind, Some("pic"))
    };
    let plan = create("image", None, Some(" remi://b.png "), None).unwrap();
    match &plan {
        CreateChange::Image { source_uri, orders, entry_id, title, .. } => {
            assert_eq!(source_uri, "remi://b.png");
            assert_eq!(orders, &vec!["0.0".to_string(), "1.0".to_string()]);
            assert_eq!(entry_id, "pic");
            assert_eq!(title, &text("T"));
        }
        other => panic!("{other:?}"),
    }
    let answer = sdk.create_virtual_path_answer(&plan, Ok(String::new())).unwrap();
    assert_eq!(answer.get_text("path"), Some(format!("{parent}/entries.0")));
    assert_eq!(answer.get_text("source_uri"), text("remi://b.png"));
    let err = create("image", None, Some("http://b.png"), None).unwrap_err();
    assert!(err.to_text().contains("invalid_source_uri"));
    let err = create("thing", None, Some("remi://b.png"), None).unwrap_err();
    assert!(err.to_text().contains("source_uri_unsupported"));
    let err = create("json_object", None, None, Some("nowhere")).unwrap_err();
    assert!(err.to_text().contains("Path must start with '/'."));
    let err = create("json_object", Some("{"), None, None).unwrap_err();
    assert!(err.to_text().contains("json_object content must be valid JSON: "));
    let plan = create("json_object", Some("[1]"), None, None).unwrap();
    let answer = sdk.create_virtual_path_answer(&plan, Ok("obj".to_string())).unwrap();
    assert_eq!(answer.get_text("path"), Some(format!("{parent}/entries.1")));
    let err = sdk.create_virtual_path_answer(&plan, Ok("gone".to_string())).unwrap_err();
    assert_eq!(
        err.to_text(),
        "Created json_object entry 'gone' was not found after insertion"
    );
}

#[test]
fn bindings_are_created_edited_and_shown() {
    let mut sdk = sdk();
    let plan = sdk
        .create_virtual_path(
            "/collection/col",
            "action_binding",
            Some(" builtin.echo "),
            Some("Collection Echo"),
            Some(r#"{"scope":"collection"}"#),
            None,
            None,
            None,
        )
        .unwrap();
    let bindings: Vec<EntityActionBinding> = match plan {
        CreateChange::CollectionBinding { binding, bindings, .. } => {
            assert_eq!(binding.action_uuid, "builtin.echo");
            bindings
        }
        other => panic!("{other:?}"),
    };
    assert_eq!(bindings.len(), 1);
    let attrs = object(vec![(
        "action_bindings",
        remi_client_sdk::bindings::bindings_to_json(&bindings),
    )]);
    sdk.documents.update_collection_attrs("col", Some(attrs)).unwrap();
    let shown = sdk.read_virtual_path("/collection/col/actions.json").unwrap().content;
    assert!(shown.contains("Collection Echo"), "{shown}");
    assert!(shown.contains("builtin.echo"), "{shown}");
    let call = sdk.execute_collection_action_now("device-test", "col", "builtin.echo").unwrap();
    assert_eq!(call.source_kind, ActionInvocationSourceKind::CollectionManual);
    assert_eq!(call.source_entity_type, "collection");
    assert_eq!(call.source_entity_uuid, "col");
    assert_eq!(call.device_id, "device-test");
    assert_eq!(call.args_json.get_text("scope"), text("collection"));
    let err = sdk.execute_thing_action_now("device-test", "th", "builtin.echo").unwrap_err();
    assert_eq!(err.to_text(), "Thing 'th' is not bound to action 'builtin.echo'");
    let err = sdk
        .create_virtual_path(
            "/collection/col",
            "action_binding",
            Some("builtin.echo"),
            None,
            None,
            None,
            None,
            None,
        )
        .unwrap_err();
    assert!(err.to_text().contains("Collection already has this action binding."));
    let value = Json::list(vec![object(vec![
        ("action_uuid", Json::text("builtin.echo")),
        ("label_override", Json::text("Updated")),
        ("args_json", object(vec![])),
    ])]);
    let plan = sdk
        .edit_virtual_path("/collection/col/actions.json", "overwrite", Some(&value), None, None, None)
        .unwrap();
    match plan.change {
        EditChange::CollectionActions { bindings, .. } => {
            assert_eq!(bindings[0].label_override, text("Updated"));
        }
        other => panic!("{other:?}"),
    }
    let plan = sdk
        .edit_virtual_path("/collection/col/actions.json", "", Some(&Json::Null), None, None, None)
        .unwrap();
    assert!(matches!(plan.change, EditChange::CollectionActions { bindings, .. } if bindings.is_empty()));
    let err = sdk
        .edit_virtual_path("/collection/col/actions.json", "", None, None, None, None)
        .unwrap_err();
    assert!(err.to_text().contains("actions.json requires an array, an object, or null."));
}

fn seeded(collection_id: &str, thing_id: &str) -> RemiSdk {
    let mut action = echo();
    action.action_uuid = "builtin.echo_json".to_string();
    let mut storage = Storage::new("sdk.sqlite3");
    storage.seed_builtin_actions(&vec![action]);
    let mut docs = ThingsDocumentSet::new("device-test");
    docs.update_collection_meta(collection_id, text("Test Collection"), None).unwrap();
    docs.upsert_thing_meta(
        collection_id,
        thing_id,
        Some(ThingDatatype::Markdown),
        None,
        text("Test Thing"),
        None,
    )
    .unwrap();
    docs.set_thing_markdown_text(thing_id, "before");
    RemiSdk::new(storage, docs, SearchService::new(SearchIndexState::new("index", true)))
}

fn bound(label: &str, scope: &str) -> Json {
    bindings_to_json(&vec![EntityActionBinding {
        action_uuid: "builtin.echo_json".to_string(),
        label_override: text(label),
        args_json: object(vec![("scope", Json::text(scope))]),
    }])
}

fn record(call: ActionCall, id: &str, at: i64) -> ActionInvocationRecord {
    ActionInvocationRecord {
        invocation_uuid: id.to_string(),
        action_uuid: call.action_uuid,
        source_kind: call.source_kind.as_str().to_string(),
        source_entity_type: Some(call.source_entity_type.to_string()),
        source_entity_uuid: Some(call.source_entity_uuid),
        args_json: "{}".to_string(),
        result_json: None,
        console_logs_json: "[]".to_string(),
        error_json: None,
        started_at: at,
        finished_at: at,
        duration_ms: 0,
        device_id: Some(call.device_id),
    }
}

#[test]
fn collection_and_thing_action_bindings_are_exposed_and_invokable() {
    let device_id = "device-test";
    let collection_id = "col-test";
    let thing_id = "thing-test";
    let mut sdk = seeded(collection_id, thing_id);

    let attrs = object(vec![("action_bindings", bound("Collection Echo", "collection"))]);
    let set = sdk.documents.update_collection_attrs(collection_id, Some(attrs)).map(|_| ());
    sdk.things_set_collection_action_bindings(collection_id, set).unwrap();
    let attrs = object(vec![("action_bindings", bound("Thing Echo", "thing"))]);
    let set = sdk.documents.update_thing_attrs(collection_id, thing_id, Some(attrs)).map(|_| ());
    sdk.things_set_thing_action_bindings(thing_id, set).unwrap();

    let collection_actions =
        sdk.read_virtual_path(&format!("/collection/{collection_id}/actions.json")).unwrap();
    assert!(collection_actions.content.contains("Collection Echo"));
    assert!(collection_actions.content.contains("builtin.echo_json"));

    let thing_actions = sdk
        .read_virtual_path(&format!("/collection/{collection_id}/things/{thing_id}/actions.json"))
        .unwrap();
    assert!(thing_actions.content.contains("Thing Echo"));

    let collection_invocation = record(
        sdk.execute_collection_action_now(device_id, collection_id, "builtin.echo_json").unwrap(),
        "i1",
        1,
    );
    assert_eq!(
        ActionInvocationSourceKind::from_name(&collection_invocation.source_kind),
        Some(ActionInvocationSourceKind::CollectionManual)
    );
    assert_eq!(collection_invocation.source_entity_uuid.as_deref(), Some(collection_id));
    sdk.storage.insert_action_invocation(&collection_invocation).unwrap();

    let thing_invocation = record(
        sdk.execute_thing_action_now(device_id, thing_id, "builtin.echo_json").unwrap(),
        "i2",
        2,
    );
    assert_eq!(
        ActionInvocationSourceKind::from_name(&thing_invocation.source_kind),
        Some(ActionInvocationSourceKind::ThingManual)
    );
    assert_eq!(thing_invocation.source_entity_uuid.as_deref(), Some(thing_id));
    sdk.storage.insert_action_invocation(&thing_invocation).unwrap();

    let latest =
        sdk.read_virtual_path("/action/builtin.echo_json/latest-invocation.json").unwrap();
    assert!(
        latest.content.contains("thing_manual") || latest.content.contains("collection_manual")
    );
}

#[test]
fn sdk_seeds_builtin_actions_and_exposes_action_vfs() {
    let mut sdk = seeded("col-test", "thing-test");
    let mut action = echo();
    action.action_uuid = "builtin.echo_json".to_string();
    action.metadata_json = "{\"supports_trigger\":true}".to_string();
    sdk.storage.seed_builtin_actions(&vec![action]);
    let actions = sdk.storage.list_actions();

    assert!(!actions.is_empty());
    assert_eq!(actions[0].action_uuid, "builtin.echo_json");

    let tree = sdk.tree_virtual_path(Some("/action")).unwrap();
    assert!(tree.contains("builtin.echo_json/"));

    let metadata = sdk.read_virtual_path("/action/builtin.echo_json/metadata.json").unwrap();
    assert!(metadata.content.contains("supports_trigger"));
}

/// Carries out a creation that gives a binding, and answers it.
fn bind(sdk: &mut RemiSdk, parent_path: &str, title: Option<&str>, content: &str) -> Json {
    let change = sdk
        .create_virtual_path(
            parent_path,
            "action_binding",
            Some("builtin.echo_json"),
            title,
            Some(content),
            None,
            None,
            None,
        )
        .unwrap();
    let done = match &change {
        CreateChange::TriggerBinding { trigger_uuid, binding } => {
            sdk.set_trigger_binding(trigger_uuid, &Some(binding.duplicate_binding()));
            Ok(String::new())
        }
        CreateChange::CollectionBinding { collection_uuid, bindings, .. } => {
            let attrs = object(vec![("action_bindings", bindings_to_json(bindings))]);
            sdk.documents.update_collection_attrs(collection_uuid, Some(attrs)).map(|_| String::new())
        }
        CreateChange::ThingBinding { collection_uuid, thing_uuid, bindings, .. } => {
            let attrs = object(vec![("action_bindings", bindings_to_json(bindings))]);
            sdk.documents
                .update_thing_attrs(collection_uuid, thing_uuid, Some(attrs))
                .map(|_| String::new())
        }
        _ => panic!("no binding"),
    };
    sdk.create_virtual_path_answer(&change, done).unwrap()
}

fn with_trigger(trigger_id: &str) -> RemiSdk {
    let mut sdk = seeded("col-test", "thing-test");
    sdk.storage.insert_trigger(
        TriggerRegistration {
            trigger_uuid: trigger_id.to_string(),
            name: "Test Trigger".to_string(),
            version: "v1".to_string(),
            precondition: vec![TriggerRule {
                rule: "true".to_string(),
                description: "always".to_string(),
            }],
            condition: Vec::new(),
            action_uuid: None,
            action_args: object(vec![]),
        },
        None,
    );
    sdk
}

#[test]
fn virtual_fs_create_and_edit_support_action_bindings() {
    let collection_id = "col-test";
    let thing_id = "thing-test";
    let trigger_id = "trigger-test";
    let mut sdk = with_trigger(trigger_id);

    let answer =
        bind(&mut sdk, &format!("/trigger/{trigger_id}"), None, r#"{"scope":"trigger"}"#);
    assert_eq!(answer.get_text("path"), text("/trigger/trigger-test/action.json"));
    assert_eq!(answer.get_text("type"), text("action_binding"));
    assert_eq!(answer.get_text("trigger_uuid"), text("trigger-test"));
    bind(
        &mut sdk,
        &format!("/collection/{collection_id}"),
        Some("Collection Echo"),
        r#"{"scope":"collection"}"#,
    );
    bind(
        &mut sdk,
        &format!("/collection/{collection_id}/things/{thing_id}"),
        Some("Thing Echo"),
        r#"{"scope":"thing"}"#,
    );

    let trigger_action =
        sdk.read_virtual_path(&format!("/trigger/{trigger_id}/action.json")).unwrap();
    assert!(trigger_action.content.contains("builtin.echo_json"));
    assert!(trigger_action.content.contains("scope"));

    let value = Json::list(vec![object(vec![
        ("action_uuid", Json::text("builtin.echo_json")),
        ("args_json", object(vec![("scope", Json::text("collection-updated"))])),
        ("label_override", Json::text("Collection Echo Updated")),
    ])]);
    let edit = sdk
        .edit_virtual_path(
            &format!("/collection/{collection_id}/actions.json"),
            "overwrite",
            Some(&value),
            None,
            None,
            None,
        )
        .unwrap();
    let done = match &edit.change {
        EditChange::CollectionActions { collection_uuid, bindings } => {
            let attrs = object(vec![("action_bindings", bindings_to_json(bindings))]);
            sdk.documents.update_collection_attrs(collection_uuid, Some(attrs)).map(|_| String::new())
        }
        _ => panic!("no bindings"),
    };
    sdk.edit_virtual_path_answer(&edit, done).unwrap();

    let edit = sdk
        .edit_virtual_path(
            &format!("/trigger/{trigger_id}/action.json"),
            "overwrite",
            Some(&Json::Null),
            None,
            None,
            None,
        )
        .unwrap();
    match &edit.change {
        EditChange::TriggerAction { trigger_uuid, binding } => {
            assert!(binding.is_none());
            sdk.set_trigger_binding(trigger_uuid, binding);
        }
        _ => panic!("no action"),
    }
    let answer = sdk.edit_virtual_path_answer(&edit, Ok(String::new())).unwrap();
    assert_eq!(
        answer.get_text("message"),
        text("Updated trigger action binding for 'trigger-test'")
    );

    let updated_collection_actions =
        sdk.read_virtual_path(&format!("/collection/{collection_id}/actions.json")).unwrap();
    assert!(updated_collection_actions.content.contains("Collection Echo Updated"));

    let cleared_trigger_action =
        sdk.read_virtual_path(&format!("/trigger/{trigger_id}/action.json")).unwrap();
    assert_eq!(cleared_trigger_action.content.trim(), "null");
}

#[test]
fn paths_of_triggers_are_refused_where_they_name_nothing() {
    let mut sdk = with_trigger("t");
    let told = |e: SdkError| match e {
        SdkError::Path { code, .. } => code,
        _ => panic!("no refusal of a path"),
    };
    let create = |sdk: &RemiSdk, path: &str, action: Option<&str>, content: &str| {
        let content = Some(content);
        sdk.create_virtual_path(path, "action_binding", action, None, content, None, None, None)
    };
    let echo = Some("builtin.echo_json");
    assert_eq!(told(sdk.read_virtual_path("/trigger").unwrap_err()), "invalid_path");
    assert_eq!(told(sdk.read_virtual_path("/trigger/t/rule").unwrap_err()), "invalid_path");
    assert_eq!(told(sdk.read_virtual_path("/trigger/t").unwrap_err()), "read_unsupported");
    assert_eq!(
        told(sdk.read_virtual_path("/trigger/x/action.json").unwrap_err()),
        "trigger_not_found"
    );
    assert_eq!(told(sdk.tree_virtual_path(Some("/trigger/t")).unwrap_err()), "tree_unsupported");
    assert_eq!(told(create(&sdk, "/trigger/t", None, "{}").unwrap_err()), "missing_action_uuid");
    assert_eq!(told(create(&sdk, "/trigger/x", echo, "{}").unwrap_err()), "trigger_not_found");
    assert_eq!(told(create(&sdk, "/trigger/t", echo, "{").unwrap_err()), "invalid_content");
    assert_eq!(
        told(create(&sdk, "/trigger/t/action.json", echo, "{}").unwrap_err()),
        "invalid_parent"
    );
    bind(&mut sdk, "/trigger/t", None, "{}");
    assert_eq!(
        told(create(&sdk, "/trigger/t", echo, "{}").unwrap_err()),
        "duplicate_action_binding"
    );
    let edit = |sdk: &RemiSdk, path: &str, value: Option<&Json>| {
        sdk.edit_virtual_path(path, "overwrite", value, None, None, None)
    };
    assert_eq!(told(edit(&sdk, "/trigger/t", None).unwrap_err()), "is_directory");
    assert_eq!(told(edit(&sdk, "/trigger/t/action.json", None).unwrap_err()), "invalid_value");
    assert_eq!(
        told(edit(&sdk, "/trigger/x/action.json", Some(&Json::Null)).unwrap_err()),
        "trigger_not_found"
    );
    let one = || object(vec![("action_uuid", Json::text("a"))]);
    let two = Json::list(vec![one(), one()]);
    assert_eq!(
        told(edit(&sdk, "/trigger/t/action.json", Some(&two)).unwrap_err()),
        "invalid_value"
    );
    let changed = edit(&sdk, "/trigger/t/action.json", Some(&one())).unwrap();
    match &changed.change {
        EditChange::TriggerAction { trigger_uuid, binding } => {
            sdk.set_trigger_binding_at(trigger_uuid, binding, 77)
        }
        _ => panic!("no action"),
    }
    let kept = sdk.storage.fetch_trigger("t").unwrap();
    assert_eq!(kept.action_uuid, text("a"));
    assert_eq!(kept.action_args_json, "{}");
    assert_eq!(kept.updated_at, 77);
    assert_eq!(told(sdk.delete_virtual_path("/trigger/t").unwrap_err()), "delete_unsupported");
}
