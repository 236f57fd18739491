use remi_client_sdk::clock::DomainTime;
use remi_client_sdk::error::SdkError;
use remi_client_sdk::json::Json;
use remi_client_sdk::rows::{
    ActionDefinition, ActionInvocationRecord, ActorMetaEntry, AgentVersion, ChatSession,
    EvalDataset, NotificationEntry, ThingsOperationType, TriggerLogEntry, TriggerRunType,
};
use remi_client_sdk::search::documents::{SearchDocument, SearchEntityKind, SearchIngestAction};
use remi_client_sdk::storage::chat::EvalDatasetUpdate;
use remi_client_sdk::storage::triggers::{EventPayload, TriggerRegistration};
use remi_client_sdk::storage::Storage;

fn text(s: &str) -> Option<String> {
    Some(s.to_string())
}

fn trigger(uuid: &str) -> TriggerRegistration {
    TriggerRegistration {
        trigger_uuid: uuid.to_string(),
        name: uuid.to_string(),
        version: "v1".to_string(),
        precondition: vec![],
        condition: vec![],
        action_uuid: None,
        action_args: Json::Null,
    }
}

#[test]
fn logs_of_triggers_are_listed_latest_first() {
    let mut s = Storage::new("sdk.sqlite3");
    s.insert_trigger_at(trigger("t1"), Some(10), 1);
    s.insert_trigger_log_at("t1", "info", "one", 10, TriggerRunType::Automatic, 11);
    s.insert_trigger_log_at("t1", "error", "two", 20, TriggerRunType::Manual, 21);
    s.insert_trigger_log_at("t2", "info", "other", 20, TriggerRunType::Manual, 22);
    let lines: Vec<String> =
        s.list_trigger_logs("t1", None, None).unwrap().into_iter().map(|l| l.message).collect();
    assert_eq!(lines, vec!["two".to_string(), "one".to_string()]);
    assert_eq!(s.list_trigger_logs("t1", Some(1), None).unwrap().len(), 1);
    assert_eq!(s.list_trigger_logs("t1", Some(0), None).unwrap().len(), 2);
    let automatic = s.export_trigger_logs("t1", Some(TriggerRunType::Automatic)).unwrap();
    assert_eq!(automatic[0].message, "one");
    assert_eq!(automatic[0].run_type, "automatic");
    // A line with a kind of runs that cannot be read.
    s.trigger_logs.rows[0].data.run_type = "odd".to_string();
    let told = |out: Result<Vec<TriggerLogEntry>, SdkError>| out.unwrap_err().to_text();
    assert_eq!(told(s.list_trigger_logs("t1", None, None)), "Failed to fetch trigger logs");
    assert_eq!(told(s.list_trigger_logs("t1", Some(5), None)), "Failed to fetch limited trigger logs");
    assert_eq!(told(s.export_trigger_logs("t1", None)), "Failed to fetch trigger logs");
    assert_eq!(s.export_trigger_logs("t1", Some(TriggerRunType::Manual)).unwrap().len(), 1);
    assert_eq!(s.list_trigger_logs("t2", None, None).unwrap().len(), 1);
    s.update_next_fire("t1", 10, Some(99), true);
    let fired = s.fetch_trigger("t1").unwrap();
    assert_eq!((fired.next_fire, fired.last_result), (Some(99), Some(true)));
}

#[test]
fn triggers_are_bound_to_entities() {
    let mut s = Storage::new("sdk.sqlite3");
    s.insert_trigger_at(trigger("t1"), None, 1);
    s.insert_trigger_at(trigger("t2"), None, 2);
    s.upsert_trigger_binding("t1", "thing", "a");
    s.upsert_trigger_binding("t1", "collection", "b");
    assert_eq!(s.list_bound_trigger_uuids(), vec!["t1".to_string()]);
    let entities = s.get_entities_for_trigger("t1");
    assert_eq!(entities.len(), 2);
    assert_eq!(entities[0], ("thing".to_string(), "a".to_string()));
    assert_eq!(s.list_triggers_for_context_prompt(1).len(), 1);
    assert!(s.list_triggers_for_context_prompt(0).is_empty());
    let lines = s.list_triggers_for_context_prompt(usize::MAX);
    assert_eq!(lines[0].trigger.trigger_uuid, "t2");
    s.delete_trigger_binding("thing", "a");
    assert_eq!(s.get_entities_for_trigger("t1").len(), 1);
}

#[test]
fn recent_events_come_latest_first() {
    let mut s = Storage::new("sdk.sqlite3");
    for seconds in [100, 4000, 5000] {
        s.insert_event(&EventPayload {
            event_type: "e".to_string(),
            timestamp: DomainTime { seconds, nanos: 0 },
            metadata: Json::Null,
        });
    }
    let times: Vec<i64> = s.fetch_events_recent(5000, 20).into_iter().map(|e| e.timestamp_utc).collect();
    assert_eq!(times, vec![5000, 4000]);
}

#[test]
fn the_latest_invocation_is_found() {
    let mut s = Storage::new("sdk.sqlite3");
    for (id, at) in [("i1", 10), ("i2", 30), ("i3", 20)] {
        s.insert_action_invocation(&ActionInvocationRecord {
            invocation_uuid: id.to_string(),
            action_uuid: "a".to_string(),
            source_kind: "thing_manual".to_string(),
            source_entity_type: None,
            source_entity_uuid: None,
            args_json: "{}".to_string(),
            result_json: None,
            console_logs_json: "[]".to_string(),
            error_json: None,
            started_at: at,
            finished_at: at + 1,
            duration_ms: 1000,
            device_id: None,
        })
        .unwrap();
    }
    assert_eq!(s.latest_action_invocation("a").unwrap().unwrap().invocation_uuid, "i2");
    assert!(s.latest_action_invocation("b").unwrap().is_none());
    s.action_invocations.rows[1].data.source_kind = "odd".to_string();
    let err = s.latest_action_invocation("a").unwrap_err();
    assert_eq!(err.to_text(), "Failed to fetch latest action invocation");
}

#[test]
fn changes_can_be_followed_and_marked() {
    let mut s = Storage::new("sdk.sqlite3");
    let id = s
        .insert_things_change_log(
            "dev",
            ThingsOperationType::UpdateThing,
            "thing",
            "th",
            "changed",
            "{}",
            None,
            true,
        )
        .unwrap();
    s.update_things_change_log_cascade_ids(id, &vec![4, -5]);
    assert_eq!(s.get_things_change_log(id).unwrap().cascade_log_ids_json, text("[4,-5]"));
    assert_eq!(s.list_things_change_log_for_entity("thing", "th", 5).len(), 1);
    assert!(s.find_recent_thing_update_log("th", 3600).is_some());
    assert!(s.find_thing_update_log_since("th", i64::MAX).is_none());
    s.mark_things_change_log_undone(id);
    assert!(!s.get_things_change_log(id).unwrap().can_undo);
    let snapshot = s.insert_things_content_snapshot_at("dev", "th", "{}", Some(id), 10).unwrap();
    assert_eq!(s.list_things_content_snapshots("th", 5).len(), 1);
    assert_eq!(s.get_unsynced_content_snapshots(5).len(), 1);
    s.mark_content_snapshots_synced(&vec![snapshot]);
    assert!(s.get_unsynced_content_snapshots(5).is_empty());
    let synced = s.insert_synced_change_log(
        "dev2",
        ThingsOperationType::CreateThing,
        "thing",
        "t9",
        "made",
        "{}",
        7,
    );
    assert!(s.get_things_change_log(synced).unwrap().synced);
    s.insert_synced_content_snapshot("dev2", "t9", "{}", 7);
    assert!(s.get_unsynced_content_snapshots(5).is_empty());
}

#[test]
fn who_made_something_is_written_over() {
    let mut s = Storage::new("sdk.sqlite3");
    let made = |kind: &str| ActorMetaEntry {
        uuid: "u".to_string(),
        is_collection: false,
        actor_type: kind.to_string(),
        actor_app_id: None,
        actor_display_name: None,
    };
    s.upsert_things_actor_meta_batch(&vec![made("user")]);
    s.upsert_things_actor_meta_batch(&vec![made("application")]);
    let kept = s.load_things_actor_meta_map();
    assert_eq!(kept.len(), 1);
    assert_eq!(kept[0].actor_type, "application");
}

#[test]
fn data_sets_are_changed_and_listed() {
    let mut s = Storage::new("sdk.sqlite3");
    for (id, at) in [("d1", 1), ("d2", 2)] {
        s.create_eval_dataset(&EvalDataset {
            dataset_id: id.to_string(),
            name: id.to_string(),
            description: None,
            created_at: at,
            updated_at: at,
        })
        .unwrap();
    }
    s.update_eval_dataset(&EvalDatasetUpdate {
        dataset_id: "d1".to_string(),
        name: "First".to_string(),
        description: text("changed"),
        updated_at: 9,
    });
    assert_eq!(s.get_eval_dataset("d1").unwrap().name, "First");
    assert_eq!(s.list_eval_datasets()[0].dataset_id, "d1");
    assert!(s.list_eval_dataset_runs("d1").is_empty());
}

#[test]
fn notifications_of_a_category() {
    let mut s = Storage::new("sdk.sqlite3");
    s.insert_notification("app", "mail", "One", "1");
    s.insert_notification("app", "news", "Two", "2");
    assert_eq!(s.list_notifications_by_category("mail", 5).len(), 1);
    s.mark_category_notifications_read("mail");
    assert_eq!(s.get_unread_notification_count(), 1);
}

#[test]
fn everything_has_a_document_for_the_search() {
    let d = SearchDocument::from_chat_session(&ChatSession {
        session_id: "s".to_string(),
        title: text("Plans"),
        created_at: 2,
        last_activity: 3,
        message_count: 1,
    });
    assert_eq!((d.kind, d.entity_id.as_str(), d.title.as_str()), (SearchEntityKind::ChatSession, "s", "Plans"));
    let d = SearchDocument::from_chat_message("s", "m", 5, "{\"role\":\"user\",\"content\":\"hello there\"}");
    assert_eq!(d.doc_id, "chat_message:s:m");
    assert_eq!(d.parent_id.as_deref(), Some("s"));
    assert_eq!(d.created_at_ms, 5);
    let d = SearchDocument::from_notification(&NotificationEntry {
        id: 7,
        source: "app".to_string(),
        category: "mail".to_string(),
        title: "Mail".to_string(),
        body: "you have".to_string(),
        is_read: false,
        response_action: None,
        responded_at: None,
        created_at: 2,
    });
    assert_eq!(d.entity_id, "7");
    assert_eq!(d.parent_id.as_deref(), Some("mail"));
    assert_eq!(d.created_at_ms, 2000);
    assert_eq!(d.business.source.as_deref(), Some("app"));
    let d = SearchDocument::from_action(&ActionDefinition {
        action_uuid: "a".to_string(),
        name: "echo".to_string(),
        title: "Echo".to_string(),
        description: "says it again".to_string(),
        version: "1".to_string(),
        category: "c".to_string(),
        enabled: true,
        metadata_json: "{}".to_string(),
        script_source: "return 1".to_string(),
        input_schema_json: "{}".to_string(),
        output_schema_json: None,
        created_at: 1,
        updated_at: 1,
    });
    assert_eq!(d.title, "Echo");
    assert!(d.content_fields.iter().any(|f| f.field == "description" && f.value == "says it again"));
    let d = SearchDocument::from_agent_version(&AgentVersion {
        version_id: "v".to_string(),
        agent_id: "agent".to_string(),
        name: "Helper".to_string(),
        raw_markdown: "# Help".to_string(),
        created_at: 1,
        updated_at: 2,
        applied_at: None,
    });
    assert_eq!((d.kind, d.title.as_str()), (SearchEntityKind::AgentVersion, "Helper"));
    match SearchIngestAction::delete_entity(SearchEntityKind::Thing, "t") {
        SearchIngestAction::Delete { doc_id } => assert_eq!(doc_id, "thing:t"),
        _ => panic!("no deletion"),
    }
}
