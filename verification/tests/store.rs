use remi_client_sdk::clock::DomainTime;
use remi_client_sdk::json::Json;
use remi_client_sdk::rows::{
    ActionDefinition, ActionInvocationRecord, AgentVersion, ChatSession, EvalDataset, EvalDatasetRun, EvalDatasetRunEval,
    LocationCacheEntry, RunItem, ThingsOperationType,
};
use remi_client_sdk::scheduling::TriggerRule;
use remi_client_sdk::storage::chat::{
    AgentVersionUpdate, ChatSessionUpdate, EvalDatasetRunItem, EvalDatasetSession,
};
use remi_client_sdk::storage::triggers::{EventPayload, TriggerRegistration};
use remi_client_sdk::storage::Storage;

fn text(s: &str) -> Option<String> {
    Some(s.to_string())
}

fn session(id: &str, last_activity: i64) -> ChatSession {
    ChatSession {
        session_id: id.to_string(),
        title: None,
        created_at: 1,
        last_activity,
        message_count: 0,
    }
}

fn store() -> Storage {
    Storage::new("sdk.sqlite3")
}

#[test]
fn conversations_are_listed_by_activity() {
    let mut s = store();
    s.upsert_chat_session(&session("a", 10));
    s.upsert_chat_session(&session("b", 30));
    s.upsert_chat_session(&session("c", 20));
    let ids: Vec<String> = s.list_chat_sessions(Some(2)).into_iter().map(|c| c.session_id).collect();
    assert_eq!(ids, vec!["b".to_string(), "c".to_string()]);
    s.update_session_activity(&ChatSessionUpdate {
        session_id: "a".to_string(),
        title: text("A"),
        last_activity: 40,
        message_count: 3,
    });
    assert_eq!(s.list_chat_sessions(None)[0].session_id, "a");
    assert_eq!(s.get_chat_session("a").unwrap().message_count, 3);
    s.delete_chat_session("a");
    assert!(s.get_chat_session("a").is_none());
}

#[test]
fn messages_come_in_their_order() {
    let mut s = store();
    s.upsert_chat_session(&session("a", 1));
    s.upsert_chat_message_json("a", "m2", 20, "{\"n\":2}");
    s.upsert_chat_message_json("a", "m1", 10, "{\"n\":1}");
    s.upsert_chat_message_json("a", "m1", 10, "{\"n\":0}");
    assert_eq!(
        s.list_chat_messages_json("a", None, 0),
        vec!["{\"n\":0}".to_string(), "{\"n\":2}".to_string()]
    );
    assert_eq!(s.list_chat_messages_json("a", Some(1), 1), vec!["{\"n\":2}".to_string()]);
    s.upsert_chat_runtime_state_json("a", "{}");
    assert_eq!(s.get_chat_runtime_state_json("a"), text("{}"));
    s.delete_chat_messages("a");
    assert!(s.list_chat_messages_json("a", None, 0).is_empty());
}

fn version(id: &str, updated_at: i64) -> AgentVersion {
    AgentVersion {
        version_id: id.to_string(),
        agent_id: "agent".to_string(),
        name: id.to_string(),
        raw_markdown: "#".to_string(),
        created_at: 1,
        updated_at,
        applied_at: None,
    }
}

#[test]
fn versions_of_an_agent_are_kept() {
    let mut s = store();
    s.create_agent_version(&version("v1", 1)).unwrap();
    s.create_agent_version(&version("v2", 2)).unwrap();
    assert!(s.create_agent_version(&version("v1", 9)).is_err());
    s.update_agent_version(&AgentVersionUpdate {
        version_id: "v1".to_string(),
        name: "new".to_string(),
        raw_markdown: "##".to_string(),
        updated_at: 5,
    });
    let list = s.list_agent_versions("agent");
    assert_eq!(list[0].name, "new");
    s.mark_agent_version_applied("v2", "agent", 7);
    assert_eq!(s.get_agent_version("v2").unwrap().applied_at, Some(7));
    assert_eq!(s.get_agent_version("v1").unwrap().applied_at, None);
    s.delete_agent_version("v2");
    assert_eq!(s.list_all_agent_versions().len(), 1);
}

#[test]
fn runs_over_a_data_set_are_kept_with_their_items() {
    let mut s = store();
    s.upsert_chat_session(&session("a", 1));
    s.create_eval_dataset(&EvalDataset {
        dataset_id: "d".to_string(),
        name: "D".to_string(),
        description: None,
        created_at: 1,
        updated_at: 1,
    })
    .unwrap();
    s.add_session_to_dataset(&EvalDatasetSession {
        dataset_id: "d".to_string(),
        session_id: "a".to_string(),
        added_at: 5,
        title: None,
        last_activity: None,
        message_count: None,
    })
    .unwrap();
    assert_eq!(s.list_dataset_sessions("d").len(), 1);
    let run = EvalDatasetRun {
        run_id: "r".to_string(),
        dataset_id: "d".to_string(),
        agent_id: "agent".to_string(),
        agent_version_id: None,
        agent_version_name: None,
        variant_id: "v".to_string(),
        variant_label: "V".to_string(),
        source_session_count: 1,
        created_at: 2,
        updated_at: 2,
    };
    let item = EvalDatasetRunItem {
        item: RunItem {
            run_id: "r".to_string(),
            dataset_id: "d".to_string(),
            session_id: "a".to_string(),
            final_text: "done".to_string(),
            reasoning: None,
            prompt_tokens: 1,
            completion_tokens: 2,
            tool_results_json: "[]".to_string(),
            done: true,
            cancelled: false,
            interrupted: false,
            error: None,
            created_at: 2,
            updated_at: 2,
        },
        title: None,
        last_activity: None,
        message_count: None,
    };
    s.create_eval_dataset_run(&run, &vec![item]).unwrap();
    assert_eq!(s.list_eval_dataset_run_items("r")[0].item.final_text, "done");
    let eval = EvalDatasetRunEval {
        run_id: "r".to_string(),
        dataset_id: "d".to_string(),
        session_id: "a".to_string(),
        analysis_agent_id: "judge".to_string(),
        score: "0.5".to_string(),
        summary: "ok".to_string(),
        rationale: "why".to_string(),
        created_at: 3,
        updated_at: 3,
    };
    s.save_eval_dataset_run_evals("r", "d", &vec![eval], 9).unwrap();
    assert_eq!(s.list_eval_dataset_run_evals("r").len(), 1);
    assert_eq!(s.get_eval_dataset_run("r").unwrap().updated_at, 9);
    let other = EvalDatasetRunEval {
        run_id: "r".to_string(),
        dataset_id: "d".to_string(),
        session_id: "b".to_string(),
        analysis_agent_id: "judge".to_string(),
        score: "1".to_string(),
        summary: "good".to_string(),
        rationale: "why".to_string(),
        created_at: 4,
        updated_at: 4,
    };
    s.save_eval_dataset_run_evals("r", "d", &vec![other], 10).unwrap();
    let evals = s.list_eval_dataset_run_evals("r");
    assert_eq!(evals.len(), 1);
    assert_eq!(evals[0].session_id, "b");
    s.delete_eval_dataset("d");
    assert!(s.get_eval_dataset_run("r").is_none());
    assert!(s.list_eval_dataset_run_items("r").is_empty());
}

fn run_item(session: &str, created_at: i64) -> EvalDatasetRunItem {
    EvalDatasetRunItem {
        item: RunItem {
            run_id: "r".to_string(),
            dataset_id: "d".to_string(),
            session_id: session.to_string(),
            final_text: String::new(),
            reasoning: None,
            prompt_tokens: 0,
            completion_tokens: 0,
            tool_results_json: "[]".to_string(),
            done: true,
            cancelled: false,
            interrupted: false,
            error: None,
            created_at,
            updated_at: created_at,
        },
        title: None,
        last_activity: None,
        message_count: None,
    }
}

#[test]
fn items_of_a_run_come_back_whole() {
    let mut s = store();
    let run = EvalDatasetRun {
        run_id: "r".to_string(),
        dataset_id: "d".to_string(),
        agent_id: "agent".to_string(),
        agent_version_id: None,
        agent_version_name: None,
        variant_id: "v".to_string(),
        variant_label: "V".to_string(),
        source_session_count: 3,
        created_at: 2,
        updated_at: 2,
    };
    let twice = vec![run_item("a", 1), run_item("a", 2)];
    let err = s.create_eval_dataset_run(&run, &twice).unwrap_err();
    assert_eq!(err.to_text(), "Failed to create eval dataset run item");
    assert!(s.get_eval_dataset_run("r").is_none());
    let items = vec![run_item("a", 3), run_item("b", 1), run_item("c", 2)];
    s.create_eval_dataset_run(&run, &items).unwrap();
    let sessions: Vec<String> =
        s.list_eval_dataset_run_items("r").into_iter().map(|i| i.item.session_id).collect();
    assert_eq!(sessions, vec!["b".to_string(), "c".to_string(), "a".to_string()]);
    let err = s.create_eval_dataset_run(&run, &vec![]).unwrap_err();
    assert_eq!(err.to_text(), "Failed to create eval dataset run");
}

#[test]
fn notifications_are_counted_and_grouped() {
    let mut s = store();
    let first = s.insert_notification_at("app", "mail", "One", "1", 10);
    let second = s.insert_notification_at("app", "mail", "Two", "2", 20);
    s.insert_notification_at("app", "news", "Three", "3", 15);
    assert!(first < second);
    assert_eq!(s.get_unread_notification_count(), 3);
    assert_eq!(s.get_latest_unread_notification().unwrap().title, "Two");
    let groups = s.list_notifications_grouped(10);
    assert_eq!(groups.len(), 2);
    assert_eq!(groups[0].category, "mail");
    assert_eq!(groups[0].title, "Two");
    assert_eq!(groups[0].total_count, 2);
    s.mark_notification_read(second);
    assert_eq!(s.get_latest_unread_notification().unwrap().title, "Three");
    s.record_notification_response_at(first, "open", 30);
    let answered = s.get_notification(first).unwrap();
    assert_eq!(answered.response_action, text("open"));
    assert_eq!(answered.responded_at, Some(30));
    s.mark_all_notifications_read();
    assert_eq!(s.get_unread_notification_count(), 0);
    s.delete_notifications_by_category("mail");
    assert_eq!(s.list_notifications_flat(10, 0).len(), 1);
}

#[test]
fn writing_a_document_raises_the_revision() {
    let mut s = store();
    let before = s.get_crdt_documents_revision().unwrap();
    s.save_crdt_document_at("c1", "collection", &[1, 2], &[], true, None, 5, 5000).unwrap();
    let after = s.get_crdt_documents_revision().unwrap();
    assert!(after > before);
    let row = s.get_crdt_document("c1", "collection").unwrap();
    assert_eq!(*row.automerge_doc, vec![1, 2]);
    assert!(row.dirty);
    assert_eq!(s.get_dirty_crdt_documents().len(), 1);
    s.set_crdt_document_dirty("c1", "collection", false).unwrap();
    assert!(s.get_dirty_crdt_documents().is_empty());
    s.delete_crdt_document("c1", "collection").unwrap();
    assert!(s.list_crdt_documents().is_empty());
    assert!(s.get_crdt_documents_revision().unwrap() > after);
}

#[test]
fn a_key_is_read_after_it_was_written() {
    let mut s = store();
    s.set_internal_kv("k", "1");
    s.set_internal_kv("k", "2");
    assert_eq!(s.get_internal_kv("k"), text("2"));
    s.delete_internal_kv("k");
    assert_eq!(s.get_internal_kv("k"), None);
    s.save_things_state(&[7], &[8], true, Some("then"));
    s.set_things_dirty(false);
    let state = s.get_things_state().unwrap();
    assert_eq!(*state.automerge_doc, vec![7]);
    assert!(!state.dirty);
}

fn trigger(uuid: &str) -> TriggerRegistration {
    TriggerRegistration {
        trigger_uuid: uuid.to_string(),
        name: uuid.to_string(),
        version: "v1".to_string(),
        precondition: vec![TriggerRule {
            rule: "cron('0 18 * * *')".to_string(),
            description: "evening".to_string(),
        }],
        condition: vec![],
        action_uuid: None,
        action_args: Json::object(vec![("k".to_string(), Json::signed(1))]),
    }
}

#[test]
fn triggers_are_due_and_bound() {
    let mut s = store();
    s.insert_trigger_at(trigger("t1"), Some(100), 1);
    s.insert_trigger_at(trigger("t2"), Some(50), 2);
    s.insert_trigger_at(trigger("t3"), None, 3);
    let due: Vec<String> = s.fetch_due_triggers(100).into_iter().map(|t| t.trigger_uuid).collect();
    assert_eq!(due.len(), 2);
    assert_eq!(s.next_deadline(None), Some(50));
    let stored = s.fetch_trigger("t1").unwrap();
    assert_eq!(stored.action_args_json, "{\"k\":1}");
    let listed = s.list_triggers();
    let info = listed.iter().find(|t| t.trigger.trigger_uuid == "t1").unwrap();
    assert_eq!(info.precondition()[0].rule, "cron('0 18 * * *')");
    assert_eq!(info.action_args().get_int("k"), Some(1));
    s.set_trigger_paused("t2", true);
    assert_eq!(s.fetch_due_triggers(100).len(), 1);
    s.mark_trigger_due("t3", 10);
    assert_eq!(s.next_deadline(None), Some(10));
    s.upsert_trigger_binding("t1", "thing", "th");
    assert!(s.is_trigger_bound("t1"));
    s.upsert_trigger_binding("t2", "thing", "th");
    assert_eq!(s.get_trigger_for_entity("thing", "th"), text("t2"));
    assert!(!s.is_trigger_bound("t1"));
    assert!(s.delete_trigger("t2"));
    assert!(!s.delete_trigger("t2"));
    assert_eq!(s.delete_all_bindings_for_trigger("t2"), 1);
    assert!(s.list_trigger_bindings().is_empty());
}

#[test]
fn events_are_found_by_their_time() {
    let mut s = store();
    for (kind, seconds) in [("a", 100), ("b", 200), ("c", 300)] {
        s.insert_event(&EventPayload {
            event_type: kind.to_string(),
            timestamp: DomainTime { seconds, nanos: 0 },
            metadata: Json::Null,
        });
    }
    assert_eq!(s.events_count(), 3);
    assert_eq!(s.events_time_range(), Some((100, 300)));
    let between = s.list_events_between_utc(150, 300);
    assert!(!between.is_empty());
    assert!(between.iter().all(|e| e.timestamp_utc >= 150 && e.timestamp_utc <= 300));
    assert_eq!(s.list_events(Some(1), 1)[0].event_type, "b");
    assert_eq!(s.list_events(None, 0)[2].timestamp, "1970-01-01T00:05:00+00:00");
}

#[test]
fn seeding_actions_again_replaces_them() {
    let mut s = store();
    let mut action = ActionDefinition {
        action_uuid: "a".to_string(),
        name: "n".to_string(),
        title: "T".to_string(),
        description: String::new(),
        version: "1".to_string(),
        category: "c".to_string(),
        enabled: true,
        metadata_json: "{}".to_string(),
        script_source: String::new(),
        input_schema_json: "{}".to_string(),
        output_schema_json: None,
        created_at: 1,
        updated_at: 1,
    };
    s.seed_builtin_actions_at(&vec![action], 5);
    action = s.fetch_action("a").unwrap();
    action.title = "New".to_string();
    s.seed_builtin_actions_at(&vec![action], 6);
    assert_eq!(s.list_actions().len(), 1);
    assert_eq!(s.fetch_action("a").unwrap().title, "New");
}

#[test]
fn changes_are_logged_and_cleaned_up() {
    let mut s = store();
    let id = s
        .insert_things_change_log_at(
            "dev",
            ThingsOperationType::UpdateThing,
            "thing",
            "th",
            "changed",
            "{}",
            None,
            true,
            100,
        )
        .unwrap();
    let child = s
        .insert_things_change_log_at(
            "dev",
            ThingsOperationType::DeleteThing,
            "thing",
            "t2",
            "deleted",
            "{}",
            Some(id),
            true,
            200,
        )
        .unwrap();
    assert_eq!(s.get_things_change_log_cascades(id).len(), 1);
    assert_eq!(s.list_things_change_log(10, 0)[0].id, child);
    assert_eq!(s.get_unsynced_change_logs(10).len(), 2);
    s.mark_change_logs_synced(&vec![id]);
    assert_eq!(s.get_unsynced_change_logs(10).len(), 1);
    s.mark_things_change_log_not_undoable(id);
    assert!(!s.get_things_change_log(id).unwrap().can_undo);
    s.insert_things_content_snapshot_at("dev", "th", "{}", Some(id), 100).unwrap();
    assert!(s.get_latest_things_content_snapshot("th").is_some());
    assert!(s.get_things_content_snapshot_by_log_id(id).is_some());
    // An entry that a later one follows from cannot go before it.
    let err = s.cleanup_things_change_log_before(150).unwrap_err();
    assert_eq!(err.to_text(), "FOREIGN KEY constraint failed");
    assert!(s.get_things_change_log(id).is_some());
    assert_eq!(s.cleanup_things_content_snapshots_before(250), 1);
    assert_eq!(s.cleanup_things_change_log_before(250).unwrap(), 2);
    assert!(s.get_things_change_log(child).is_none());
}

#[test]
fn places_are_cached() {
    let mut s = store();
    let place = LocationCacheEntry {
        name: "home".to_string(),
        is_fuzzy: false,
        latitude: text("1.5"),
        longitude: text("2.5"),
        coord_system: "wgs84".to_string(),
        place_id: None,
        place_type: None,
        formatted_address: None,
        created_at: 0,
        updated_at: 0,
    };
    s.set_location_cache_at(&place, 7);
    s.set_location_cache_at(&place, 9);
    let kept = s.get_location_cache("home").unwrap();
    assert_eq!(kept.latitude, text("1.5"));
    assert_eq!(s.get_all_exact_locations().len(), 1);
    assert!(s.delete_location_cache("home"));
    assert!(!s.delete_location_cache("home"));
    assert_eq!(s.clear_location_cache(), 0);
}

fn action(uuid: &str) -> ActionDefinition {
    ActionDefinition {
        action_uuid: uuid.to_string(),
        name: "n".to_string(),
        title: "T".to_string(),
        description: String::new(),
        version: "1".to_string(),
        category: "c".to_string(),
        enabled: true,
        metadata_json: "{}".to_string(),
        script_source: String::new(),
        input_schema_json: "{}".to_string(),
        output_schema_json: None,
        created_at: 1,
        updated_at: 1,
    }
}

fn invocation(uuid: &str) -> ActionInvocationRecord {
    ActionInvocationRecord {
        invocation_uuid: uuid.to_string(),
        action_uuid: "a".to_string(),
        source_kind: "system".to_string(),
        source_entity_type: None,
        source_entity_uuid: None,
        args_json: "{}".to_string(),
        result_json: None,
        console_logs_json: "[]".to_string(),
        error_json: None,
        started_at: 1,
        finished_at: 2,
        duration_ms: 1000,
        device_id: None,
    }
}

#[test]
fn rows_of_nobody_are_claimed_once() {
    let mut s = store();
    s.upsert_chat_session(&session("a", 1));
    s.insert_notification_at("app", "mail", "One", "1", 10);
    assert_eq!(s.claim_anonymous_data("me"), 2);
    assert_eq!(s.claim_anonymous_data("me"), 0);
    s.seed_builtin_actions_at(&vec![action("a")], 5);
    s.insert_action_invocation(&invocation("i")).unwrap();
    assert_eq!(s.claim_anonymous_data("you"), 2);
    assert_eq!(s.claim_anonymous_data("you"), 0);
    assert_eq!(s.list_chat_sessions(None).len(), 1);
}

#[test]
fn a_wiped_store_is_empty() {
    let mut s = store();
    s.upsert_chat_session(&session("a", 1));
    s.upsert_chat_message_json("a", "m", 1, "{}");
    s.upsert_chat_runtime_state_json_at("a", "{}", 1);
    s.create_agent_version(&version("v", 1)).unwrap();
    s.create_eval_dataset(&EvalDataset {
        dataset_id: "d".to_string(),
        name: "D".to_string(),
        description: None,
        created_at: 1,
        updated_at: 1,
    })
    .unwrap();
    s.seed_builtin_actions_at(&vec![action("a")], 5);
    s.insert_action_invocation(&invocation("i")).unwrap();
    s.set_internal_kv_at("k", "v", 1);
    s.insert_trigger_at(trigger("t"), Some(9), 1);
    s.upsert_trigger_binding_at("t", "thing", "th", 1);
    s.save_crdt_document_at("c1", "collection", &[1], &[], true, None, 5, 5000).unwrap();
    let first = s.insert_notification_at("app", "mail", "One", "1", 10);
    s.wipe_all_data();
    assert!(s.list_chat_sessions(None).is_empty());
    assert!(s.get_chat_runtime_state_json("a").is_none());
    assert!(s.list_all_agent_versions().is_empty());
    assert!(s.list_eval_datasets().is_empty());
    assert!(s.list_actions().is_empty());
    assert!(s.get_internal_kv("k").is_none());
    assert!(s.list_triggers().is_empty());
    assert!(s.list_crdt_documents().is_empty());
    assert!(s.list_notifications_flat(10, 0).is_empty());
    assert_eq!(s.claim_anonymous_data("me"), 0);
    // Automatic ids are not given out a second time.
    assert_eq!(s.insert_notification_at("app", "mail", "Two", "2", 20), first + 1);
}

#[test]
fn ids_go_on_after_rows_were_changed_or_removed() {
    let mut s = store();
    let first = s.insert_notification_at("app", "mail", "One", "1", 10);
    s.mark_notification_read(first);
    s.mark_all_notifications_read();
    s.delete_notifications_by_category("mail");
    let second = s.insert_notification_at("app", "mail", "Two", "2", 20);
    assert_eq!(second, first + 1);
    assert!(s.get_notification(first).is_none());
}

#[test]
fn a_key_is_never_held_twice() {
    let mut s = store();
    for activity in [3, 1, 2] {
        s.upsert_chat_session(&session("a", activity));
        s.upsert_chat_session(&session("b", activity));
    }
    assert_eq!(s.list_chat_sessions(None).len(), 2);
    s.create_eval_dataset(&EvalDataset {
        dataset_id: "d".to_string(),
        name: "D".to_string(),
        description: None,
        created_at: 1,
        updated_at: 1,
    })
    .unwrap();
    for added_at in [5, 7] {
        s.add_session_to_dataset(&EvalDatasetSession {
            dataset_id: "d".to_string(),
            session_id: "a".to_string(),
            added_at,
            title: None,
            last_activity: None,
            message_count: None,
        })
        .unwrap();
    }
    let members = s.list_dataset_sessions("d");
    assert_eq!(members.len(), 1);
    assert_eq!(members[0].added_at, 7);
    s.insert_action_invocation(&invocation("i")).unwrap();
    assert!(s.insert_action_invocation(&invocation("i")).is_err());
}

#[test]
fn what_was_registered_is_read_back() {
    let mut s = store();
    let mut registered = trigger("t1");
    registered.condition = vec![TriggerRule {
        rule: "weather(\"rain\")".to_string(),
        description: "only when it's \u{2602}".to_string(),
    }];
    registered.action_args = Json::object(vec![
        ("list".to_string(), Json::list(vec![Json::signed(-7), Json::text("x\n"), Json::Null])),
        ("on".to_string(), Json::Bool(true)),
    ]);
    s.insert_trigger_at(registered, Some(9), 1);
    let listed = s.list_triggers();
    assert_eq!(listed[0].precondition()[0].description, "evening");
    assert_eq!(listed[0].condition()[0].rule, "weather(\"rain\")");
    assert_eq!(listed[0].condition()[0].description, "only when it's \u{2602}");
    let args = listed[0].action_args();
    assert_eq!(args.get_bool("on"), Some(true));
    match args.get("list") {
        Some(Json::List(items)) => {
            assert!(matches!(&items[0], Json::Number(n) if n == "-7"));
            assert!(matches!(&items[1], Json::Text(t) if t == "x\n"));
            assert!(matches!(&items[2], Json::Null));
        }
        _ => panic!("no list"),
    }
}

#[test]
fn an_event_is_read_back() {
    let mut s = store();
    let time = DomainTime { seconds: 1_700_000_000, nanos: 250_000_000 };
    s.insert_event_at(
        &EventPayload {
            event_type: "steps".to_string(),
            timestamp: time,
            metadata: Json::object(vec![("count".to_string(), Json::signed(12))]),
        },
        3,
    );
    let event = &s.list_events(None, 0)[0];
    assert_eq!(event.metadata().get_int("count"), Some(12));
    let read = event.time_or(DomainTime { seconds: 0, nanos: 0 });
    assert_eq!((read.seconds, read.nanos), (1_700_000_000, 250_000_000));
}

#[test]
fn what_was_written_again_keeps_its_creation() {
    let mut s = store();
    s.upsert_chat_session(&session("a", 10));
    s.upsert_chat_session(&session("b", 20));
    let mut again = session("a", 30);
    again.created_at = 99;
    again.title = text("Again");
    s.upsert_chat_session(&again);
    let kept = s.get_chat_session("a").unwrap();
    assert_eq!((kept.created_at, kept.last_activity), (1, 30));
    assert_eq!(kept.title, text("Again"));
    assert_eq!(s.get_chat_session("b").unwrap().last_activity, 20);
    s.upsert_chat_runtime_state_json_at("a", "{\"n\":1}", 1);
    s.upsert_chat_runtime_state_json_at("b", "{\"n\":2}", 1);
    s.upsert_chat_runtime_state_json_at("a", "{\"n\":3}", 2);
    assert_eq!(s.get_chat_runtime_state_json("a"), text("{\"n\":3}"));
    assert_eq!(s.get_chat_runtime_state_json("b"), text("{\"n\":2}"));
    s.save_crdt_document_at("r", "root", &[1], &[], true, None, 5, 5000).unwrap();
    s.save_crdt_document_at("c", "collection", &[2], &[], true, None, 5, 5000).unwrap();
    s.save_crdt_document_at("r", "root", &[3], &[4], false, Some("now"), 6, 6000).unwrap();
    let root = s.get_crdt_document("r", "root").unwrap();
    assert_eq!((*root.automerge_doc).clone(), vec![3]);
    assert_eq!((*root.sync_state).clone(), vec![4]);
    assert_eq!((root.created_at, root.updated_at), (5, 6));
    assert_eq!(*s.get_crdt_document("c", "collection").unwrap().automerge_doc, vec![2]);
}
