use remi_client_sdk::json::Json;
use remi_client_sdk::rows::{ActionDefinition, ChatSession};
use remi_client_sdk::search::documents::{SearchDocument, SearchEntityKind, SearchIngestAction};
use remi_client_sdk::search::fields::normalize_search_field_name;
use remi_client_sdk::search::index_state::{
    build_search_schema, default_search_index_path, plan_index_opening, rebuild_after_opening,
    should_update_progress, IndexOpening, SearchConfig, SearchIndexPhase, SearchIndexState,
    SearchIngestContext,
};
use remi_client_sdk::search::matching::document_matches_filter_group;
use remi_client_sdk::search::provider::{CoreSearchProvider, SearchIngestProvider};
use remi_client_sdk::search::query::{
    fuzzy_fallback_query_text, normalized_query_terms, plan_search, second_round, SearchFieldFilter,
    SearchFilterGroup, SearchFilterLogic, SearchFilterOp, SearchQuery,
};
use remi_client_sdk::search::results::{collect_results, make_snippet, SearchHit};
use remi_client_sdk::search::segments::{document_to_segments, query_contains_numeric_fragment};
use remi_client_sdk::search::tokens::index_tokens;
use remi_client_sdk::search::worker::{
    apply_and_commit, rebuild, IndexStep, SearchCommand, SearchService,
};
use remi_client_sdk::storage::Storage;
use remi_client_sdk::things_docs::ThingsDocumentSet;

fn query(text: &str) -> SearchQuery {
    SearchQuery {
        query: text.to_string(),
        kinds: vec![],
        fields: vec![],
        business_fields: vec![],
        filter: None,
        limit: 10,
        offset: 0,
    }
}

fn document(id: &str, title: &str, body: &str) -> SearchDocument {
    SearchDocument::new(SearchEntityKind::Thing, id, title, body, 5)
}

fn hit(d: &SearchDocument, score: i32) -> SearchHit {
    SearchHit { score, doc: document_to_segments(d).remove(0) }
}

#[test]
fn names_of_kinds_and_operators() {
    assert_eq!(SearchEntityKind::parse_name(" Chat_Session "), Ok(SearchEntityKind::ChatSession));
    assert_eq!(
        SearchEntityKind::parse_name("Song"),
        Err("Unsupported search entity kind 'song'".to_string())
    );
    assert_eq!(SearchFilterOp::parse_name("<>"), Ok(SearchFilterOp::Nq));
    assert!(SearchFilterOp::parse_name("near").is_err());
    assert!(SearchFilterLogic::parse_name("xor").is_err());
    assert_eq!(normalize_search_field_name(" Due Date "), normalize_search_field_name("due date"));
}

#[test]
fn text_is_cut_into_words() {
    let tokens = index_tokens("Hello, wörld");
    let words: Vec<String> = tokens.iter().map(|t| t.text.clone()).collect();
    assert_eq!(words[0], "hello");
    assert_eq!(words.len(), 2);
    assert_eq!(tokens[0].offset_from, 0);
    assert_eq!(tokens[0].offset_to, 5);
    assert_eq!(tokens[1].offset_from, 7);
    assert_eq!(tokens[1].position, 1);
    assert!(index_tokens(" , ").is_empty());
}

#[test]
fn a_question_is_planned() {
    assert!(plan_search(&query("   ")).is_none());
    let mut deep = query("   ");
    deep.offset = 100_000;
    assert!(plan_search(&deep).is_none());
    let plan = plan_search(&query(" tea ")).unwrap();
    assert_eq!(plan.text, "tea");
    assert_eq!(plan.limit, 10);
    assert!(plan.fetch_limit >= plan.limit);
    assert!(!plan.fields.is_empty());
    assert!(!normalized_query_terms("Green TEA", 1).is_empty());
    assert!(normalized_query_terms("Green TEA", 1).contains(&"tea".to_string()));
    assert!(fuzzy_fallback_query_text("").is_none());
    assert!(second_round(&plan, 10).is_none());
}

#[test]
fn results_are_found_once_and_in_order() {
    let tea = document("1", "Green tea", "drink");
    let pot = document("2", "Tea pot", "brew tea");
    let hits = vec![hit(&tea, 10), hit(&pot, 30), hit(&tea, 20)];
    let found = collect_results(&query("tea"), "tea", &vec![], &hits, 10, 0);
    assert_eq!(found.len(), 2);
    assert_eq!(found[0].entity_id, "2");
    assert_eq!(found[0].kind, SearchEntityKind::Thing);
    assert_eq!(found[0].doc_id, "thing:2");
    assert_eq!(found[0].created_at_ms, 5);
    let second = collect_results(&query("tea"), "tea", &vec![], &hits, 10, 1);
    assert_eq!(second.len(), 1);
    let mut only = query("tea");
    only.kinds = vec![SearchEntityKind::Action];
    assert!(collect_results(&only, "tea", &vec![], &hits, 10, 0).is_empty());
}

#[test]
fn a_snippet_shows_the_place() {
    let body = format!("{}needle{}", "x ".repeat(200), " y".repeat(200));
    let snippet = make_snippet("needle", "Title", &body);
    assert!(snippet.contains("needle"), "{snippet}");
    assert!(snippet.len() < body.len());
    assert!(query_contains_numeric_fragment("call 5551234"));
}

fn filter(field: &str, op: SearchFilterOp, value: Json) -> SearchFilterGroup {
    SearchFilterGroup {
        logic: SearchFilterLogic::And,
        filters: vec![SearchFieldFilter { fields: vec![field.to_string()], op, values: vec![value] }],
        groups: vec![],
    }
}

#[test]
fn filters_hold_of_documents() {
    let doc = document_to_segments(&document("1", "Green tea", "drink")).remove(0);
    let holds = |g: &SearchFilterGroup| document_matches_filter_group(&vec![], &doc, g);
    assert!(holds(&filter("kind", SearchFilterOp::Eq, Json::text("thing"))));
    assert!(!holds(&filter("kind", SearchFilterOp::Nq, Json::text("thing"))));
    assert!(holds(&filter("title", SearchFilterOp::Include, Json::text("tea"))));
    assert!(holds(&filter("title", SearchFilterOp::Exclude, Json::text("coffee"))));
    let empty = SearchFilterGroup { logic: SearchFilterLogic::Or, filters: vec![], groups: vec![] };
    assert!(empty.is_empty());
    assert!(holds(&empty));
}

#[test]
fn the_state_of_the_index_follows_the_work() {
    let mut state = SearchIndexState::new("index", false);
    assert_eq!(state.phase, SearchIndexPhase::NotBuilt);
    state.queued_at(10);
    state.begin_at(SearchIndexPhase::Building, 20);
    state.progress(1, Some(4), "Writing");
    let status = state.to_status(9, 30);
    assert!(status.in_progress);
    assert_eq!(status.indexed_doc_count, 9);
    assert_eq!(status.progress, Some((1, 4)));
    state.finish_ok_at(40);
    assert_eq!(state.phase, SearchIndexPhase::Ready);
    assert_eq!(state.last_finished_at_ms, Some(40));
    assert_eq!(state.progress_done, None);
    state.begin_at(SearchIndexPhase::Updating, 50);
    state.finish_error_at("disk full", 60);
    assert_eq!(state.phase, SearchIndexPhase::Error);
    assert_eq!(state.last_error, Some("disk full".to_string()));
    assert!(should_update_progress(4, 4));
}

#[test]
fn commands_are_taken_in_their_order() {
    let mut service = SearchService::new(SearchIndexState::new("index", true));
    service.enqueue_document(document("1", "a", "b"));
    service.enqueue_rebuild();
    service.flush();
    assert!(matches!(service.next_command_at(1), Some(SearchCommand::Apply(list)) if list.len() == 1));
    service.finish_command_at(&None, 2);
    assert!(matches!(service.next_command_at(3), Some(SearchCommand::Rebuild)));
    service.finish_command_at(&Some("no".to_string()), 4);
    assert_eq!(service.state.last_error, Some("no".to_string()));
    assert!(matches!(service.next_command_at(5), Some(SearchCommand::Flush)));
    assert!(service.next_command_at(6).is_none());
}

#[test]
fn work_becomes_steps_on_the_index() {
    let steps = apply_and_commit(&vec![SearchIngestAction::upsert(document("1", "a", "b"))]);
    assert!(matches!(&steps[0], IndexStep::Remove { text, .. } if text == "thing:1"));
    assert!(steps.iter().any(|s| matches!(s, IndexStep::Put { .. })));
    assert!(matches!(steps.last(), Some(IndexStep::Commit)));
    let steps = rebuild(&vec![vec![SearchIngestAction::upsert(document("1", "a", "b"))]]);
    assert!(matches!(steps[0], IndexStep::Report { done: 0, total: 1, .. }));
    assert!(matches!(steps[1], IndexStep::Clear));
}

#[test]
fn an_index_is_opened_or_made_anew() {
    assert_eq!(plan_index_opening(&None), IndexOpening::Create);
    assert_eq!(plan_index_opening(&Some(vec![])), IndexOpening::Recreate);
    let config = SearchConfig::default();
    assert!(config.writer_heap() >= 15_000_000);
    assert!(rebuild_after_opening(&config, IndexOpening::Create));
    assert!(!rebuild_after_opening(&config, IndexOpening::Open));
    assert!(build_search_schema().iter().any(|f| f.name == "doc_id"));
    assert!(default_search_index_path("/data/sdk.sqlite3").starts_with("/data/"));
}

#[test]
fn everything_is_collected_for_a_rebuild() {
    let mut storage = Storage::new("sdk.sqlite3");
    storage.upsert_chat_session(&ChatSession {
        session_id: "s".to_string(),
        title: Some("Talk".to_string()),
        created_at: 1,
        last_activity: 1,
        message_count: 0,
    });
    storage.upsert_chat_message_json("s", "m", 1, "{\"content\":\"hi\"}");
    storage.insert_notification_at("app", "mail", "One", "1", 10);
    storage.seed_builtin_actions_at(
        &vec![ActionDefinition {
            action_uuid: "a".to_string(),
            name: "n".to_string(),
            title: "T".to_string(),
            description: String::new(),
            version: "1".to_string(),
            category: "c".to_string(),
            enabled: true,
            metadata_json: "{}".to_string(),
            script_source: String::new(),
            input_schema_json: "{}".to_string(),
            output_schema_json: None,
            created_at: 1,
            updated_at: 1,
        }],
        1,
    );
    let mut docs = ThingsDocumentSet::new("device");
    docs.update_collection_meta("col", Some("Inbox".to_string()), None).unwrap();
    let context = SearchIngestContext::new(&storage, Some(&docs));
    assert_eq!(CoreSearchProvider.provider_id(), "remi-core");
    let all = CoreSearchProvider.rebuild_documents(&context).unwrap();
    let ids: Vec<String> = all
        .iter()
        .map(|a| match a {
            SearchIngestAction::Upsert { document } => document.doc_id.clone(),
            other => panic!("{other:?}"),
        })
        .collect();
    for id in ["collection:col", "chat_session:s", "notification:1", "action:a"] {
        assert!(ids.contains(&id.to_string()), "{ids:?}");
    }
    let without = SearchIngestContext::new(&storage, None);
    assert_eq!(CoreSearchProvider.rebuild_documents(&without).unwrap().len(), 4);
}

#[test]
fn a_document_is_found_as_it_was_indexed() {
    let metadata = Json::object(vec![("app".to_string(), Json::text("notes"))]);
    let d = document("t1", "Shopping", "milk and bread").with_parent_id("c1").with_metadata(metadata);
    let results = collect_results(&query("milk"), "milk", &vec![], &vec![hit(&d, 3)], 10, 0);
    assert_eq!(results.len(), 1);
    assert_eq!(results[0].kind, SearchEntityKind::Thing);
    assert_eq!(results[0].doc_id, d.doc_id);
    assert_eq!(results[0].entity_id, "t1");
    assert_eq!(results[0].parent_id.as_deref(), Some("c1"));
    assert_eq!(results[0].title, "Shopping");
    assert_eq!(results[0].created_at_ms, 5);
    assert_eq!(results[0].metadata.get_text("app").as_deref(), Some("notes"));
    for kind in [SearchEntityKind::Collection, SearchEntityKind::AgentVersion] {
        assert_eq!(SearchEntityKind::parse_name(kind.as_str()), Ok(kind));
    }
}
