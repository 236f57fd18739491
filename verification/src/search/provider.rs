//! What the index is built from.
use crate::clock::clock_text;
use crate::error::{ErrorView, SdkError};
use crate::rows::{ActionDefinition, AgentVersion, ChatMessage, ChatSession, NotificationEntry};
use crate::search::documents::{
    DocumentView, IngestView, SearchDocument, SearchIngestAction, action_document,
    agent_version_document, chat_message_document, chat_session_document, collection_document,
    ingest_views, notification_document, thing_document,
};
use crate::search::index_state::SearchIngestContext;
use crate::search::worker::SearchChange;
use crate::storage::Storage;
use crate::storage::chat::{by_last_activity, by_message_time, by_version_change, every};
use crate::storage::notifications::by_arrival;
use crate::storage::triggers::by_action_creation;
use crate::table::{page, ranked};
use crate::things_docs::SetView;
use crate::things_local::{SnapshotView, ThingsLocalService, snapshot_result};
use crate::things_types::{
    CollectionEntryView, SnapshotOptions, ThingCollectionEntry, ThingEntry, ThingEntryView,
};
use crate::timestamps::now_timestamp_rfc3339;
use vstd::prelude::*;

verus! {

/// Where documents for the index come from.
pub trait SearchIngestProvider {
    /// The name of the provider.
    fn provider_id(&self) -> &'static str;

    /// What builds the whole index.
    fn rebuild_documents(&self, context: &SearchIngestContext<'_>) -> Result<
        Vec<SearchIngestAction>,
        SdkError,
    >;

    /// What a change does to the index.
    fn documents_for_change(&self, context: &SearchIngestContext<'_>, change: &SearchChange) -> Result<
        Vec<SearchIngestAction>,
        SdkError,
    >;
}

/// The provider of what the store and the documents of things hold.
#[derive(Clone, Copy, Debug)]
pub struct CoreSearchProvider;

pub open spec fn upserted(d: DocumentView) -> IngestView {
    IngestView::Upsert { document: d }
}

/// What puts collections into the index.
pub open spec fn upserted_collections(list: Seq<ThingCollectionEntry>) -> Seq<IngestView> {
    list.map_values(|x: ThingCollectionEntry| upserted(collection_document(x@)))
}

fn upsert_collections(list: &Vec<ThingCollectionEntry>, out: &mut Vec<SearchIngestAction>)
    ensures
        ingest_views(final(out)@) == ingest_views(old(out)@) + upserted_collections(list@),
{
    let ghost was = out@;
    let mut i: usize = 0;
    while i < list.len()
        invariant
            i <= list@.len(),
            out@.len() == was.len() + i,
            forall|k: int| 0 <= k < was.len() ==> #[trigger] out@[k] == was[k],
            forall|k: int|
                was.len() <= k < out@.len() ==> (#[trigger] out@[k])@ == upserted_collections(
                    list@,
                )[k - was.len()],
        decreases list@.len() - i,
    {
        out.push(SearchIngestAction::upsert(SearchDocument::from_collection(&list[i])));
        i = i + 1;
    }
    proof {
        assert(ingest_views(out@) =~= ingest_views(was) + upserted_collections(list@));
    }
}

/// What puts things into the index.
pub open spec fn upserted_things(list: Seq<ThingEntry>) -> Seq<IngestView> {
    list.map_values(|x: ThingEntry| upserted(thing_document(x@)))
}

fn upsert_things(list: &Vec<ThingEntry>, out: &mut Vec<SearchIngestAction>)
    ensures
        ingest_views(final(out)@) == ingest_views(old(out)@) + upserted_things(list@),
{
    let ghost was = out@;
    let mut i: usize = 0;
    while i < list.len()
        invariant
            i <= list@.len(),
            out@.len() == was.len() + i,
            forall|k: int| 0 <= k < was.len() ==> #[trigger] out@[k] == was[k],
            forall|k: int|
                was.len() <= k < out@.len() ==> (#[trigger] out@[k])@ == upserted_things(
                    list@,
                )[k - was.len()],
        decreases list@.len() - i,
    {
        out.push(SearchIngestAction::upsert(SearchDocument::from_thing(&list[i])));
        i = i + 1;
    }
    proof {
        assert(ingest_views(out@) =~= ingest_views(was) + upserted_things(list@));
    }
}

/// What puts conversations into the index.
pub open spec fn upserted_sessions(list: Seq<ChatSession>) -> Seq<IngestView> {
    list.map_values(|x: ChatSession| upserted(chat_session_document(x)))
}

fn upsert_sessions(list: &Vec<ChatSession>, out: &mut Vec<SearchIngestAction>)
    ensures
        ingest_views(final(out)@) == ingest_views(old(out)@) + upserted_sessions(list@),
{
    let ghost was = out@;
    let mut i: usize = 0;
    while i < list.len()
        invariant
            i <= list@.len(),
            out@.len() == was.len() + i,
            forall|k: int| 0 <= k < was.len() ==> #[trigger] out@[k] == was[k],
            forall|k: int|
                was.len() <= k < out@.len() ==> (#[trigger] out@[k])@ == upserted_sessions(
                    list@,
                )[k - was.len()],
        decreases list@.len() - i,
    {
        out.push(SearchIngestAction::upsert(SearchDocument::from_chat_session(&list[i])));
        i = i + 1;
    }
    proof {
        assert(ingest_views(out@) =~= ingest_views(was) + upserted_sessions(list@));
    }
}

/// What puts messages into the index.
pub open spec fn upserted_messages(list: Seq<ChatMessage>) -> Seq<IngestView> {
    list.map_values(|x: ChatMessage| upserted(chat_message_document(x.session_id@, x.message_id@, x.created_at_ms, x.message_json@)))
}

fn upsert_messages(list: &Vec<ChatMessage>, out: &mut Vec<SearchIngestAction>)
    ensures
        ingest_views(final(out)@) == ingest_views(old(out)@) + upserted_messages(list@),
{
    let ghost was = out@;
    let mut i: usize = 0;
    while i < list.len()
        invariant
            i <= list@.len(),
            out@.len() == was.len() + i,
            forall|k: int| 0 <= k < was.len() ==> #[trigger] out@[k] == was[k],
            forall|k: int|
                was.len() <= k < out@.len() ==> (#[trigger] out@[k])@ == upserted_messages(
                    list@,
                )[k - was.len()],
        decreases list@.len() - i,
    {
        out.push(SearchIngestAction::upsert(SearchDocument::from_stored_chat_message(&list[i])));
        i = i + 1;
    }
    proof {
        assert(ingest_views(out@) =~= ingest_views(was) + upserted_messages(list@));
    }
}

/// What puts notifications into the index.
pub open spec fn upserted_notifications(list: Seq<NotificationEntry>) -> Seq<IngestView> {
    list.map_values(|x: NotificationEntry| upserted(notification_document(x)))
}

fn upsert_notifications(list: &Vec<NotificationEntry>, out: &mut Vec<SearchIngestAction>)
    ensures
        ingest_views(final(out)@) == ingest_views(old(out)@) + upserted_notifications(list@),
{
    let ghost was = out@;
    let mut i: usize = 0;
    while i < list.len()
        invariant
            i <= list@.len(),
            out@.len() == was.len() + i,
            forall|k: int| 0 <= k < was.len() ==> #[trigger] out@[k] == was[k],
            forall|k: int|
                was.len() <= k < out@.len() ==> (#[trigger] out@[k])@ == upserted_notifications(
                    list@,
                )[k - was.len()],
        decreases list@.len() - i,
    {
        out.push(SearchIngestAction::upsert(SearchDocument::from_notification(&list[i])));
        i = i + 1;
    }
    proof {
        assert(ingest_views(out@) =~= ingest_views(was) + upserted_notifications(list@));
    }
}

/// What puts actions into the index.
pub open spec fn upserted_actions(list: Seq<ActionDefinition>) -> Seq<IngestView> {
    list.map_values(|x: ActionDefinition| upserted(action_document(x)))
}

fn upsert_actions(list: &Vec<ActionDefinition>, out: &mut Vec<SearchIngestAction>)
    ensures
        ingest_views(final(out)@) == ingest_views(old(out)@) + upserted_actions(list@),
{
    let ghost was = out@;
    let mut i: usize = 0;
    while i < list.len()
        invariant
            i <= list@.len(),
            out@.len() == was.len() + i,
            forall|k: int| 0 <= k < was.len() ==> #[trigger] out@[k] == was[k],
            forall|k: int|
                was.len() <= k < out@.len() ==> (#[trigger] out@[k])@ == upserted_actions(
                    list@,
                )[k - was.len()],
        decreases list@.len() - i,
    {
        out.push(SearchIngestAction::upsert(SearchDocument::from_action(&list[i])));
        i = i + 1;
    }
    proof {
        assert(ingest_views(out@) =~= ingest_views(was) + upserted_actions(list@));
    }
}

/// What puts versions of agents into the index.
pub open spec fn upserted_versions(list: Seq<AgentVersion>) -> Seq<IngestView> {
    list.map_values(|x: AgentVersion| upserted(agent_version_document(x)))
}

fn upsert_versions(list: &Vec<AgentVersion>, out: &mut Vec<SearchIngestAction>)
    ensures
        ingest_views(final(out)@) == ingest_views(old(out)@) + upserted_versions(list@),
{
    let ghost was = out@;
    let mut i: usize = 0;
    while i < list.len()
        invariant
            i <= list@.len(),
            out@.len() == was.len() + i,
            forall|k: int| 0 <= k < was.len() ==> #[trigger] out@[k] == was[k],
            forall|k: int|
                was.len() <= k < out@.len() ==> (#[trigger] out@[k])@ == upserted_versions(
                    list@,
                )[k - was.len()],
        decreases list@.len() - i,
    {
        out.push(SearchIngestAction::upsert(SearchDocument::from_agent_version(&list[i])));
        i = i + 1;
    }
    proof {
        assert(ingest_views(out@) =~= ingest_views(was) + upserted_versions(list@));
    }
}

/// What puts a snapshot into the index; nothing where there is no snapshot.
pub open spec fn upserted_snapshot(snapshot: Result<SnapshotView, ErrorView>) -> Seq<IngestView> {
    match snapshot {
        Ok(s) => s.collections.map_values(
            |c: CollectionEntryView| upserted(collection_document(c)),
        ) + s.things.map_values(|t: ThingEntryView| upserted(thing_document(t))),
        Err(_) => Seq::empty(),
    }
}

/// What puts everything that the store and the documents of things hold at `now` into the
/// index.
pub open spec fn core_documents(
    storage: Storage,
    documents: Option<SetView>,
    now: Seq<char>,
) -> Seq<IngestView> {
    let things = match documents {
        Some(set) => upserted_snapshot(
            snapshot_result(
                storage.things_actor_meta.data(),
                set,
                (SnapshotOptions { include_content: true }),
                now,
            ),
        ),
        None => Seq::empty(),
    };
    things + upserted_sessions(
        page(
            ranked(storage.chat_sessions.data(), every(), by_last_activity(), true),
            None,
            0,
        ),
    ) + upserted_messages(ranked(storage.chat_messages.data(), every(), by_message_time(), false))
        + upserted_notifications(
        page(
            ranked(storage.notifications.data(), every(), by_arrival(), true),
            Some(u32::MAX),
            0,
        ),
    ) + upserted_actions(ranked(storage.actions.data(), every(), by_action_creation(), false))
        + upserted_versions(
        ranked(storage.agent_versions.data(), every(), by_version_change(), true),
    )
}

pub open spec fn context_documents(context: SearchIngestContext<'_>) -> Option<SetView> {
    match context.documents {
        Some(set) => Some(set@),
        None => None,
    }
}

impl CoreSearchProvider {
    /// What builds the whole index at `now`.
    pub fn rebuild_documents_at(&self, context: &SearchIngestContext<'_>, now: &String) -> (out: Vec<
        SearchIngestAction,
    >)
        ensures
            ingest_views(out@) == core_documents(
                *context.storage,
                context_documents(*context),
                now@,
            ),
    {
        let storage = context.storage;
        let mut out: Vec<SearchIngestAction> = Vec::new();
        proof {
            assert(ingest_views(out@) =~= Seq::empty());
        }
        let ghost things = match context_documents(*context) {
            Some(set) => upserted_snapshot(
                snapshot_result(
                    storage.things_actor_meta.data(),
                    set,
                    (SnapshotOptions { include_content: true }),
                    now@,
                ),
            ),
            None => Seq::empty(),
        };
        if let Some(set) = context.documents {
            let service = ThingsLocalService::new(storage, set);
            if let Ok(snapshot) = service.snapshot_with_options_at(
                SnapshotOptions { include_content: true },
                now,
            ) {
                upsert_collections(&snapshot.collections, &mut out);
                upsert_things(&snapshot.things, &mut out);
                proof {
                    let s = snapshot@;
                    assert(upserted_collections(snapshot.collections@) =~= s.collections.map_values(
                        |c: CollectionEntryView| upserted(collection_document(c)),
                    ));
                    assert(upserted_things(snapshot.things@) =~= s.things.map_values(
                        |t: ThingEntryView| upserted(thing_document(t)),
                    ));
                }
            }
        }
        proof {
            assert(ingest_views(out@) =~= things);
        }
        let sessions = storage.list_chat_sessions(None);
        upsert_sessions(&sessions, &mut out);
        let messages = storage.list_all_chat_messages();
        upsert_messages(&messages, &mut out);
        let notifications = storage.list_notifications_flat(u32::MAX, 0);
        upsert_notifications(&notifications, &mut out);
        let actions = storage.list_actions();
        upsert_actions(&actions, &mut out);
        let versions = storage.list_all_agent_versions();
        upsert_versions(&versions, &mut out);
        out
    }
}

impl SearchIngestProvider for CoreSearchProvider {
    /// The name of the provider.
    fn provider_id(&self) -> (id: &'static str)
        ensures
            id@ == "remi-core"@,
    {
        "remi-core"
    }

    /// What builds the whole index now.
    fn rebuild_documents(&self, context: &SearchIngestContext<'_>) -> (out: Result<
        Vec<SearchIngestAction>,
        SdkError,
    >)
        ensures
            exists|now: Seq<char>|
                clock_text(now) && (out matches Ok(list) && ingest_views(list@)
                    == #[trigger] core_documents(
                    *context.storage,
                    context_documents(*context),
                    now,
                )),
    {
        let now = now_timestamp_rfc3339();
        let list = self.rebuild_documents_at(context, &now);
        Ok(list)
    }

    /// Changes reach the index by other ways: nothing is to be done for them.
    fn documents_for_change(&self, context: &SearchIngestContext<'_>, change: &SearchChange) -> (out:
        Result<Vec<SearchIngestAction>, SdkError>)
        ensures
            out matches Ok(list) && list@.len() == 0,
    {
        Ok(Vec::new())
    }
}

} // verus!
