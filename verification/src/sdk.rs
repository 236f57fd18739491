//! The client: the store, the documents of things, and what is to be told to others.
pub mod actors;
pub mod answer_laws;
pub mod chat;
pub mod creates;
pub mod documents;
pub mod edits;
pub mod notifications;
pub mod path_laws;
pub mod paths;
pub mod telling_laws;
pub mod things;
pub mod trigger_paths;

use crate::clock::clock_millis;
use crate::search::documents::{ingest_views, IngestView, SearchDocument, SearchIngestAction};
use crate::search::worker::{asked, asked_actions, CommandView, SearchService, ServiceView};
use crate::storage::Storage;
use crate::things_docs::ThingsDocumentSet;
use vstd::prelude::*;

verus! {

/// What happened to notifications.
#[derive(Debug)]
pub enum NotificationEvent {
    Read { notification_id: i64 },
    Responded { notification_id: i64, action: String },
    CategoryRead { category: String },
    AllRead,
    CategoryDeleted { category: String },
}

/// The client of one device.
pub struct RemiSdk {
    pub storage: Storage,
    pub documents: ThingsDocumentSet,
    pub search: SearchService,
    pub notification_events: Vec<NotificationEvent>,
}

/// The client under the name that the parts for conversations and triggers use.
pub type TriggerSdk = RemiSdk;

/// Whether nothing but the store was changed, and keys that were apart in it stayed apart.
pub open spec fn only_storage_changed(old: RemiSdk, new: RemiSdk) -> bool {
    &&& new.documents == old.documents
    &&& new.search == old.search
    &&& new.notification_events == old.notification_events
    &&& old.storage.well_formed() ==> new.storage.well_formed()
}

impl RemiSdk {
    /// A client with a store, its documents and its search.
    pub fn new(storage: Storage, documents: ThingsDocumentSet, search: SearchService) -> (sdk: Self)
        ensures
            sdk.storage == storage,
            sdk.documents == documents,
            sdk.search == search,
            sdk.notification_events@.len() == 0,
    {
        RemiSdk { storage, documents, search, notification_events: Vec::new() }
    }

    /// Tells the search of a document.
    pub fn enqueue_search_document(&mut self, document: SearchDocument)
        ensures
            only_search_changed(*old(self), *final(self)),
            search_asked(
                old(self).search@,
                final(self).search@,
                seq![IngestView::Upsert { document: document@ }],
            ),
    {
        self.search.enqueue_document(document);
    }

    /// Tells the search what is to be done to the index.
    pub fn enqueue_search_actions(&mut self, actions: Vec<SearchIngestAction>)
        ensures
            only_search_changed(*old(self), *final(self)),
            search_asked(old(self).search@, final(self).search@, ingest_views(actions@)),
    {
        self.search.enqueue_actions(actions);
    }

    /// Asks for the index to be built anew.
    pub fn enqueue_search_rebuild(&mut self)
        ensures
            only_search_changed(*old(self), *final(self)),
            rebuild_asked(old(self).search@, final(self).search@),
    {
        self.search.enqueue_rebuild();
    }

    /// Tells of what happened to notifications.
    pub fn emit_notification_event(&mut self, event: NotificationEvent)
        ensures
            final(self).storage == old(self).storage,
            final(self).documents == old(self).documents,
            final(self).search == old(self).search,
            final(self).notification_events@ == old(self).notification_events@.push(event),
    {
        self.notification_events.push(event);
    }
}

/// Whether nothing but what the search was told changed.
pub open spec fn only_search_changed(old: RemiSdk, new: RemiSdk) -> bool {
    &&& new.storage == old.storage
    &&& new.documents == old.documents
    &&& new.notification_events == old.notification_events
}

/// Whether the search was asked for actions.
pub open spec fn search_asked(old: ServiceView, new: ServiceView, actions: Seq<IngestView>) -> bool {
    exists|now: i64| clock_millis(now) && new == #[trigger] asked_actions(old, actions, now)
}

/// Whether the search was asked to build its index anew.
pub open spec fn rebuild_asked(old: ServiceView, new: ServiceView) -> bool {
    exists|now: i64| clock_millis(now) && new == #[trigger] asked(old, CommandView::Rebuild, now)
}

} // verus!
