//! Things and collections: what is shown of them, and what the search is told of changes.
use super::{only_search_changed, only_storage_changed, rebuild_asked, search_asked, RemiSdk};
use crate::bindings::{
    BindingView, EntityActionBinding, ResolvedEntityActionBinding, binding_views, bindings_out,
    kept_bindings, read_kept_bindings, resolve_entity_action_bindings, resolved_bindings,
    resolved_views,
};
use crate::clock::{clock_seconds, clock_text, now_seconds};
use crate::content_registry::{
    ContentEntry, ContentEntryPayload, EntryView, PayloadView, entry_views,
};
use crate::error::{ErrorView, SdkError, failure};
use crate::json::{
    Json, JsonView, copy_opt_json, int_text, json_opt_view, opt_view, signed_text,
};
use crate::rows::{
    ActionInvocationSourceKind, ActorMetaEntry, ThingsChangeLogEntry, ThingsContentSnapshot,
};
use crate::search::documents::{
    IngestView, SearchDocument, SearchEntityKind, SearchIngestAction, collection_document,
    entity_doc_id, ingest_views, thing_document,
};
use crate::storage::Storage;
use crate::storage::chat::every;
use crate::storage::things_log::{
    actors_written, by_log_creation, by_snapshot_creation, is_log, log_cut, log_from,
    log_of_entity, log_orphaned, snapshot_from, snapshot_of, snapshot_orphaned, snapshots_cut,
};
use crate::table::{
    any_data, first_data, law_kept_rows_hold_kept_data, page, ranked, rows_kept, take_page,
    Record,
};
use crate::text::{cat, cat3, cat5, owned, same};
use crate::things_content::{content_of, find_entry, main_text};
use crate::things_crdt::{
    coll, coll_live, entries_refusal, entry_at, has_entry, no_collection, no_thing, thing_entries,
    with_root,
};
use crate::things_docs::{ContentView, SetView};
use crate::things_events::{EventView, ThingsEvent};
use crate::things_local::{
    SnapshotView, ThingsDeleteCollectionOutcome, ThingsLocalService, app_outcome, collection_in,
    collection_out, collections_out, draft_view, find_collection_entry, found_collection,
    found_thing, listed_collections, listed_things, snapshot_result, snapshot_view, thing_in,
    thing_out, things_out,
};
use crate::things_reader::{snapshot_collections, snapshot_things};
use crate::things_replay::{
    ConflictView, ThingsUndoConflict, any_thing_attrs, check_undo_conflict, resolve_thing_collection_uuid,
    resolved_collection, undo_conflict,
};
use crate::things_store::dirty_keys;
use crate::things_types::{
    CollectionEntryView, SnapshotOptions, ThingCollectionEntry, ThingEntry, ThingEntryView,
    ThingsSnapshotState, collection_entry_views, thing_entry_views,
};
use vstd::prelude::*;

verus! {

/// What is shown at `now` of the things and collections of a client.
pub open spec fn shown(sdk: RemiSdk, include_content: bool, now: Seq<char>) -> Result<
    SnapshotView,
    ErrorView,
> {
    snapshot_result(
        sdk.storage.things_actor_meta.data(),
        sdk.documents@,
        (SnapshotOptions { include_content }),
        now,
    )
}

/// What is shown, without the things where they are not asked for.
pub open spec fn things_or_none(
    shown: Result<SnapshotView, ErrorView>,
    include_things: bool,
) -> Result<SnapshotView, ErrorView> {
    match shown {
        Ok(s) => Ok(
            SnapshotView {
                things: if include_things {
                    s.things
                } else {
                    Seq::empty()
                },
                ..s
            },
        ),
        Err(e) => Err(e),
    }
}

/// Whether the search was told what is shown of a collection at `now`: the collection, or
/// that there is none.
pub open spec fn collection_told_at(old: RemiSdk, new: RemiSdk, uuid: Seq<char>, now: Seq<char>) -> bool {
    match found_collection(shown(old, false, now), uuid) {
        Ok(Some(c)) => search_asked(
            old.search@,
            new.search@,
            seq![IngestView::Upsert { document: collection_document(c) }],
        ),
        Ok(None) => search_asked(
            old.search@,
            new.search@,
            seq![IngestView::Delete { doc_id: entity_doc_id(SearchEntityKind::Collection, uuid) }],
        ),
        Err(_) => new.search@ == old.search@,
    }
}

/// Whether the search was told what is shown of a thing at `now`: the thing, or that there
/// is none.
pub open spec fn thing_told_at(old: RemiSdk, new: RemiSdk, uuid: Seq<char>, now: Seq<char>) -> bool {
    match found_thing(shown(old, true, now), uuid) {
        Ok(Some(t)) => search_asked(
            old.search@,
            new.search@,
            seq![IngestView::Upsert { document: thing_document(t) }],
        ),
        Ok(None) => search_asked(
            old.search@,
            new.search@,
            seq![IngestView::Delete { doc_id: entity_doc_id(SearchEntityKind::Thing, uuid) }],
        ),
        Err(_) => new.search@ == old.search@,
    }
}

/// Whether the search was told what is shown of a collection now.
pub open spec fn collection_told(old: RemiSdk, new: RemiSdk, uuid: Seq<char>) -> bool {
    exists|now: Seq<char>| clock_text(now) && #[trigger] collection_told_at(old, new, uuid, now)
}

/// Whether the search was told what is shown of a thing now.
pub open spec fn thing_told(old: RemiSdk, new: RemiSdk, uuid: Seq<char>) -> bool {
    exists|now: Seq<char>| clock_text(now) && #[trigger] thing_told_at(old, new, uuid, now)
}

/// A call of an action by hand.
#[derive(Debug)]
pub struct ActionCall {
    pub action_uuid: String,
    pub source_kind: ActionInvocationSourceKind,
    pub source_entity_type: &'static str,
    pub source_entity_uuid: String,
    pub args_json: Json,
    pub device_id: String,
}

/// A call of an action by hand, over character sequences.
pub struct CallView {
    pub action_uuid: Seq<char>,
    pub source_kind: ActionInvocationSourceKind,
    pub source_entity_type: Seq<char>,
    pub source_entity_uuid: Seq<char>,
    pub args_json: JsonView,
    pub device_id: Seq<char>,
}

impl View for ActionCall {
    type V = CallView;

    open spec fn view(&self) -> CallView {
        CallView {
            action_uuid: self.action_uuid@,
            source_kind: self.source_kind,
            source_entity_type: self.source_entity_type@,
            source_entity_uuid: self.source_entity_uuid@,
            args_json: self.args_json@,
            device_id: self.device_id@,
        }
    }
}

pub open spec fn binds(action: Seq<char>) -> spec_fn(BindingView) -> bool {
    |b: BindingView| b.action_uuid == action
}

/// The bindings of a collection that is not deleted.
pub open spec fn collection_bindings(set: SetView, uuid: Seq<char>) -> Result<
    Seq<BindingView>,
    ErrorView,
> {
    if coll_live(set, uuid) {
        Ok(kept_bindings(coll(set, uuid).attrs))
    } else {
        Err(no_collection(uuid))
    }
}

/// The bindings of a thing.
pub open spec fn thing_bindings(set: SetView, uuid: Seq<char>) -> Result<
    Seq<BindingView>,
    ErrorView,
> {
    match resolved_collection(set, uuid) {
        Some(collection) => Ok(kept_bindings(any_thing_attrs(set, collection, uuid))),
        None => Err(no_thing(uuid)),
    }
}

/// What an entity is called in a refusal.
pub open spec fn holder_name(source_kind: ActionInvocationSourceKind) -> Seq<char> {
    if source_kind == ActionInvocationSourceKind::CollectionManual {
        "Collection"@
    } else {
        "Thing"@
    }
}

/// The type of the entity that an action is called from by hand.
pub open spec fn holder_type(source_kind: ActionInvocationSourceKind) -> Seq<char> {
    if source_kind == ActionInvocationSourceKind::CollectionManual {
        "collection"@
    } else {
        "thing"@
    }
}

/// The call that running a bound action by hand makes: that of the first binding to it, from
/// the entity that it is bound to, on the device that asks for it.
pub open spec fn bound_call(
    bindings: Result<Seq<BindingView>, ErrorView>,
    source_kind: ActionInvocationSourceKind,
    device_id: Seq<char>,
    entity: Seq<char>,
    action: Seq<char>,
) -> Result<CallView, ErrorView> {
    match bindings {
        Err(e) => Err(e),
        Ok(list) => match first_data(list, binds(action)) {
            Some(b) => Ok(
                CallView {
                    action_uuid: action,
                    source_kind,
                    source_entity_type: holder_type(source_kind),
                    source_entity_uuid: entity,
                    args_json: b.args_json,
                    device_id,
                },
            ),
            None => Err(
                ErrorView::Failure {
                    message: holder_name(source_kind) + " '"@ + entity
                        + "' is not bound to action '"@ + action + "'"@,
                },
            ),
        },
    }
}

pub open spec fn call_out(out: Result<ActionCall, SdkError>) -> Result<CallView, ErrorView> {
    match out {
        Ok(c) => Ok(c@),
        Err(e) => Err(e@),
    }
}

fn find_call(
    bindings: Result<Vec<EntityActionBinding>, SdkError>,
    source_kind: ActionInvocationSourceKind,
    device_id: &str,
    entity_uuid: &str,
    action_uuid: &str,
) -> (out: Result<ActionCall, SdkError>)
    ensures
        call_out(out) == bound_call(
            bindings_out(bindings),
            source_kind,
            device_id@,
            entity_uuid@,
            action_uuid@,
        ),
{
    let (kind, entity_type) = match source_kind {
        ActionInvocationSourceKind::CollectionManual => ("Collection", "collection"),
        _ => ("Thing", "thing"),
    };
    let list = match bindings {
        Ok(list) => list,
        Err(e) => return Err(e),
    };
    let ghost all = binding_views(list@);
    let mut i: usize = 0;
    proof {
        assert(all.skip(0) =~= all);
    }
    while i < list.len()
        invariant
            i <= list@.len(),
            all == binding_views(list@),
            first_data(all, binds(action_uuid@)) == first_data(
                all.skip(i as int),
                binds(action_uuid@),
            ),
            bindings_out(bindings) == Ok::<Seq<BindingView>, ErrorView>(all),
            kind@ == holder_name(source_kind),
            entity_type@ == holder_type(source_kind),
        decreases list@.len() - i,
    {
        proof {
            assert(all.skip(i as int)[0] == list@[i as int]@);
            assert(all.skip(i as int).drop_first() =~= all.skip(i + 1));
            reveal_with_fuel(first_data, 2);
        }
        if same(list[i].action_uuid.as_str(), action_uuid) {
            return Ok(
                ActionCall {
                    action_uuid: owned(action_uuid),
                    source_kind,
                    source_entity_type: entity_type,
                    source_entity_uuid: owned(entity_uuid),
                    args_json: list[i].args_json.duplicate_json(),
                    device_id: owned(device_id),
                },
            );
        }
        i = i + 1;
    }
    let start = cat3(kind, " '", entity_uuid);
    let message = cat5(
        start.as_str(),
        "' is not bound to action '",
        action_uuid,
        "'",
        "",
    );
    proof {
        reveal_strlit("");
        assert(message@ =~= kind@ + " '"@ + entity_uuid@ + "' is not bound to action '"@
            + action_uuid@ + "'"@);
    }
    Err(failure(message.as_str()))
}

/// The content entries of a thing.
pub open spec fn entries_shown(set: SetView, thing: Seq<char>) -> Result<
    Seq<EntryView>,
    ErrorView,
> {
    match resolved_collection(set, thing) {
        None => Err(no_thing(thing)),
        Some(collection) => match entries_refusal(set, collection, thing) {
            Some(e) => Err(e),
            None => Ok(thing_entries(set, collection, thing)),
        },
    }
}

pub open spec fn entries_out(out: Result<Vec<ContentEntry>, SdkError>) -> Result<
    Seq<EntryView>,
    ErrorView,
> {
    match out {
        Ok(list) => Ok(entry_views(list@)),
        Err(e) => Err(e@),
    }
}

/// The JSON value in a content document.
pub open spec fn json_content(set: SetView, document: Seq<char>) -> Option<JsonView> {
    match content_of(set, document) {
        Some(ContentView::Payload(j)) => Some(j),
        _ => None,
    }
}

/// The documents of an object among the content entries of a thing.
pub open spec fn object_documents(set: SetView, thing: Seq<char>, entry: Seq<char>) -> Result<
    (Seq<char>, Option<Seq<char>>),
    ErrorView,
> {
    match entries_shown(set, thing) {
        Err(e) => Err(e),
        Ok(entries) => if has_entry(entries, entry) {
            match entries[entry_at(entries, entry)].payload {
                PayloadView::JsonObject { data_doc_uuid, schema_doc_uuid } => Ok(
                    (data_doc_uuid, schema_doc_uuid),
                ),
                _ => Err(
                    ErrorView::Failure {
                        message: "Content entry is not a json_object: "@ + entry,
                    },
                ),
            }
        } else {
            Err(ErrorView::Failure { message: "Content entry not found: "@ + entry })
        },
    }
}

/// The data of an object among the content entries of a thing.
pub open spec fn object_data(set: SetView, thing: Seq<char>, entry: Seq<char>) -> Result<
    Option<JsonView>,
    ErrorView,
> {
    match object_documents(set, thing, entry) {
        Err(e) => Err(e),
        Ok(documents) => Ok(json_content(set, documents.0)),
    }
}

/// The schema of an object among the content entries of a thing.
pub open spec fn object_schema(set: SetView, thing: Seq<char>, entry: Seq<char>) -> Result<
    Option<JsonView>,
    ErrorView,
> {
    match object_documents(set, thing, entry) {
        Err(e) => Err(e),
        Ok(documents) => match documents.1 {
            Some(schema) => Ok(json_content(set, schema)),
            None => Ok(None),
        },
    }
}

pub open spec fn json_out(out: Result<Option<Json>, SdkError>) -> Result<
    Option<JsonView>,
    ErrorView,
> {
    match out {
        Ok(j) => Ok(json_opt_view(j)),
        Err(e) => Err(e@),
    }
}

/// What is told of everything that is shown at `now`.
pub open spec fn replaced_event(sdk: RemiSdk, event: ThingsEvent, now: Seq<char>) -> bool {
    match shown(sdk, true, now) {
        Ok(s) => event matches ThingsEvent::SnapshotReplaced {
            device_id,
            collections,
            things,
            dirty,
            last_sync_at,
        } && device_id@ == sdk.documents@.device_id && collection_entry_views(collections@)
            == s.collections && thing_entry_views(things@) == s.things && dirty == s.dirty
            && opt_view(last_sync_at) == s.last_sync_at,
        Err(_) => false,
    }
}

/// Whether nothing but the search was told of a synchronisation, and that only where events
/// were written for it.
pub open spec fn sync_told(
    old: RemiSdk,
    new: RemiSdk,
    applied: Result<Option<(i64, i64)>, SdkError>,
) -> bool {
    &&& only_search_changed(old, new)
    &&& if applied matches Ok(Some(_)) {
        rebuild_asked(old.search@, new.search@)
    } else {
        new.search == old.search
    }
}

impl RemiSdk {
    /// The service for the things of this device.
    pub fn things_local_service(&self) -> (service: ThingsLocalService<'_>)
        ensures
            *service.storage == self.storage,
            *service.documents == self.documents,
    {
        ThingsLocalService::new(&self.storage, &self.documents)
    }

    /// Tells the search what is shown of a collection now.
    pub fn enqueue_search_collection_by_id(&mut self, collection_uuid: &str)
        ensures
            only_search_changed(*old(self), *final(self)),
            collection_told(*old(self), *final(self), collection_uuid@),
    {
        let found = self.things_local_service().get_collection(collection_uuid);
        let ghost now = choose|now: Seq<char>|
            clock_text(now) && collection_out(found) == found_collection(
                #[trigger] snapshot_result(
                    self.storage.things_actor_meta.data(),
                    self.documents@,
                    (SnapshotOptions { include_content: false }),
                    now,
                ),
                collection_uuid@,
            );
        match found {
            Ok(Some(c)) => {
                self.enqueue_search_document(SearchDocument::from_collection(&c));
            },
            Ok(None) => {
                let actions = vec![
                    SearchIngestAction::delete_entity(
                        SearchEntityKind::Collection,
                        collection_uuid,
                    ),
                ];
                proof {
                    assert(ingest_views(actions@) =~= seq![
                        IngestView::Delete {
                            doc_id: entity_doc_id(SearchEntityKind::Collection, collection_uuid@),
                        },
                    ]);
                }
                self.enqueue_search_actions(actions);
            },
            Err(_) => {},
        }
        proof {
            assert(collection_told_at(*old(self), *self, collection_uuid@, now));
        }
    }

    /// Tells the search what is shown of a thing now.
    pub fn enqueue_search_thing_by_id(&mut self, thing_uuid: &str)
        ensures
            only_search_changed(*old(self), *final(self)),
            thing_told(*old(self), *final(self), thing_uuid@),
    {
        let found = self.things_local_service().get_thing(thing_uuid, true);
        let ghost now = choose|now: Seq<char>|
            clock_text(now) && thing_out(found) == found_thing(
                #[trigger] snapshot_result(
                    self.storage.things_actor_meta.data(),
                    self.documents@,
                    (SnapshotOptions { include_content: true }),
                    now,
                ),
                thing_uuid@,
            );
        match found {
            Ok(Some(t)) => {
                self.enqueue_search_document(SearchDocument::from_thing(&t));
            },
            Ok(None) => {
                let actions = vec![
                    SearchIngestAction::delete_entity(SearchEntityKind::Thing, thing_uuid),
                ];
                proof {
                    assert(ingest_views(actions@) =~= seq![
                        IngestView::Delete {
                            doc_id: entity_doc_id(SearchEntityKind::Thing, thing_uuid@),
                        },
                    ]);
                }
                self.enqueue_search_actions(actions);
            },
            Err(_) => {},
        }
        proof {
            assert(thing_told_at(*old(self), *self, thing_uuid@, now));
        }
    }

    /// What is told when everything may have changed.
    pub fn emit_snapshot_replace(&self) -> (out: Result<ThingsEvent, SdkError>)
        ensures
            exists|now: Seq<char>|
                clock_text(now) && match out {
                    Ok(event) => replaced_event(*self, event, now),
                    Err(e) => #[trigger] shown(*self, true, now) == Err::<SnapshotView, ErrorView>(
                        e@,
                    ),
                },
    {
        let snapshot = self.things_list_snapshot();
        let ghost now = choose|now: Seq<char>|
            clock_text(now) && snapshot_view(snapshot) == #[trigger] shown(*self, true, now);
        match snapshot {
            Ok(s) => {
                let event = ThingsEvent::SnapshotReplaced {
                    device_id: self.documents.device_id.clone(),
                    collections: s.collections,
                    things: s.things,
                    dirty: s.dirty,
                    last_sync_at: s.last_sync_at,
                };
                proof {
                    assert(shown(*self, true, now) is Ok);
                    assert(replaced_event(*self, event, now));
                }
                Ok(event)
            },
            Err(e) => Err(e),
        }
    }

    /// Asks for the index to be built anew where documents from elsewhere changed something.
    /// `applied` is the range of the events that were written for it.
    pub fn things_apply_remote_documents(
        &mut self,
        applied: Result<Option<(i64, i64)>, SdkError>,
    ) -> (out: Result<Option<(i64, i64)>, SdkError>)
        ensures
            out == applied,
            sync_told(*old(self), *final(self), applied),
    {
        if let Ok(Some(_)) = &applied {
            self.enqueue_search_rebuild();
        }
        applied
    }

    /// Asks for the index to be built anew where a document that was sent came back changed.
    pub fn things_save_synced_document_clean(
        &mut self,
        saved: Result<Option<(i64, i64)>, SdkError>,
    ) -> (out: Result<Option<(i64, i64)>, SdkError>)
        ensures
            sync_told(*old(self), *final(self), saved),
            match saved {
                Ok(range) => out == Ok::<Option<(i64, i64)>, SdkError>(range),
                Err(_) => out matches Err(e) && e@ == (ErrorView::Failure {
                    message: "Failed to save synced Things CRDT document clean"@,
                }),
            },
    {
        match self.things_apply_remote_documents(saved) {
            Ok(range) => Ok(range),
            Err(_) => Err(failure("Failed to save synced Things CRDT document clean")),
        }
    }

    /// Asks for the index to be built anew where a document was deleted elsewhere.
    pub fn things_delete_raw_document_for_sync(
        &mut self,
        deleted: Result<Option<(i64, i64)>, SdkError>,
    ) -> (out: Result<Option<(i64, i64)>, SdkError>)
        ensures
            sync_told(*old(self), *final(self), deleted),
            match deleted {
                Ok(range) => out == Ok::<Option<(i64, i64)>, SdkError>(range),
                Err(_) => out matches Err(e) && e@ == (ErrorView::Failure {
                    message: "Failed to delete raw Things CRDT document through pipeline"@,
                }),
            },
    {
        match self.things_apply_remote_documents(deleted) {
            Ok(range) => Ok(range),
            Err(_) => Err(failure("Failed to delete raw Things CRDT document through pipeline")),
        }
    }

    /// Everything that is shown now, with the content of things.
    pub fn things_list_snapshot(&self) -> (out: Result<ThingsSnapshotState, SdkError>)
        ensures
            exists|now: Seq<char>| clock_text(now) && snapshot_view(out) == #[trigger] shown(
                *self,
                true,
                now,
            ),
    {
        let out = self.things_local_service().snapshot();
        proof {
            let now = choose|now: Seq<char>|
                clock_text(now) && snapshot_view(out) == #[trigger] snapshot_result(
                    self.storage.things_actor_meta.data(),
                    self.documents@,
                    (SnapshotOptions { include_content: true }),
                    now,
                );
            assert(snapshot_view(out) == shown(*self, true, now));
        }
        out
    }

    /// Everything that is shown now, without the content of things.
    pub fn things_list_snapshot_lite(&self) -> (out: Result<ThingsSnapshotState, SdkError>)
        ensures
            exists|now: Seq<char>| clock_text(now) && snapshot_view(out) == #[trigger] shown(
                *self,
                false,
                now,
            ),
    {
        let out = self.things_local_service().snapshot_lite();
        proof {
            let now = choose|now: Seq<char>|
                clock_text(now) && snapshot_view(out) == #[trigger] snapshot_result(
                    self.storage.things_actor_meta.data(),
                    self.documents@,
                    (SnapshotOptions { include_content: false }),
                    now,
                );
            assert(snapshot_view(out) == shown(*self, false, now));
        }
        out
    }

    /// What is shown now: the collections, and the things where they are asked for.
    pub fn things_list_snapshot_with_options(
        &self,
        include_things: bool,
        snapshot_options: SnapshotOptions,
    ) -> (out: Result<ThingsSnapshotState, SdkError>)
        ensures
            exists|now: Seq<char>|
                clock_text(now) && snapshot_view(out) == things_or_none(
                    #[trigger] shown(*self, snapshot_options.include_content, now),
                    include_things,
                ),
    {
        let options = SnapshotOptions {
            include_content: include_things && snapshot_options.include_content,
        };
        let out = self.things_local_service().snapshot_with_options(options);
        let ghost now = choose|now: Seq<char>|
            clock_text(now) && snapshot_view(out) == #[trigger] snapshot_result(
                self.storage.things_actor_meta.data(),
                self.documents@,
                options,
                now,
            );
        let ghost wanted = shown(*self, snapshot_options.include_content, now);
        if include_things {
            assert(snapshot_view(out) == things_or_none(wanted, true));
            return out;
        }
        match out {
            Ok(s) => {
                let none: Vec<ThingEntry> = Vec::new();
                let bare = ThingsSnapshotState {
                    collections: s.collections,
                    things: none,
                    dirty: s.dirty,
                    last_sync_at: s.last_sync_at,
                };
                proof {
                    assert(thing_entry_views(none@) =~= Seq::empty());
                    assert(Ok::<SnapshotView, ErrorView>(bare@) == things_or_none(wanted, false));
                }
                Ok(bare)
            },
            Err(e) => {
                assert(Err::<SnapshotView, ErrorView>(e@) == things_or_none(wanted, false));
                Err(e)
            },
        }
    }

    /// Keeps who made things and collections, and has the index built anew where there is
    /// something to keep.
    pub fn things_upsert_actor_meta(&mut self, items: &Vec<ActorMetaEntry>)
        ensures
            final(self).documents == old(self).documents,
            final(self).notification_events == old(self).notification_events,
            final(self).storage == (Storage {
                things_actor_meta: final(self).storage.things_actor_meta,
                ..old(self).storage
            }),
            final(self).storage.things_actor_meta.rows@ == actors_written(
                old(self).storage.things_actor_meta.rows@,
                items@,
                items@.len() as int,
            ),
            if items@.len() > 0 {
                rebuild_asked(old(self).search@, final(self).search@)
            } else {
                final(self).search == old(self).search
            },
            old(self).storage.well_formed() ==> final(self).storage.well_formed(),
    {
        self.storage.upsert_things_actor_meta_batch(items);
        if items.len() > 0 {
            self.enqueue_search_rebuild();
        }
    }

    /// Whether a document waits to be saved.
    pub fn things_has_pending_changes(&self) -> (r: bool)
        ensures
            r == (dirty_keys(with_root(self.documents@)).len() > 0),
    {
        self.things_local_service().has_pending_changes()
    }

    /// The collections that are shown now.
    pub fn things_list_collections(&self) -> (out: Result<Vec<ThingCollectionEntry>, SdkError>)
        ensures
            exists|now: Seq<char>|
                clock_text(now) && collections_out(out)
                    == listed_collections(#[trigger] shown(*self, false, now)),
    {
        let out = self.things_local_service().list_collections();
        proof {
            let now = choose|now: Seq<char>|
                clock_text(now) && collections_out(out) == listed_collections(
                    #[trigger] snapshot_result(
                        self.storage.things_actor_meta.data(),
                        self.documents@,
                        (SnapshotOptions { include_content: false }),
                        now,
                    ),
                );
            assert(collections_out(out) == listed_collections(shown(*self, false, now)));
        }
        out
    }

    /// A collection that is shown now.
    pub fn things_get_collection(&self, collection_uuid: &str) -> (out: Result<
        Option<ThingCollectionEntry>,
        SdkError,
    >)
        ensures
            exists|now: Seq<char>|
                clock_text(now) && collection_out(out) == found_collection(
                    #[trigger] shown(*self, false, now),
                    collection_uuid@,
                ),
    {
        let out = self.things_local_service().get_collection(collection_uuid);
        proof {
            let now = choose|now: Seq<char>|
                clock_text(now) && collection_out(out) == found_collection(
                    #[trigger] snapshot_result(
                        self.storage.things_actor_meta.data(),
                        self.documents@,
                        (SnapshotOptions { include_content: false }),
                        now,
                    ),
                    collection_uuid@,
                );
            assert(collection_out(out) == found_collection(
                shown(*self, false, now),
                collection_uuid@,
            ));
        }
        out
    }

    /// The things that are shown now.
    pub fn things_list_things(&self, include_content: bool) -> (out: Result<
        Vec<ThingEntry>,
        SdkError,
    >)
        ensures
            exists|now: Seq<char>|
                clock_text(now) && things_out(out)
                    == listed_things(#[trigger] shown(*self, include_content, now)),
    {
        let out = self.things_local_service().list_things(include_content);
        proof {
            let now = choose|now: Seq<char>|
                clock_text(now) && things_out(out) == listed_things(
                    #[trigger] snapshot_result(
                        self.storage.things_actor_meta.data(),
                        self.documents@,
                        (SnapshotOptions { include_content }),
                        now,
                    ),
                );
            assert(things_out(out) == listed_things(shown(*self, include_content, now)));
        }
        out
    }

    /// A thing that is shown now.
    pub fn things_get_thing(&self, thing_uuid: &str, include_content: bool) -> (out: Result<
        Option<ThingEntry>,
        SdkError,
    >)
        ensures
            exists|now: Seq<char>|
                clock_text(now) && thing_out(out) == found_thing(
                    #[trigger] shown(*self, include_content, now),
                    thing_uuid@,
                ),
    {
        let out = self.things_local_service().get_thing(thing_uuid, include_content);
        proof {
            let now = choose|now: Seq<char>|
                clock_text(now) && thing_out(out) == found_thing(
                    #[trigger] snapshot_result(
                        self.storage.things_actor_meta.data(),
                        self.documents@,
                        (SnapshotOptions { include_content }),
                        now,
                    ),
                    thing_uuid@,
                );
            assert(thing_out(out) == found_thing(shown(*self, include_content, now), thing_uuid@));
        }
        out
    }

    /// Makes sure of the collection of an app now, and tells the search of it.
    pub fn things_ensure_app_collection(&mut self, app_id: &str, title: Option<String>) -> (out:
        Result<ThingCollectionEntry, SdkError>)
        ensures
            final(self).storage == old(self).storage,
            final(self).notification_events == old(self).notification_events,
            exists|now: Seq<char>|
                clock_text(now) && match #[trigger] app_outcome(
                    old(self).documents@,
                    app_id@,
                    opt_view(title),
                    now,
                ) {
                    Ok(made) => {
                        &&& out matches Ok(c) && c@ == made.2
                        &&& final(self).documents@ == made.1
                        &&& search_asked(
                            old(self).search@,
                            final(self).search@,
                            seq![IngestView::Upsert { document: collection_document(made.2) }],
                        )
                    },
                    Err(e) => {
                        &&& out matches Err(found) && found@ == e
                        &&& *final(self) == *old(self)
                    },
                },
    {
        let draft = self.things_local_service().ensure_app_collection(app_id, title);
        let ghost now = choose|now: Seq<char>|
            clock_text(now) && draft_view(draft) == #[trigger] app_outcome(
                old(self).documents@,
                app_id@,
                opt_view(title),
                now,
            );
        match draft {
            Ok(draft) => {
                let ghost made = draft_view(Ok(draft))->Ok_0;
                self.documents = draft.documents;
                self.enqueue_search_document(SearchDocument::from_collection(&draft.value));
                proof {
                    assert(app_outcome(old(self).documents@, app_id@, opt_view(title), now) == Ok::<
                        (Seq<EventView>, SetView, CollectionEntryView),
                        ErrorView,
                    >(made));
                }
                Ok(draft.value)
            },
            Err(e) => {
                proof {
                    assert(app_outcome(old(self).documents@, app_id@, opt_view(title), now) is Err);
                }
                Err(e)
            },
        }
    }

    /// Tells the search of a collection that was deleted, where it was.
    pub fn things_delete_collection(
        &mut self,
        uuid: &str,
        deleted: Result<ThingsDeleteCollectionOutcome, SdkError>,
    ) -> (out: Result<bool, SdkError>)
        ensures
            only_search_changed(*old(self), *final(self)),
            match deleted {
                Ok(outcome) => out == Ok::<bool, SdkError>(outcome.deleted),
                Err(e) => out == Err::<bool, SdkError>(e),
            },
            match deleted {
                Ok(ThingsDeleteCollectionOutcome { deleted: true }) => collection_told(
                    *old(self),
                    *final(self),
                    uuid@,
                ),
                _ => final(self).search == old(self).search,
            },
    {
        match deleted {
            Ok(outcome) => {
                if outcome.deleted {
                    self.enqueue_search_collection_by_id(uuid);
                    Ok(true)
                } else {
                    Ok(false)
                }
            },
            Err(e) => Err(e),
        }
    }

    /// Tells the search of a collection that was written.
    pub fn things_upsert_collection(&mut self, written: Result<ThingCollectionEntry, SdkError>) -> (out: Result<ThingCollectionEntry, SdkError>)
        ensures
            out == written,
            only_search_changed(*old(self), *final(self)),
            match written {
                Ok(value) => search_asked(
                    old(self).search@,
                    final(self).search@,
                    seq![IngestView::Upsert { document: collection_document(value@) }],
                ),
                Err(_) => final(self).search == old(self).search,
            },
    {
        match written {
            Ok(value) => {
                self.enqueue_search_document(SearchDocument::from_collection(&value));
                Ok(value)
            },
            Err(e) => Err(e),
        }
    }

    /// Tells the search of a collection that was brought back.
    pub fn things_restore_collection(&mut self, restored: Result<Option<ThingCollectionEntry>, SdkError>) -> (out: Result<
        Option<ThingCollectionEntry>,
        SdkError,
    >)
        ensures
            out == restored,
            only_search_changed(*old(self), *final(self)),
            match restored {
                Ok(Some(value)) => search_asked(
                    old(self).search@,
                    final(self).search@,
                    seq![IngestView::Upsert { document: collection_document(value@) }],
                ),
                _ => final(self).search == old(self).search,
            },
    {
        match restored {
            Ok(Some(value)) => {
                self.enqueue_search_document(SearchDocument::from_collection(&value));
                Ok(Some(value))
            },
            Ok(None) => Ok(None),
            Err(e) => Err(e),
        }
    }

    /// Tells the search of a thing that was written.
    pub fn things_upsert_thing(&mut self, written: Result<ThingEntry, SdkError>) -> (out: Result<ThingEntry, SdkError>)
        ensures
            out == written,
            only_search_changed(*old(self), *final(self)),
            match written {
                Ok(value) => search_asked(
                    old(self).search@,
                    final(self).search@,
                    seq![IngestView::Upsert { document: thing_document(value@) }],
                ),
                Err(_) => final(self).search == old(self).search,
            },
    {
        match written {
            Ok(value) => {
                self.enqueue_search_document(SearchDocument::from_thing(&value));
                Ok(value)
            },
            Err(e) => Err(e),
        }
    }

    /// Tells the search of a thing that was moved.
    pub fn things_move_thing(&mut self, moved: Result<ThingEntry, SdkError>) -> (out: Result<ThingEntry, SdkError>)
        ensures
            out == moved,
            only_search_changed(*old(self), *final(self)),
            match moved {
                Ok(value) => search_asked(
                    old(self).search@,
                    final(self).search@,
                    seq![IngestView::Upsert { document: thing_document(value@) }],
                ),
                Err(_) => final(self).search == old(self).search,
            },
    {
        match moved {
            Ok(value) => {
                self.enqueue_search_document(SearchDocument::from_thing(&value));
                Ok(value)
            },
            Err(e) => Err(e),
        }
    }

    /// Tells the search of a thing that was moved and changed.
    pub fn things_move_thing_with_updates(&mut self, moved: Result<ThingEntry, SdkError>) -> (out: Result<ThingEntry, SdkError>)
        ensures
            out == moved,
            only_search_changed(*old(self), *final(self)),
            match moved {
                Ok(value) => search_asked(
                    old(self).search@,
                    final(self).search@,
                    seq![IngestView::Upsert { document: thing_document(value@) }],
                ),
                Err(_) => final(self).search == old(self).search,
            },
    {
        match moved {
            Ok(value) => {
                self.enqueue_search_document(SearchDocument::from_thing(&value));
                Ok(value)
            },
            Err(e) => Err(e),
        }
    }

    /// Tells the search of a thing that was brought back.
    pub fn things_restore_thing(&mut self, restored: Result<Option<ThingEntry>, SdkError>) -> (out: Result<
        Option<ThingEntry>,
        SdkError,
    >)
        ensures
            out == restored,
            only_search_changed(*old(self), *final(self)),
            match restored {
                Ok(Some(value)) => search_asked(
                    old(self).search@,
                    final(self).search@,
                    seq![IngestView::Upsert { document: thing_document(value@) }],
                ),
                _ => final(self).search == old(self).search,
            },
    {
        match restored {
            Ok(Some(value)) => {
                self.enqueue_search_document(SearchDocument::from_thing(&value));
                Ok(Some(value))
            },
            Ok(None) => Ok(None),
            Err(e) => Err(e),
        }
    }

    /// Tells the search of a thing whose text was spliced, where the text changed.
    pub fn things_splice_text(&mut self, thing_uuid: &str, spliced: Result<bool, SdkError>) -> (out: Result<
        bool,
        SdkError,
    >)
        ensures
            out == spliced,
            only_search_changed(*old(self), *final(self)),
            match spliced {
                Ok(true) => thing_told(*old(self), *final(self), thing_uuid@),
                _ => final(self).search == old(self).search,
            },
    {
        let tell = match &spliced {
            Ok(done) => *done,
            Err(_) => false,
        };
        if tell {
            self.enqueue_search_thing_by_id(thing_uuid);
        }
        spliced
    }

    /// Tells the search of a thing whose status was set, where there was one.
    pub fn set_thing_status(&mut self, thing_uuid: &str, set: Result<bool, SdkError>) -> (out: Result<
        bool,
        SdkError,
    >)
        ensures
            out == set,
            only_search_changed(*old(self), *final(self)),
            match set {
                Ok(true) => thing_told(*old(self), *final(self), thing_uuid@),
                _ => final(self).search == old(self).search,
            },
    {
        let tell = match &set {
            Ok(done) => *done,
            Err(_) => false,
        };
        if tell {
            self.enqueue_search_thing_by_id(thing_uuid);
        }
        set
    }

    /// Tells the search of a thing that was deleted, where there was one.
    pub fn things_delete_thing(&mut self, thing_uuid: &str, deleted: Result<bool, SdkError>) -> (out: Result<
        bool,
        SdkError,
    >)
        ensures
            out == deleted,
            only_search_changed(*old(self), *final(self)),
            match deleted {
                Ok(true) => thing_told(*old(self), *final(self), thing_uuid@),
                _ => final(self).search == old(self).search,
            },
    {
        let tell = match &deleted {
            Ok(done) => *done,
            Err(_) => false,
        };
        if tell {
            self.enqueue_search_thing_by_id(thing_uuid);
        }
        deleted
    }

    /// Tells the search of a thing whose text was edited.
    pub fn things_edit_content(&mut self, thing_uuid: &str, edited: Result<String, SdkError>) -> (out: Result<
        String,
        SdkError,
    >)
        ensures
            out == edited,
            only_search_changed(*old(self), *final(self)),
            match edited {
                Ok(_) => thing_told(*old(self), *final(self), thing_uuid@),
                Err(_) => final(self).search == old(self).search,
            },
    {
        if edited.is_ok() {
            self.enqueue_search_thing_by_id(thing_uuid);
        }
        edited
    }

    /// Tells the search of a thing whose status was set.
    pub fn things_set_status(&mut self, thing_uuid: &str, set: Result<String, SdkError>) -> (out: Result<
        String,
        SdkError,
    >)
        ensures
            out == set,
            only_search_changed(*old(self), *final(self)),
            match set {
                Ok(_) => thing_told(*old(self), *final(self), thing_uuid@),
                Err(_) => final(self).search == old(self).search,
            },
    {
        if set.is_ok() {
            self.enqueue_search_thing_by_id(thing_uuid);
        }
        set
    }

    /// Tells the search of a collection whose bindings were set.
    pub fn things_set_collection_action_bindings(&mut self, collection_uuid: &str, set: Result<(), SdkError>) -> (out: Result<
        (),
        SdkError,
    >)
        ensures
            out == set,
            only_search_changed(*old(self), *final(self)),
            match set {
                Ok(_) => collection_told(*old(self), *final(self), collection_uuid@),
                Err(_) => final(self).search == old(self).search,
            },
    {
        if set.is_ok() {
            self.enqueue_search_collection_by_id(collection_uuid);
        }
        set
    }

    /// Tells the search of a collection whose card was set.
    pub fn things_set_collection_card_jsx(&mut self, collection_uuid: &str, set: Result<(), SdkError>) -> (out: Result<
        (),
        SdkError,
    >)
        ensures
            out == set,
            only_search_changed(*old(self), *final(self)),
            match set {
                Ok(_) => collection_told(*old(self), *final(self), collection_uuid@),
                Err(_) => final(self).search == old(self).search,
            },
    {
        if set.is_ok() {
            self.enqueue_search_collection_by_id(collection_uuid);
        }
        set
    }

    /// Tells the search of a thing whose bindings were set.
    pub fn things_set_thing_action_bindings(&mut self, thing_uuid: &str, set: Result<(), SdkError>) -> (out: Result<
        (),
        SdkError,
    >)
        ensures
            out == set,
            only_search_changed(*old(self), *final(self)),
            match set {
                Ok(_) => thing_told(*old(self), *final(self), thing_uuid@),
                Err(_) => final(self).search == old(self).search,
            },
    {
        if set.is_ok() {
            self.enqueue_search_thing_by_id(thing_uuid);
        }
        set
    }

    /// Tells the search of a thing that got a content entry.
    pub fn things_add_content_entry(&mut self, thing_uuid: &str, added: Result<String, SdkError>) -> (out: Result<
        String,
        SdkError,
    >)
        ensures
            out == added,
            only_search_changed(*old(self), *final(self)),
            match added {
                Ok(_) => thing_told(*old(self), *final(self), thing_uuid@),
                Err(_) => final(self).search == old(self).search,
            },
    {
        if added.is_ok() {
            self.enqueue_search_thing_by_id(thing_uuid);
        }
        added
    }

    /// Tells the search of a thing with a content entry that was changed.
    pub fn things_update_content_entry(&mut self, thing_uuid: &str, updated: Result<(), SdkError>) -> (out: Result<
        (),
        SdkError,
    >)
        ensures
            out == updated,
            only_search_changed(*old(self), *final(self)),
            match updated {
                Ok(_) => thing_told(*old(self), *final(self), thing_uuid@),
                Err(_) => final(self).search == old(self).search,
            },
    {
        if updated.is_ok() {
            self.enqueue_search_thing_by_id(thing_uuid);
        }
        updated
    }

    /// Tells the search of a thing that lost a content entry.
    pub fn things_delete_content_entry(&mut self, thing_uuid: &str, deleted: Result<(), SdkError>) -> (out: Result<
        (),
        SdkError,
    >)
        ensures
            out == deleted,
            only_search_changed(*old(self), *final(self)),
            match deleted {
                Ok(_) => thing_told(*old(self), *final(self), thing_uuid@),
                Err(_) => final(self).search == old(self).search,
            },
    {
        if deleted.is_ok() {
            self.enqueue_search_thing_by_id(thing_uuid);
        }
        deleted
    }

    /// Tells the search of a thing that got an object.
    pub fn things_add_json_object_content_entry(&mut self, thing_uuid: &str, added: Result<String, SdkError>) -> (out: Result<
        String,
        SdkError,
    >)
        ensures
            out == added,
            only_search_changed(*old(self), *final(self)),
            match added {
                Ok(_) => thing_told(*old(self), *final(self), thing_uuid@),
                Err(_) => final(self).search == old(self).search,
            },
    {
        if added.is_ok() {
            self.enqueue_search_thing_by_id(thing_uuid);
        }
        added
    }

    /// Tells the search of a thing with an object whose data was set.
    pub fn things_set_json_object_entry_data(&mut self, thing_uuid: &str, set: Result<(), SdkError>) -> (out: Result<
        (),
        SdkError,
    >)
        ensures
            out == set,
            only_search_changed(*old(self), *final(self)),
            match set {
                Ok(_) => thing_told(*old(self), *final(self), thing_uuid@),
                Err(_) => final(self).search == old(self).search,
            },
    {
        if set.is_ok() {
            self.enqueue_search_thing_by_id(thing_uuid);
        }
        set
    }

    /// Tells the search of a thing with an object whose schema was set.
    pub fn things_set_json_object_entry_schema(&mut self, thing_uuid: &str, set: Result<(), SdkError>) -> (out: Result<
        (),
        SdkError,
    >)
        ensures
            out == set,
            only_search_changed(*old(self), *final(self)),
            match set {
                Ok(_) => thing_told(*old(self), *final(self), thing_uuid@),
                Err(_) => final(self).search == old(self).search,
            },
    {
        if set.is_ok() {
            self.enqueue_search_thing_by_id(thing_uuid);
        }
        set
    }

    /// Tells the search of a thing with an object that was changed.
    pub fn things_update_json_object_entry(&mut self, thing_uuid: &str, updated: Result<(), SdkError>) -> (out: Result<
        (),
        SdkError,
    >)
        ensures
            out == updated,
            only_search_changed(*old(self), *final(self)),
            match updated {
                Ok(_) => thing_told(*old(self), *final(self), thing_uuid@),
                Err(_) => final(self).search == old(self).search,
            },
    {
        if updated.is_ok() {
            self.enqueue_search_thing_by_id(thing_uuid);
        }
        updated
    }

    /// The markdown text of a thing that is not deleted.
    pub fn things_get_thing_markdown(&self, thing_uuid: &str) -> (out: Option<String>)
        ensures
            opt_view(out) == if thing_in(
                snapshot_things(self.documents@, (SnapshotOptions { include_content: false })),
                thing_uuid@,
            ) is Some {
                main_text(content_of(self.documents@, thing_uuid@))
            } else {
                None
            },
    {
        self.things_local_service().get_thing_markdown(thing_uuid)
    }

    /// The bindings of a collection.
    pub fn list_collection_action_bindings(&self, collection_uuid: &str) -> (out: Result<
        Vec<EntityActionBinding>,
        SdkError,
    >)
        ensures
            bindings_out(out) == collection_bindings(self.documents@, collection_uuid@),
    {
        let at: usize = self.documents.find_collection(collection_uuid);
        if at < self.documents.collections.len() && !self.documents.collections[at].deleted {
            Ok(read_kept_bindings(&self.documents.collections[at].attrs))
        } else {
            let message = cat("Collection not found: ", collection_uuid);
            Err(failure(message.as_str()))
        }
    }

    /// The bindings of a thing.
    pub fn list_thing_action_bindings(&self, thing_uuid: &str) -> (out: Result<
        Vec<EntityActionBinding>,
        SdkError,
    >)
        ensures
            bindings_out(out) == thing_bindings(self.documents@, thing_uuid@),
    {
        let collection = match resolve_thing_collection_uuid(&self.documents, thing_uuid) {
            Ok(uuid) => uuid,
            Err(e) => return Err(e),
        };
        let at: usize = self.documents.find_collection(collection.as_str());
        let attrs = if at < self.documents.collections.len() {
            let k: usize = self.documents.find_thing(at, thing_uuid);
            if k < self.documents.collections[at].things.len() {
                copy_opt_json(&self.documents.collections[at].things[k].attrs)
            } else {
                None
            }
        } else {
            None
        };
        Ok(read_kept_bindings(&attrs))
    }

    /// The bindings of a collection with what is known of their actions.
    pub fn resolve_collection_action_bindings(&self, collection_uuid: &str) -> (out: Result<
        Vec<ResolvedEntityActionBinding>,
        SdkError,
    >)
        ensures
            match collection_bindings(self.documents@, collection_uuid@) {
                Ok(list) => out matches Ok(found) && resolved_views(found@) == resolved_bindings(
                    list,
                    self.storage.actions.data(),
                ),
                Err(e) => out matches Err(found) && found@ == e,
            },
    {
        match self.list_collection_action_bindings(collection_uuid) {
            Ok(list) => Ok(resolve_entity_action_bindings(&self.storage, list)),
            Err(e) => Err(e),
        }
    }

    /// The bindings of a thing with what is known of their actions.
    pub fn resolve_thing_action_bindings(&self, thing_uuid: &str) -> (out: Result<
        Vec<ResolvedEntityActionBinding>,
        SdkError,
    >)
        ensures
            match thing_bindings(self.documents@, thing_uuid@) {
                Ok(list) => out matches Ok(found) && resolved_views(found@) == resolved_bindings(
                    list,
                    self.storage.actions.data(),
                ),
                Err(e) => out matches Err(found) && found@ == e,
            },
    {
        match self.list_thing_action_bindings(thing_uuid) {
            Ok(list) => Ok(resolve_entity_action_bindings(&self.storage, list)),
            Err(e) => Err(e),
        }
    }

    /// The card of a collection.
    pub fn get_collection_card_jsx(&self, collection_uuid: &str) -> (out: Result<
        Option<String>,
        SdkError,
    >)
        ensures
            match collection_in(snapshot_collections(self.documents@), collection_uuid@) {
                Some(c) => out matches Ok(card) && opt_view(card) == c.card_jsx,
                None => out matches Err(e) && e@ == no_collection(collection_uuid@),
            },
    {
        let snapshot = self.documents.extract_snapshot_with_options(
            SnapshotOptions { include_content: false },
        );
        match find_collection_entry(&snapshot.collections, collection_uuid) {
            Some(at) => Ok(snapshot.collections[at].card_jsx.clone()),
            None => {
                let message = cat("Collection not found: ", collection_uuid);
                Err(failure(message.as_str()))
            },
        }
    }

    /// The call that running an action on a collection by hand makes.
    pub fn execute_collection_action_now(
        &self,
        device_id: &str,
        collection_uuid: &str,
        action_uuid: &str,
    ) -> (out: Result<ActionCall, SdkError>)
        ensures
            call_out(out) == bound_call(
                collection_bindings(self.documents@, collection_uuid@),
                ActionInvocationSourceKind::CollectionManual,
                device_id@,
                collection_uuid@,
                action_uuid@,
            ),
    {
        find_call(
            self.list_collection_action_bindings(collection_uuid),
            ActionInvocationSourceKind::CollectionManual,
            device_id,
            collection_uuid,
            action_uuid,
        )
    }

    /// The call that running an action on a thing by hand makes.
    pub fn execute_thing_action_now(
        &self,
        device_id: &str,
        thing_uuid: &str,
        action_uuid: &str,
    ) -> (out: Result<ActionCall, SdkError>)
        ensures
            call_out(out) == bound_call(
                thing_bindings(self.documents@, thing_uuid@),
                ActionInvocationSourceKind::ThingManual,
                device_id@,
                thing_uuid@,
                action_uuid@,
            ),
    {
        find_call(
            self.list_thing_action_bindings(thing_uuid),
            ActionInvocationSourceKind::ThingManual,
            device_id,
            thing_uuid,
            action_uuid,
        )
    }

    /// The content entries of a thing.
    pub fn things_get_content_entries(&self, thing_uuid: &str) -> (out: Result<
        Vec<ContentEntry>,
        SdkError,
    >)
        ensures
            entries_out(out) == entries_shown(self.documents@, thing_uuid@),
    {
        match resolve_thing_collection_uuid(&self.documents, thing_uuid) {
            Ok(collection) => self.documents.get_content_entries(collection.as_str(), thing_uuid),
            Err(e) => Err(e),
        }
    }

    fn object_documents(&self, thing_uuid: &str, entry_id: &str) -> (out: Result<
        (String, Option<String>),
        SdkError,
    >)
        ensures
            match object_documents(self.documents@, thing_uuid@, entry_id@) {
                Ok(documents) => out matches Ok(found) && found.0@ == documents.0 && opt_view(
                    found.1,
                ) == documents.1,
                Err(e) => out matches Err(found) && found@ == e,
            },
    {
        let entries = match self.things_get_content_entries(thing_uuid) {
            Ok(entries) => entries,
            Err(e) => return Err(e),
        };
        let at: usize = find_entry(&entries, entry_id);
        if at == entries.len() {
            let message = cat("Content entry not found: ", entry_id);
            return Err(failure(message.as_str()));
        }
        match &entries[at].payload {
            ContentEntryPayload::JsonObject(f) => Ok(
                (f.data_doc_uuid.clone(), f.schema_doc_uuid.clone()),
            ),
            _ => {
                let message = cat("Content entry is not a json_object: ", entry_id);
                Err(failure(message.as_str()))
            },
        }
    }

    /// The data of an object among the content entries of a thing.
    pub fn things_get_json_object_entry_data(&self, thing_uuid: &str, entry_id: &str) -> (out:
        Result<Option<Json>, SdkError>)
        ensures
            json_out(out) == object_data(self.documents@, thing_uuid@, entry_id@),
    {
        match self.object_documents(thing_uuid, entry_id) {
            Ok(documents) => Ok(self.documents.get_thing_json_content(documents.0.as_str())),
            Err(e) => Err(e),
        }
    }

    /// The schema of an object among the content entries of a thing.
    pub fn things_get_json_object_entry_schema(&self, thing_uuid: &str, entry_id: &str) -> (out:
        Result<Option<Json>, SdkError>)
        ensures
            json_out(out) == object_schema(self.documents@, thing_uuid@, entry_id@),
    {
        match self.object_documents(thing_uuid, entry_id) {
            Ok(documents) => match documents.1 {
                Some(schema) => Ok(self.documents.get_thing_json_content(schema.as_str())),
                None => Ok(None),
            },
            Err(e) => Err(e),
        }
    }

    /// The changes, the latest first.
    pub fn things_list_change_log(
        &self,
        limit: u32,
        offset: u32,
    ) -> (out: Vec<ThingsChangeLogEntry>)
        ensures
            out@ == page(
                ranked(
                    self.storage.things_change_log.data(),
                    every::<ThingsChangeLogEntry>(),
                    by_log_creation(),
                    true,
                ),
                Some(limit),
                offset,
            ),
    {
        self.storage.list_things_change_log(limit, offset)
    }

    /// The changes of an entity, the latest first.
    pub fn things_list_change_log_for_entity(
        &self,
        entity_type: &str,
        entity_uuid: &str,
        limit: u32,
    ) -> (out: Vec<ThingsChangeLogEntry>)
        ensures
            out@ == page(
                ranked(
                    self.storage.things_change_log.data(),
                    log_of_entity(entity_type@, entity_uuid@),
                    by_log_creation(),
                    true,
                ),
                Some(limit),
                0,
            ),
    {
        self.storage.list_things_change_log_for_entity(entity_type, entity_uuid, limit)
    }

    /// A change by its id.
    pub fn things_get_change_log(&self, log_id: i64) -> (out: Option<ThingsChangeLogEntry>)
        ensures
            out == first_data(self.storage.things_change_log.data(), is_log(log_id)),
    {
        self.storage.get_things_change_log(log_id)
    }

    /// The snapshots of a thing, the latest first.
    pub fn things_list_content_snapshots(
        &self,
        thing_uuid: &str,
        limit: u32,
    ) -> (out: Vec<ThingsContentSnapshot>)
        ensures
            out@ == page(
                ranked(
                    self.storage.things_content_snapshots.data(),
                    snapshot_of(thing_uuid@),
                    by_snapshot_creation(),
                    true,
                ),
                Some(limit),
                0,
            ),
    {
        self.storage.list_things_content_snapshots(thing_uuid, limit)
    }

    /// What undoing a logged change would undo, and what stands against it. A change that is
    /// not there is refused.
    pub fn things_preview_undo(&self, log_id: i64) -> (out: Result<ThingsUndoPreview, SdkError>)
        ensures
            match first_data(self.storage.things_change_log.data(), is_log(log_id)) {
                None => out matches Err(e) && e@ == no_change(log_id),
                Some(log) => out matches Ok(p) && p.change == log && conflict_out(p.conflict)
                    == undo_conflict(
                    log.op_type,
                    log.entity_uuid@,
                    log.details_json@,
                    snapshot_collections(self.documents@),
                    snapshot_things(self.documents@, (SnapshotOptions { include_content: true })),
                ),
            },
    {
        match self.storage.get_things_change_log(log_id) {
            None => {
                let id = signed_text(log_id);
                let message = cat("Change log entry not found: ", id.as_str());
                Err(failure(message.as_str()))
            },
            Some(log) => {
                let snapshot = self.documents.extract_snapshot();
                let conflict = check_undo_conflict(&log, &snapshot);
                Ok(ThingsUndoPreview { change: log, conflict })
            },
        }
    }

    /// The events behind one that a device has seen, in their order, as many as are asked for.
    /// `kept` are the events that are kept for it.
    pub fn things_watch_since(
        &self,
        kept: Result<Vec<ThingsLocalEvent>, SdkError>,
        after_event_id: i64,
        limit: u32,
    ) -> (out: Result<Vec<ThingsLocalEvent>, SdkError>)
        ensures
            match kept {
                Ok(events) => out matches Ok(o) && o@ == page(
                    events@.filter(event_after(after_event_id)),
                    Some(limit),
                    0,
                ),
                Err(e) => out == Err::<Vec<ThingsLocalEvent>, SdkError>(e),
            },
    {
        let events = match kept {
            Ok(events) => events,
            Err(e) => return Err(e),
        };
        let mut later: Vec<ThingsLocalEvent> = Vec::new();
        let mut i: usize = 0;
        proof {
            reveal(Seq::filter);
            assert(events@.take(0) =~= Seq::empty());
        }
        while i < events.len()
            invariant
                i <= events@.len(),
                later@ == events@.take(i as int).filter(event_after(after_event_id)),
            decreases events@.len() - i,
        {
            proof {
                reveal(Seq::filter);
                assert(events@.take(i + 1).drop_last() =~= events@.take(i as int));
            }
            if events[i].event_id > after_event_id {
                later.push(events[i].duplicate());
            }
            i = i + 1;
        }
        proof {
            assert(events@.take(i as int) =~= events@);
        }
        Ok(take_page(&later, Some(limit), 0))
    }

    /// Takes the events up to one for seen, and says how many those are. `unseen` are the
    /// events that are kept for a device and that it has not seen.
    pub fn things_ack_events(
        &self,
        unseen: Result<Vec<ThingsLocalEvent>, SdkError>,
        until_event_id: i64,
    ) -> (out: Result<u64, SdkError>)
        ensures
            match unseen {
                Ok(events) => out matches Ok(n) && n == events@.filter(
                    event_until(until_event_id),
                ).len(),
                Err(e) => out == Err::<u64, SdkError>(e),
            },
    {
        let events = match unseen {
            Ok(events) => events,
            Err(e) => return Err(e),
        };
        let mut n: u64 = 0;
        let mut i: usize = 0;
        proof {
            reveal(Seq::filter);
            assert(events@.take(0) =~= Seq::empty());
        }
        while i < events.len()
            invariant
                n <= i <= events@.len(),
                n == events@.take(i as int).filter(event_until(until_event_id)).len(),
            decreases events@.len() - i,
        {
            proof {
                reveal(Seq::filter);
                assert(events@.take(i + 1).drop_last() =~= events@.take(i as int));
            }
            if events[i].event_id <= until_event_id {
                n = n + 1;
            }
            i = i + 1;
        }
        proof {
            assert(events@.take(i as int) =~= events@);
        }
        Ok(n)
    }

    /// Has the index built anew after a change was undone.
    pub fn things_execute_undo(&mut self, undone: Result<String, SdkError>) -> (out: Result<
        String,
        SdkError,
    >)
        ensures
            out == undone,
            only_search_changed(*old(self), *final(self)),
            match undone {
                Ok(_) => rebuild_asked(old(self).search@, final(self).search@),
                Err(_) => final(self).search == old(self).search,
            },
    {
        if undone.is_ok() {
            self.enqueue_search_rebuild();
        }
        undone
    }

    /// Removes the snapshots and the logged changes before `cutoff`, and counts the changes and
    /// the snapshots. The snapshots go first, so that a change may go with its own. Where
    /// something that is kept still refers to a change that would go, the changes stay.
    pub fn things_cleanup_change_logs_before(&mut self, cutoff: i64) -> (out: Result<
        (u64, u64),
        SdkError,
    >)
        ensures
            only_storage_changed(*old(self), *final(self)),
            cleaned(old(self).storage, final(self).storage, cutoff as int, out),
    {
        let snapshots: u64 = self.storage.cleanup_things_content_snapshots_before(cutoff);
        let ghost middle = self.storage;
        let removed = self.storage.cleanup_things_change_log_before(cutoff);
        proof {
            assert(both_cut(
                old(self).storage,
                middle,
                self.storage,
                cutoff as int,
                removed,
                snapshots,
            ));
        }
        match removed {
            Ok(logs) => Ok((logs, snapshots)),
            Err(e) => Err(e),
        }
    }

    /// Removes the logged changes and the snapshots that are older than some days, and counts
    /// both.
    pub fn things_cleanup_change_logs(&mut self, older_than_days: i64) -> (out: Result<
        (u64, u64),
        SdkError,
    >)
        requires
            -106_751_991_167 <= older_than_days <= 106_751_991_167,
        ensures
            only_storage_changed(*old(self), *final(self)),
            exists|now: i64| clock_seconds(now) && #[trigger]
                cleaned(
                    old(self).storage,
                    final(self).storage,
                    now - 86_400 * older_than_days,
                    out,
                ),
    {
        let now: i64 = now_seconds();
        let cutoff: i64 = now - 86_400 * older_than_days;
        let out = self.things_cleanup_change_logs_before(cutoff);
        proof {
            assert(cleaned(
                old(self).storage,
                self.storage,
                now - 86_400 * older_than_days,
                out,
            ));
        }
        out
    }
}

/// An event that was written for a change, by its number.
#[derive(Debug)]
pub struct ThingsLocalEvent {
    pub event_id: i64,
    pub entity_type: String,
    pub entity_uuid: String,
    pub change_kind: String,
    pub payload_json: String,
}

impl Record for ThingsLocalEvent {
    fn duplicate(&self) -> (copy: Self) {
        ThingsLocalEvent {
            event_id: self.event_id,
            entity_type: self.entity_type.clone(),
            entity_uuid: self.entity_uuid.clone(),
            change_kind: self.change_kind.clone(),
            payload_json: self.payload_json.clone(),
        }
    }
}

pub open spec fn event_after(id: i64) -> spec_fn(ThingsLocalEvent) -> bool {
    |e: ThingsLocalEvent| e.event_id > id
}

pub open spec fn event_until(id: i64) -> spec_fn(ThingsLocalEvent) -> bool {
    |e: ThingsLocalEvent| e.event_id <= id
}

/// What undoing a logged change would undo, and what stands against it.
#[derive(Debug)]
pub struct ThingsUndoPreview {
    pub change: ThingsChangeLogEntry,
    pub conflict: Option<ThingsUndoConflict>,
}

pub open spec fn conflict_out(conflict: Option<ThingsUndoConflict>) -> Option<ConflictView> {
    match conflict {
        Some(c) => Some(c@),
        None => None,
    }
}

/// The refusal of a change that is not logged.
pub open spec fn no_change(log_id: i64) -> ErrorView {
    ErrorView::Failure { message: "Change log entry not found: "@ + int_text(log_id as int) }
}

/// What removing first the snapshots and then the changes before a point in time does.
/// `logs` is what the second step returned.
pub open spec fn both_cut(
    old: Storage,
    middle: Storage,
    new: Storage,
    cutoff: int,
    logs: Result<u64, SdkError>,
    snapshots: u64,
) -> bool {
    snapshots_cut(old, middle, cutoff, snapshots) && log_cut(middle, new, cutoff, logs)
}

/// What removing the snapshots and the changes before a point in time does and returns. Where
/// the changes cannot go, the snapshots are gone all the same.
pub open spec fn cleaned(
    old: Storage,
    new: Storage,
    cutoff: int,
    out: Result<(u64, u64), SdkError>,
) -> bool {
    exists|middle: Storage, logs: Result<u64, SdkError>, snapshots: u64|
        #[trigger] both_cut(old, middle, new, cutoff, logs, snapshots) && match logs {
            Ok(n) => out == Ok::<(u64, u64), SdkError>((n, snapshots)),
            Err(e) => out == Err::<(u64, u64), SdkError>(e) && e@ == (ErrorView::Failure {
                message: "FOREIGN KEY constraint failed"@,
            }),
        }
}

/// Whether nothing that is kept refers to a change before `cutoff`: every later change follows
/// from a later one, and every later snapshot was taken for a later one.
pub open spec fn cut_apart(s: Storage, cutoff: int) -> bool {
    let log = s.things_change_log.data();
    &&& !any_data(log, log_orphaned(log, cutoff))
    &&& !any_data(
        s.things_content_snapshots.data(),
        |x: ThingsContentSnapshot| x.created_at >= cutoff && snapshot_orphaned(log, cutoff)(x),
    )
}

/// Old changes and old snapshots are cleaned up together: a snapshot that is old itself never
/// keeps its change. What is left is what is not old.
pub proof fn law_cleanup_succeeds(
    old: Storage,
    new: Storage,
    cutoff: int,
    out: Result<(u64, u64), SdkError>,
)
    requires
        cleaned(old, new, cutoff, out),
    ensures
        out is Ok <==> cut_apart(old, cutoff),
        new.things_content_snapshots.rows@ == rows_kept(
            old.things_content_snapshots.rows@,
            snapshot_from(cutoff),
        ),
        new.things_change_log.rows@ == if out is Ok {
            rows_kept(old.things_change_log.rows@, log_from(cutoff))
        } else {
            old.things_change_log.rows@
        },
{
    let (middle, logs, snapshots) = choose|
        middle: Storage,
        logs: Result<u64, SdkError>,
        snapshots: u64,
    |
        #[trigger] both_cut(old, middle, new, cutoff, logs, snapshots) && match logs {
            Ok(n) => out == Ok::<(u64, u64), SdkError>((n, snapshots)),
            Err(e) => out == Err::<(u64, u64), SdkError>(e) && e@ == (ErrorView::Failure {
                message: "FOREIGN KEY constraint failed"@,
            }),
        };
    let log = old.things_change_log.data();
    let kept = middle.things_content_snapshots.data();
    let all = old.things_content_snapshots.data();
    let orphaned = snapshot_orphaned(log, cutoff);
    let late = |x: ThingsContentSnapshot| x.created_at >= cutoff && orphaned(x);
    law_kept_rows_hold_kept_data(old.things_content_snapshots.rows@, snapshot_from(cutoff));
    assert(kept == all.filter(snapshot_from(cutoff)));
    if any_data(kept, orphaned) {
        let i = choose|i: int| 0 <= i < kept.len() && orphaned(#[trigger] kept[i]);
        all.lemma_filter_pred(snapshot_from(cutoff), i);
        all.lemma_filter_contains_rev(snapshot_from(cutoff), kept[i]);
        let k = choose|k: int| 0 <= k < all.len() && all[k] == kept[i];
        assert(late(all[k]));
    }
    if any_data(all, late) {
        let k = choose|k: int| 0 <= k < all.len() && late(#[trigger] all[k]);
        all.lemma_filter_contains(snapshot_from(cutoff), k);
        let i = choose|i: int| 0 <= i < kept.len() && kept[i] == all[k];
        assert(orphaned(kept[i]));
    }
    assert(any_data(all, late) == any_data(
        all,
        |x: ThingsContentSnapshot| x.created_at >= cutoff && snapshot_orphaned(log, cutoff)(x),
    )) by {
        let twin = |x: ThingsContentSnapshot|
            x.created_at >= cutoff && snapshot_orphaned(log, cutoff)(x);
        assert(forall|x: ThingsContentSnapshot| #[trigger] late(x) == twin(x));
        if any_data(all, late) {
            let k = choose|k: int| 0 <= k < all.len() && late(#[trigger] all[k]);
            assert(twin(all[k]));
        }
        if any_data(all, twin) {
            let k = choose|k: int| 0 <= k < all.len() && twin(#[trigger] all[k]);
            assert(late(all[k]));
        }
    }
}

/// What the search was told to drop for a thing that is not shown is the document that it
/// was told to take in while the thing was shown.
pub proof fn law_dropped_document_is_the_things(t: ThingEntryView)
    ensures
        thing_document(t).doc_id == entity_doc_id(SearchEntityKind::Thing, t.uuid),
{
}

} // verus!
