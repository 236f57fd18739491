//! Who made collections and things.

use super::{rebuild_asked, RemiSdk};
use crate::json::opt_view;
use crate::rows::ActorMetaEntry;
use crate::storage::Storage;
use crate::storage::things_log::actors_written;
use crate::text::owned;
use vstd::prelude::*;
use vstd::string::StringExecFns;

verus! {

/// Who made something, as the server tells it.
#[derive(Debug)]
pub struct Creator {
    pub actor_type: i32,
    pub app_id: String,
    pub app_name: String,
}

/// A collection or a thing of which the server tells who made it.
#[derive(Debug)]
pub struct FetchedEntity {
    pub uuid: String,
    pub creator: Option<Creator>,
}

/// The name of a type of actors: an application, or else a user.
pub open spec fn actor_type_name(actor_type: Option<i32>) -> Seq<char> {
    if actor_type == Some(1i32) {
        "application"@
    } else {
        "user"@
    }
}

/// The name of a type of actors.
pub fn actor_type_str(actor_type: Option<i32>) -> (name: String)
    ensures
        name@ == actor_type_name(actor_type),
{
    match actor_type {
        Some(n) => if n == 1 {
            owned("application")
        } else {
            owned("user")
        },
        None => owned("user"),
    }
}

/// A text that says something.
pub open spec fn nonempty(s: Seq<char>) -> Option<Seq<char>> {
    if s.len() == 0 {
        None
    } else {
        Some(s)
    }
}

fn keep_nonempty(s: &String) -> (out: Option<String>)
    ensures
        opt_view(out) == nonempty(s@),
{
    if s.as_str().unicode_len() == 0 {
        None
    } else {
        Some(s.clone())
    }
}

/// Whether an entry of the store says what the server told.
pub open spec fn is_actor_meta(m: ActorMetaEntry, e: FetchedEntity, is_collection: bool) -> bool {
    &&& m.uuid@ == e.uuid@
    &&& m.is_collection == is_collection
    &&& m.actor_type@ == actor_type_name(
        match e.creator {
            Some(c) => Some(c.actor_type),
            None => None,
        },
    )
    &&& opt_view(m.actor_app_id) == match e.creator {
        Some(c) => nonempty(c.app_id@),
        None => None,
    }
    &&& opt_view(m.actor_display_name) == match e.creator {
        Some(c) => nonempty(c.app_name@),
        None => None,
    }
}

fn actor_meta(e: &FetchedEntity, is_collection: bool) -> (m: ActorMetaEntry)
    ensures
        is_actor_meta(m, *e, is_collection),
{
    match &e.creator {
        Some(c) => ActorMetaEntry {
            uuid: e.uuid.clone(),
            is_collection,
            actor_type: actor_type_str(Some(c.actor_type)),
            actor_app_id: keep_nonempty(&c.app_id),
            actor_display_name: keep_nonempty(&c.app_name),
        },
        None => ActorMetaEntry {
            uuid: e.uuid.clone(),
            is_collection,
            actor_type: actor_type_str(None),
            actor_app_id: None,
            actor_display_name: None,
        },
    }
}

/// What was fetched; nothing where fetching failed.
pub open spec fn fetched(list: Option<Vec<FetchedEntity>>) -> Seq<FetchedEntity> {
    match list {
        Some(list) => list@,
        None => Seq::empty(),
    }
}

/// Whether entries of the store say what the server told: of the collections first, then of
/// the things.
pub open spec fn are_actor_meta(
    entries: Seq<ActorMetaEntry>,
    collections: Seq<FetchedEntity>,
    things: Seq<FetchedEntity>,
) -> bool {
    &&& entries.len() == collections.len() + things.len()
    &&& forall|i: int|
        0 <= i < collections.len() ==> is_actor_meta(#[trigger] entries[i], collections[i], true)
    &&& forall|i: int|
        collections.len() <= i < entries.len() ==> is_actor_meta(
            #[trigger] entries[i],
            things[i - collections.len()],
            false,
        )
}

/// The entries for what was fetched. A list that could not be fetched counts as empty.
pub fn collect_actor_meta(
    collections: &Option<Vec<FetchedEntity>>,
    things: &Option<Vec<FetchedEntity>>,
) -> (entries: Vec<ActorMetaEntry>)
    ensures
        are_actor_meta(entries@, fetched(*collections), fetched(*things)),
{
    let mut entries: Vec<ActorMetaEntry> = Vec::new();
    if let Some(list) = collections {
        let mut i: usize = 0;
        while i < list.len()
            invariant
                i <= list@.len(),
                entries@.len() == i,
                forall|k: int| 0 <= k < i ==> is_actor_meta(#[trigger] entries@[k], list@[k], true),
            decreases list@.len() - i,
        {
            entries.push(actor_meta(&list[i], true));
            i = i + 1;
        }
    }
    let ghost first = fetched(*collections);
    if let Some(list) = things {
        let mut i: usize = 0;
        while i < list.len()
            invariant
                i <= list@.len(),
                entries@.len() == first.len() + i,
                forall|k: int|
                    0 <= k < first.len() ==> is_actor_meta(#[trigger] entries@[k], first[k], true),
                forall|k: int|
                    first.len() <= k < entries@.len() ==> is_actor_meta(
                        #[trigger] entries@[k],
                        list@[k - first.len()],
                        false,
                    ),
            decreases list@.len() - i,
        {
            entries.push(actor_meta(&list[i], false));
            i = i + 1;
        }
    }
    entries
}

/// Whether the store holds what the server told, and nothing else of the client changed but
/// what the search was asked for.
pub open spec fn actor_meta_kept(old: RemiSdk, new: RemiSdk, entries: Seq<ActorMetaEntry>) -> bool {
    &&& new.documents == old.documents
    &&& new.notification_events == old.notification_events
    &&& new.storage == (Storage { things_actor_meta: new.storage.things_actor_meta, ..old.storage })
    &&& new.storage.things_actor_meta.rows@ == actors_written(
        old.storage.things_actor_meta.rows@,
        entries,
        entries.len() as int,
    )
    &&& rebuild_asked(old.search@, new.search@)
}

/// Keeps who made the collections and things that were fetched from the server, where there
/// are any. A list that could not be fetched counts as empty.
pub fn refresh_things_actor_meta(
    sdk: &mut RemiSdk,
    collections: &Option<Vec<FetchedEntity>>,
    things: &Option<Vec<FetchedEntity>>,
)
    ensures
        if fetched(*collections).len() + fetched(*things).len() == 0 {
            *final(sdk) == *old(sdk)
        } else {
            exists|entries: Seq<ActorMetaEntry>|
                are_actor_meta(entries, fetched(*collections), fetched(*things))
                    && #[trigger] actor_meta_kept(*old(sdk), *final(sdk), entries)
        },
{
    let entries = collect_actor_meta(collections, things);
    if entries.len() > 0 {
        sdk.things_upsert_actor_meta(&entries);
        proof {
            assert(actor_meta_kept(*old(sdk), *sdk, entries@));
        }
    }
}

} // verus!
