//! The log of changes to things, snapshots of content, known places, and actors.
use super::chat::every;
use super::{actor_key, Storage};
use crate::clock::{clock_seconds, now_seconds};
use crate::error::{failure, ErrorView, SdkError};
use crate::json::{int_text, json_text, list_view, write_json, Json, JsonView};
use crate::rows::{
    ActorMetaEntry, LocationCacheEntry, ThingsChangeLogEntry, ThingsContentSnapshot,
    ThingsOperationType,
};
use crate::table::{
    any_data, data_of, first_data, first_item, first_of, group_keyed, law_first_data,
    law_upsert_leaves_others, law_upsert_read_back, lemma_keyed_upserted, page, ranked, rows_kept,
    rows_updated, rows_upserted, take_page, Rank, Record, Row,
};
use crate::text::{before, lemma_text_order, lemma_text_order_transitive, owned, same, text_less};
use vstd::prelude::*;

verus! {

pub open spec fn is_log(id: i64) -> spec_fn(ThingsChangeLogEntry) -> bool {
    |e: ThingsChangeLogEntry| e.id == id
}

pub open spec fn log_of_entity(entity_type: Seq<char>, entity: Seq<char>) -> spec_fn(
    ThingsChangeLogEntry,
) -> bool {
    |e: ThingsChangeLogEntry| e.entity_type@ == entity_type && e.entity_uuid@ == entity
}

pub open spec fn cascade_of(parent: i64) -> spec_fn(ThingsChangeLogEntry) -> bool {
    |e: ThingsChangeLogEntry| e.parent_log_id == Some(parent)
}

/// The updates of a thing from `cutoff` on.
pub open spec fn recent_update_of(thing: Seq<char>, cutoff: int) -> spec_fn(
    ThingsChangeLogEntry,
) -> bool {
    |e: ThingsChangeLogEntry| e.entity_type@ == "thing"@ && e.entity_uuid@ == thing && e.op_type
        is UpdateThing && e.created_at >= cutoff
}

pub open spec fn log_unsynced() -> spec_fn(ThingsChangeLogEntry) -> bool {
    |e: ThingsChangeLogEntry| !e.synced
}

pub open spec fn log_in(ids: Seq<i64>) -> spec_fn(ThingsChangeLogEntry) -> bool {
    |e: ThingsChangeLogEntry| ids.contains(e.id)
}

pub open spec fn log_from(cutoff: int) -> spec_fn(ThingsChangeLogEntry) -> bool {
    |e: ThingsChangeLogEntry| e.created_at >= cutoff
}

pub open spec fn by_log_creation() -> spec_fn(ThingsChangeLogEntry) -> Rank {
    |e: ThingsChangeLogEntry| (e.created_at, 0i64)
}

pub open spec fn by_log_id() -> spec_fn(ThingsChangeLogEntry) -> Rank {
    |e: ThingsChangeLogEntry| (e.id, 0i64)
}

pub open spec fn with_cascade(ids_json: String) -> spec_fn(
    ThingsChangeLogEntry,
) -> ThingsChangeLogEntry {
    |e: ThingsChangeLogEntry|
        ThingsChangeLogEntry { cascade_log_ids_json: Some(ids_json), ..e }
}

pub open spec fn not_undoable() -> spec_fn(ThingsChangeLogEntry) -> ThingsChangeLogEntry {
    |e: ThingsChangeLogEntry| ThingsChangeLogEntry { can_undo: false, ..e }
}

pub open spec fn log_synced() -> spec_fn(ThingsChangeLogEntry) -> ThingsChangeLogEntry {
    |e: ThingsChangeLogEntry| ThingsChangeLogEntry { synced: true, ..e }
}

/// The JSON form of a list of ids.
pub open spec fn ids_json(ids: Seq<i64>) -> JsonView {
    JsonView::List(ids.map_values(|id: i64| JsonView::Number(int_text(id as int))))
}

/// Whether a row is the one of a logged change.
pub open spec fn log_entry(
    row: ThingsChangeLogEntry,
    id: i64,
    device_id: Seq<char>,
    op_type: ThingsOperationType,
    entity_type: Seq<char>,
    entity: Seq<char>,
    summary: Seq<char>,
    details: Seq<char>,
    parent: Option<i64>,
    can_undo: bool,
    synced: bool,
    created_at: i64,
) -> bool {
    &&& row.id == id
    &&& row.device_id@ == device_id
    &&& row.op_type == op_type
    &&& row.entity_type@ == entity_type
    &&& row.entity_uuid@ == entity
    &&& row.summary@ == summary
    &&& row.details_json@ == details
    &&& row.parent_log_id == parent
    &&& row.cascade_log_ids_json is None
    &&& row.can_undo == can_undo
    &&& row.synced == synced
    &&& row.created_at == created_at
}

/// Whether a change of the log that is named is there.
pub open spec fn log_known(data: Seq<ThingsChangeLogEntry>, id: Option<i64>) -> bool {
    id matches Some(id) ==> any_data(data, is_log(id))
}

/// The changes that refer to a change which the cut removes.
pub open spec fn log_orphaned(data: Seq<ThingsChangeLogEntry>, cutoff: int) -> spec_fn(
    ThingsChangeLogEntry,
) -> bool {
    |e: ThingsChangeLogEntry|
        e.created_at >= cutoff && e.parent_log_id is Some && removed_log(
            data,
            e.parent_log_id->0,
            cutoff,
        )
}

pub open spec fn snapshot_orphaned(data: Seq<ThingsChangeLogEntry>, cutoff: int) -> spec_fn(
    ThingsContentSnapshot,
) -> bool {
    |s: ThingsContentSnapshot|
        s.change_log_id is Some && removed_log(data, s.change_log_id->0, cutoff)
}

/// Whether the cut removes a change with an id.
pub open spec fn removed_log(data: Seq<ThingsChangeLogEntry>, id: i64, cutoff: int) -> bool {
    any_data(data, |e: ThingsChangeLogEntry| e.id == id && e.created_at < cutoff)
}

/// Whether the cut would leave something that refers to what it removes.
pub open spec fn cut_refused(s: Storage, cutoff: int) -> bool {
    let log = s.things_change_log.data();
    any_data(log, log_orphaned(log, cutoff)) || any_data(
        s.things_content_snapshots.data(),
        snapshot_orphaned(log, cutoff),
    )
}

pub open spec fn snapshot_of(thing: Seq<char>) -> spec_fn(ThingsContentSnapshot) -> bool {
    |s: ThingsContentSnapshot| s.thing_uuid@ == thing
}

pub open spec fn snapshot_for_log(id: i64) -> spec_fn(ThingsContentSnapshot) -> bool {
    |s: ThingsContentSnapshot| s.change_log_id == Some(id)
}

pub open spec fn snapshot_unsynced() -> spec_fn(ThingsContentSnapshot) -> bool {
    |s: ThingsContentSnapshot| !s.synced
}

pub open spec fn snapshot_in(ids: Seq<i64>) -> spec_fn(ThingsContentSnapshot) -> bool {
    |s: ThingsContentSnapshot| ids.contains(s.id)
}

pub open spec fn snapshot_from(cutoff: int) -> spec_fn(ThingsContentSnapshot) -> bool {
    |s: ThingsContentSnapshot| s.created_at >= cutoff
}

pub open spec fn by_snapshot_creation() -> spec_fn(ThingsContentSnapshot) -> Rank {
    |s: ThingsContentSnapshot| (s.created_at, 0i64)
}

pub open spec fn snapshot_synced() -> spec_fn(ThingsContentSnapshot) -> ThingsContentSnapshot {
    |s: ThingsContentSnapshot| ThingsContentSnapshot { synced: true, ..s }
}

pub open spec fn snapshot_row(
    row: ThingsContentSnapshot,
    id: i64,
    device_id: Seq<char>,
    thing: Seq<char>,
    content: Seq<char>,
    change_log_id: Option<i64>,
    synced: bool,
    created_at: i64,
) -> bool {
    &&& row.id == id
    &&& row.device_id@ == device_id
    &&& row.thing_uuid@ == thing
    &&& row.content_json@ == content
    &&& row.change_log_id == change_log_id
    &&& row.synced == synced
    &&& row.created_at == created_at
}

pub open spec fn is_place(name: Seq<char>) -> spec_fn(LocationCacheEntry) -> bool {
    |l: LocationCacheEntry| l.name@ == name
}

pub open spec fn other_place(name: Seq<char>) -> spec_fn(LocationCacheEntry) -> bool {
    |l: LocationCacheEntry| l.name@ != name
}

pub open spec fn is_exact() -> spec_fn(LocationCacheEntry) -> bool {
    |l: LocationCacheEntry| !l.is_fuzzy
}

/// How a place that is there takes over a new entry.
pub open spec fn place_taken_over(new: LocationCacheEntry) -> spec_fn(
    LocationCacheEntry,
) -> LocationCacheEntry {
    |l: LocationCacheEntry|
        LocationCacheEntry { name: l.name, created_at: l.created_at, ..new }
}

pub open spec fn stamped_place(l: LocationCacheEntry, now: i64) -> LocationCacheEntry {
    LocationCacheEntry { created_at: now, updated_at: now, ..l }
}

/// A place that was written is there as it was written, but for the time of its creation where
/// it was there before; every other one is as it was.
pub proof fn law_place_read_after_write(
    rows: Seq<Row<LocationCacheEntry>>,
    place: LocationCacheEntry,
    now: i64,
    other: Seq<char>,
)
    ensures
        ({
            let row = stamped_place(place, now);
            let new = data_of(
                rows_upserted(rows, is_place(place.name@), place_taken_over(row), row),
            );
            &&& first_data(new, is_place(place.name@)) matches Some(l) && l.name@ == place.name@
                && l.is_fuzzy == place.is_fuzzy && l.latitude == place.latitude && l.longitude
                == place.longitude && l.formatted_address == place.formatted_address
                && l.updated_at == now
            &&& other != place.name@ ==> first_data(new, is_place(other)) == first_data(
                data_of(rows),
                is_place(other),
            )
        }),
{
    let row = stamped_place(place, now);
    law_first_data(data_of(rows), is_place(place.name@));
    law_upsert_read_back(rows, is_place(place.name@), place_taken_over(row), row);
    if other != place.name@ {
        law_upsert_leaves_others(
            rows,
            is_place(place.name@),
            place_taken_over(row),
            row,
            is_place(other),
        );
    }
}

/// A list of places with one more put behind those whose name is not after its own.
pub open spec fn insert_named(s: Seq<LocationCacheEntry>, x: LocationCacheEntry) -> Seq<
    LocationCacheEntry,
>
    decreases s.len(),
{
    if s.len() == 0 || !text_less(x.name@, s.last().name@) {
        s.push(x)
    } else {
        insert_named(s.drop_last(), x).push(s.last())
    }
}

/// Places in the order of their names.
pub open spec fn by_name(s: Seq<LocationCacheEntry>) -> Seq<LocationCacheEntry>
    decreases s.len(),
{
    if s.len() == 0 {
        Seq::empty()
    } else {
        insert_named(by_name(s.drop_last()), s.last())
    }
}

pub open spec fn names_sorted(s: Seq<LocationCacheEntry>) -> bool {
    forall|i: int, j: int|
        0 <= i < j < s.len() ==> !text_less((#[trigger] s[j]).name@, (#[trigger] s[i]).name@)
}

proof fn lemma_insert_named(s: Seq<LocationCacheEntry>, x: LocationCacheEntry)
    requires
        names_sorted(s),
    ensures
        names_sorted(insert_named(s, x)),
        insert_named(s, x).to_multiset() == s.to_multiset().insert(x),
    decreases s.len(),
{
    broadcast use vstd::seq_lib::group_to_multiset_ensures;

    let out = insert_named(s, x);
    if s.len() == 0 {
    } else if !text_less(x.name@, s.last().name@) {
        assert forall|i: int, j: int| 0 <= i < j < out.len() implies !text_less(
            (#[trigger] out[j]).name@,
            (#[trigger] out[i]).name@,
        ) by {
            if j == s.len() {
                lemma_not_less(x.name@, s.last().name@, s[i].name@);
                if i < s.len() - 1 {
                    assert(!text_less(s[s.len() - 1].name@, s[i].name@));
                }
            }
        }
    } else {
        let rest = s.drop_last();
        assert(names_sorted(rest)) by {
            assert forall|i: int, j: int| 0 <= i < j < rest.len() implies !text_less(
                (#[trigger] rest[j]).name@,
                (#[trigger] rest[i]).name@,
            ) by {
                assert(rest[j] == s[j] && rest[i] == s[i]);
            }
        }
        lemma_insert_named(rest, x);
        let inner = insert_named(rest, x);
        assert(rest.push(s.last()) =~= s);
        assert(out == inner.push(s.last()));
        assert(out.to_multiset() =~= s.to_multiset().insert(x));
        assert forall|i: int, j: int| 0 <= i < j < out.len() implies !text_less(
            (#[trigger] out[j]).name@,
            (#[trigger] out[i]).name@,
        ) by {
            if j == out.len() - 1 {
                assert(inner.to_multiset().contains(inner[i]));
                assert(rest.to_multiset().insert(x).contains(inner[i]));
                if inner[i] == x {
                    lemma_text_order(x.name@, s.last().name@);
                } else {
                    assert(rest.to_multiset().contains(inner[i]));
                    assert(rest.contains(inner[i]));
                    let w = choose|w: int| 0 <= w < rest.len() && rest[w] == inner[i];
                    assert(!text_less(s[s.len() - 1].name@, s[w].name@));
                }
            } else {
                assert(out[j] == inner[j] && out[i] == inner[i]);
            }
        }
    }
}

proof fn lemma_not_less(a: Seq<char>, b: Seq<char>, c: Seq<char>)
    requires
        !text_less(a, b),
    ensures
        !text_less(b, c) ==> !text_less(a, c),
        b == c ==> !text_less(a, c),
{
    if text_less(a, c) && !text_less(b, c) {
        lemma_text_order(b, c);
        lemma_text_order(a, b);
        if b != c {
            lemma_text_order_transitive(a, c, b);
        }
    }
}

/// Places in the order of their names are the same places, sorted.
pub proof fn law_places_sorted(s: Seq<LocationCacheEntry>)
    ensures
        names_sorted(by_name(s)),
        by_name(s).to_multiset() == s.to_multiset(),
    decreases s.len(),
{
    broadcast use vstd::seq_lib::group_to_multiset_ensures;

    if s.len() > 0 {
        law_places_sorted(s.drop_last());
        lemma_insert_named(by_name(s.drop_last()), s.last());
        assert(s.drop_last().push(s.last()) =~= s);
    } else {
        assert(by_name(s) =~= s);
    }
}

pub open spec fn is_actor_of(uuid: Seq<char>) -> spec_fn(ActorMetaEntry) -> bool {
    |a: ActorMetaEntry| a.uuid@ == uuid
}

/// How the actor that is kept for an entity takes over a new one.
pub open spec fn actor_taken_over(new: ActorMetaEntry) -> spec_fn(ActorMetaEntry) -> ActorMetaEntry {
    |a: ActorMetaEntry|
        ActorMetaEntry {
            actor_type: new.actor_type,
            actor_app_id: new.actor_app_id,
            actor_display_name: new.actor_display_name,
            ..a
        }
}

/// The rows after the first `n` actors were written.
pub open spec fn actors_written(
    rows: Seq<Row<ActorMetaEntry>>,
    items: Seq<ActorMetaEntry>,
    n: int,
) -> Seq<Row<ActorMetaEntry>>
    decreases n,
{
    if n <= 0 {
        rows
    } else {
        rows_upserted(
            actors_written(rows, items, n - 1),
            is_actor_of(items[n - 1].uuid@),
            actor_taken_over(items[n - 1]),
            items[n - 1],
        )
    }
}

/// What removing the changes before a point in time does and returns.
pub open spec fn log_cut(
    old: Storage,
    new: Storage,
    cutoff: int,
    out: Result<u64, SdkError>,
) -> bool {
    &&& out is Err <==> cut_refused(old, cutoff)
    &&& out is Err ==> new == old
    &&& out matches Ok(n) ==> new == (Storage { things_change_log: new.things_change_log, ..old })
        && new.things_change_log.rows@ == rows_kept(old.things_change_log.rows@, log_from(cutoff))
        && new.things_change_log.next_id == old.things_change_log.next_id && n
        == old.things_change_log.rows@.len() - new.things_change_log.rows@.len()
}

/// What removing the snapshots before a point in time does and returns.
pub open spec fn snapshots_cut(old: Storage, new: Storage, cutoff: int, removed: u64) -> bool {
    &&& new == (Storage { things_content_snapshots: new.things_content_snapshots, ..old })
    &&& new.things_content_snapshots.rows@ == rows_kept(
        old.things_content_snapshots.rows@,
        snapshot_from(cutoff),
    )
    &&& new.things_content_snapshots.next_id == old.things_content_snapshots.next_id
    &&& removed
    == old.things_content_snapshots.rows@.len() - new.things_content_snapshots.rows@.len()
}

fn holds_id(ids: &Vec<i64>, id: i64) -> (r: bool)
    ensures
        r == ids@.contains(id),
{
    let mut i: usize = 0;
    while i < ids.len()
        invariant
            i <= ids@.len(),
            forall|k: int| 0 <= k < i ==> #[trigger] ids@[k] != id,
        decreases ids@.len() - i,
    {
        if ids[i] == id {
            return true;
        }
        i = i + 1;
    }
    false
}

/// Puts a place behind those whose name is not after its own.
fn put_named(s: &mut Vec<LocationCacheEntry>, x: LocationCacheEntry)
    ensures
        final(s)@ == insert_named(old(s)@, x),
    decreases old(s)@.len(),
{
    let n: usize = s.len();
    if n == 0 || !before(x.name.as_str(), s[n - 1].name.as_str()) {
        s.push(x);
    } else {
        let last = s.pop();
        proof {
            assert(s@ =~= old(s)@.drop_last());
        }
        put_named(s, x);
        if let Some(last) = last {
            s.push(last);
        }
    }
}

impl Storage {
    /// Whether a change is in the log.
    fn has_log(&self, id: i64) -> (r: bool)
        ensures
            r == any_data(self.things_change_log.data(), is_log(id)),
    {
        let hit = |e: &ThingsChangeLogEntry| -> (b: bool)
            ensures
                b == is_log(id)(*e),
            { e.id == id };
        self.things_change_log.any(hit, Ghost(is_log(id)))
    }

    /// Logs a change at the time `now` and returns its id. A parent that is named must be in
    /// the log.
    pub fn insert_things_change_log_at(
        &mut self,
        device_id: &str,
        op_type: ThingsOperationType,
        entity_type: &str,
        entity_uuid: &str,
        summary: &str,
        details_json: &str,
        parent_log_id: Option<i64>,
        can_undo: bool,
        now: i64,
    ) -> (out: Result<i64, SdkError>)
        requires
            old(self).things_change_log.next_id < i64::MAX,
        ensures
            out is Ok <==> log_known(old(self).things_change_log.data(), parent_log_id),
            out matches Err(e) ==> *final(self) == *old(self) && e@ == (ErrorView::Failure {
                message: "Failed to insert change log entry"@,
            }),
            out is Ok ==> *final(self) == (Storage {
                things_change_log: final(self).things_change_log,
                ..*old(self)
            }),
            out matches Ok(id) ==> id == old(self).things_change_log.next_id
                && final(self).things_change_log.next_id == id + 1,
            out is Ok ==> exists|row: ThingsChangeLogEntry|
                #[trigger] log_entry(
                    row,
                    old(self).things_change_log.next_id,
                    device_id@,
                    op_type,
                    entity_type@,
                    entity_uuid@,
                    summary@,
                    details_json@,
                    parent_log_id,
                    can_undo,
                    false,
                    now,
                ) && final(self).things_change_log.rows@ == old(self).things_change_log.rows@.push(
                    (Row { user_id: None, data: row }),
                ),
            old(self).well_formed() ==> final(self).well_formed(),
    {
        broadcast use group_keyed;

        if let Some(known) = parent_log_id {
            if !self.has_log(known) {
                return Err(failure("Failed to insert change log entry"));
            }
        }
        let id: i64 = self.things_change_log.take_id();
        let row = ThingsChangeLogEntry {
            id,
            device_id: owned(device_id),
            op_type,
            entity_type: owned(entity_type),
            entity_uuid: owned(entity_uuid),
            summary: owned(summary),
            details_json: owned(details_json),
            parent_log_id: parent_log_id,
            cascade_log_ids_json: None,
            created_at: now,
            can_undo: can_undo,
            synced: false,
        };
        let ghost stored = row;
        self.things_change_log.push(row);
        assert(log_entry(
            stored,
            old(self).things_change_log.next_id,
            device_id@,
            op_type,
            entity_type@,
            entity_uuid@,
            summary@,
            details_json@,
            parent_log_id,
            can_undo,
            false,
            now,
        ));
        Ok(id)
    }

    /// Logs a change now.
    pub fn insert_things_change_log(
        &mut self,
        device_id: &str,
        op_type: ThingsOperationType,
        entity_type: &str,
        entity_uuid: &str,
        summary: &str,
        details_json: &str,
        parent_log_id: Option<i64>,
        can_undo: bool,
    ) -> (out: Result<i64, SdkError>)
        requires
            old(self).things_change_log.next_id < i64::MAX,
        ensures
            out is Ok <==> log_known(old(self).things_change_log.data(), parent_log_id),
            out matches Err(e) ==> *final(self) == *old(self) && e@ == (ErrorView::Failure {
                message: "Failed to insert change log entry"@,
            }),
            out is Ok ==> *final(self) == (Storage {
                things_change_log: final(self).things_change_log,
                ..*old(self)
            }),
            out matches Ok(id) ==> id == old(self).things_change_log.next_id
                && final(self).things_change_log.next_id == id + 1,
            out is Ok ==> exists|row: ThingsChangeLogEntry, now: i64|
                clock_seconds(now) && #[trigger] log_entry(
                    row,
                    old(self).things_change_log.next_id,
                    device_id@,
                    op_type,
                    entity_type@,
                    entity_uuid@,
                    summary@,
                    details_json@,
                    parent_log_id,
                    can_undo,
                    false,
                    now,
                ) && final(self).things_change_log.rows@ == old(self).things_change_log.rows@.push(
                    (Row { user_id: None, data: row }),
                ),
            old(self).well_formed() ==> final(self).well_formed(),
    {
        let now: i64 = now_seconds();
        self.insert_things_change_log_at(
            device_id,
            op_type,
            entity_type,
            entity_uuid,
            summary,
            details_json,
            parent_log_id,
            can_undo,
            now,
        )
    }

    /// Keeps which changes followed from a change.
    pub fn update_things_change_log_cascade_ids(
        &mut self,
        log_id: i64,
        cascade_log_ids: &Vec<i64>,
    )
        ensures
            *final(self) == (Storage {
                things_change_log: final(self).things_change_log,
                ..*old(self)
            }),
            exists|text: String|
                text@ == json_text(ids_json(cascade_log_ids@))
                    && final(self).things_change_log.rows@
                    == #[trigger] rows_updated(
                    old(self).things_change_log.rows@,
                    is_log(log_id),
                    with_cascade(text),
                ),
            final(self).things_change_log.next_id == old(self).things_change_log.next_id,
            old(self).well_formed() ==> final(self).well_formed(),
    {
        broadcast use group_keyed;

        let mut items: Vec<Json> = Vec::new();
        let mut i: usize = 0;
        while i < cascade_log_ids.len()
            invariant
                i <= cascade_log_ids@.len(),
                items@.len() == i,
                forall|k: int|
                    0 <= k < i ==> (#[trigger] items@[k])@ == JsonView::Number(
                        int_text(cascade_log_ids@[k] as int),
                    ),
            decreases cascade_log_ids@.len() - i,
        {
            items.push(Json::signed(cascade_log_ids[i]));
            i = i + 1;
        }
        proof {
            assert(list_view(items@) =~= cascade_log_ids@.map_values(
                |id: i64| JsonView::Number(int_text(id as int)),
            ));
        }
        let list = Json::list(items);
        let text = write_json(&list);
        let held = &text;
        let hit = |e: &ThingsChangeLogEntry| -> (b: bool)
            ensures
                b == is_log(log_id)(*e),
            { e.id == log_id };
        let change = |e: &ThingsChangeLogEntry| -> (out: ThingsChangeLogEntry)
            ensures
                out == with_cascade(*held)(*e),
            {
                ThingsChangeLogEntry {
                    id: e.id,
                    device_id: e.device_id.clone(),
                    op_type: e.op_type,
                    entity_type: e.entity_type.clone(),
                    entity_uuid: e.entity_uuid.clone(),
                    summary: e.summary.clone(),
                    details_json: e.details_json.clone(),
                    parent_log_id: e.parent_log_id,
                    cascade_log_ids_json: Some(held.clone()),
                    created_at: e.created_at,
                    can_undo: e.can_undo,
                    synced: e.synced,
                }
            };
        self.things_change_log.update(
            hit,
            change,
            Ghost(is_log(log_id)),
            Ghost(with_cascade(*held)),
        );
    }

    /// Makes a change one that cannot be undone.
    pub fn mark_things_change_log_not_undoable(&mut self, log_id: i64)
        ensures
            *final(self) == (Storage {
                things_change_log: final(self).things_change_log,
                ..*old(self)
            }),
            final(self).things_change_log.rows@ == rows_updated(
                old(self).things_change_log.rows@,
                is_log(log_id),
                not_undoable(),
            ),
            final(self).things_change_log.next_id == old(self).things_change_log.next_id,
            old(self).well_formed() ==> final(self).well_formed(),
    {
        broadcast use group_keyed;

        let hit = |e: &ThingsChangeLogEntry| -> (b: bool)
            ensures
                b == is_log(log_id)(*e),
            { e.id == log_id };
        let change = |e: &ThingsChangeLogEntry| -> (out: ThingsChangeLogEntry)
            ensures
                out == not_undoable()(*e),
            {
                ThingsChangeLogEntry {
                    id: e.id,
                    device_id: e.device_id.clone(),
                    op_type: e.op_type,
                    entity_type: e.entity_type.clone(),
                    entity_uuid: e.entity_uuid.clone(),
                    summary: e.summary.clone(),
                    details_json: e.details_json.clone(),
                    parent_log_id: e.parent_log_id,
                    cascade_log_ids_json: e.cascade_log_ids_json.clone(),
                    created_at: e.created_at,
                    can_undo: false,
                    synced: e.synced,
                }
            };
        self.things_change_log.update(hit, change, Ghost(is_log(log_id)), Ghost(not_undoable()));
    }

    /// A change by its id.
    pub fn get_things_change_log(&self, log_id: i64) -> (out: Option<ThingsChangeLogEntry>)
        ensures
            out == first_data(self.things_change_log.data(), is_log(log_id)),
    {
        let hit = |e: &ThingsChangeLogEntry| -> (b: bool)
            ensures
                b == is_log(log_id)(*e),
            { e.id == log_id };
        self.things_change_log.first(hit, Ghost(is_log(log_id)))
    }

    /// The changes, the latest first.
    pub fn list_things_change_log(
        &self,
        limit: u32,
        offset: u32,
    ) -> (out: Vec<ThingsChangeLogEntry>)
        ensures
            out@ == page(
                ranked(
                    self.things_change_log.data(),
                    every::<ThingsChangeLogEntry>(),
                    by_log_creation(),
                    true,
                ),
                Some(limit),
                offset,
            ),
    {
        let keep = |e: &ThingsChangeLogEntry| -> (b: bool)
            ensures
                b == every::<ThingsChangeLogEntry>()(*e),
            { true };
        let rank = |e: &ThingsChangeLogEntry| -> (k: Rank)
            ensures
                k == by_log_creation()(*e),
            { (e.created_at, 0) };
        let all = self.things_change_log.select(
            keep,
            rank,
            true,
            Ghost(every::<ThingsChangeLogEntry>()),
            Ghost(by_log_creation()),
        );
        take_page(&all, Some(limit), offset)
    }

    /// The changes of an entity, the latest first.
    pub fn list_things_change_log_for_entity(
        &self,
        entity_type: &str,
        entity_uuid: &str,
        limit: u32,
    ) -> (out: Vec<ThingsChangeLogEntry>)
        ensures
            out@ == page(
                ranked(
                    self.things_change_log.data(),
                    log_of_entity(entity_type@, entity_uuid@),
                    by_log_creation(),
                    true,
                ),
                Some(limit),
                0,
            ),
    {
        let keep = |e: &ThingsChangeLogEntry| -> (b: bool)
            ensures
                b == log_of_entity(entity_type@, entity_uuid@)(*e),
            { same(e.entity_type.as_str(), entity_type)
                && same(e.entity_uuid.as_str(), entity_uuid) };
        let rank = |e: &ThingsChangeLogEntry| -> (k: Rank)
            ensures
                k == by_log_creation()(*e),
            { (e.created_at, 0) };
        let all = self.things_change_log.select(
            keep,
            rank,
            true,
            Ghost(log_of_entity(entity_type@, entity_uuid@)),
            Ghost(by_log_creation()),
        );
        take_page(&all, Some(limit), 0)
    }

    /// The changes that followed from a change, in the order of their ids.
    pub fn get_things_change_log_cascades(
        &self,
        parent_log_id: i64,
    ) -> (out: Vec<ThingsChangeLogEntry>)
        ensures
            out@ == ranked(
                self.things_change_log.data(),
                cascade_of(parent_log_id),
                by_log_id(),
                false,
            ),
    {
        let keep = |e: &ThingsChangeLogEntry| -> (b: bool)
            ensures
                b == cascade_of(parent_log_id)(*e),
            {
                match e.parent_log_id {
                    Some(p) => p == parent_log_id,
                    None => false,
                }
            };
        let rank = |e: &ThingsChangeLogEntry| -> (k: Rank)
            ensures
                k == by_log_id()(*e),
            { (e.id, 0) };
        let all = self.things_change_log.select(
            keep,
            rank,
            false,
            Ghost(cascade_of(parent_log_id)),
            Ghost(by_log_id()),
        );
        all
    }

    /// The latest update of a thing from `cutoff` on.
    pub fn find_thing_update_log_since(
        &self,
        thing_uuid: &str,
        cutoff: i64,
    ) -> (out: Option<ThingsChangeLogEntry>)
        ensures
            out == first_of(
                ranked(
                    self.things_change_log.data(),
                    recent_update_of(thing_uuid@, cutoff as int),
                    by_log_creation(),
                    true,
                ),
            ),
    {
        let keep = |e: &ThingsChangeLogEntry| -> (b: bool)
            ensures
                b == recent_update_of(thing_uuid@, cutoff as int)(*e),
            {
                same(e.entity_type.as_str(), "thing") && same(e.entity_uuid.as_str(), thing_uuid)
                    && matches!(e.op_type, ThingsOperationType::UpdateThing)
                    && e.created_at >= cutoff
            };
        let rank = |e: &ThingsChangeLogEntry| -> (k: Rank)
            ensures
                k == by_log_creation()(*e),
            { (e.created_at, 0) };
        let all = self.things_change_log.select(
            keep,
            rank,
            true,
            Ghost(recent_update_of(thing_uuid@, cutoff as int)),
            Ghost(by_log_creation()),
        );
        first_item(&all)
    }

    /// The latest update of a thing within some seconds before now.
    pub fn find_recent_thing_update_log(
        &self,
        thing_uuid: &str,
        within_seconds: i64,
    ) -> (out: Option<ThingsChangeLogEntry>)
        requires
            -9_223_362_036_854_775_807 <= within_seconds <= 9_223_362_036_854_775_807,
        ensures
            exists|now: i64| #![trigger recent_update_of(thing_uuid@, now - within_seconds)]
                clock_seconds(now) && out == first_of(
                    ranked(
                        self.things_change_log.data(),
                        recent_update_of(thing_uuid@, now - within_seconds),
                        by_log_creation(),
                        true,
                    ),
                ),
    {
        let now: i64 = now_seconds();
        let out = self.find_thing_update_log_since(thing_uuid, now - within_seconds);
        proof {
            let since = recent_update_of(thing_uuid@, now - within_seconds);
            assert(out
                == first_of(ranked(self.things_change_log.data(), since, by_log_creation(), true)));
        }
        out
    }

    /// Notes that a change was undone: it cannot be undone again.
    pub fn mark_things_change_log_undone(&mut self, log_id: i64)
        ensures
            *final(self) == (Storage {
                things_change_log: final(self).things_change_log,
                ..*old(self)
            }),
            final(self).things_change_log.rows@ == rows_updated(
                old(self).things_change_log.rows@,
                is_log(log_id),
                not_undoable(),
            ),
            final(self).things_change_log.next_id == old(self).things_change_log.next_id,
            old(self).well_formed() ==> final(self).well_formed(),
    {
        broadcast use group_keyed;

        let hit = |e: &ThingsChangeLogEntry| -> (b: bool)
            ensures
                b == is_log(log_id)(*e),
            { e.id == log_id };
        let change = |e: &ThingsChangeLogEntry| -> (out: ThingsChangeLogEntry)
            ensures
                out == not_undoable()(*e),
            {
                ThingsChangeLogEntry {
                    id: e.id,
                    device_id: e.device_id.clone(),
                    op_type: e.op_type,
                    entity_type: e.entity_type.clone(),
                    entity_uuid: e.entity_uuid.clone(),
                    summary: e.summary.clone(),
                    details_json: e.details_json.clone(),
                    parent_log_id: e.parent_log_id,
                    cascade_log_ids_json: e.cascade_log_ids_json.clone(),
                    created_at: e.created_at,
                    can_undo: false,
                    synced: e.synced,
                }
            };
        self.things_change_log.update(hit, change, Ghost(is_log(log_id)), Ghost(not_undoable()));
    }

    /// Whether the cut removes a change with an id.
    fn removes_log(&self, id: i64, cutoff: i64) -> (r: bool)
        ensures
            r == removed_log(self.things_change_log.data(), id, cutoff as int),
    {
        let hit = |e: &ThingsChangeLogEntry| -> (b: bool)
            ensures
                b == (|e: ThingsChangeLogEntry| e.id == id && e.created_at < cutoff)(*e),
            { e.id == id && e.created_at < cutoff };
        self.things_change_log.any(
            hit,
            Ghost(|e: ThingsChangeLogEntry| e.id == id && e.created_at < cutoff as int),
        )
    }

    /// Removes the changes before `cutoff` and counts them. Nothing is removed where something
    /// that stays refers to one of them.
    pub fn cleanup_things_change_log_before(
        &mut self,
        cutoff: i64,
    ) -> (out: Result<u64, SdkError>)
        ensures
            out is Err <==> cut_refused(*old(self), cutoff as int),
            out matches Err(e) ==> *final(self) == *old(self) && e@ == (ErrorView::Failure {
                message: "FOREIGN KEY constraint failed"@,
            }),
            out matches Ok(n) ==> *final(self) == (Storage {
                things_change_log: final(self).things_change_log,
                ..*old(self)
            }) && final(self).things_change_log.rows@ == rows_kept(
                old(self).things_change_log.rows@,
                log_from(cutoff as int),
            ) && n == old(self).things_change_log.rows@.len() - final(self).things_change_log.rows@.len(),
            final(self).things_change_log.next_id == old(self).things_change_log.next_id,
            old(self).well_formed() ==> final(self).well_formed(),
    {
        broadcast use group_keyed;

        let store = &*self;
        let ghost log = store.things_change_log.data();
        let hit = |e: &ThingsChangeLogEntry| -> (b: bool)
            ensures
                b == log_orphaned(store.things_change_log.data(), cutoff as int)(*e),
            {
                match e.parent_log_id {
                    Some(p) => e.created_at >= cutoff && store.removes_log(p, cutoff),
                    None => false,
                }
            };
        let left = |s: &ThingsContentSnapshot| -> (b: bool)
            ensures
                b == snapshot_orphaned(store.things_change_log.data(), cutoff as int)(*s),
            {
                match s.change_log_id {
                    Some(id) => store.removes_log(id, cutoff),
                    None => false,
                }
            };
        if store.things_change_log.any(hit, Ghost(log_orphaned(log, cutoff as int)))
            || store.things_content_snapshots.any(left, Ghost(snapshot_orphaned(log, cutoff as int))) {
            return Err(failure("FOREIGN KEY constraint failed"));
        }
        let keep = |e: &ThingsChangeLogEntry| -> (b: bool)
            ensures
                b == log_from(cutoff as int)(*e),
            { e.created_at >= cutoff };
        let removed: usize = self.things_change_log.retain(keep, Ghost(log_from(cutoff as int)));
        Ok(removed as u64)
    }

    /// Removes the changes that are older than some days and counts them.
    pub fn cleanup_things_change_log(
        &mut self,
        older_than_days: i64,
    ) -> (out: Result<u64, SdkError>)
        requires
            -106_751_991_167 <= older_than_days <= 106_751_991_167,
        ensures
            exists|now: i64| clock_seconds(now) && #[trigger] log_cut(
                *old(self),
                *final(self),
                now - 86_400 * older_than_days,
                out,
            ),
            old(self).well_formed() ==> final(self).well_formed(),
    {
        let now: i64 = now_seconds();
        let cutoff: i64 = now - 86_400 * older_than_days;
        let out = self.cleanup_things_change_log_before(cutoff);
        assert(log_cut(*old(self), *self, now - 86_400 * older_than_days, out));
        out
    }

    /// Keeps the content of a thing at the time `now` and returns the id of the snapshot. A
    /// change that is named must be in the log.
    pub fn insert_things_content_snapshot_at(
        &mut self,
        device_id: &str,
        thing_uuid: &str,
        content_json: &str,
        change_log_id: Option<i64>,
        now: i64,
    ) -> (out: Result<i64, SdkError>)
        requires
            old(self).things_content_snapshots.next_id < i64::MAX,
        ensures
            out is Ok <==> log_known(old(self).things_change_log.data(), change_log_id),
            out matches Err(e) ==> *final(self) == *old(self) && e@ == (ErrorView::Failure {
                message: "Failed to insert content snapshot"@,
            }),
            out is Ok ==> *final(self) == (Storage {
                things_content_snapshots: final(self).things_content_snapshots,
                ..*old(self)
            }),
            out matches Ok(id) ==> id == old(self).things_content_snapshots.next_id
                && final(self).things_content_snapshots.next_id == id + 1,
            out is Ok ==> exists|row: ThingsContentSnapshot|
                #[trigger] snapshot_row(
                    row,
                    old(self).things_content_snapshots.next_id,
                    device_id@,
                    thing_uuid@,
                    content_json@,
                    change_log_id,
                    false,
                    now,
                ) && final(self).things_content_snapshots.rows@
                    == old(self).things_content_snapshots.rows@.push(
                    (Row { user_id: None, data: row }),
                ),
            old(self).well_formed() ==> final(self).well_formed(),
    {
        broadcast use group_keyed;

        if let Some(known) = change_log_id {
            if !self.has_log(known) {
                return Err(failure("Failed to insert content snapshot"));
            }
        }
        let id: i64 = self.things_content_snapshots.take_id();
        let row = ThingsContentSnapshot {
            id,
            device_id: owned(device_id),
            thing_uuid: owned(thing_uuid),
            content_json: owned(content_json),
            change_log_id: change_log_id,
            created_at: now,
            synced: false,
        };
        let ghost stored = row;
        self.things_content_snapshots.push(row);
        assert(snapshot_row(
            stored,
            old(self).things_content_snapshots.next_id,
            device_id@,
            thing_uuid@,
            content_json@,
            change_log_id,
            false,
            now,
        ));
        Ok(id)
    }

    /// Keeps the content of a thing now.
    pub fn insert_things_content_snapshot(
        &mut self,
        device_id: &str,
        thing_uuid: &str,
        content_json: &str,
        change_log_id: Option<i64>,
    ) -> (out: Result<i64, SdkError>)
        requires
            old(self).things_content_snapshots.next_id < i64::MAX,
        ensures
            out is Ok <==> log_known(old(self).things_change_log.data(), change_log_id),
            out matches Err(e) ==> *final(self) == *old(self) && e@ == (ErrorView::Failure {
                message: "Failed to insert content snapshot"@,
            }),
            out is Ok ==> *final(self) == (Storage {
                things_content_snapshots: final(self).things_content_snapshots,
                ..*old(self)
            }),
            out matches Ok(id) ==> id == old(self).things_content_snapshots.next_id
                && final(self).things_content_snapshots.next_id == id + 1,
            out is Ok ==> exists|row: ThingsContentSnapshot, now: i64|
                clock_seconds(now) && #[trigger] snapshot_row(
                    row,
                    old(self).things_content_snapshots.next_id,
                    device_id@,
                    thing_uuid@,
                    content_json@,
                    change_log_id,
                    false,
                    now,
                ) && final(self).things_content_snapshots.rows@
                    == old(self).things_content_snapshots.rows@.push(
                    (Row { user_id: None, data: row }),
                ),
            old(self).well_formed() ==> final(self).well_formed(),
    {
        let now: i64 = now_seconds();
        self.insert_things_content_snapshot_at(
            device_id,
            thing_uuid,
            content_json,
            change_log_id,
            now,
        )
    }

    /// The latest snapshot of a thing.
    pub fn get_latest_things_content_snapshot(
        &self,
        thing_uuid: &str,
    ) -> (out: Option<ThingsContentSnapshot>)
        ensures
            out == first_of(
                ranked(
                    self.things_content_snapshots.data(),
                    snapshot_of(thing_uuid@),
                    by_snapshot_creation(),
                    true,
                ),
            ),
    {
        let keep = |s: &ThingsContentSnapshot| -> (b: bool)
            ensures
                b == snapshot_of(thing_uuid@)(*s),
            { same(s.thing_uuid.as_str(), thing_uuid) };
        let rank = |s: &ThingsContentSnapshot| -> (k: Rank)
            ensures
                k == by_snapshot_creation()(*s),
            { (s.created_at, 0) };
        let all = self.things_content_snapshots.select(
            keep,
            rank,
            true,
            Ghost(snapshot_of(thing_uuid@)),
            Ghost(by_snapshot_creation()),
        );
        first_item(&all)
    }

    /// The snapshot that belongs to a change.
    pub fn get_things_content_snapshot_by_log_id(
        &self,
        change_log_id: i64,
    ) -> (out: Option<ThingsContentSnapshot>)
        ensures
            out == first_data(
                self.things_content_snapshots.data(),
                snapshot_for_log(change_log_id),
            ),
    {
        let hit = |s: &ThingsContentSnapshot| -> (b: bool)
            ensures
                b == snapshot_for_log(change_log_id)(*s),
            {
                match s.change_log_id {
                    Some(id) => id == change_log_id,
                    None => false,
                }
            };
        self.things_content_snapshots.first(hit, Ghost(snapshot_for_log(change_log_id)))
    }

    /// The snapshots of a thing, the latest first.
    pub fn list_things_content_snapshots(
        &self,
        thing_uuid: &str,
        limit: u32,
    ) -> (out: Vec<ThingsContentSnapshot>)
        ensures
            out@ == page(
                ranked(
                    self.things_content_snapshots.data(),
                    snapshot_of(thing_uuid@),
                    by_snapshot_creation(),
                    true,
                ),
                Some(limit),
                0,
            ),
    {
        let keep = |s: &ThingsContentSnapshot| -> (b: bool)
            ensures
                b == snapshot_of(thing_uuid@)(*s),
            { same(s.thing_uuid.as_str(), thing_uuid) };
        let rank = |s: &ThingsContentSnapshot| -> (k: Rank)
            ensures
                k == by_snapshot_creation()(*s),
            { (s.created_at, 0) };
        let all = self.things_content_snapshots.select(
            keep,
            rank,
            true,
            Ghost(snapshot_of(thing_uuid@)),
            Ghost(by_snapshot_creation()),
        );
        take_page(&all, Some(limit), 0)
    }

    /// Removes the snapshots before `cutoff` and counts them.
    pub fn cleanup_things_content_snapshots_before(&mut self, cutoff: i64) -> (removed: u64)
        ensures
            snapshots_cut(*old(self), *final(self), cutoff as int, removed),
            old(self).well_formed() ==> final(self).well_formed(),
    {
        broadcast use group_keyed;

        let keep = |s: &ThingsContentSnapshot| -> (b: bool)
            ensures
                b == snapshot_from(cutoff as int)(*s),
            { s.created_at >= cutoff };
        let removed: usize = self.things_content_snapshots.retain(
            keep,
            Ghost(snapshot_from(cutoff as int)),
        );
        removed as u64
    }

    /// Removes the snapshots that are older than some days and counts them.
    pub fn cleanup_things_content_snapshots(&mut self, older_than_days: i64) -> (removed: u64)
        requires
            -106_751_991_167 <= older_than_days <= 106_751_991_167,
        ensures
            exists|now: i64| clock_seconds(now) && #[trigger]
                snapshots_cut(*old(self), *final(self), now - 86_400 * older_than_days, removed),
            old(self).well_formed() ==> final(self).well_formed(),
    {
        let now: i64 = now_seconds();
        let cutoff: i64 = now - 86_400 * older_than_days;
        let removed: u64 = self.cleanup_things_content_snapshots_before(cutoff);
        assert(snapshots_cut(*old(self), *self, now - 86_400 * older_than_days, removed));
        removed
    }

    /// The changes that were not sent yet, the oldest first.
    pub fn get_unsynced_change_logs(&self, limit: u32) -> (out: Vec<ThingsChangeLogEntry>)
        ensures
            out@ == page(
                ranked(self.things_change_log.data(), log_unsynced(), by_log_creation(), false),
                Some(limit),
                0,
            ),
    {
        let keep = |e: &ThingsChangeLogEntry| -> (b: bool)
            ensures
                b == log_unsynced()(*e),
            { !e.synced };
        let rank = |e: &ThingsChangeLogEntry| -> (k: Rank)
            ensures
                k == by_log_creation()(*e),
            { (e.created_at, 0) };
        let all = self.things_change_log.select(
            keep,
            rank,
            false,
            Ghost(log_unsynced()),
            Ghost(by_log_creation()),
        );
        take_page(&all, Some(limit), 0)
    }

    /// Notes that changes were sent.
    pub fn mark_change_logs_synced(&mut self, ids: &Vec<i64>)
        ensures
            *final(self) == (Storage {
                things_change_log: final(self).things_change_log,
                ..*old(self)
            }),
            final(self).things_change_log.rows@ == rows_updated(
                old(self).things_change_log.rows@,
                log_in(ids@),
                log_synced(),
            ),
            final(self).things_change_log.next_id == old(self).things_change_log.next_id,
            old(self).well_formed() ==> final(self).well_formed(),
    {
        broadcast use group_keyed;

        let hit = |e: &ThingsChangeLogEntry| -> (b: bool)
            ensures
                b == log_in(ids@)(*e),
            { holds_id(ids, e.id) };
        let change = |e: &ThingsChangeLogEntry| -> (out: ThingsChangeLogEntry)
            ensures
                out == log_synced()(*e),
            {
                ThingsChangeLogEntry {
                    id: e.id,
                    device_id: e.device_id.clone(),
                    op_type: e.op_type,
                    entity_type: e.entity_type.clone(),
                    entity_uuid: e.entity_uuid.clone(),
                    summary: e.summary.clone(),
                    details_json: e.details_json.clone(),
                    parent_log_id: e.parent_log_id,
                    cascade_log_ids_json: e.cascade_log_ids_json.clone(),
                    created_at: e.created_at,
                    can_undo: e.can_undo,
                    synced: true,
                }
            };
        self.things_change_log.update(hit, change, Ghost(log_in(ids@)), Ghost(log_synced()));
    }

    /// The snapshots that were not sent yet, the oldest first.
    pub fn get_unsynced_content_snapshots(
        &self,
        limit: u32,
    ) -> (out: Vec<ThingsContentSnapshot>)
        ensures
            out@ == page(
                ranked(
                    self.things_content_snapshots.data(),
                    snapshot_unsynced(),
                    by_snapshot_creation(),
                    false,
                ),
                Some(limit),
                0,
            ),
    {
        let keep = |s: &ThingsContentSnapshot| -> (b: bool)
            ensures
                b == snapshot_unsynced()(*s),
            { !s.synced };
        let rank = |s: &ThingsContentSnapshot| -> (k: Rank)
            ensures
                k == by_snapshot_creation()(*s),
            { (s.created_at, 0) };
        let all = self.things_content_snapshots.select(
            keep,
            rank,
            false,
            Ghost(snapshot_unsynced()),
            Ghost(by_snapshot_creation()),
        );
        take_page(&all, Some(limit), 0)
    }

    /// Notes that snapshots were sent.
    pub fn mark_content_snapshots_synced(&mut self, ids: &Vec<i64>)
        ensures
            *final(self) == (Storage {
                things_content_snapshots: final(self).things_content_snapshots,
                ..*old(self)
            }),
            final(self).things_content_snapshots.rows@ == rows_updated(
                old(self).things_content_snapshots.rows@,
                snapshot_in(ids@),
                snapshot_synced(),
            ),
            final(self).things_content_snapshots.next_id
                == old(self).things_content_snapshots.next_id,
            old(self).well_formed() ==> final(self).well_formed(),
    {
        broadcast use group_keyed;

        let hit = |s: &ThingsContentSnapshot| -> (b: bool)
            ensures
                b == snapshot_in(ids@)(*s),
            { holds_id(ids, s.id) };
        let change = |s: &ThingsContentSnapshot| -> (out: ThingsContentSnapshot)
            ensures
                out == snapshot_synced()(*s),
            {
                ThingsContentSnapshot {
                    id: s.id,
                    device_id: s.device_id.clone(),
                    thing_uuid: s.thing_uuid.clone(),
                    content_json: s.content_json.clone(),
                    change_log_id: s.change_log_id,
                    created_at: s.created_at,
                    synced: true,
                }
            };
        self.things_content_snapshots.update(
            hit,
            change,
            Ghost(snapshot_in(ids@)),
            Ghost(snapshot_synced()),
        );
    }

    /// Logs a change that came from the server.
    pub fn insert_synced_change_log(
        &mut self,
        device_id: &str,
        op_type: ThingsOperationType,
        entity_type: &str,
        entity_uuid: &str,
        summary: &str,
        details_json: &str,
        created_at: i64,
    ) -> (id: i64)
        requires
            old(self).things_change_log.next_id < i64::MAX,
        ensures
            *final(self) == (Storage {
                things_change_log: final(self).things_change_log,
                ..*old(self)
            }),
            id == old(self).things_change_log.next_id && final(self).things_change_log.next_id
                == id + 1,
            exists|row: ThingsChangeLogEntry|
                #[trigger] log_entry(
                    row,
                    old(self).things_change_log.next_id,
                    device_id@,
                    op_type,
                    entity_type@,
                    entity_uuid@,
                    summary@,
                    details_json@,
                    None,
                    false,
                    true,
                    created_at,
                ) && final(self).things_change_log.rows@ == old(self).things_change_log.rows@.push(
                    (Row { user_id: None, data: row }),
                ),
            old(self).well_formed() ==> final(self).well_formed(),
    {
        broadcast use group_keyed;

        let id: i64 = self.things_change_log.take_id();
        let row = ThingsChangeLogEntry {
            id,
            device_id: owned(device_id),
            op_type,
            entity_type: owned(entity_type),
            entity_uuid: owned(entity_uuid),
            summary: owned(summary),
            details_json: owned(details_json),
            parent_log_id: None,
            cascade_log_ids_json: None,
            created_at,
            can_undo: false,
            synced: true,
        };
        let ghost stored = row;
        self.things_change_log.push(row);
        assert(log_entry(
            stored,
            old(self).things_change_log.next_id,
            device_id@,
            op_type,
            entity_type@,
            entity_uuid@,
            summary@,
            details_json@,
            None,
            false,
            true,
            created_at,
        ));
        id
    }

    /// Keeps a snapshot that came from the server.
    pub fn insert_synced_content_snapshot(
        &mut self,
        device_id: &str,
        thing_uuid: &str,
        content_json: &str,
        created_at: i64,
    ) -> (id: i64)
        requires
            old(self).things_content_snapshots.next_id < i64::MAX,
        ensures
            *final(self) == (Storage {
                things_content_snapshots: final(self).things_content_snapshots,
                ..*old(self)
            }),
            id == old(self).things_content_snapshots.next_id
                && final(self).things_content_snapshots.next_id
                == id + 1,
            exists|row: ThingsContentSnapshot|
                #[trigger] snapshot_row(
                    row,
                    old(self).things_content_snapshots.next_id,
                    device_id@,
                    thing_uuid@,
                    content_json@,
                    None,
                    true,
                    created_at,
                ) && final(self).things_content_snapshots.rows@
                    == old(self).things_content_snapshots.rows@.push(
                    (Row { user_id: None, data: row }),
                ),
            old(self).well_formed() ==> final(self).well_formed(),
    {
        broadcast use group_keyed;

        let id: i64 = self.things_content_snapshots.take_id();
        let row = ThingsContentSnapshot {
            id,
            device_id: owned(device_id),
            thing_uuid: owned(thing_uuid),
            content_json: owned(content_json),
            change_log_id: None,
            created_at,
            synced: true,
        };
        let ghost stored = row;
        self.things_content_snapshots.push(row);
        assert(snapshot_row(
            stored,
            old(self).things_content_snapshots.next_id,
            device_id@,
            thing_uuid@,
            content_json@,
            None,
            true,
            created_at,
        ));
        id
    }

    /// A known place by its name.
    pub fn get_location_cache(&self, name: &str) -> (out: Option<LocationCacheEntry>)
        ensures
            out == first_data(self.location_cache.data(), is_place(name@)),
    {
        let hit = |l: &LocationCacheEntry| -> (b: bool)
            ensures
                b == is_place(name@)(*l),
            { same(l.name.as_str(), name) };
        self.location_cache.first(hit, Ghost(is_place(name@)))
    }

    /// Writes a place at the time `now`; one that is there keeps the time of its creation.
    /// Returns the id of a new place, or 0.
    pub fn set_location_cache_at(&mut self, entry: &LocationCacheEntry, now: i64) -> (id: i64)
        requires
            old(self).location_cache.next_id < i64::MAX,
        ensures
            *final(self) == (Storage {
                location_cache: final(self).location_cache,
                ..*old(self)
            }),
            final(self).location_cache.rows@ == rows_upserted(
                old(self).location_cache.rows@,
                is_place(entry.name@),
                place_taken_over(stamped_place(*entry, now)),
                stamped_place(*entry, now),
            ),
            any_data(old(self).location_cache.data(), is_place(entry.name@)) ==> id == 0
                && final(self).location_cache.next_id == old(self).location_cache.next_id,
            !any_data(old(self).location_cache.data(), is_place(entry.name@)) ==> id
                == old(self).location_cache.next_id && final(self).location_cache.next_id == id + 1,
            old(self).well_formed() ==> final(self).well_formed(),
    {
        broadcast use group_keyed;

        let row = LocationCacheEntry {
            name: entry.name.clone(),
            is_fuzzy: entry.is_fuzzy,
            latitude: entry.latitude.clone(),
            longitude: entry.longitude.clone(),
            coord_system: entry.coord_system.clone(),
            place_id: entry.place_id.clone(),
            place_type: entry.place_type.clone(),
            formatted_address: entry.formatted_address.clone(),
            created_at: now,
            updated_at: now,
        };
        let new = row.duplicate();
        let held = &row;
        let hit = |l: &LocationCacheEntry| -> (b: bool)
            ensures
                b == is_place(entry.name@)(*l),
            { same(l.name.as_str(), entry.name.as_str()) };
        let known = self.location_cache.any(hit, Ghost(is_place(entry.name@)));
        let id: i64 = if known { 0 } else { self.location_cache.take_id() };
        let hit = |l: &LocationCacheEntry| -> (b: bool)
            ensures
                b == is_place(entry.name@)(*l),
            { same(l.name.as_str(), entry.name.as_str()) };
        let change = |l: &LocationCacheEntry| -> (out: LocationCacheEntry)
            ensures
                out == place_taken_over(*held)(*l),
            {
                LocationCacheEntry {
                    name: l.name.clone(),
                    is_fuzzy: held.is_fuzzy,
                    latitude: held.latitude.clone(),
                    longitude: held.longitude.clone(),
                    coord_system: held.coord_system.clone(),
                    place_id: held.place_id.clone(),
                    place_type: held.place_type.clone(),
                    formatted_address: held.formatted_address.clone(),
                    created_at: l.created_at,
                    updated_at: held.updated_at,
                }
            };
        self.location_cache.upsert(
            hit,
            change,
            new,
            Ghost(is_place(entry.name@)),
            Ghost(place_taken_over(*held)),
        );
        id
    }

    /// Writes a place now.
    pub fn set_location_cache(&mut self, entry: &LocationCacheEntry) -> (id: i64)
        requires
            old(self).location_cache.next_id < i64::MAX,
        ensures
            *final(self) == (Storage {
                location_cache: final(self).location_cache,
                ..*old(self)
            }),
            exists|now: i64|
                clock_seconds(now) && final(self).location_cache.rows@ == #[trigger] rows_upserted(
                    old(self).location_cache.rows@,
                    is_place(entry.name@),
                    place_taken_over(stamped_place(*entry, now)),
                    stamped_place(*entry, now),
                ),
            any_data(old(self).location_cache.data(), is_place(entry.name@)) ==> id == 0
                && final(self).location_cache.next_id == old(self).location_cache.next_id,
            !any_data(old(self).location_cache.data(), is_place(entry.name@)) ==> id
                == old(self).location_cache.next_id && final(self).location_cache.next_id == id + 1,
            old(self).well_formed() ==> final(self).well_formed(),
    {
        let now: i64 = now_seconds();
        self.set_location_cache_at(entry, now)
    }

    /// Forgets a place and says whether it was known.
    pub fn delete_location_cache(&mut self, name: &str) -> (removed: bool)
        ensures
            *final(self) == (Storage {
                location_cache: final(self).location_cache,
                ..*old(self)
            }),
            final(self).location_cache.rows@ == rows_kept(
                old(self).location_cache.rows@,
                other_place(name@),
            ),
            removed == (final(self).location_cache.rows@.len() < old(self).location_cache.rows@.len()),
            final(self).location_cache.next_id == old(self).location_cache.next_id,
            old(self).well_formed() ==> final(self).well_formed(),
    {
        broadcast use group_keyed;

        let keep = |l: &LocationCacheEntry| -> (b: bool)
            ensures
                b == other_place(name@)(*l),
            { !same(l.name.as_str(), name) };
        let gone: usize = self.location_cache.retain(keep, Ghost(other_place(name@)));
        gone > 0
    }

    /// Forgets all places and counts them.
    pub fn clear_location_cache(&mut self) -> (removed: usize)
        ensures
            *final(self) == (Storage {
                location_cache: final(self).location_cache,
                ..*old(self)
            }),
            final(self).location_cache.rows@.len() == 0,
            removed == old(self).location_cache.rows@.len(),
            final(self).location_cache.next_id == old(self).location_cache.next_id,
            old(self).well_formed() ==> final(self).well_formed(),
    {
        broadcast use group_keyed;

        self.location_cache.clear()
    }

    /// The places whose position is exact, in the order of their names.
    pub fn get_all_exact_locations(&self) -> (out: Vec<LocationCacheEntry>)
        ensures
            out@ == by_name(self.location_cache.data().filter(is_exact())),
    {
        let keep = |l: &LocationCacheEntry| -> (b: bool)
            ensures
                b == is_exact()(*l),
            { !l.is_fuzzy };
        let all = self.location_cache.pick(keep, Ghost(is_exact()));
        let mut out: Vec<LocationCacheEntry> = Vec::new();
        let mut i: usize = 0;
        proof {
            assert(all@.take(0) =~= Seq::empty());
        }
        while i < all.len()
            invariant
                i <= all@.len(),
                out@ == by_name(all@.take(i as int)),
            decreases all@.len() - i,
        {
            put_named(&mut out, all[i].duplicate());
            proof {
                assert(all@.take(i + 1).drop_last() =~= all@.take(i as int));
            }
            i = i + 1;
        }
        proof {
            assert(all@.take(i as int) =~= all@);
        }
        out
    }

    /// Writes what the server knows of the actors behind things and collections.
    pub fn upsert_things_actor_meta_batch(&mut self, items: &Vec<ActorMetaEntry>)
        ensures
            *final(self) == (Storage {
                things_actor_meta: final(self).things_actor_meta,
                ..*old(self)
            }),
            final(self).things_actor_meta.rows@ == actors_written(
                old(self).things_actor_meta.rows@,
                items@,
                items@.len() as int,
            ),
            old(self).well_formed() ==> final(self).well_formed(),
    {
        let mut i: usize = 0;
        while i < items.len()
            invariant
                i <= items@.len(),
                *self == (Storage { things_actor_meta: self.things_actor_meta, ..*old(self) }),
                self.things_actor_meta.rows@ == actors_written(
                    old(self).things_actor_meta.rows@,
                    items@,
                    i as int,
                ),
                old(self).well_formed() ==> self.well_formed(),
            decreases items@.len() - i,
        {
            let ghost before = self.things_actor_meta.rows@;
            let item = &items[i];
            let hit = |a: &ActorMetaEntry| -> (b: bool)
                ensures
                    b == is_actor_of(item.uuid@)(*a),
                { same(a.uuid.as_str(), item.uuid.as_str()) };
            let change = |a: &ActorMetaEntry| -> (out: ActorMetaEntry)
                ensures
                    out == actor_taken_over(*item)(*a),
                {
                    ActorMetaEntry {
                        uuid: a.uuid.clone(),
                        is_collection: a.is_collection,
                        actor_type: item.actor_type.clone(),
                        actor_app_id: item.actor_app_id.clone(),
                        actor_display_name: item.actor_display_name.clone(),
                    }
                };
            self.things_actor_meta.upsert(
                hit,
                change,
                item.duplicate(),
                Ghost(is_actor_of(item.uuid@)),
                Ghost(actor_taken_over(*item)),
            );
            proof {
                if old(self).well_formed() {
                    lemma_keyed_upserted(
                        before,
                        is_actor_of(item.uuid@),
                        actor_taken_over(*item),
                        *item,
                        actor_key(),
                    );
                }
            }
            i = i + 1;
        }
    }

    /// The actors that are kept, one for each entity.
    pub fn load_things_actor_meta_map(&self) -> (out: Vec<ActorMetaEntry>)
        ensures
            out@ == self.things_actor_meta.data(),
    {
        let mut out: Vec<ActorMetaEntry> = Vec::new();
        let mut i: usize = 0;
        while i < self.things_actor_meta.rows.len()
            invariant
                i <= self.things_actor_meta.rows@.len(),
                out@ == self.things_actor_meta.data().take(i as int),
            decreases self.things_actor_meta.rows@.len() - i,
        {
            out.push(self.things_actor_meta.rows[i].data.duplicate());
            proof {
                assert(out@ =~= self.things_actor_meta.data().take(i + 1));
            }
            i = i + 1;
        }
        proof {
            assert(self.things_actor_meta.data().take(i as int) =~= self.things_actor_meta.data());
        }
        out
    }
}

} // verus!
