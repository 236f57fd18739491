//! What the documents of things show: snapshots, the tree, and which documents are
//! still reachable.
use crate::clock::{
    parse_domain_datetime_or_unix_epoch, read_rfc3339, rfc3339_time, time_or_epoch, DomainTime,
};
use crate::content_registry::{
    entry_json, entry_views, ContentEntry, ContentTypeRegistry, EntryView,
};
use crate::json::{
    entries_view, entry, json_opt_view, list_view, opt_text_json, opt_view, Json, JsonView,
};
use crate::text::{before, owned, text_less, views};
use crate::things_content::content_of;
use crate::things_docs::{
    block_views, content_opt_view, copy_content_entries, thing_views, Block, BlockView, CollView,
    CollectionDoc, Content, ContentView, SetView, ThingDoc, ThingDocView, ThingsDocumentSet,
};
use crate::things_types::{
    collection_entry_views, collection_type_of, thing_entry_views, CollectionEntryView,
    CollectionType, SnapshotOptions, ThingCollectionEntry, ThingEntry, ThingEntryView,
    ThingsSnapshot,
};
use crate::timestamps::{
    attr_text, attrs_shown, attrs_string, created_of, extract_collection_card_jsx,
    extract_entity_timestamps, strip_internal_timestamp_attrs, updated_of,
};
use vstd::prelude::*;

verus! {

/// Collections in the order of their ids with one more put in.
pub open spec fn insert_coll(s: Seq<CollView>, c: CollView) -> Seq<CollView>
    decreases s.len(),
{
    if s.len() == 0 || !text_less(c.id, s.last().id) {
        s.push(c)
    } else {
        insert_coll(s.drop_last(), c).push(s.last())
    }
}

/// The collections that are not deleted, in the order of their ids.
pub open spec fn live_colls(colls: Seq<CollView>) -> Seq<CollView>
    decreases colls.len(),
{
    if colls.len() == 0 {
        Seq::empty()
    } else if colls.last().deleted {
        live_colls(colls.drop_last())
    } else {
        insert_coll(live_colls(colls.drop_last()), colls.last())
    }
}

/// The things that are not deleted, in their order.
pub open spec fn live_things(things: Seq<ThingDocView>) -> Seq<ThingDocView> {
    things.filter(|t: ThingDocView| !t.deleted)
}

/// A point in time among the attributes.
pub open spec fn attr_time(attrs: Option<JsonView>, key: Seq<char>) -> Option<DomainTime> {
    match attr_text(attrs, key) {
        Some(t) => rfc3339_time(t),
        None => None,
    }
}

pub open spec fn time_text(t: Option<Seq<char>>) -> Seq<char> {
    match t {
        Some(t) => t,
        None => ""@,
    }
}

/// A collection as a snapshot shows it.
pub open spec fn collection_entry(c: CollView) -> CollectionEntryView {
    CollectionEntryView {
        uuid: c.id,
        title: c.title,
        collection_type: collection_type_of(attr_text(c.attrs, "collection_type"@)),
        app_id: attr_text(c.attrs, "app_id"@),
        archived_at: attr_time(c.attrs, "archived_at"@),
        card_jsx: attr_text(c.attrs, "card_jsx"@),
        created_at: time_or_epoch(time_text(created_of(c.attrs))),
        updated_at: time_or_epoch(time_text(updated_of(c.attrs))),
        actor_type: None,
        actor_app_id: None,
        actor_display_name: None,
    }
}

pub open spec fn block_json(b: BlockView) -> JsonView {
    JsonView::Object(
        seq![
            ("attrs_json"@, opt_text_json(b.attrs_json)),
            ("id"@, JsonView::Text(b.id)),
            ("text"@, opt_text_json(b.text)),
            ("type"@, JsonView::Text(b.kind)),
        ],
    )
}

/// The JSON form of what a content document holds.
pub open spec fn content_json(content: Option<ContentView>) -> JsonView {
    match content {
        None => JsonView::Null,
        Some(ContentView::Blocks(blocks)) => JsonView::Object(
            seq![
                ("blocks"@, JsonView::List(blocks.map_values(|b: BlockView| block_json(b)))),
                ("payload"@, JsonView::Null),
            ],
        ),
        Some(ContentView::Payload(j)) => JsonView::Object(
            seq![("blocks"@, JsonView::Null), ("payload"@, j)],
        ),
    }
}

/// The JSON form of the fields that every thing has.
pub open spec fn built_in_json(t: ThingDocView) -> JsonView {
    let entries = if t.entries.len() == 0 {
        Seq::empty()
    } else {
        seq![
            (
                "content_entries"@,
                JsonView::List(t.entries.map_values(|e: EntryView| entry_json(e))),
            ),
        ]
    };
    JsonView::Object(
        match t.extra {
            Some(extra) => entries.push(("extra"@, extra)),
            None => entries,
        },
    )
}

pub open spec fn null_or(j: Option<JsonView>) -> JsonView {
    match j {
        Some(j) => j,
        None => JsonView::Null,
    }
}

/// The data of a thing as a snapshot shows it.
pub open spec fn thing_data(
    t: ThingDocView,
    content: Option<ContentView>,
    include_content: bool,
) -> JsonView {
    let first = seq![("attrs"@, null_or(attrs_shown(t.attrs))), ("built_in"@, built_in_json(t))];
    let second = if include_content {
        first.push(("content"@, content_json(content)))
    } else {
        first
    };
    JsonView::Object(
        second.push(("datatype"@, JsonView::Text(t.datatype))).push(
            ("status"@, JsonView::Text(t.status)),
        ),
    )
}

/// A thing as a snapshot shows it.
pub open spec fn thing_entry(
    set: SetView,
    collection: Seq<char>,
    t: ThingDocView,
    options: SnapshotOptions,
) -> ThingEntryView {
    ThingEntryView {
        uuid: t.id,
        title: time_text(t.title),
        datatype: t.datatype,
        data: thing_data(t, content_of(set, t.id), options.include_content),
        collection_uuid: collection,
        parent_uuid: t.parent_id,
        archived_at: attr_time(t.attrs, "archived_at"@),
        archived_from_collection_uuid: attr_text(t.attrs, "archived_from_collection_uuid"@),
        created_at: time_or_epoch(time_text(created_of(t.attrs))),
        updated_at: time_or_epoch(time_text(updated_of(t.attrs))),
        status: t.status,
        status_timestamp_ms: t.status_timestamp_ms,
        actor_type: None,
        actor_app_id: None,
        actor_display_name: None,
    }
}

/// The things of one collection as a snapshot shows them.
pub open spec fn coll_thing_entries(
    set: SetView,
    c: CollView,
    options: SnapshotOptions,
) -> Seq<ThingEntryView> {
    live_things(c.things).map_values(|t: ThingDocView| thing_entry(set, c.id, t, options))
}

/// The things of several collections as a snapshot shows them.
pub open spec fn all_thing_entries(
    set: SetView,
    colls: Seq<CollView>,
    options: SnapshotOptions,
) -> Seq<ThingEntryView>
    decreases colls.len(),
{
    if colls.len() == 0 {
        Seq::empty()
    } else {
        all_thing_entries(set, colls.drop_last(), options) + coll_thing_entries(
            set,
            colls.last(),
            options,
        )
    }
}

/// The collections of a snapshot.
pub open spec fn snapshot_collections(set: SetView) -> Seq<CollectionEntryView> {
    live_colls(set.collections).map_values(|c: CollView| collection_entry(c))
}

/// The things of a snapshot.
pub open spec fn snapshot_things(set: SetView, options: SnapshotOptions) -> Seq<ThingEntryView> {
    all_thing_entries(set, live_colls(set.collections), options)
}

/// A collection in the tree.
#[derive(Debug)]
pub struct TreeCollectionData {
    pub uuid: String,
    pub title: String,
}

/// A thing in the tree.
#[derive(Debug)]
pub struct TreeThingData {
    pub uuid: String,
    pub title: String,
    pub status: String,
    pub collection_uuid: String,
    pub parent_uuid: Option<String>,
    pub entries: Vec<ContentEntry>,
}

/// A thing in the tree, over character sequences.
pub struct TreeThingView {
    pub uuid: Seq<char>,
    pub title: Seq<char>,
    pub status: Seq<char>,
    pub collection_uuid: Seq<char>,
    pub parent_uuid: Option<Seq<char>>,
    pub entries: Seq<EntryView>,
}

impl View for TreeThingData {
    type V = TreeThingView;

    open spec fn view(&self) -> TreeThingView {
        TreeThingView {
            uuid: self.uuid@,
            title: self.title@,
            status: self.status@,
            collection_uuid: self.collection_uuid@,
            parent_uuid: opt_view(self.parent_uuid),
            entries: entry_views(self.entries@),
        }
    }
}

/// A collection in the tree, over character sequences.
pub struct TreeCollectionView {
    pub uuid: Seq<char>,
    pub title: Seq<char>,
}

impl View for TreeCollectionData {
    type V = TreeCollectionView;

    open spec fn view(&self) -> TreeCollectionView {
        TreeCollectionView { uuid: self.uuid@, title: self.title@ }
    }
}

/// Everything that the tree shows.
#[derive(Debug)]
pub struct ThingsTreeData {
    pub collections: Vec<TreeCollectionData>,
    pub things: Vec<TreeThingData>,
}

pub open spec fn tree_coll_views(list: Seq<TreeCollectionData>) -> Seq<TreeCollectionView> {
    list.map_values(|c: TreeCollectionData| c@)
}

pub open spec fn tree_thing_views(list: Seq<TreeThingData>) -> Seq<TreeThingView> {
    list.map_values(|t: TreeThingData| t@)
}

pub open spec fn tree_thing(collection: Seq<char>, t: ThingDocView) -> TreeThingView {
    TreeThingView {
        uuid: t.id,
        title: time_text(t.title),
        status: t.status,
        collection_uuid: collection,
        parent_uuid: t.parent_id,
        entries: t.entries,
    }
}

pub open spec fn coll_tree_things(c: CollView) -> Seq<TreeThingView> {
    live_things(c.things).map_values(|t: ThingDocView| tree_thing(c.id, t))
}

pub open spec fn all_tree_things(colls: Seq<CollView>) -> Seq<TreeThingView>
    decreases colls.len(),
{
    if colls.len() == 0 {
        Seq::empty()
    } else {
        all_tree_things(colls.drop_last()) + coll_tree_things(colls.last())
    }
}

/// The collections of the tree.
pub open spec fn tree_collections(set: SetView) -> Seq<TreeCollectionView> {
    live_colls(set.collections).map_values(
        |c: CollView| TreeCollectionView { uuid: c.id, title: c.title },
    )
}

/// The things of the tree.
pub open spec fn tree_things(set: SetView) -> Seq<TreeThingView> {
    all_tree_things(live_colls(set.collections))
}

pub open spec fn ids_of(colls: Seq<CollView>) -> Seq<Seq<char>> {
    colls.map_values(|c: CollView| c.id)
}

pub open spec fn thing_ids(things: Seq<ThingDocView>) -> Seq<Seq<char>> {
    live_things(things).map_values(|t: ThingDocView| t.id)
}

/// The ids of the things that can be reached through collections.
pub open spec fn all_thing_ids(colls: Seq<CollView>) -> Seq<Seq<char>>
    decreases colls.len(),
{
    if colls.len() == 0 {
        Seq::empty()
    } else {
        all_thing_ids(colls.drop_last()) + thing_ids(colls.last().things)
    }
}

/// The collections at the given places.
pub open spec fn colls_at(colls: Seq<CollView>, places: Seq<usize>) -> Seq<CollView> {
    places.map_values(|p: usize| colls[p as int])
}

proof fn lemma_insert_coll_at(s: Seq<CollView>, c: CollView, at: int)
    requires
        0 <= at <= s.len(),
        at > 0 ==> !text_less(c.id, s[at - 1].id),
        forall|k: int| at <= k < s.len() ==> text_less(c.id, (#[trigger] s[k]).id),
    ensures
        insert_coll(s, c) == s.insert(at, c),
    decreases s.len(),
{
    if at < s.len() {
        assert(text_less(c.id, s[s.len() - 1].id));
        lemma_insert_coll_at(s.drop_last(), c, at);
        assert(s.drop_last().insert(at, c).push(s.last()) =~= s.insert(at, c));
    } else {
        assert(s.push(c) =~= s.insert(at, c));
    }
}

/// Whether collections stand in the order of their ids.
pub open spec fn in_id_order(colls: Seq<CollView>) -> bool {
    forall|i: int, j: int|
        0 <= i < j < colls.len() ==> !text_less((#[trigger] colls[j]).id, (#[trigger] colls[i]).id)
}

proof fn lemma_insert_coll_order(s: Seq<CollView>, c: CollView)
    requires
        in_id_order(s),
    ensures
        in_id_order(insert_coll(s, c)),
        forall|x: CollView| #[trigger] insert_coll(s, c).contains(x) <==> x == c || s.contains(x),
    decreases s.len(),
{
    let out = insert_coll(s, c);
    if s.len() == 0 || !text_less(c.id, s.last().id) {
        assert forall|i: int, j: int| 0 <= i < j < out.len() implies !text_less(
            (#[trigger] out[j]).id,
            (#[trigger] out[i]).id,
        ) by {
            if j == s.len() && i < s.len() - 1 {
                assert(!text_less(s[s.len() - 1].id, s[i].id));
                if text_less(c.id, s[i].id) {
                    crate::text::lemma_text_order(s[i].id, s.last().id);
                    if text_less(s[i].id, s.last().id) {
                        crate::text::lemma_text_order_transitive(c.id, s[i].id, s.last().id);
                    }
                }
            }
        }
        assert forall|x: CollView| #[trigger] out.contains(x) <==> x == c || s.contains(x) by {
            if out.contains(x) {
                let i = choose|i: int| 0 <= i < out.len() && out[i] == x;
                if i < s.len() {
                    assert(s[i] == x);
                }
            }
            if s.contains(x) {
                let i = choose|i: int| 0 <= i < s.len() && s[i] == x;
                assert(out[i] == x);
            }
            assert(out[s.len() as int] == c);
        }
    } else {
        let front = s.drop_last();
        lemma_insert_coll_order(front, c);
        let inner = insert_coll(front, c);
        assert(front.push(s.last()) =~= s);
        assert forall|i: int, j: int| 0 <= i < j < out.len() implies !text_less(
            (#[trigger] out[j]).id,
            (#[trigger] out[i]).id,
        ) by {
            if j == inner.len() {
                assert(inner.contains(inner[i]));
                if inner[i] == c {
                    crate::text::lemma_text_order(c.id, s.last().id);
                } else {
                    let k = choose|k: int| 0 <= k < front.len() && front[k] == inner[i];
                    assert(!text_less(s[s.len() - 1].id, s[k].id));
                }
            } else {
                assert(out[j] == inner[j] && out[i] == inner[i]);
            }
        }
        assert forall|x: CollView| #[trigger] out.contains(x) <==> x == c || s.contains(x) by {
            if out.contains(x) {
                let i = choose|i: int| 0 <= i < out.len() && out[i] == x;
                if i < inner.len() {
                    assert(inner.contains(x));
                    if x != c {
                        let k = choose|k: int| 0 <= k < front.len() && front[k] == x;
                        assert(s[k] == x);
                    }
                } else {
                    assert(s[s.len() - 1] == x);
                }
            }
            if x == c || s.contains(x) {
                if x != c && !front.contains(x) {
                    let k = choose|k: int| 0 <= k < s.len() && s[k] == x;
                    assert(k == s.len() - 1) by {
                        if k < s.len() - 1 {
                            assert(front[k] == x);
                        }
                    }
                    assert(out[inner.len() as int] == x);
                } else {
                    assert(inner.contains(x));
                    let k = choose|k: int| 0 <= k < inner.len() && inner[k] == x;
                    assert(out[k] == x);
                }
            }
        }
    }
}

/// A snapshot shows exactly the collections that are not deleted, in the order of their
/// ids.
pub proof fn law_live_collections(colls: Seq<CollView>)
    ensures
        in_id_order(live_colls(colls)),
        forall|c: CollView|
            #[trigger] live_colls(colls).contains(c) <==> colls.contains(c) && !c.deleted,
    decreases colls.len(),
{
    if colls.len() > 0 {
        let front = colls.drop_last();
        law_live_collections(front);
        if !colls.last().deleted {
            lemma_insert_coll_order(live_colls(front), colls.last());
        }
        assert forall|c: CollView| #[trigger] live_colls(colls).contains(c) <==> colls.contains(c)
            && !c.deleted by {
            if colls.contains(c) {
                let i = choose|i: int| 0 <= i < colls.len() && colls[i] == c;
                if i < front.len() {
                    assert(front[i] == c);
                }
            }
            if front.contains(c) {
                let i = choose|i: int| 0 <= i < front.len() && front[i] == c;
                assert(colls[i] == c);
            }
            assert(colls[colls.len() - 1] == colls.last());
            assert(live_colls(front).contains(c) <==> front.contains(c) && !c.deleted);
        }
    }
}

impl ThingsDocumentSet {
    /// The places of the collections that are not deleted, in the order of their ids.
    fn live_places(&self) -> (places: Vec<usize>)
        ensures
            colls_at(self@.collections, places@) == live_colls(self@.collections),
            forall|i: int|
                0 <= i < places@.len() ==> #[trigger] places@[i] < self.collections@.len(),
    {
        let ghost all = self@.collections;
        let mut places: Vec<usize> = Vec::new();
        let mut i: usize = 0;
        proof {
            assert(colls_at(all, places@) =~= live_colls(all.take(0)));
        }
        while i < self.collections.len()
            invariant
                i <= self.collections@.len(),
                all == self@.collections,
                colls_at(all, places@) == live_colls(all.take(i as int)),
                forall|k: int|
                    0 <= k < places@.len() ==> #[trigger] places@[k] < self.collections@.len(),
            decreases self.collections@.len() - i,
        {
            proof {
                assert(all.take(i + 1).drop_last() =~= all.take(i as int));
                assert(all.take(i + 1).last() == all[i as int]);
            }
            if !self.collections[i].deleted {
                let ghost sorted = colls_at(all, places@);
                let mut at: usize = places.len();
                while at > 0 && before(
                    self.collections[i].id.as_str(),
                    self.collections[places[at - 1]].id.as_str(),
                )
                    invariant
                        i < self.collections@.len(),
                        at <= places@.len(),
                        all == self@.collections,
                        sorted == colls_at(all, places@),
                        forall|k: int|
                            0 <= k < places@.len() ==> #[trigger] places@[k]
                                < self.collections@.len(),
                        forall|k: int|
                            at <= k < sorted.len() ==> text_less(
                                all[i as int].id,
                                (#[trigger] sorted[k]).id,
                            ),
                    ensures
                        at > 0 ==> !text_less(all[i as int].id, sorted[at - 1].id),
                    decreases at,
                {
                    at = at - 1;
                    proof {
                        assert(sorted[at as int] == all[places@[at as int] as int]);
                    }
                }
                proof {
                    lemma_insert_coll_at(sorted, all[i as int], at as int);
                    assert(colls_at(all, places@.insert(at as int, i)) =~= sorted.insert(
                        at as int,
                        all[i as int],
                    ));
                }
                places.insert(at, i);
            }
            i = i + 1;
        }
        proof {
            assert(all.take(i as int) =~= all);
        }
        places
    }

    /// The ids of the collections that are not deleted.
    pub fn active_collection_uuids(&self) -> (ids: Vec<String>)
        ensures
            views(ids@) == ids_of(live_colls(self@.collections)),
    {
        let places = self.live_places();
        let mut ids: Vec<String> = Vec::new();
        let mut i: usize = 0;
        while i < places.len()
            invariant
                i <= places@.len(),
                ids@.len() == i,
                forall|k: int|
                    0 <= k < places@.len() ==> #[trigger] places@[k] < self.collections@.len(),
                forall|k: int|
                    0 <= k < i ==> (#[trigger] ids@[k])@ == self@.collections[places@[k] as int].id,
            decreases places@.len() - i,
        {
            ids.push(self.collections[places[i]].id.clone());
            i = i + 1;
        }
        proof {
            let live = live_colls(self@.collections);
            assert(live.len() == places@.len());
            assert forall|k: int| 0 <= k < ids@.len() implies #[trigger] views(ids@)[k] == ids_of(
                live,
            )[k] by {
                assert(colls_at(self@.collections, places@)[k]
                    == self@.collections[places@[k] as int]);
            }
            assert(views(ids@) =~= ids_of(live));
        }
        ids
    }

    /// The ids of the things that can still be reached.
    pub fn active_thing_uuids(&self) -> (ids: Vec<String>)
        ensures
            views(ids@) == all_thing_ids(live_colls(self@.collections)),
    {
        let places = self.live_places();
        let ghost live = live_colls(self@.collections);
        let mut ids: Vec<String> = Vec::new();
        let mut i: usize = 0;
        proof {
            assert(views(ids@) =~= all_thing_ids(live.take(0)));
        }
        while i < places.len()
            invariant
                i <= places@.len(),
                live == live_colls(self@.collections),
                live == colls_at(self@.collections, places@),
                forall|k: int|
                    0 <= k < places@.len() ==> #[trigger] places@[k] < self.collections@.len(),
                views(ids@) == all_thing_ids(live.take(i as int)),
            decreases places@.len() - i,
        {
            let things = &self.collections[places[i]].things;
            let ghost all = thing_views(things@);
            let ghost so_far = views(ids@);
            proof {
                assert(live.take(i + 1).drop_last() =~= live.take(i as int));
                assert(live.take(i + 1).last() == live[i as int]);
                assert(live[i as int].things == all);
                assert(thing_ids(all.take(0)) =~= Seq::<Seq<char>>::empty()) by {
                    reveal(Seq::filter);
                }
                assert(so_far + Seq::<Seq<char>>::empty() =~= so_far);
            }
            let mut k: usize = 0;
            while k < things.len()
                invariant
                    k <= things@.len(),
                    all == thing_views(things@),
                    views(ids@) == so_far + thing_ids(all.take(k as int)),
                decreases things@.len() - k,
            {
                proof {
                    lemma_live_snoc(all, k as int);
                }
                if !things[k].deleted {
                    let id = things[k].id.clone();
                    proof {
                        assert(views(ids@.push(id)) =~= views(ids@).push(id@));
                        assert((so_far + thing_ids(all.take(k as int))).push(id@) =~= so_far
                            + thing_ids(all.take(k as int)).push(id@));
                        assert(thing_ids(all.take(k + 1)) =~= thing_ids(all.take(k as int)).push(
                            id@,
                        ));
                    }
                    ids.push(id);
                }
                k = k + 1;
            }
            proof {
                assert(all.take(k as int) =~= all);
            }
            i = i + 1;
        }
        proof {
            assert(live.take(i as int) =~= live);
        }
        ids
    }

    /// A snapshot of what is not deleted.
    pub fn extract_snapshot_with_options(&self, options: SnapshotOptions) -> (s: ThingsSnapshot)
        ensures
            collection_entry_views(s.collections@) == snapshot_collections(self@),
            thing_entry_views(s.things@) == snapshot_things(self@, options),
    {
        let places = self.live_places();
        let ghost live = live_colls(self@.collections);
        let mut collections: Vec<ThingCollectionEntry> = Vec::new();
        let mut things: Vec<ThingEntry> = Vec::new();
        let mut i: usize = 0;
        proof {
            assert(thing_entry_views(things@) =~= all_thing_entries(self@, live.take(0), options));
        }
        while i < places.len()
            invariant
                i <= places@.len(),
                live == live_colls(self@.collections),
                live == colls_at(self@.collections, places@),
                forall|k: int|
                    0 <= k < places@.len() ==> #[trigger] places@[k] < self.collections@.len(),
                collections@.len() == i,
                forall|k: int|
                    0 <= k < i ==> (#[trigger] collections@[k])@ == collection_entry(live[k]),
                thing_entry_views(things@) == all_thing_entries(
                    self@,
                    live.take(i as int),
                    options,
                ),
            decreases places@.len() - i,
        {
            let c = &self.collections[places[i]];
            proof {
                assert(live.take(i + 1).drop_last() =~= live.take(i as int));
                assert(live.take(i + 1).last() == live[i as int]);
                assert(live[i as int] == c@);
            }
            collections.push(show_collection(c));
            let ghost so_far = thing_entry_views(things@);
            let mut shown = self.show_things(c, options);
            proof {
                assert(thing_entry_views(things@ + shown@) =~= so_far + thing_entry_views(shown@));
            }
            things.append(&mut shown);
            i = i + 1;
        }
        proof {
            assert(live.take(i as int) =~= live);
            assert(collection_entry_views(collections@) =~= snapshot_collections(self@));
        }
        ThingsSnapshot { collections, things }
    }

    /// A snapshot with the content of things.
    pub fn extract_snapshot(&self) -> (s: ThingsSnapshot)
        ensures
            collection_entry_views(s.collections@) == snapshot_collections(self@),
            thing_entry_views(s.things@) == snapshot_things(
                self@,
                (SnapshotOptions { include_content: true }),
            ),
    {
        self.extract_snapshot_with_options(SnapshotOptions { include_content: true })
    }

    fn show_things(&self, c: &CollectionDoc, options: SnapshotOptions) -> (out: Vec<ThingEntry>)
        ensures
            thing_entry_views(out@) == coll_thing_entries(self@, c@, options),
    {
        let ghost all = thing_views(c.things@);
        let ghost show = |t: ThingDocView| thing_entry(self@, c@.id, t, options);
        let mut out: Vec<ThingEntry> = Vec::new();
        let mut k: usize = 0;
        proof {
            reveal(Seq::filter);
            assert(live_things(all.take(0)) =~= Seq::<ThingDocView>::empty());
            assert(thing_entry_views(out@) =~= live_things(all.take(0)).map_values(show));
        }
        while k < c.things.len()
            invariant
                k <= c.things@.len(),
                all == thing_views(c.things@),
                show == (|t: ThingDocView| thing_entry(self@, c@.id, t, options)),
                thing_entry_views(out@) == live_things(all.take(k as int)).map_values(show),
            decreases c.things@.len() - k,
        {
            proof {
                lemma_live_snoc(all, k as int);
            }
            if !c.things[k].deleted {
                let t = &c.things[k];
                let times = extract_entity_timestamps(&t.attrs);
                let shown = ThingEntry {
                    uuid: t.id.clone(),
                    title: text_or_empty(&t.title),
                    datatype: t.datatype.duplicate_datatype(),
                    data: self.show_thing_data(t, options),
                    collection_uuid: c.id.clone(),
                    parent_uuid: t.parent_id.clone(),
                    archived_at: attrs_time(&t.attrs, "archived_at"),
                    archived_from_collection_uuid: attrs_string(
                        &t.attrs,
                        "archived_from_collection_uuid",
                    ),
                    created_at: parse_domain_datetime_or_unix_epoch(
                        text_or_empty(&times.created_at).as_str(),
                    ),
                    updated_at: parse_domain_datetime_or_unix_epoch(
                        text_or_empty(&times.updated_at).as_str(),
                    ),
                    status: t.status.clone(),
                    status_timestamp_ms: t.status_timestamp_ms,
                    actor_type: None,
                    actor_app_id: None,
                    actor_display_name: None,
                };
                let ghost so_far = live_things(all.take(k as int));
                proof {
                    assert(shown@ == show(all[k as int]));
                    assert(thing_entry_views(out@.push(shown)) =~= thing_entry_views(out@).push(
                        shown@,
                    ));
                    assert(so_far.push(all[k as int]).map_values(show) =~= so_far.map_values(
                        show,
                    ).push(show(all[k as int])));
                }
                out.push(shown);
            }
            k = k + 1;
        }
        proof {
            assert(all.take(k as int) =~= all);
        }
        out
    }

    fn show_thing_data(&self, t: &ThingDoc, options: SnapshotOptions) -> (j: Json)
        ensures
            j@ == thing_data(t@, content_of(self@, t@.id), options.include_content),
    {
        let at: usize = self.find_content(t.id.as_str());
        let none: Option<Content> = None;
        let content = if at < self.contents.len() {
            &self.contents[at].content
        } else {
            &none
        };
        ContentTypeRegistry::new().serialize_thing_snapshot_data(t, content, options)
    }

    /// The tree of collections and things that are not deleted.
    pub fn extract_tree_data(&self) -> (tree: ThingsTreeData)
        ensures
            tree_coll_views(tree.collections@) == tree_collections(self@),
            tree_thing_views(tree.things@) == tree_things(self@),
    {
        let places = self.live_places();
        let ghost live = live_colls(self@.collections);
        let mut collections: Vec<TreeCollectionData> = Vec::new();
        let mut things: Vec<TreeThingData> = Vec::new();
        let mut i: usize = 0;
        proof {
            assert(tree_thing_views(things@) =~= all_tree_things(live.take(0)));
        }
        while i < places.len()
            invariant
                i <= places@.len(),
                live == live_colls(self@.collections),
                live == colls_at(self@.collections, places@),
                forall|k: int|
                    0 <= k < places@.len() ==> #[trigger] places@[k] < self.collections@.len(),
                collections@.len() == i,
                forall|k: int|
                    0 <= k < i ==> (#[trigger] collections@[k])@ == (TreeCollectionView {
                        uuid: live[k].id,
                        title: live[k].title,
                    }),
                tree_thing_views(things@) == all_tree_things(live.take(i as int)),
            decreases places@.len() - i,
        {
            let c = &self.collections[places[i]];
            proof {
                assert(live.take(i + 1).drop_last() =~= live.take(i as int));
                assert(live.take(i + 1).last() == live[i as int]);
                assert(live[i as int] == c@);
            }
            collections.push(TreeCollectionData { uuid: c.id.clone(), title: c.title.clone() });
            let ghost so_far = tree_thing_views(things@);
            let mut shown = show_tree_things(c);
            proof {
                assert(tree_thing_views(things@ + shown@) =~= so_far + tree_thing_views(shown@));
            }
            things.append(&mut shown);
            i = i + 1;
        }
        proof {
            assert(live.take(i as int) =~= live);
            assert(tree_coll_views(collections@) =~= tree_collections(self@));
        }
        ThingsTreeData { collections, things }
    }
}

proof fn lemma_live_snoc(things: Seq<ThingDocView>, k: int)
    requires
        0 <= k < things.len(),
    ensures
        live_things(things.take(k + 1)) == if things[k].deleted {
            live_things(things.take(k))
        } else {
            live_things(things.take(k)).push(things[k])
        },
{
    reveal(Seq::filter);
    assert(things.take(k + 1).drop_last() =~= things.take(k));
    assert(things.take(k + 1).last() == things[k]);
}

fn text_or_empty(s: &Option<String>) -> (out: String)
    ensures
        out@ == time_text(opt_view(*s)),
{
    match s {
        Some(s) => s.clone(),
        None => owned(""),
    }
}

fn attrs_time(attrs: &Option<Json>, key: &str) -> (out: Option<DomainTime>)
    ensures
        out == attr_time(json_opt_view(*attrs), key@),
{
    match attrs_string(attrs, key) {
        Some(t) => read_rfc3339(t.as_str()),
        None => None,
    }
}

fn show_collection(c: &CollectionDoc) -> (e: ThingCollectionEntry)
    ensures
        e@ == collection_entry(c@),
{
    let times = extract_entity_timestamps(&c.attrs);
    ThingCollectionEntry {
        uuid: c.id.clone(),
        title: c.title.clone(),
        collection_type: CollectionType::from_name(&attrs_string(&c.attrs, "collection_type")),
        app_id: attrs_string(&c.attrs, "app_id"),
        archived_at: attrs_time(&c.attrs, "archived_at"),
        card_jsx: extract_collection_card_jsx(&c.attrs),
        created_at: parse_domain_datetime_or_unix_epoch(
            text_or_empty(&times.created_at).as_str(),
        ),
        updated_at: parse_domain_datetime_or_unix_epoch(
            text_or_empty(&times.updated_at).as_str(),
        ),
        actor_type: None,
        actor_app_id: None,
        actor_display_name: None,
    }
}

impl ContentTypeRegistry {
    /// The JSON form of the fields that every thing has.
    pub fn serialize_thing_built_in(&self, thing: &ThingDoc) -> (j: Json)
        ensures
            j@ == built_in_json(thing@),
    {
        let mut entries: Vec<(String, Json)> = Vec::new();
        if thing.entries.len() > 0 {
            entries.push(entry("content_entries", self.serialize_content_entries(&thing.entries)));
        }
        if let Some(extra) = &thing.extra {
            entries.push(entry("extra", extra.duplicate_json()));
        }
        proof {
            assert(entries_view(entries@) =~= built_in_json(thing@)->Object_0);
        }
        Json::object(entries)
    }

    /// The data of a thing as a snapshot shows it, with its content where that is asked for.
    pub fn serialize_thing_snapshot_data(
        &self,
        thing: &ThingDoc,
        content: &Option<Content>,
        options: SnapshotOptions,
    ) -> (j: Json)
        ensures
            j@ == thing_data(thing@, content_opt_view(*content), options.include_content),
    {
        let attrs = match strip_internal_timestamp_attrs(&thing.attrs) {
            Some(attrs) => attrs,
            None => Json::Null,
        };
        let mut entries = vec![
            entry("attrs", attrs),
            entry("built_in", self.serialize_thing_built_in(thing)),
        ];
        if options.include_content {
            entries.push(entry("content", show_content(content)));
        }
        entries.push(entry("datatype", Json::text(thing.datatype.as_str())));
        entries.push(entry("status", Json::text(thing.status.as_str())));
        proof {
            assert(entries_view(entries@) =~= thing_data(
                thing@,
                content_opt_view(*content),
                options.include_content,
            )->Object_0);
        }
        Json::object(entries)
    }
}

fn show_block(b: &Block) -> (j: Json)
    ensures
        j@ == block_json(b@),
{
    let entries = vec![
        entry("attrs_json", Json::opt_text(&b.attrs_json)),
        entry("id", Json::text(b.id.as_str())),
        entry("text", Json::opt_text(&b.text)),
        entry("type", Json::text(b.kind.as_str())),
    ];
    proof {
        assert(entries_view(entries@) =~= block_json(b@)->Object_0);
    }
    Json::object(entries)
}

fn show_content(content: &Option<Content>) -> (j: Json)
    ensures
        j@ == content_json(content_opt_view(*content)),
{
    let ghost form = content_json(content_opt_view(*content));
    match content {
        None => Json::Null,
        Some(Content::Blocks(blocks)) => {
            let mut list: Vec<Json> = Vec::new();
            let mut i: usize = 0;
            while i < blocks.len()
                invariant
                    i <= blocks@.len(),
                    list@.len() == i,
                    forall|k: int| 0 <= k < i ==> (#[trigger] list@[k])@ == block_json(blocks@[k]@),
                decreases blocks@.len() - i,
            {
                list.push(show_block(&blocks[i]));
                i = i + 1;
            }
            proof {
                assert(list_view(list@) =~= block_views(blocks@).map_values(
                    |b: BlockView| block_json(b),
                ));
            }
            let entries = vec![entry("blocks", Json::list(list)), entry("payload", Json::Null)];
            proof {
                assert(entries_view(entries@) =~= form->Object_0);
            }
            Json::object(entries)
        },
        Some(Content::Payload(j)) => {
            let entries = vec![entry("blocks", Json::Null), entry("payload", j.duplicate_json())];
            proof {
                assert(entries_view(entries@) =~= form->Object_0);
            }
            Json::object(entries)
        },
    }
}

fn show_tree_things(c: &CollectionDoc) -> (out: Vec<TreeThingData>)
    ensures
        tree_thing_views(out@) == coll_tree_things(c@),
{
    let ghost all = thing_views(c.things@);
    let ghost show = |t: ThingDocView| tree_thing(c@.id, t);
    let mut out: Vec<TreeThingData> = Vec::new();
    let mut k: usize = 0;
    proof {
        reveal(Seq::filter);
        assert(live_things(all.take(0)) =~= Seq::<ThingDocView>::empty());
        assert(tree_thing_views(out@) =~= live_things(all.take(0)).map_values(show));
    }
    while k < c.things.len()
        invariant
            k <= c.things@.len(),
            all == thing_views(c.things@),
            show == (|t: ThingDocView| tree_thing(c@.id, t)),
            tree_thing_views(out@) == live_things(all.take(k as int)).map_values(show),
        decreases c.things@.len() - k,
    {
        proof {
            lemma_live_snoc(all, k as int);
        }
        if !c.things[k].deleted {
            let t = &c.things[k];
            let shown = TreeThingData {
                uuid: t.id.clone(),
                title: text_or_empty(&t.title),
                status: t.status.clone(),
                collection_uuid: c.id.clone(),
                parent_uuid: t.parent_id.clone(),
                entries: copy_content_entries(&t.entries),
            };
            let ghost so_far = live_things(all.take(k as int));
            proof {
                assert(shown@ == show(all[k as int]));
                assert(tree_thing_views(out@.push(shown)) =~= tree_thing_views(out@).push(shown@));
                assert(so_far.push(all[k as int]).map_values(show) =~= so_far.map_values(
                    show,
                ).push(show(all[k as int])));
            }
            out.push(shown);
        }
        k = k + 1;
    }
    proof {
        assert(all.take(k as int) =~= all);
    }
    out
}

/// The data of a thing by its status, kind, attributes and content.
pub open spec fn view_data(
    status: Seq<char>,
    datatype: Seq<char>,
    attrs: Option<JsonView>,
    content: Option<ContentView>,
    include_content: bool,
) -> JsonView {
    let first = seq![("attrs"@, null_or(attrs))];
    let second = if include_content {
        first.push(("content"@, content_json(content)))
    } else {
        first
    };
    JsonView::Object(
        second.push(("datatype"@, JsonView::Text(datatype))).push(
            ("status"@, JsonView::Text(status)),
        ),
    )
}

/// The data of a thing by its status, kind, attributes and content.
pub fn thing_data_from_view_with_options(
    status: &str,
    datatype: &str,
    attrs: &Option<Json>,
    content: &Option<Content>,
    options: SnapshotOptions,
) -> (j: Json)
    ensures
        j@ == view_data(
            status@,
            datatype@,
            json_opt_view(*attrs),
            content_opt_view(*content),
            options.include_content,
        ),
{
    let shown = match attrs {
        Some(attrs) => attrs.duplicate_json(),
        None => Json::Null,
    };
    let mut entries = vec![entry("attrs", shown)];
    if options.include_content {
        entries.push(entry("content", show_content(content)));
    }
    entries.push(entry("datatype", Json::text(datatype)));
    entries.push(entry("status", Json::text(status)));
    proof {
        assert(entries_view(entries@) =~= view_data(
            status@,
            datatype@,
            json_opt_view(*attrs),
            content_opt_view(*content),
            options.include_content,
        )->Object_0);
    }
    Json::object(entries)
}

/// The data of a thing with its content.
pub fn thing_data_from_view(
    status: &str,
    datatype: &str,
    attrs: &Option<Json>,
    content: &Option<Content>,
) -> (j: Json)
    ensures
        j@ == view_data(
            status@,
            datatype@,
            json_opt_view(*attrs),
            content_opt_view(*content),
            true,
        ),
{
    thing_data_from_view_with_options(status, datatype, attrs, content, SnapshotOptions::default())
}

} // verus!
