//! What is shown and read does not depend on when it is asked for.
use crate::clock::{plain_time, time_written, DomainTime};
use crate::error::ErrorView;
use crate::json::{law_with_entry, law_without_entry, object_entries, JsonView};
use crate::rows::ActorMetaEntry;
use crate::sdk::paths::{cat_answer, located, read_answer};
use crate::sdk::things::shown;
use crate::sdk::RemiSdk;
use crate::table::{lemma_position_is, lemma_position_of};
use crate::text::{text_less, trimmed};
use crate::things_crdt::{
    coll, coll_at, coll_live, coll_written, has_coll, is_coll, kept_attrs, live_coll_attrs,
    stamped_attrs, with_coll, with_root,
};
use crate::things_docs::{CollView, SetView};
use crate::things_laws::law_snapshot_at_any_time;
use crate::things_local::{
    any_coll_attrs, collection_in, default_outcome, meta_attrs, snapshot_result, system_outcome,
    system_outdated, systems_outcome, typed_outcome, SnapshotView,
};
use crate::things_reader::{
    all_thing_entries, coll_thing_entries, insert_coll, live_colls, live_things,
    snapshot_collections, thing_entry,
};
use crate::things_types::{CollectionEntryView, CollectionType, SnapshotOptions};
use crate::timestamps::{
    attrs_with_times, created_of, law_present_is_normal, normal_time, resolved_times, trimmed_text,
    with_text,
};
use crate::virtual_path::PathView;
use vstd::prelude::*;

verus! {

/// Whether two collections differ in nothing but their attributes.
pub open spec fn same_coll(a: CollView, b: CollView) -> bool {
    a == CollView { attrs: a.attrs, ..b }
}

/// Whether two lists of collections differ in nothing but attributes, and not even in those
/// where a collection has the id.
pub open spec fn same_colls(a: Seq<CollView>, b: Seq<CollView>, uuid: Seq<char>) -> bool {
    &&& a.len() == b.len()
    &&& forall|i: int|
        0 <= i < a.len() ==> same_coll(#[trigger] a[i], b[i]) && (a[i].id == uuid ==> a[i] == b[i])
}

/// Whether documents differ in nothing but the attributes of collections, and not even in
/// those of the collection with the id.
pub open spec fn same_documents(a: SetView, b: SetView, uuid: Seq<char>) -> bool {
    &&& a == SetView { collections: a.collections, ..b }
    &&& same_colls(a.collections, b.collections, uuid)
}

proof fn lemma_same_place(a: SetView, b: SetView, uuid: Seq<char>, wanted: Seq<char>)
    requires
        same_documents(a, b, uuid),
    ensures
        coll_at(a, wanted) == coll_at(b, wanted),
        has_coll(a, wanted) == has_coll(b, wanted),
        0 <= coll_at(a, wanted),
        has_coll(a, wanted) ==> same_coll(coll(a, wanted), coll(b, wanted)) && coll(a, wanted).id
            == wanted,
        has_coll(a, uuid) ==> coll(a, uuid) == coll(b, uuid),
{
    lemma_position_of(a.collections, is_coll(wanted));
    lemma_position_of(a.collections, is_coll(uuid));
    lemma_position_of(b.collections, is_coll(uuid));
    let at = coll_at(a, wanted);
    assert forall|k: int| 0 <= k < at implies !is_coll(wanted)(#[trigger] b.collections[k]) by {
        assert(!is_coll(wanted)(a.collections[k]));
        assert(same_coll(a.collections[k], b.collections[k]));
    }
    if at < a.collections.len() {
        assert(same_coll(a.collections[at], b.collections[at]));
    }
    lemma_position_is(b.collections, is_coll(wanted), at);
    let p = coll_at(a, uuid);
    assert forall|k: int| 0 <= k < p implies !is_coll(uuid)(#[trigger] b.collections[k]) by {
        assert(!is_coll(uuid)(a.collections[k]));
        assert(same_coll(a.collections[k], b.collections[k]));
    }
    if p < a.collections.len() {
        assert(a.collections[p] == b.collections[p]);
    }
    lemma_position_is(b.collections, is_coll(uuid), p);
}

proof fn lemma_same_written(
    a: SetView,
    b: SetView,
    uuid: Seq<char>,
    title: Option<Seq<char>>,
    status: Option<Seq<char>>,
    x: JsonView,
    y: JsonView,
    other: Seq<char>,
)
    requires
        same_documents(a, b, other),
        other != uuid || x == y,
    ensures
        same_documents(
            coll_written(a, uuid, title, status, x),
            coll_written(b, uuid, title, status, y),
            other,
        ),
{
    let s = with_coll(a, uuid);
    let t = with_coll(b, uuid);
    lemma_same_place(a, b, other, uuid);
    assert(same_documents(s, t, other)) by {
        assert forall|i: int| 0 <= i < s.collections.len() implies same_coll(
            #[trigger] s.collections[i],
            t.collections[i],
        ) && (s.collections[i].id == other ==> s.collections[i] == t.collections[i]) by {
            if i < a.collections.len() {
                assert(same_coll(a.collections[i], b.collections[i]));
                assert(s.collections[i] == a.collections[i]);
                assert(t.collections[i] == b.collections[i]);
            }
        }
        assert(s.root == t.root);
    }
    if !has_coll(a, uuid) {
        lemma_position_of(a.collections, is_coll(uuid));
        assert forall|k: int| 0 <= k < a.collections.len() implies !is_coll(uuid)(
            #[trigger] s.collections[k],
        ) by {
            assert(!is_coll(uuid)(a.collections[k]));
        }
        lemma_position_is(s.collections, is_coll(uuid), a.collections.len() as int);
    }
    lemma_same_place(s, t, other, uuid);
    let after = coll_written(a, uuid, title, status, x);
    let twin = coll_written(b, uuid, title, status, y);
    assert forall|i: int| 0 <= i < after.collections.len() implies same_coll(
        #[trigger] after.collections[i],
        twin.collections[i],
    ) && (after.collections[i].id == other ==> after.collections[i] == twin.collections[i]) by {
        assert(same_coll(s.collections[i], t.collections[i]));
    }
}

/// Whether a text is the present as it is kept.
pub open spec fn normal_present(now: Seq<char>) -> bool {
    &&& normal_time(Some(now)) == Ok::<Option<Seq<char>>, ErrorView>(Some(now))
    &&& trimmed(now) == now
}

proof fn lemma_first_stamp(
    existing: Option<JsonView>,
    live: bool,
    now: Seq<char>,
    next: Seq<char>,
)
    requires
        normal_present(now),
        normal_present(next),
    ensures
        match (
            stamped_attrs(existing, existing, None, None, live, now),
            stamped_attrs(existing, existing, None, None, live, next),
        ) {
            (Err(e), Err(f)) => e == f,
            (Ok(x), Ok(y)) => {
                ||| created_of(Some(x)) == created_of(Some(y))
                ||| created_of(Some(x)) == Some(now) && created_of(Some(y)) == Some(next)
            },
            _ => false,
        },
{
    let ck = "__remi_created_at"@;
    let uk = "__remi_updated_at"@;
    reveal_strlit("__remi_created_at");
    reveal_strlit("__remi_updated_at");
    assert(ck[7] == 'c' && uk[7] == 'u');
    let base = object_entries(existing);
    let a = resolved_times(existing, None, None, live, now)->Ok_0;
    let b = resolved_times(existing, None, None, live, next)->Ok_0;
    lemma_stamp_created(base, a.0, a.1);
    lemma_stamp_created(base, b.0, b.1);
}

proof fn lemma_stamp_created(
    base: Seq<(Seq<char>, JsonView)>,
    created: Seq<char>,
    updated: Seq<char>,
)
    ensures
        attrs_with_times(Some(JsonView::Object(base)), Some(created), Some(updated)) matches Ok(j)
            ==> created_of(Some(j)) == trimmed_text(normal_time(Some(created))->Ok_0),
{
    let ck = "__remi_created_at"@;
    let uk = "__remi_updated_at"@;
    reveal_strlit("__remi_created_at");
    reveal_strlit("__remi_updated_at");
    assert(ck[7] == 'c' && uk[7] == 'u');
    if normal_time(Some(created)) is Ok && normal_time(Some(updated)) is Ok {
        let c = normal_time(Some(created))->Ok_0;
        let first = with_text(base, ck, c);
        match c {
            Some(text) => law_with_entry(base, ck, JsonView::Text(text), ck),
            None => law_without_entry(base, ck, ck),
        }
        match normal_time(Some(updated))->Ok_0 {
            Some(text) => law_with_entry(first, uk, JsonView::Text(text), ck),
            None => law_without_entry(first, uk, ck),
        }
    }
}

proof fn lemma_second_stamp(
    first: JsonView,
    twin: JsonView,
    attrs: Option<JsonView>,
    now: Seq<char>,
    next: Seq<char>,
)
    requires
        normal_present(now),
        normal_present(next),
        created_of(Some(first)) == created_of(Some(twin)) || created_of(Some(first)) == Some(now)
            && created_of(Some(twin)) == Some(next),
    ensures
        match (
            stamped_attrs(Some(first), attrs, None, None, true, now),
            stamped_attrs(Some(twin), attrs, None, None, true, next),
        ) {
            (Err(e), Err(f)) => e == f,
            (Ok(_), Ok(_)) => true,
            _ => false,
        },
{
}

proof fn lemma_same_typed(
    a: SetView,
    b: SetView,
    uuid: Seq<char>,
    title: Seq<char>,
    collection_type: CollectionType,
    app_id: Option<Seq<char>>,
    now: Seq<char>,
    next: Seq<char>,
    other: Seq<char>,
)
    requires
        same_documents(a, b, uuid),
        same_documents(a, b, other),
        other != uuid,
        normal_present(now),
        normal_present(next),
    ensures
        ({
            let x = typed_outcome(a, uuid, title, collection_type, app_id, now);
            let y = typed_outcome(b, uuid, title, collection_type, app_id, next);
            x.0 == y.0 && same_documents(x.1, y.1, other)
        }),
{
    lemma_same_place(a, b, uuid, uuid);
    let existing = live_coll_attrs(a, uuid);
    let live = coll_live(a, uuid);
    lemma_first_stamp(existing, live, now, next);
    if stamped_attrs(existing, existing, None, None, live, now) is Ok {
        let x1 = stamped_attrs(existing, existing, None, None, live, now)->Ok_0;
        let y1 = stamped_attrs(existing, existing, None, None, live, next)->Ok_0;
        let a1 = coll_written(a, uuid, Some(title), None, x1);
        let b1 = coll_written(b, uuid, Some(title), None, y1);
        lemma_same_written(a, b, uuid, Some(title), None, x1, y1, other);
        lemma_written_attrs(a, uuid, Some(title), x1);
        lemma_written_attrs(b, uuid, Some(title), y1);
        let m = kept_attrs(
            Some(meta_attrs(any_coll_attrs(a, uuid), collection_type, app_id, None)),
        );
        lemma_second_stamp(x1, y1, m, now, next);
        if stamped_attrs(Some(x1), m, None, None, true, now) is Ok {
            let x2 = stamped_attrs(Some(x1), m, None, None, true, now)->Ok_0;
            let y2 = stamped_attrs(Some(y1), m, None, None, true, next)->Ok_0;
            lemma_same_written(a1, b1, uuid, None, None, x2, y2, other);
        }
    }
}

proof fn lemma_written_attrs(
    set: SetView,
    uuid: Seq<char>,
    title: Option<Seq<char>>,
    attrs: JsonView,
)
    ensures
        coll_live(coll_written(set, uuid, title, None, attrs), uuid),
        coll(coll_written(set, uuid, title, None, attrs), uuid).attrs == Some(attrs),
{
    let s = with_coll(set, uuid);
    let after = coll_written(set, uuid, title, None, attrs);
    lemma_position_of(set.collections, is_coll(uuid));
    if !has_coll(set, uuid) {
        assert forall|k: int| 0 <= k < set.collections.len() implies !is_coll(uuid)(
            #[trigger] s.collections[k],
        ) by {
            assert(!is_coll(uuid)(set.collections[k]));
        }
        lemma_position_is(s.collections, is_coll(uuid), set.collections.len() as int);
    }
    let at = coll_at(s, uuid);
    lemma_position_of(s.collections, is_coll(uuid));
    assert forall|k: int| 0 <= k < at implies !is_coll(uuid)(#[trigger] after.collections[k]) by {
        assert(!is_coll(uuid)(s.collections[k]));
    }
    lemma_position_is(after.collections, is_coll(uuid), at);
}

proof fn lemma_same_inserted(
    a: Seq<CollView>,
    b: Seq<CollView>,
    c: CollView,
    d: CollView,
    uuid: Seq<char>,
)
    requires
        same_colls(a, b, uuid),
        same_coll(c, d),
        c.id == uuid ==> c == d,
    ensures
        same_colls(insert_coll(a, c), insert_coll(b, d), uuid),
    decreases a.len(),
{
    if a.len() > 0 {
        assert(same_coll(a[a.len() - 1], b[b.len() - 1]));
        let x = a.drop_last();
        let y = b.drop_last();
        assert forall|i: int| 0 <= i < x.len() implies same_coll(#[trigger] x[i], y[i]) && (
        x[i].id == uuid ==> x[i] == y[i]) by {
            assert(same_coll(a[i], b[i]));
        }
        lemma_same_inserted(x, y, c, d, uuid);
        let p = insert_coll(x, c);
        let q = insert_coll(y, d);
        let after = insert_coll(a, c);
        let twin = insert_coll(b, d);
        assert forall|i: int| 0 <= i < after.len() implies same_coll(#[trigger] after[i], twin[i])
            && (after[i].id == uuid ==> after[i] == twin[i]) by {
            if !text_less(c.id, a.last().id) {
                if i < a.len() {
                    assert(same_coll(a[i], b[i]));
                }
            } else if i < p.len() {
                assert(same_coll(p[i], q[i]));
            }
        }
    }
}

proof fn lemma_same_live(a: Seq<CollView>, b: Seq<CollView>, uuid: Seq<char>)
    requires
        same_colls(a, b, uuid),
    ensures
        same_colls(live_colls(a), live_colls(b), uuid),
    decreases a.len(),
{
    if a.len() > 0 {
        let x = a.drop_last();
        let y = b.drop_last();
        assert(same_coll(a[a.len() - 1], b[b.len() - 1]));
        assert forall|i: int| 0 <= i < x.len() implies same_coll(#[trigger] x[i], y[i]) && (
        x[i].id == uuid ==> x[i] == y[i]) by {
            assert(same_coll(a[i], b[i]));
        }
        lemma_same_live(x, y, uuid);
        if !a.last().deleted {
            lemma_same_inserted(live_colls(x), live_colls(y), a.last(), b.last(), uuid);
        }
    }
}

proof fn lemma_same_first(
    a: Seq<CollectionEntryView>,
    b: Seq<CollectionEntryView>,
    uuid: Seq<char>,
)
    requires
        a.len() == b.len(),
        forall|i: int|
            0 <= i < a.len() ==> (#[trigger] a[i]).uuid == b[i].uuid && a[i].title == b[i].title,
    ensures
        match (collection_in(a, uuid), collection_in(b, uuid)) {
            (Some(x), Some(y)) => x.title == y.title,
            (None, None) => true,
            _ => false,
        },
        (forall|i: int| 0 <= i < a.len() && (#[trigger] a[i]).uuid == uuid ==> a[i] == b[i])
            ==> collection_in(a, uuid) == collection_in(b, uuid),
    decreases a.len(),
{
    if a.len() > 0 {
        let x = a.drop_first();
        let y = b.drop_first();
        assert(a[0].uuid == b[0].uuid);
        assert forall|i: int| 0 <= i < x.len() implies (#[trigger] x[i]).uuid == y[i].uuid
            && x[i].title == y[i].title by {
            assert(a[i + 1].uuid == b[i + 1].uuid);
        }
        lemma_same_first(x, y, uuid);
        if forall|i: int| 0 <= i < a.len() && (#[trigger] a[i]).uuid == uuid ==> a[i] == b[i] {
            assert forall|i: int| 0 <= i < x.len() && (#[trigger] x[i]).uuid == uuid implies x[i]
                == y[i] by {
                assert(a[i + 1].uuid == uuid);
            }
        }
    }
}

proof fn lemma_same_shown(a: SetView, b: SetView, uuid: Seq<char>)
    requires
        same_documents(a, b, uuid),
    ensures
        collection_in(snapshot_collections(a), uuid) == collection_in(
            snapshot_collections(b),
            uuid,
        ),
{
    lemma_same_live(a.collections, b.collections, uuid);
    let x = live_colls(a.collections);
    let y = live_colls(b.collections);
    let p = snapshot_collections(a);
    let q = snapshot_collections(b);
    assert forall|i: int| 0 <= i < p.len() implies (#[trigger] p[i]).uuid == q[i].uuid && p[i].title
        == q[i].title by {
        assert(same_coll(x[i], y[i]));
    }
    assert forall|i: int| 0 <= i < p.len() && (#[trigger] p[i]).uuid == uuid implies p[i]
        == q[i] by {
        assert(same_coll(x[i], y[i]));
    }
    lemma_same_first(p, q, uuid);
}

proof fn lemma_same_system(
    a: SetView,
    b: SetView,
    uuid: Seq<char>,
    title: Seq<char>,
    collection_type: CollectionType,
    now: Seq<char>,
    next: Seq<char>,
    other: Seq<char>,
)
    requires
        same_documents(a, b, uuid),
        same_documents(a, b, other),
        other != uuid,
        normal_present(now),
        normal_present(next),
    ensures
        ({
            let x = system_outcome(a, uuid, title, collection_type, now);
            let y = system_outcome(b, uuid, title, collection_type, next);
            x.0 == y.0 && same_documents(x.1, y.1, other)
        }),
{
    lemma_same_shown(a, b, uuid);
    if system_outdated(a, uuid, title, collection_type) {
        lemma_same_typed(a, b, uuid, title, collection_type, None, now, next, other);
    }
}

proof fn lemma_same_things(
    a: SetView,
    b: SetView,
    x: Seq<CollView>,
    y: Seq<CollView>,
    options: SnapshotOptions,
    uuid: Seq<char>,
)
    requires
        same_documents(a, b, uuid),
        same_colls(x, y, uuid),
    ensures
        all_thing_entries(a, x, options) == all_thing_entries(b, y, options),
    decreases x.len(),
{
    if x.len() > 0 {
        let p = x.drop_last();
        let q = y.drop_last();
        assert(same_coll(x[x.len() - 1], y[y.len() - 1]));
        assert forall|i: int| 0 <= i < p.len() implies same_coll(#[trigger] p[i], q[i]) && (
        p[i].id == uuid ==> p[i] == q[i]) by {
            assert(same_coll(x[i], y[i]));
        }
        lemma_same_things(a, b, p, q, options, uuid);
        let things = live_things(x.last().things);
        assert forall|i: int| 0 <= i < things.len() implies thing_entry(
            a,
            x.last().id,
            #[trigger] things[i],
            options,
        ) == thing_entry(b, y.last().id, things[i], options) by {}
        assert(coll_thing_entries(a, x.last(), options) =~= coll_thing_entries(
            b,
            y.last(),
            options,
        ));
    }
}

/// Whether two snapshots show the same: the same things, and collections with the same ids and
/// titles in the same order.
pub open spec fn same_snapshot(a: SnapshotView, b: SnapshotView) -> bool {
    &&& a.things == b.things
    &&& a.dirty == b.dirty
    &&& a.last_sync_at == b.last_sync_at
    &&& a.collections.len() == b.collections.len()
    &&& forall|i: int|
        0 <= i < a.collections.len() ==> (#[trigger] a.collections[i]).uuid
            == b.collections[i].uuid && a.collections[i].title == b.collections[i].title
}

/// What is shown does not depend on when it is asked for, but for the times of the collections
/// of the system where those are not stored: it is refused at no time or at every time.
pub proof fn law_shown_at_any_time(
    actors: Seq<ActorMetaEntry>,
    set: SetView,
    options: SnapshotOptions,
    present: DomainTime,
    now: Seq<char>,
    later: DomainTime,
    next: Seq<char>,
)
    requires
        plain_time(present),
        time_written(present, now),
        plain_time(later),
        time_written(later, next),
    ensures
        match (
            snapshot_result(actors, set, options, now),
            snapshot_result(actors, set, options, next),
        ) {
            (Err(e), Err(f)) => e == f,
            (Ok(a), Ok(b)) => same_snapshot(a, b),
            _ => false,
        },
{
    law_present_is_normal(present, now);
    law_present_is_normal(later, next);
    let drafts = "00000000-0000-0000-0000-000000000000"@;
    let trash = "00000000-0000-0000-0000-000000000001"@;
    reveal_strlit("00000000-0000-0000-0000-000000000000");
    reveal_strlit("00000000-0000-0000-0000-000000000001");
    assert(drafts[35] == '0' && trash[35] == '1');
    let third = drafts.push('x');
    assert(third.len() == 37 && drafts.len() == 36 && trash.len() == 36);
    let s0 = with_root(set);
    assert(same_documents(s0, s0, drafts));
    assert(same_documents(s0, s0, trash));
    assert(same_documents(s0, s0, third));
    lemma_same_system(s0, s0, drafts, "Drafts"@, CollectionType::Default, now, next, trash);
    lemma_same_system(s0, s0, drafts, "Drafts"@, CollectionType::Default, now, next, third);
    let a1 = default_outcome(s0, now).1;
    let b1 = default_outcome(s0, next).1;
    lemma_same_system(a1, b1, trash, "Trash"@, CollectionType::Trash, now, next, third);
    if systems_outcome(s0, now).0 is Ok {
        let a = systems_outcome(s0, now).1;
        let b = systems_outcome(s0, next).1;
        lemma_same_live(a.collections, b.collections, third);
        let x = live_colls(a.collections);
        let y = live_colls(b.collections);
        lemma_same_things(a, b, x, y, options, third);
        let p = snapshot_result(actors, set, options, now)->Ok_0;
        let q = snapshot_result(actors, set, options, next)->Ok_0;
        assert(p.things =~= q.things);
        assert forall|i: int| 0 <= i < p.collections.len() implies (
        #[trigger] p.collections[i]).uuid == q.collections[i].uuid && p.collections[i].title
            == q.collections[i].title by {
            assert(same_coll(x[i], y[i]));
        }
    }
}

/// What is read of a path does not depend on when it is read.
pub proof fn law_read_at_any_time(
    sdk: RemiSdk,
    path: Seq<char>,
    present: DomainTime,
    now: Seq<char>,
    later: DomainTime,
    next: Seq<char>,
)
    requires
        plain_time(present),
        time_written(present, now),
        plain_time(later),
        time_written(later, next),
    ensures
        read_answer(sdk, path, now) == read_answer(sdk, path, next),
        cat_answer(sdk, path, now) == cat_answer(sdk, path, next),
{
    lemma_read_at_any_time(sdk, path, present, now, later, next);
    if let Ok((p, _)) = located(path) {
        lemma_read_at_any_time(sdk, p, present, now, later, next);
    }
}

proof fn lemma_read_at_any_time(
    sdk: RemiSdk,
    path: Seq<char>,
    present: DomainTime,
    now: Seq<char>,
    later: DomainTime,
    next: Seq<char>,
)
    requires
        plain_time(present),
        time_written(present, now),
        plain_time(later),
        time_written(later, next),
    ensures
        read_answer(sdk, path, now) == read_answer(sdk, path, next),
{
    law_shown_at_any_time(
        sdk.storage.things_actor_meta.data(),
        sdk.documents@,
        SnapshotOptions { include_content: false },
        present,
        now,
        later,
        next,
    );
    if let Ok((_, node)) = located(path) {
        if let PathView::Collection { collection, file } = node {
            if shown(sdk, false, now) is Ok {
                lemma_same_first(
                    shown(sdk, false, now)->Ok_0.collections,
                    shown(sdk, false, next)->Ok_0.collections,
                    collection,
                );
            }
        }
    }
}

/// Once both collections of the system are as they should be, what is read of a path does not
/// depend on what the clock shows at all.
pub proof fn law_read_with_kept_systems(
    sdk: RemiSdk,
    path: Seq<char>,
    now: Seq<char>,
    next: Seq<char>,
)
    requires
        !system_outdated(
            sdk.documents@,
            "00000000-0000-0000-0000-000000000000"@,
            "Drafts"@,
            CollectionType::Default,
        ),
        !system_outdated(
            sdk.documents@,
            "00000000-0000-0000-0000-000000000001"@,
            "Trash"@,
            CollectionType::Trash,
        ),
    ensures
        read_answer(sdk, path, now) == read_answer(sdk, path, next),
        cat_answer(sdk, path, now) == cat_answer(sdk, path, next),
{
    law_snapshot_at_any_time(
        sdk.storage.things_actor_meta.data(),
        sdk.documents@,
        SnapshotOptions { include_content: false },
        now,
        next,
    );
}

} // verus!
