//! Notifications.
use super::chat::every;
use super::Storage;
use crate::clock::{clock_seconds, now_seconds};
use crate::rows::NotificationEntry;
use crate::table::{
    first_data, first_item, first_of, group_keyed, lemma_position_is, lemma_position_of, page,
    position_of, ranked, rows_kept, rows_updated, take_page, Rank, Record, Row, Table,
};
use crate::text::{owned, same};
use vstd::prelude::*;

verus! {

/// The notifications of one category.
#[derive(Debug)]
pub struct NotificationGroup {
    pub category: String,
    pub title: String,
    pub source: String,
    pub latest_at: i64,
    pub unread_count: i64,
    pub total_count: i64,
    pub items: Vec<NotificationEntry>,
}

pub open spec fn is_notification(id: i64) -> spec_fn(NotificationEntry) -> bool {
    |n: NotificationEntry| n.id == id
}

pub open spec fn in_category(category: Seq<char>) -> spec_fn(NotificationEntry) -> bool {
    |n: NotificationEntry| n.category@ == category
}

pub open spec fn outside_category(category: Seq<char>) -> spec_fn(NotificationEntry) -> bool {
    |n: NotificationEntry| n.category@ != category
}

pub open spec fn not_read() -> spec_fn(NotificationEntry) -> bool {
    |n: NotificationEntry| !n.is_read
}

pub open spec fn counted(category: Seq<char>, unread_only: bool) -> spec_fn(
    NotificationEntry,
) -> bool {
    |n: NotificationEntry| n.category@ == category && (!unread_only || !n.is_read)
}

pub open spec fn by_arrival() -> spec_fn(NotificationEntry) -> Rank {
    |n: NotificationEntry| (n.created_at, 0i64)
}

pub open spec fn read_now() -> spec_fn(NotificationEntry) -> NotificationEntry {
    |n: NotificationEntry| NotificationEntry { is_read: true, ..n }
}

pub open spec fn responded(answer: String, now: i64) -> spec_fn(
    NotificationEntry,
) -> NotificationEntry {
    |n: NotificationEntry|
        NotificationEntry {
            response_action: Some(answer),
            responded_at: Some(now),
            is_read: true,
            ..n
        }
}

/// The latest notification of each category: the first one where several are the latest.
pub open spec fn group_heads(data: Seq<NotificationEntry>) -> Seq<NotificationEntry>
    decreases data.len(),
{
    if data.len() == 0 {
        Seq::empty()
    } else {
        let heads = group_heads(data.drop_last());
        let n = data.last();
        let at = position_of(heads, in_category(n.category@));
        if at == heads.len() {
            heads.push(n)
        } else if heads[at].created_at < n.created_at {
            heads.update(at, n)
        } else {
            heads
        }
    }
}

/// Whether a group is that of the category of `head`.
pub open spec fn group_shows(
    group: NotificationGroup,
    data: Seq<NotificationEntry>,
    head: NotificationEntry,
    limit: u32,
) -> bool {
    &&& group.category == head.category
    &&& group.title == head.title
    &&& group.source == head.source
    &&& group.latest_at == head.created_at
    &&& group.unread_count == data.filter(counted(head.category@, true)).len()
    &&& group.total_count == data.filter(counted(head.category@, false)).len()
    &&& group.items@ == page(
        ranked(data, in_category(head.category@), by_arrival(), true),
        Some(limit),
        0,
    )
}

pub open spec fn groups_shown(
    groups: Seq<NotificationGroup>,
    data: Seq<NotificationEntry>,
    limit: u32,
) -> bool {
    let tops = page(ranked(group_heads(data), every(), by_arrival(), true), Some(limit), 0);
    &&& groups.len() == tops.len()
    &&& forall|k: int|
        0 <= k < tops.len() ==> #[trigger] group_shows(groups[k], data, tops[k], limit)
}

/// Whether some head has the category of `n` and is no older.
pub open spec fn headed(heads: Seq<NotificationEntry>, n: NotificationEntry) -> bool {
    exists|h: int|
        0 <= h < heads.len() && (#[trigger] heads[h]).category@ == n.category@
            && heads[h].created_at >= n.created_at
}

pub open spec fn categories_differ(heads: Seq<NotificationEntry>) -> bool {
    forall|i: int, j: int|
        0 <= i < j < heads.len() ==> (#[trigger] heads[i]).category@ != (
        #[trigger] heads[j]).category@
}

/// Every notification has a head in its category that is no older, no two heads share a
/// category, and every head is a notification of the list.
pub proof fn law_group_heads(data: Seq<NotificationEntry>)
    ensures
        categories_differ(group_heads(data)),
        forall|k: int| 0 <= k < data.len() ==> headed(group_heads(data), #[trigger] data[k]),
        forall|h: int|
            0 <= h < group_heads(data).len() ==> data.contains(#[trigger] group_heads(data)[h]),
    decreases data.len(),
{
    if data.len() > 0 {
        let before = data.drop_last();
        law_group_heads(before);
        let heads = group_heads(before);
        let n = data.last();
        let at = position_of(heads, in_category(n.category@));
        let now = group_heads(data);
        lemma_position_of(heads, in_category(n.category@));
        assert(categories_differ(now)) by {
            assert forall|i: int, j: int| 0 <= i < j < now.len() implies (
            #[trigger] now[i]).category@ != (#[trigger] now[j]).category@ by {
                if j < heads.len() {
                    assert(heads[i].category@ != heads[j].category@);
                } else {
                    assert(!in_category(n.category@)(heads[i]));
                }
            }
        }
        assert forall|k: int| 0 <= k < data.len() implies headed(now, #[trigger] data[k]) by {
            if k < data.len() - 1 {
                assert(data[k] == before[k]);
                assert(headed(heads, before[k]));
                let h = choose|h: int|
                    0 <= h < heads.len() && (#[trigger] heads[h]).category@ == before[k].category@
                        && heads[h].created_at >= before[k].created_at;
                assert(now[h].category@ == heads[h].category@);
            } else {
                assert(now[at].created_at >= n.created_at);
            }
        }
        assert forall|h: int| 0 <= h < now.len() implies data.contains(#[trigger] now[h]) by {
            if now[h] == n {
                assert(data[data.len() - 1] == n);
            } else {
                assert(before.contains(heads[h]));
                let w = choose|w: int| 0 <= w < before.len() && before[w] == heads[h];
                assert(data[w] == heads[h]);
            }
        }
    }
}

/// After all notifications were marked as read, none is left that was not.
pub proof fn law_mark_all_read(rows: Seq<Row<NotificationEntry>>)
    ensures
        crate::table::data_of(rows_updated(rows, not_read(), read_now())).filter(
            not_read(),
        ).len() == 0,
{
    let data = crate::table::data_of(rows_updated(rows, not_read(), read_now()));
    let left = data.filter(not_read());
    if left.len() > 0 {
        data.lemma_filter_pred(not_read(), 0);
        data.lemma_filter_contains_rev(not_read(), left[0]);
        let w = choose|w: int| 0 <= w < data.len() && data[w] == left[0];
        assert(data[w].is_read);
    }
}

impl Storage {
    /// Adds an unread notification at the time `now` and returns its id.
    pub fn insert_notification_at(
        &mut self,
        source: &str,
        category: &str,
        title: &str,
        body: &str,
        now: i64,
    ) -> (id: i64)
        requires
            old(self).notifications.next_id < i64::MAX,
        ensures
            *final(self) == (Storage {
                notifications: final(self).notifications,
                ..*old(self)
            }),
            id == old(self).notifications.next_id,
            final(self).notifications.next_id == old(self).notifications.next_id + 1,
            exists|row: NotificationEntry|
                row.source@ == source@ && row.category@ == category@ && row.title@ == title@
                    && row.body@
                    == body@ && !row.is_read && row.response_action is None
                    && row.responded_at is None
                    && row.id == old(self).notifications.next_id
                    && row.created_at == now
                    && final(self).notifications.rows@
                    == #[trigger] old(self).notifications.rows@.push(
                    (Row { user_id: None, data: row }),
                ),
            old(self).well_formed() ==> final(self).well_formed(),
    {
        broadcast use group_keyed;

        let id: i64 = self.notifications.take_id();
        let row = NotificationEntry {
            id,
            source: owned(source),
            category: owned(category),
            title: owned(title),
            body: owned(body),
            is_read: false,
            response_action: None,
            responded_at: None,
            created_at: now,
        };
        self.notifications.push(row);
        id
    }

    /// Adds an unread notification now and returns its id.
    pub fn insert_notification(
        &mut self,
        source: &str,
        category: &str,
        title: &str,
        body: &str,
    ) -> (id: i64)
        requires
            old(self).notifications.next_id < i64::MAX,
        ensures
            *final(self) == (Storage {
                notifications: final(self).notifications,
                ..*old(self)
            }),
            id == old(self).notifications.next_id,
            final(self).notifications.next_id == old(self).notifications.next_id + 1,
            exists|row: NotificationEntry|
                row.source@ == source@ && row.category@ == category@ && row.title@ == title@
                    && row.body@
                    == body@ && clock_seconds(row.created_at) && !row.is_read
                    && row.response_action is None && row.responded_at is None
                    && row.id == old(self).notifications.next_id
                    && final(self).notifications.rows@
                    == #[trigger] old(self).notifications.rows@.push(
                    (Row { user_id: None, data: row }),
                ),
            old(self).well_formed() ==> final(self).well_formed(),
    {
        let now: i64 = now_seconds();
        self.insert_notification_at(source, category, title, body, now)
    }

    /// Keeps what the user answered to a notification at the time `now`, which also counts
    /// as reading it.
    pub fn record_notification_response_at(
        &mut self,
        notification_id: i64,
        action: &str,
        now: i64,
    )
        ensures
            *final(self) == (Storage {
                notifications: final(self).notifications,
                ..*old(self)
            }),
            exists|answer: String|
                answer@ == action@ && final(self).notifications.rows@ == #[trigger] rows_updated(
                    old(self).notifications.rows@,
                    is_notification(notification_id),
                    responded(answer, now),
                ),
            final(self).notifications.next_id == old(self).notifications.next_id,
            old(self).well_formed() ==> final(self).well_formed(),
    {
        broadcast use group_keyed;

        let answer = owned(action);
        let held = &answer;
        let hit = |n: &NotificationEntry| -> (b: bool)
            ensures
                b == is_notification(notification_id)(*n),
            { n.id == notification_id };
        let change = |n: &NotificationEntry| -> (out: NotificationEntry)
            ensures
                out == responded(*held, now)(*n),
            {
                NotificationEntry {
                    id: n.id,
                    source: n.source.clone(),
                    category: n.category.clone(),
                    title: n.title.clone(),
                    body: n.body.clone(),
                    is_read: true,
                    response_action: Some(held.clone()),
                    responded_at: Some(now),
                    created_at: n.created_at,
                }
            };
        self.notifications.update(
            hit,
            change,
            Ghost(is_notification(notification_id)),
            Ghost(responded(*held, now)),
        );
    }

    /// Keeps what the user answered to a notification now.
    pub fn record_notification_response(&mut self, notification_id: i64, action: &str)
        ensures
            *final(self) == (Storage {
                notifications: final(self).notifications,
                ..*old(self)
            }),
            exists|answer: String, now: i64|
                clock_seconds(now) && answer@ == action@ && final(self).notifications.rows@
                    == #[trigger] rows_updated(
                    old(self).notifications.rows@,
                    is_notification(notification_id),
                    responded(answer, now),
                ),
            final(self).notifications.next_id == old(self).notifications.next_id,
            old(self).well_formed() ==> final(self).well_formed(),
    {
        let now: i64 = now_seconds();
        self.record_notification_response_at(notification_id, action, now);
    }

    /// The heads of the categories as a table of their own.
    fn category_heads(&self) -> (heads: Table<NotificationEntry>)
        ensures
            heads.data() == group_heads(self.notifications.data()),
    {
        let ghost data = self.notifications.data();
        let mut heads: Table<NotificationEntry> = Table::new();
        let mut i: usize = 0;
        proof {
            assert(data.take(0) =~= Seq::empty());
            assert(heads.data() =~= group_heads(data.take(0)));
        }
        while i < self.notifications.rows.len()
            invariant
                i <= self.notifications.rows@.len(),
                data == self.notifications.data(),
                heads.data() == group_heads(data.take(i as int)),
            decreases self.notifications.rows@.len() - i,
        {
            broadcast use lemma_position_of;

            let n = &self.notifications.rows[i].data;
            let ghost before = heads.data();
            let ghost hit = in_category(n.category@);
            let mut at: usize = 0;
            while at < heads.rows.len() && !same(
                heads.rows[at].data.category.as_str(),
                n.category.as_str(),
            )
                invariant
                    at <= heads.rows@.len(),
                    heads.data() == before,
                    hit == in_category(n.category@),
                    forall|k: int| 0 <= k < at ==> !hit(#[trigger] before[k]),
                decreases heads.rows@.len() - at,
            {
                at = at + 1;
            }
            proof {
                assert(data.take(i + 1).drop_last() =~= data.take(i as int));
                assert(data.take(i + 1).last() == *n);
                if at < before.len() {
                    assert(hit(before[at as int]));
                }
                lemma_position_is(before, hit, at as int);
            }
            if at == heads.rows.len() {
                heads.push(n.duplicate());
                proof {
                    assert(heads.data() =~= before.push(*n));
                }
            } else if heads.rows[at].data.created_at < n.created_at {
                heads.rows.set(at, Row { user_id: None, data: n.duplicate() });
                proof {
                    assert(heads.data() =~= before.update(at as int, *n));
                }
            }
            i = i + 1;
        }
        proof {
            assert(data.take(i as int) =~= data);
        }
        heads
    }

    /// The categories, the one with the latest notification first, each with its latest
    /// notifications.
    pub fn list_notifications_grouped(&self, limit: u32) -> (out: Vec<NotificationGroup>)
        requires
            self.notifications.rows@.len() <= i64::MAX,
        ensures
            groups_shown(out@, self.notifications.data(), limit),
    {
        let heads = self.category_heads();
        let keep = |n: &NotificationEntry| -> (b: bool)
            ensures
                b == every::<NotificationEntry>()(*n),
            { true };
        let rank = |n: &NotificationEntry| -> (k: Rank)
            ensures
                k == by_arrival()(*n),
            { (n.created_at, 0) };
        let all = heads.select(keep, rank, true, Ghost(every()), Ghost(by_arrival()));
        let tops = take_page(&all, Some(limit), 0);
        let mut out: Vec<NotificationGroup> = Vec::new();
        let mut i: usize = 0;
        while i < tops.len()
            invariant
                i <= tops@.len(),
                out@.len() == i,
                self.notifications.rows@.len() <= i64::MAX,
                forall|k: int|
                    0 <= k < i ==> #[trigger] group_shows(
                        out@[k],
                        self.notifications.data(),
                        tops@[k],
                        limit,
                    ),
            decreases tops@.len() - i,
        {
            let head = tops[i].duplicate();
            let items = self.list_notifications_by_category(head.category.as_str(), limit);
            let unread: usize = self.count_in_category(head.category.as_str(), true);
            let total: usize = self.count_in_category(head.category.as_str(), false);
            let group = NotificationGroup {
                category: head.category,
                title: head.title,
                source: head.source,
                latest_at: head.created_at,
                unread_count: unread as i64,
                total_count: total as i64,
                items,
            };
            assert(group_shows(group, self.notifications.data(), tops@[i as int], limit));
            out.push(group);
            i = i + 1;
        }
        out
    }

    /// How many notifications a category has, or only those not read.
    fn count_in_category(&self, category: &str, unread_only: bool) -> (n: usize)
        ensures
            n == self.notifications.data().filter(counted(category@, unread_only)).len(),
            n <= self.notifications.rows@.len(),
    {
        let hit = |n: &NotificationEntry| -> (b: bool)
            ensures
                b == counted(category@, unread_only)(*n),
            { same(n.category.as_str(), category) && (!unread_only || !n.is_read) };
        let n: usize = self.notifications.count(hit, Ghost(counted(category@, unread_only)));
        proof {
            self.notifications.data().lemma_filter_len(counted(category@, unread_only));
        }
        n
    }

    /// The notifications of a category, the newest first.
    pub fn list_notifications_by_category(
        &self,
        category: &str,
        limit: u32,
    ) -> (out: Vec<NotificationEntry>)
        ensures
            out@ == page(
                ranked(self.notifications.data(), in_category(category@), by_arrival(), true),
                Some(limit),
                0,
            ),
    {
        let keep = |n: &NotificationEntry| -> (b: bool)
            ensures
                b == in_category(category@)(*n),
            { same(n.category.as_str(), category) };
        let rank = |n: &NotificationEntry| -> (k: Rank)
            ensures
                k == by_arrival()(*n),
            { (n.created_at, 0) };
        let all = self.notifications.select(
            keep,
            rank,
            true,
            Ghost(in_category(category@)),
            Ghost(by_arrival()),
        );
        take_page(&all, Some(limit), 0)
    }

    /// All notifications, the newest first.
    pub fn list_notifications_flat(
        &self,
        limit: u32,
        offset: u32,
    ) -> (out: Vec<NotificationEntry>)
        ensures
            out@ == page(
                ranked(self.notifications.data(), every::<NotificationEntry>(), by_arrival(), true),
                Some(limit),
                offset,
            ),
    {
        let keep = |n: &NotificationEntry| -> (b: bool)
            ensures
                b == every::<NotificationEntry>()(*n),
            { true };
        let rank = |n: &NotificationEntry| -> (k: Rank)
            ensures
                k == by_arrival()(*n),
            { (n.created_at, 0) };
        let all = self.notifications.select(
            keep,
            rank,
            true,
            Ghost(every::<NotificationEntry>()),
            Ghost(by_arrival()),
        );
        take_page(&all, Some(limit), offset)
    }

    /// The newest notification that was not read.
    pub fn get_latest_unread_notification(&self) -> (out: Option<NotificationEntry>)
        ensures
            out == first_of(ranked(self.notifications.data(), not_read(), by_arrival(), true)),
    {
        let keep = |n: &NotificationEntry| -> (b: bool)
            ensures
                b == not_read()(*n),
            { !n.is_read };
        let rank = |n: &NotificationEntry| -> (k: Rank)
            ensures
                k == by_arrival()(*n),
            { (n.created_at, 0) };
        let all = self.notifications.select(
            keep,
            rank,
            true,
            Ghost(not_read()),
            Ghost(by_arrival()),
        );
        first_item(&all)
    }

    /// How many notifications were not read.
    pub fn get_unread_notification_count(&self) -> (n: i64)
        requires
            self.notifications.rows@.len() <= i64::MAX,
        ensures
            n == self.notifications.data().filter(not_read()).len(),
    {
        let hit = |n: &NotificationEntry| -> (b: bool)
            ensures
                b == not_read()(*n),
            { !n.is_read };
        let n: usize = self.notifications.count(hit, Ghost(not_read()));
        proof {
            self.notifications.data().lemma_filter_len(not_read());
        }
        n as i64
    }

    /// A notification by its id.
    pub fn get_notification(&self, notification_id: i64) -> (out: Option<NotificationEntry>)
        ensures
            out == first_data(self.notifications.data(), is_notification(notification_id)),
    {
        let hit = |n: &NotificationEntry| -> (b: bool)
            ensures
                b == is_notification(notification_id)(*n),
            { n.id == notification_id };
        self.notifications.first(hit, Ghost(is_notification(notification_id)))
    }

    /// Marks a notification as read.
    pub fn mark_notification_read(&mut self, notification_id: i64)
        ensures
            *final(self) == (Storage {
                notifications: final(self).notifications,
                ..*old(self)
            }),
            final(self).notifications.rows@ == rows_updated(
                old(self).notifications.rows@,
                is_notification(notification_id),
                read_now(),
            ),
            final(self).notifications.next_id == old(self).notifications.next_id,
            old(self).well_formed() ==> final(self).well_formed(),
    {
        broadcast use group_keyed;

        let hit = |n: &NotificationEntry| -> (b: bool)
            ensures
                b == is_notification(notification_id)(*n),
            { n.id == notification_id };
        let change = |n: &NotificationEntry| -> (out: NotificationEntry)
            ensures
                out == read_now()(*n),
            {
                NotificationEntry {
                    id: n.id,
                    source: n.source.clone(),
                    category: n.category.clone(),
                    title: n.title.clone(),
                    body: n.body.clone(),
                    is_read: true,
                    response_action: n.response_action.clone(),
                    responded_at: n.responded_at,
                    created_at: n.created_at,
                }
            };
        self.notifications.update(
            hit,
            change,
            Ghost(is_notification(notification_id)),
            Ghost(read_now()),
        );
    }

    /// Marks the notifications of a category as read.
    pub fn mark_category_notifications_read(&mut self, category: &str)
        ensures
            *final(self) == (Storage {
                notifications: final(self).notifications,
                ..*old(self)
            }),
            final(self).notifications.rows@ == rows_updated(
                old(self).notifications.rows@,
                in_category(category@),
                read_now(),
            ),
            final(self).notifications.next_id == old(self).notifications.next_id,
            old(self).well_formed() ==> final(self).well_formed(),
    {
        broadcast use group_keyed;

        let hit = |n: &NotificationEntry| -> (b: bool)
            ensures
                b == in_category(category@)(*n),
            { same(n.category.as_str(), category) };
        let change = |n: &NotificationEntry| -> (out: NotificationEntry)
            ensures
                out == read_now()(*n),
            {
                NotificationEntry {
                    id: n.id,
                    source: n.source.clone(),
                    category: n.category.clone(),
                    title: n.title.clone(),
                    body: n.body.clone(),
                    is_read: true,
                    response_action: n.response_action.clone(),
                    responded_at: n.responded_at,
                    created_at: n.created_at,
                }
            };
        self.notifications.update(hit, change, Ghost(in_category(category@)), Ghost(read_now()));
    }

    /// Marks all notifications as read.
    pub fn mark_all_notifications_read(&mut self)
        ensures
            *final(self) == (Storage {
                notifications: final(self).notifications,
                ..*old(self)
            }),
            final(self).notifications.rows@ == rows_updated(
                old(self).notifications.rows@,
                not_read(),
                read_now(),
            ),
            final(self).notifications.next_id == old(self).notifications.next_id,
            old(self).well_formed() ==> final(self).well_formed(),
    {
        broadcast use group_keyed;

        let hit = |n: &NotificationEntry| -> (b: bool)
            ensures
                b == not_read()(*n),
            { !n.is_read };
        let change = |n: &NotificationEntry| -> (out: NotificationEntry)
            ensures
                out == read_now()(*n),
            {
                NotificationEntry {
                    id: n.id,
                    source: n.source.clone(),
                    category: n.category.clone(),
                    title: n.title.clone(),
                    body: n.body.clone(),
                    is_read: true,
                    response_action: n.response_action.clone(),
                    responded_at: n.responded_at,
                    created_at: n.created_at,
                }
            };
        self.notifications.update(hit, change, Ghost(not_read()), Ghost(read_now()));
    }

    /// Removes the notifications of a category.
    pub fn delete_notifications_by_category(&mut self, category: &str)
        ensures
            *final(self) == (Storage {
                notifications: final(self).notifications,
                ..*old(self)
            }),
            final(self).notifications.rows@ == rows_kept(
                old(self).notifications.rows@,
                outside_category(category@),
            ),
            final(self).notifications.next_id == old(self).notifications.next_id,
            old(self).well_formed() ==> final(self).well_formed(),
    {
        broadcast use group_keyed;

        let keep = |n: &NotificationEntry| -> (b: bool)
            ensures
                b == outside_category(category@)(*n),
            { !same(n.category.as_str(), category) };
        self.notifications.retain(keep, Ghost(outside_category(category@)));
    }
}

} // verus!
