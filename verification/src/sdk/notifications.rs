//! What is shown of notifications, and what is told of them.
use super::{search_asked, NotificationEvent, RemiSdk};
use crate::clock::clock_seconds;
use crate::json::{
    entries_view, entry, int_text, json_text, list_view, opt_text_json, opt_view, write_json, Json,
    JsonView,
};
use crate::rows::NotificationEntry;
use crate::search::documents::{
    at_second, ingest_views, notification_document, opt_second_json, opt_second_value, time_json,
    time_value, IngestView, SearchDocument, SearchEntityKind, SearchIngestAction,
};
use crate::storage::chat::every;
use crate::storage::notifications::{
    by_arrival, groups_shown, in_category, is_notification, not_read, outside_category, read_now,
    responded, NotificationGroup,
};
use crate::storage::Storage;
use crate::table::{first_data, first_of, page, ranked, rows_kept, rows_updated};
use crate::text::owned;
use vstd::prelude::*;

verus! {

/// The JSON form of a notification.
pub open spec fn notification_json(n: NotificationEntry) -> JsonView {
    JsonView::Object(
        seq![
            ("body"@, JsonView::Text(n.body@)),
            ("category"@, JsonView::Text(n.category@)),
            ("created_at"@, time_json(at_second(n.created_at))),
            ("id"@, JsonView::Number(int_text(n.id as int))),
            ("is_read"@, JsonView::Bool(n.is_read)),
            ("responded_at"@, opt_second_json(n.responded_at)),
            ("response_action"@, opt_text_json(opt_view(n.response_action))),
            ("source"@, JsonView::Text(n.source@)),
            ("title"@, JsonView::Text(n.title@)),
        ],
    )
}

fn notification_to_json(n: &NotificationEntry) -> (j: Json)
    ensures
        j@ == notification_json(*n),
{
    let entries = vec![
        entry("body", Json::text(n.body.as_str())),
        entry("category", Json::text(n.category.as_str())),
        entry(
            "created_at",
            time_value(crate::clock::DomainTime { seconds: n.created_at, nanos: 0 }),
        ),
        entry("id", Json::signed(n.id)),
        entry("is_read", Json::Bool(n.is_read)),
        entry("responded_at", opt_second_value(n.responded_at)),
        entry("response_action", Json::opt_text(&n.response_action)),
        entry("source", Json::text(n.source.as_str())),
        entry("title", Json::text(n.title.as_str())),
    ];
    proof {
        assert(entries_view(entries@) =~= notification_json(*n)->Object_0);
    }
    Json::object(entries)
}

/// The JSON form of notifications.
pub open spec fn notifications_json(list: Seq<NotificationEntry>) -> JsonView {
    JsonView::List(list.map_values(|n: NotificationEntry| notification_json(n)))
}

fn notifications_to_json(list: &Vec<NotificationEntry>) -> (j: Json)
    ensures
        j@ == notifications_json(list@),
{
    let mut items: Vec<Json> = Vec::new();
    let mut i: usize = 0;
    while i < list.len()
        invariant
            i <= list@.len(),
            items@.len() == i,
            forall|k: int| 0 <= k < i ==> (#[trigger] items@[k])@ == notification_json(list@[k]),
        decreases list@.len() - i,
    {
        items.push(notification_to_json(&list[i]));
        i = i + 1;
    }
    proof {
        assert(list_view(items@) =~= notifications_json(list@)->List_0);
    }
    Json::list(items)
}

/// The JSON form of the notifications of a category.
pub open spec fn group_json(g: NotificationGroup) -> JsonView {
    JsonView::Object(
        seq![
            ("category"@, JsonView::Text(g.category@)),
            ("items"@, notifications_json(g.items@)),
            ("latest_at"@, time_json(at_second(g.latest_at))),
            ("source"@, JsonView::Text(g.source@)),
            ("title"@, JsonView::Text(g.title@)),
            ("total_count"@, JsonView::Number(int_text(g.total_count as int))),
            ("unread_count"@, JsonView::Number(int_text(g.unread_count as int))),
        ],
    )
}

fn group_to_json(g: &NotificationGroup) -> (j: Json)
    ensures
        j@ == group_json(*g),
{
    let entries = vec![
        entry("category", Json::text(g.category.as_str())),
        entry("items", notifications_to_json(&g.items)),
        entry(
            "latest_at",
            time_value(crate::clock::DomainTime { seconds: g.latest_at, nanos: 0 }),
        ),
        entry("source", Json::text(g.source.as_str())),
        entry("title", Json::text(g.title.as_str())),
        entry("total_count", Json::signed(g.total_count)),
        entry("unread_count", Json::signed(g.unread_count)),
    ];
    proof {
        assert(entries_view(entries@) =~= group_json(*g)->Object_0);
    }
    Json::object(entries)
}

/// The JSON form of groups of notifications.
pub open spec fn groups_json(list: Seq<NotificationGroup>) -> JsonView {
    JsonView::List(list.map_values(|g: NotificationGroup| group_json(g)))
}

fn groups_to_json(list: &Vec<NotificationGroup>) -> (j: Json)
    ensures
        j@ == groups_json(list@),
{
    let mut items: Vec<Json> = Vec::new();
    let mut i: usize = 0;
    while i < list.len()
        invariant
            i <= list@.len(),
            items@.len() == i,
            forall|k: int| 0 <= k < i ==> (#[trigger] items@[k])@ == group_json(list@[k]),
        decreases list@.len() - i,
    {
        items.push(group_to_json(&list[i]));
        i = i + 1;
    }
    proof {
        assert(list_view(items@) =~= groups_json(list@)->List_0);
    }
    Json::list(items)
}

/// Whether the search was told of a notification that is there.
pub open spec fn notification_indexed(old: RemiSdk, new: RemiSdk, id: i64) -> bool {
    match first_data(new.storage.notifications.data(), is_notification(id)) {
        Some(n) => search_asked(
            old.search@,
            new.search@,
            seq![IngestView::Upsert { document: notification_document(n) }],
        ),
        None => new.search@ == old.search@,
    }
}

impl RemiSdk {
    /// The groups of notifications as JSON, the latest first.
    pub fn list_notifications_grouped_json(&self, limit: u32) -> (text: String)
        requires
            self.storage.notifications.rows@.len() <= i64::MAX,
        ensures
            exists|groups: Seq<NotificationGroup>|
                groups_shown(groups, self.storage.notifications.data(), limit) && text@
                    == json_text(#[trigger] groups_json(groups)),
    {
        let groups = self.storage.list_notifications_grouped(limit);
        let j = groups_to_json(&groups);
        write_json(&j)
    }

    /// The notifications of a category as JSON, the latest first.
    pub fn list_notifications_by_category_json(&self, category: &str, limit: u32) -> (text: String)
        ensures
            text@ == json_text(
                notifications_json(
                    page(
                        ranked(
                            self.storage.notifications.data(),
                            in_category(category@),
                            by_arrival(),
                            true,
                        ),
                        Some(limit),
                        0,
                    ),
                ),
            ),
    {
        let items = self.storage.list_notifications_by_category(category, limit);
        let j = notifications_to_json(&items);
        write_json(&j)
    }

    /// Notifications as JSON, the latest first.
    pub fn list_notifications_flat_json(&self, limit: u32, offset: u32) -> (text: String)
        ensures
            text@ == json_text(
                notifications_json(
                    page(
                        ranked(self.storage.notifications.data(), every(), by_arrival(), true),
                        Some(limit),
                        offset,
                    ),
                ),
            ),
    {
        let items = self.storage.list_notifications_flat(limit, offset);
        let j = notifications_to_json(&items);
        write_json(&j)
    }

    /// The latest notification that was not read, as JSON.
    pub fn get_latest_unread_notification_json(&self) -> (out: Option<String>)
        ensures
            opt_view(out) == match first_of(
                ranked(self.storage.notifications.data(), not_read(), by_arrival(), true),
            ) {
                Some(n) => Some(json_text(notification_json(n))),
                None => None,
            },
    {
        match self.storage.get_latest_unread_notification() {
            Some(n) => {
                let j = notification_to_json(&n);
                Some(write_json(&j))
            },
            None => None,
        }
    }

    /// How many notifications were not read.
    pub fn get_unread_notification_count(&self) -> (n: i64)
        requires
            self.storage.notifications.rows@.len() <= i64::MAX,
        ensures
            n == self.storage.notifications.data().filter(not_read()).len(),
    {
        self.storage.get_unread_notification_count()
    }

    fn index_notification(&mut self, notification_id: i64)
        ensures
            final(self).storage == old(self).storage,
            final(self).documents == old(self).documents,
            final(self).notification_events == old(self).notification_events,
            notification_indexed(*old(self), *final(self), notification_id),
    {
        if let Some(n) = self.storage.get_notification(notification_id) {
            self.enqueue_search_document(SearchDocument::from_notification(&n));
        }
    }

    /// Marks a notification as read, and tells of it.
    pub fn mark_notification_read(&mut self, notification_id: i64)
        ensures
            final(self).documents == old(self).documents,
            final(self).storage == (Storage {
                notifications: final(self).storage.notifications,
                ..old(self).storage
            }),
            final(self).storage.notifications.rows@ == rows_updated(
                old(self).storage.notifications.rows@,
                is_notification(notification_id),
                read_now(),
            ),
            notification_indexed(*old(self), *final(self), notification_id),
            final(self).notification_events@ == old(self).notification_events@.push(
                NotificationEvent::Read { notification_id },
            ),
            final(self).storage.notifications.next_id == old(self).storage.notifications.next_id,
            old(self).storage.well_formed() ==> final(self).storage.well_formed(),
    {
        self.storage.mark_notification_read(notification_id);
        self.index_notification(notification_id);
        self.emit_notification_event(NotificationEvent::Read { notification_id });
    }

    /// Keeps what the user answered to a notification at `now`, and tells of it.
    pub fn record_notification_response_at(
        &mut self,
        notification_id: i64,
        action: &str,
        now: i64,
    )
        ensures
            final(self).documents == old(self).documents,
            final(self).storage == (Storage {
                notifications: final(self).storage.notifications,
                ..old(self).storage
            }),
            exists|answer: String|
                answer@ == action@ && final(self).storage.notifications.rows@
                    == #[trigger] rows_updated(
                    old(self).storage.notifications.rows@,
                    is_notification(notification_id),
                    responded(answer, now),
                ),
            notification_indexed(*old(self), *final(self), notification_id),
            exists|answer: String|
                answer@ == action@ && final(self).notification_events@
                    == #[trigger] old(self).notification_events@.push(
                    NotificationEvent::Responded { notification_id, action: answer },
                ),
            final(self).storage.notifications.next_id == old(self).storage.notifications.next_id,
            old(self).storage.well_formed() ==> final(self).storage.well_formed(),
    {
        self.storage.record_notification_response_at(notification_id, action, now);
        let ghost middle = self.storage;
        self.index_notification(notification_id);
        let answer = owned(action);
        let ghost said = answer;
        self.emit_notification_event(
            NotificationEvent::Responded { notification_id, action: answer },
        );
        proof {
            assert(self.notification_events@ == old(self).notification_events@.push(
                NotificationEvent::Responded { notification_id, action: said },
            ));
        }
    }

    /// Keeps what the user answered to a notification now, and tells of it.
    pub fn record_notification_response(&mut self, notification_id: i64, action: &str)
        ensures
            final(self).documents == old(self).documents,
            final(self).storage == (Storage {
                notifications: final(self).storage.notifications,
                ..old(self).storage
            }),
            exists|answer: String, now: i64|
                clock_seconds(now) && answer@ == action@ && final(self).storage.notifications.rows@
                    == #[trigger] rows_updated(
                    old(self).storage.notifications.rows@,
                    is_notification(notification_id),
                    responded(answer, now),
                ),
            notification_indexed(*old(self), *final(self), notification_id),
            exists|answer: String|
                answer@ == action@ && final(self).notification_events@
                    == #[trigger] old(self).notification_events@.push(
                    NotificationEvent::Responded { notification_id, action: answer },
                ),
            final(self).storage.notifications.next_id == old(self).storage.notifications.next_id,
            old(self).storage.well_formed() ==> final(self).storage.well_formed(),
    {
        let now: i64 = crate::clock::now_seconds();
        self.record_notification_response_at(notification_id, action, now);
    }

    /// Marks the notifications of a category as read, and tells of it.
    pub fn mark_category_notifications_read(&mut self, category: &str)
        ensures
            final(self).documents == old(self).documents,
            final(self).search == old(self).search,
            final(self).storage == (Storage {
                notifications: final(self).storage.notifications,
                ..old(self).storage
            }),
            final(self).storage.notifications.rows@ == rows_updated(
                old(self).storage.notifications.rows@,
                in_category(category@),
                read_now(),
            ),
            exists|name: String|
                name@ == category@ && final(self).notification_events@
                    == #[trigger] old(self).notification_events@.push(
                    NotificationEvent::CategoryRead { category: name },
                ),
            final(self).storage.notifications.next_id == old(self).storage.notifications.next_id,
            old(self).storage.well_formed() ==> final(self).storage.well_formed(),
    {
        self.storage.mark_category_notifications_read(category);
        let name = owned(category);
        let ghost said = name;
        self.emit_notification_event(NotificationEvent::CategoryRead { category: name });
        proof {
            assert(self.notification_events@ == old(self).notification_events@.push(
                NotificationEvent::CategoryRead { category: said },
            ));
        }
    }

    /// Marks all notifications as read, and tells of it.
    pub fn mark_all_notifications_read(&mut self)
        ensures
            final(self).documents == old(self).documents,
            final(self).search == old(self).search,
            final(self).storage == (Storage {
                notifications: final(self).storage.notifications,
                ..old(self).storage
            }),
            final(self).storage.notifications.rows@ == rows_updated(
                old(self).storage.notifications.rows@,
                not_read(),
                read_now(),
            ),
            final(self).notification_events@ == old(self).notification_events@.push(
                NotificationEvent::AllRead,
            ),
            final(self).storage.notifications.next_id == old(self).storage.notifications.next_id,
            old(self).storage.well_formed() ==> final(self).storage.well_formed(),
    {
        self.storage.mark_all_notifications_read();
        self.emit_notification_event(NotificationEvent::AllRead);
    }

    /// Removes the notifications of a category from the store and from the search, and tells
    /// of it.
    pub fn delete_notifications_by_category(&mut self, category: &str)
        ensures
            final(self).documents == old(self).documents,
            final(self).storage == (Storage {
                notifications: final(self).storage.notifications,
                ..old(self).storage
            }),
            final(self).storage.notifications.rows@ == rows_kept(
                old(self).storage.notifications.rows@,
                outside_category(category@),
            ),
            search_asked(
                old(self).search@,
                final(self).search@,
                seq![
                    IngestView::DeleteByParent {
                        kind: SearchEntityKind::Notification,
                        parent_id: category@,
                    },
                ],
            ),
            exists|name: String|
                name@ == category@ && final(self).notification_events@
                    == #[trigger] old(self).notification_events@.push(
                    NotificationEvent::CategoryDeleted { category: name },
                ),
            final(self).storage.notifications.next_id == old(self).storage.notifications.next_id,
            old(self).storage.well_formed() ==> final(self).storage.well_formed(),
    {
        self.storage.delete_notifications_by_category(category);
        let actions = vec![
            SearchIngestAction::DeleteByParent {
                kind: SearchEntityKind::Notification,
                parent_id: owned(category),
            },
        ];
        proof {
            assert(ingest_views(actions@) =~= seq![
                IngestView::DeleteByParent {
                    kind: SearchEntityKind::Notification,
                    parent_id: category@,
                },
            ]);
        }
        self.enqueue_search_actions(actions);
        let name = owned(category);
        let ghost said = name;
        self.emit_notification_event(NotificationEvent::CategoryDeleted { category: name });
        proof {
            assert(self.notification_events@ == old(self).notification_events@.push(
                NotificationEvent::CategoryDeleted { category: said },
            ));
        }
    }
}

/// After everything was marked as read, nothing is unread.
pub proof fn law_nothing_unread_after_all_read(old: Storage, new: Storage)
    requires
        new.notifications.rows@ == rows_updated(old.notifications.rows@, not_read(), read_now()),
    ensures
        new.notifications.data().filter(not_read()).len() == 0,
{
    crate::storage::notifications::law_mark_all_read(old.notifications.rows@);
}

} // verus!
