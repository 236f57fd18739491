//! What a rebuild puts into the index, and what of a text becomes words of it.
use super::documents::{
    action_document, agent_version_document, chat_message_document, chat_session_document,
    collection_document, notification_document, thing_document, IngestView,
};
use super::provider::{core_documents, upserted_snapshot};
use super::tokens::{index_words, is_index_word, RawTokenView};
use crate::error::ErrorView;
use crate::letters::capped_bytes;
use crate::rows::{ActionDefinition, AgentVersion, ChatMessage, ChatSession, NotificationEntry};
use crate::storage::chat::{by_last_activity, by_message_time, by_version_change, every};
use crate::storage::listing_laws::lemma_listed;
use crate::storage::notifications::by_arrival;
use crate::storage::Storage;
use crate::storage::triggers::by_action_creation;
use crate::table::{page, ranked};
use crate::things_docs::SetView;
use crate::things_local::{snapshot_result, SnapshotView};
use crate::things_types::SnapshotOptions;
use vstd::prelude::*;

verus! {

proof fn lemma_added<T>(a: Seq<T>, b: Seq<T>, x: T)
    ensures
        a.contains(x) ==> (a + b).contains(x),
        b.contains(x) ==> (a + b).contains(x),
{
    if a.contains(x) {
        let k = choose|k: int| 0 <= k < a.len() && a[k] == x;
        assert((a + b)[k] == x);
    }
    if b.contains(x) {
        let k = choose|k: int| 0 <= k < b.len() && b[k] == x;
        assert((a + b)[a.len() + k] == x);
    }
}

/// A rebuild puts in the document of every collection and of every thing that is shown.
pub proof fn law_shown_things_are_indexed(s: SnapshotView, i: int)
    ensures
        0 <= i < s.collections.len() ==> upserted_snapshot(
            Ok::<SnapshotView, ErrorView>(s),
        ).contains(IngestView::Upsert { document: collection_document(s.collections[i]) }),
        0 <= i < s.things.len() ==> upserted_snapshot(Ok::<SnapshotView, ErrorView>(s)).contains(
            IngestView::Upsert { document: thing_document(s.things[i]) },
        ),
{
    let all = upserted_snapshot(Ok::<SnapshotView, ErrorView>(s));
    if 0 <= i < s.collections.len() {
        assert(all[i] == (IngestView::Upsert { document: collection_document(s.collections[i]) }));
    }
    if 0 <= i < s.things.len() {
        assert(all[s.collections.len() + i] == (IngestView::Upsert {
            document: thing_document(s.things[i]),
        }));
    }
}

proof fn lemma_parts(
    a: Seq<IngestView>,
    b: Seq<IngestView>,
    c: Seq<IngestView>,
    d: Seq<IngestView>,
    e: Seq<IngestView>,
    f: Seq<IngestView>,
    x: IngestView,
)
    requires
        a.contains(x) || b.contains(x) || c.contains(x) || d.contains(x) || e.contains(x)
            || f.contains(x),
    ensures
        (a + b + c + d + e + f).contains(x),
{
    lemma_added(a, b, x);
    lemma_added(a + b, c, x);
    lemma_added(a + b + c, d, x);
    lemma_added(a + b + c + d, e, x);
    lemma_added(a + b + c + d + e, f, x);
}

/// A rebuild puts in the document of every conversation, message, notification, action and version
/// of an agent that is stored, and what is shown of the things.
pub proof fn law_everything_is_indexed(
    storage: Storage,
    set: SetView,
    now: Seq<char>,
    session: ChatSession,
    message: ChatMessage,
    notification: NotificationEntry,
    action: ActionDefinition,
    version: AgentVersion,
    x: IngestView,
)
    requires
        storage.notifications.data().len() <= u32::MAX,
    ensures
        ({
            let all = core_documents(storage, Some(set), now);
            let seen = snapshot_result(
                storage.things_actor_meta.data(),
                set,
                SnapshotOptions { include_content: true },
                now,
            );
            &&& storage.chat_sessions.data().contains(session) ==> all.contains(
                IngestView::Upsert { document: chat_session_document(session) },
            )
            &&& storage.chat_messages.data().contains(message) ==> all.contains(
                IngestView::Upsert {
                    document: chat_message_document(
                        message.session_id@,
                        message.message_id@,
                        message.created_at_ms,
                        message.message_json@,
                    ),
                },
            )
            &&& storage.notifications.data().contains(notification) ==> all.contains(
                IngestView::Upsert { document: notification_document(notification) },
            )
            &&& storage.actions.data().contains(action) ==> all.contains(
                IngestView::Upsert { document: action_document(action) },
            )
            &&& storage.agent_versions.data().contains(version) ==> all.contains(
                IngestView::Upsert { document: agent_version_document(version) },
            )
            &&& upserted_snapshot(seen).contains(x) ==> all.contains(x)
        }),
{
    let seen = snapshot_result(
        storage.things_actor_meta.data(),
        set,
        SnapshotOptions { include_content: true },
        now,
    );
    let sessions = ranked(storage.chat_sessions.data(), every(), by_last_activity(), true);
    let messages = ranked(storage.chat_messages.data(), every(), by_message_time(), false);
    let notes = ranked(storage.notifications.data(), every(), by_arrival(), true);
    let actions = ranked(storage.actions.data(), every(), by_action_creation(), false);
    let versions = ranked(storage.agent_versions.data(), every(), by_version_change(), true);
    lemma_listed(storage.chat_sessions.data(), every(), by_last_activity(), true, session);
    lemma_listed(storage.chat_messages.data(), every(), by_message_time(), false, message);
    lemma_listed(storage.notifications.data(), every(), by_arrival(), true, notification);
    lemma_listed(storage.actions.data(), every(), by_action_creation(), false, action);
    lemma_listed(storage.agent_versions.data(), every(), by_version_change(), true, version);
    lemma_all_kept(storage.notifications.data());
    assert(page(sessions, None, 0) =~= sessions);
    assert(page(notes, Some(u32::MAX), 0) =~= notes);
    let a = upserted_snapshot(seen);
    let b = super::provider::upserted_sessions(sessions);
    let c = super::provider::upserted_messages(messages);
    let d = super::provider::upserted_notifications(notes);
    let e = super::provider::upserted_actions(actions);
    let f = super::provider::upserted_versions(versions);
    assert(core_documents(storage, Some(set), now) == a + b + c + d + e + f);
    if storage.chat_sessions.data().contains(session) {
        let k = choose|k: int| 0 <= k < sessions.len() && sessions[k] == session;
        let x = IngestView::Upsert { document: chat_session_document(session) };
        assert(b[k] == x);
        lemma_parts(a, b, c, d, e, f, x);
    }
    if storage.chat_messages.data().contains(message) {
        let k = choose|k: int| 0 <= k < messages.len() && messages[k] == message;
        let x = IngestView::Upsert {
            document: chat_message_document(
                message.session_id@,
                message.message_id@,
                message.created_at_ms,
                message.message_json@,
            ),
        };
        assert(c[k] == x);
        lemma_parts(a, b, c, d, e, f, x);
    }
    if storage.notifications.data().contains(notification) {
        let k = choose|k: int| 0 <= k < notes.len() && notes[k] == notification;
        let x = IngestView::Upsert { document: notification_document(notification) };
        assert(d[k] == x);
        lemma_parts(a, b, c, d, e, f, x);
    }
    if storage.actions.data().contains(action) {
        let k = choose|k: int| 0 <= k < actions.len() && actions[k] == action;
        let x = IngestView::Upsert { document: action_document(action) };
        assert(e[k] == x);
        lemma_parts(a, b, c, d, e, f, x);
    }
    if storage.agent_versions.data().contains(version) {
        let k = choose|k: int| 0 <= k < versions.len() && versions[k] == version;
        let x = IngestView::Upsert { document: agent_version_document(version) };
        assert(f[k] == x);
        lemma_parts(a, b, c, d, e, f, x);
    }
    if a.contains(x) {
        lemma_parts(a, b, c, d, e, f, x);
    }
}

proof fn lemma_all_kept(data: Seq<NotificationEntry>)
    ensures
        ranked(data, every(), by_arrival(), true).len() <= data.len(),
{
    broadcast use vstd::seq_lib::group_to_multiset_ensures;

    crate::table::law_ranked_is_sorted_selection(data, every(), by_arrival(), true);
    let list = ranked(data, every(), by_arrival(), true);
    assert(list.len() == list.to_multiset().len());
    data.lemma_filter_len(every());
    assert(data.filter(every()).len() == data.filter(every()).to_multiset().len());
}

/// Each piece of a text that is no separator and is not too long is a word of the index, with the
/// place in the text that it has; there are no others.
pub proof fn law_pieces_become_words(pieces: Seq<RawTokenView>, i: int)
    ensures
        0 <= i < pieces.len() && !pieces[i].separator && 0 < pieces[i].lemma.len()
            && capped_bytes(pieces[i].lemma, usize::MAX as nat) < 65_530 ==> exists|k: int|
            0 <= k < index_words(pieces).len() && (#[trigger] index_words(pieces)[k]).text
                == pieces[i].lemma && index_words(pieces)[k].offset_from == pieces[i].byte_start
                && index_words(pieces)[k].offset_to == pieces[i].byte_end,
        0 <= i < index_words(pieces).len() ==> exists|k: int|
            0 <= k < pieces.len() && !(#[trigger] pieces[k]).separator && pieces[k].lemma
                == index_words(pieces)[i].text && pieces[k].lemma.len() > 0
                && index_words(pieces)[i].offset_from == pieces[k].byte_start && capped_bytes(
                pieces[k].lemma,
                usize::MAX as nat,
            ) < 65_530,
    decreases pieces.len(),
{
    let all = index_words(pieces);
    if pieces.len() > 0 {
        let front = pieces.drop_last();
        let words = index_words(front);
        law_pieces_become_words(front, i);
        if 0 <= i < pieces.len() && is_index_word(pieces[i]) {
            if i < front.len() {
                assert(front[i] == pieces[i]);
                let k = choose|k: int|
                    0 <= k < words.len() && (#[trigger] words[k]).text == front[i].lemma
                        && words[k].offset_from == front[i].byte_start && words[k].offset_to
                        == front[i].byte_end;
                assert(all[k] == words[k]);
            } else {
                assert(all[words.len() as int].text == pieces[i].lemma);
            }
        }
        if 0 <= i < all.len() {
            if i < words.len() {
                let k = choose|k: int|
                    0 <= k < front.len() && !(#[trigger] front[k]).separator && front[k].lemma
                        == words[i].text && front[k].lemma.len() > 0 && words[i].offset_from
                        == front[k].byte_start && capped_bytes(
                        front[k].lemma,
                        usize::MAX as nat,
                    ) < 65_530;
                assert(pieces[k] == front[k]);
            } else {
                assert(pieces[pieces.len() - 1] == pieces.last());
            }
        }
    }
}

} // verus!
