//! Conversations, versions of agents, and the data sets that agents are evaluated on.
use super::{
    has_session_id, member_key, run_eval_key, run_item_key, session_exists, session_key, Storage,
};
use crate::clock::{clock_seconds, now_seconds};
use crate::error::{failure, ErrorView, SdkError};
use crate::rows::{
    AgentVersion, ChatMessage, ChatRuntimeState, ChatSession, DatasetMember, EvalDataset,
    EvalDatasetRun, EvalDatasetRunEval, RunItem,
};
use crate::table::{
    any_data, at_most_one, data_of, distinct_by, first_data, group_keyed, is_ranked, keyed,
    law_added_come_back, law_kept_rows_hold_kept_data, law_keyed_is_found_once, law_listed_once,
    law_removed_is_gone, law_upsert_leaves_others, law_upsert_read_back, page, ranked, rows_kept,
    rows_updated, rows_upserted, take_page, Rank, Record, Row,
};
use crate::text::{owned, same};
use vstd::prelude::*;

verus! {

/// A change of a conversation.
#[derive(Debug)]
pub struct ChatSessionUpdate {
    pub session_id: String,
    pub title: Option<String>,
    pub last_activity: i64,
    pub message_count: i64,
}

/// A change of a version of an agent.
#[derive(Debug)]
pub struct AgentVersionUpdate {
    pub version_id: String,
    pub name: String,
    pub raw_markdown: String,
    pub updated_at: i64,
}

/// A change of a data set.
#[derive(Debug)]
pub struct EvalDatasetUpdate {
    pub dataset_id: String,
    pub name: String,
    pub description: Option<String>,
    pub updated_at: i64,
}

/// A conversation in a data set, with what is known of the conversation.
#[derive(Debug)]
pub struct EvalDatasetSession {
    pub dataset_id: String,
    pub session_id: String,
    pub added_at: i64,
    pub title: Option<String>,
    pub last_activity: Option<i64>,
    pub message_count: Option<i64>,
}

/// What a run made of a conversation, with what is known of the conversation.
#[derive(Debug)]
pub struct EvalDatasetRunItem {
    pub item: RunItem,
    pub title: Option<String>,
    pub last_activity: Option<i64>,
    pub message_count: Option<i64>,
}

pub open spec fn every<T>() -> spec_fn(T) -> bool {
    |x: T| true
}

pub open spec fn by_last_activity() -> spec_fn(ChatSession) -> Rank {
    |s: ChatSession| (s.last_activity, 0i64)
}

/// How a conversation that is there takes over a new one.
pub open spec fn session_taken_over(new: ChatSession) -> spec_fn(ChatSession) -> ChatSession {
    |s: ChatSession|
        ChatSession {
            title: new.title,
            last_activity: new.last_activity,
            message_count: new.message_count,
            ..s
        }
}

pub open spec fn session_changed(u: ChatSessionUpdate) -> spec_fn(ChatSession) -> ChatSession {
    |s: ChatSession|
        ChatSession {
            title: u.title,
            last_activity: u.last_activity,
            message_count: u.message_count,
            ..s
        }
}

pub open spec fn message_in(session: Seq<char>) -> spec_fn(ChatMessage) -> bool {
    |m: ChatMessage| m.session_id@ == session
}

pub open spec fn message_outside(session: Seq<char>) -> spec_fn(ChatMessage) -> bool {
    |m: ChatMessage| m.session_id@ != session
}

pub open spec fn is_message(session: Seq<char>, id: Seq<char>) -> spec_fn(ChatMessage) -> bool {
    |m: ChatMessage| m.session_id@ == session && m.message_id@ == id
}

pub open spec fn message_taken_over(new: ChatMessage) -> spec_fn(ChatMessage) -> ChatMessage {
    |m: ChatMessage|
        ChatMessage { created_at_ms: new.created_at_ms, message_json: new.message_json, ..m }
}

pub open spec fn by_message_time() -> spec_fn(ChatMessage) -> Rank {
    |m: ChatMessage| (m.created_at_ms, 0i64)
}

pub open spec fn state_of(session: Seq<char>) -> spec_fn(ChatRuntimeState) -> bool {
    |s: ChatRuntimeState| s.session_id@ == session
}

pub open spec fn state_not_of(session: Seq<char>) -> spec_fn(ChatRuntimeState) -> bool {
    |s: ChatRuntimeState| s.session_id@ != session
}

pub open spec fn state_taken_over(new: ChatRuntimeState) -> spec_fn(
    ChatRuntimeState,
) -> ChatRuntimeState {
    |s: ChatRuntimeState|
        ChatRuntimeState { state_json: new.state_json, updated_at: new.updated_at, ..s }
}

pub open spec fn session_other(id: Seq<char>) -> spec_fn(ChatSession) -> bool {
    |s: ChatSession| s.session_id@ != id
}

pub open spec fn member_not_session(id: Seq<char>) -> spec_fn(DatasetMember) -> bool {
    |m: DatasetMember| m.session_id@ != id
}

pub open spec fn message_texts(messages: Seq<ChatMessage>) -> Seq<String> {
    messages.map_values(|m: ChatMessage| m.message_json)
}

/// Whether a store is another one after the runtime state of a conversation was written.
pub open spec fn state_written(
    old: Storage,
    new: Storage,
    session: Seq<char>,
    state: Seq<char>,
    now: i64,
) -> bool {
    exists|row: ChatRuntimeState|
        row.session_id@ == session && row.state_json@ == state && row.updated_at == now && new == (
        Storage { chat_runtime_state: new.chat_runtime_state, ..old })
            && new.chat_runtime_state.rows@ == #[trigger] rows_upserted(
            old.chat_runtime_state.rows@,
            state_of(session),
            state_taken_over(row),
            row,
        )
}

/// A conversation that was written is there as it was written, but for the time of its
/// creation where it was there before; every other one is as it was.
pub proof fn law_session_read_after_write(
    rows: Seq<Row<ChatSession>>,
    session: ChatSession,
    other: Seq<char>,
)
    ensures
        ({
            let new = data_of(
                rows_upserted(
                    rows,
                    has_session_id(session.session_id@),
                    session_taken_over(session),
                    session,
                ),
            );
            &&& first_data(new, has_session_id(session.session_id@)) matches Some(s) && s.title
                == session.title && s.last_activity == session.last_activity && s.message_count
                == session.message_count && s.created_at == (match first_data(
                data_of(rows),
                has_session_id(session.session_id@),
            ) {
                Some(before) => before.created_at,
                None => session.created_at,
            })
            &&& other != session.session_id@ ==> first_data(new, has_session_id(other))
                == first_data(data_of(rows), has_session_id(other))
        }),
{
    let hit = has_session_id(session.session_id@);
    law_upsert_read_back(rows, hit, session_taken_over(session), session);
    if other != session.session_id@ {
        law_upsert_leaves_others(
            rows,
            hit,
            session_taken_over(session),
            session,
            has_session_id(other),
        );
    }
}

/// A message that was written is there as it was written; every other one is as it was.
pub proof fn law_message_read_after_write(
    rows: Seq<Row<ChatMessage>>,
    message: ChatMessage,
    other: (Seq<char>, Seq<char>),
)
    ensures
        ({
            let hit = is_message(message.session_id@, message.message_id@);
            let new = data_of(rows_upserted(rows, hit, message_taken_over(message), message));
            &&& first_data(new, hit) matches Some(m) && m.message_json == message.message_json
                && m.created_at_ms == message.created_at_ms
            &&& other != (message.session_id@, message.message_id@) ==> first_data(
                new,
                is_message(other.0, other.1),
            ) == first_data(data_of(rows), is_message(other.0, other.1))
        }),
{
    let hit = is_message(message.session_id@, message.message_id@);
    law_upsert_read_back(rows, hit, message_taken_over(message), message);
    if other != (message.session_id@, message.message_id@) {
        law_upsert_leaves_others(
            rows,
            hit,
            message_taken_over(message),
            message,
            is_message(other.0, other.1),
        );
    }
}

/// The runtime state of a conversation that was written is the one that is there; those of
/// other conversations are as they were.
pub proof fn law_runtime_state_read_after_write(
    old: Storage,
    new: Storage,
    session: Seq<char>,
    state: Seq<char>,
    now: i64,
    other: Seq<char>,
)
    requires
        state_written(old, new, session, state, now),
    ensures
        first_data(new.chat_runtime_state.data(), state_of(session)) matches Some(s)
            && s.state_json@ == state && s.updated_at == now,
        other != session ==> first_data(new.chat_runtime_state.data(), state_of(other))
            == first_data(old.chat_runtime_state.data(), state_of(other)),
{
    let row = choose|row: ChatRuntimeState|
        row.session_id@ == session && row.state_json@ == state && row.updated_at == now && new == (
        Storage { chat_runtime_state: new.chat_runtime_state, ..old })
            && new.chat_runtime_state.rows@ == #[trigger] rows_upserted(
            old.chat_runtime_state.rows@,
            state_of(session),
            state_taken_over(row),
            row,
        );
    let rows = old.chat_runtime_state.rows@;
    law_upsert_read_back(rows, state_of(session), state_taken_over(row), row);
    if other != session {
        law_upsert_leaves_others(
            rows,
            state_of(session),
            state_taken_over(row),
            row,
            state_of(other),
        );
    }
}

impl Storage {
    /// Writes a conversation; one that is there keeps the time of its creation.
    pub fn upsert_chat_session(&mut self, session: &ChatSession)
        ensures
            *final(self) == (Storage { chat_sessions: final(self).chat_sessions, ..*old(self) }),
            final(self).chat_sessions.rows@ == rows_upserted(
                old(self).chat_sessions.rows@,
                has_session_id(session.session_id@),
                session_taken_over(*session),
                *session,
            ),
            old(self).well_formed() ==> final(self).well_formed(),
    {
        broadcast use group_keyed;

        let hit = |s: &ChatSession| -> (b: bool)
            ensures
                b == has_session_id(session.session_id@)(*s),
            { same(s.session_id.as_str(), session.session_id.as_str()) };
        let change = |s: &ChatSession| -> (out: ChatSession)
            ensures
                out == session_taken_over(*session)(*s),
            {
                ChatSession {
                    session_id: s.session_id.clone(),
                    title: session.title.clone(),
                    created_at: s.created_at,
                    last_activity: session.last_activity,
                    message_count: session.message_count,
                }
            };
        self.chat_sessions.upsert(
            hit,
            change,
            session.duplicate(),
            Ghost(has_session_id(session.session_id@)),
            Ghost(session_taken_over(*session)),
        );
    }

    /// A conversation by its id.
    pub fn get_chat_session(&self, session_id: &str) -> (out: Option<ChatSession>)
        ensures
            out == first_data(self.chat_sessions.data(), has_session_id(session_id@)),
    {
        let hit = |s: &ChatSession| -> (b: bool)
            ensures
                b == has_session_id(session_id@)(*s),
            { same(s.session_id.as_str(), session_id) };
        self.chat_sessions.first(hit, Ghost(has_session_id(session_id@)))
    }

    /// The conversations, the most recently active first.
    pub fn list_chat_sessions(&self, limit: Option<u32>) -> (out: Vec<ChatSession>)
        ensures
            out@ == page(
                ranked(self.chat_sessions.data(), every(), by_last_activity(), true),
                limit,
                0,
            ),
    {
        let keep = |s: &ChatSession| -> (b: bool)
            ensures
                b == every::<ChatSession>()(*s),
            { true };
        let rank = |s: &ChatSession| -> (k: Rank)
            ensures
                k == by_last_activity()(*s),
            { (s.last_activity, 0) };
        let all = self.chat_sessions.select(
            keep,
            rank,
            true,
            Ghost(every()),
            Ghost(by_last_activity()),
        );
        take_page(&all, limit, 0)
    }

    /// Writes title, activity and size of a conversation that is there.
    pub fn update_session_activity(&mut self, update: &ChatSessionUpdate)
        ensures
            *final(self) == (Storage { chat_sessions: final(self).chat_sessions, ..*old(self) }),
            final(self).chat_sessions.rows@ == rows_updated(
                old(self).chat_sessions.rows@,
                has_session_id(update.session_id@),
                session_changed(*update),
            ),
            old(self).well_formed() ==> final(self).well_formed(),
    {
        broadcast use group_keyed;

        let hit = |s: &ChatSession| -> (b: bool)
            ensures
                b == has_session_id(update.session_id@)(*s),
            { same(s.session_id.as_str(), update.session_id.as_str()) };
        let change = |s: &ChatSession| -> (out: ChatSession)
            ensures
                out == session_changed(*update)(*s),
            {
                ChatSession {
                    session_id: s.session_id.clone(),
                    title: update.title.clone(),
                    created_at: s.created_at,
                    last_activity: update.last_activity,
                    message_count: update.message_count,
                }
            };
        self.chat_sessions.update(
            hit,
            change,
            Ghost(has_session_id(update.session_id@)),
            Ghost(session_changed(*update)),
        );
    }

    /// Removes a conversation with its messages, its runtime state and its places in data
    /// sets.
    pub fn delete_chat_session(&mut self, session_id: &str)
        ensures
            *final(self) == (Storage {
                chat_sessions: final(self).chat_sessions,
                chat_messages: final(self).chat_messages,
                chat_runtime_state: final(self).chat_runtime_state,
                eval_dataset_sessions: final(self).eval_dataset_sessions,
                ..*old(self)
            }),
            final(self).chat_sessions.rows@ == rows_kept(
                old(self).chat_sessions.rows@,
                session_other(session_id@),
            ),
            final(self).chat_messages.rows@ == rows_kept(
                old(self).chat_messages.rows@,
                message_outside(session_id@),
            ),
            final(self).chat_runtime_state.rows@ == rows_kept(
                old(self).chat_runtime_state.rows@,
                state_not_of(session_id@),
            ),
            final(self).eval_dataset_sessions.rows@ == rows_kept(
                old(self).eval_dataset_sessions.rows@,
                member_not_session(session_id@),
            ),
            old(self).well_formed() ==> final(self).well_formed(),
    {
        broadcast use group_keyed;

        let keep = |m: &DatasetMember| -> (b: bool)
            ensures
                b == member_not_session(session_id@)(*m),
            { !same(m.session_id.as_str(), session_id) };
        self.eval_dataset_sessions.retain(keep, Ghost(member_not_session(session_id@)));
        self.delete_chat_messages(session_id);
        self.delete_chat_runtime_state(session_id);
        let keep = |s: &ChatSession| -> (b: bool)
            ensures
                b == session_other(session_id@)(*s),
            { !same(s.session_id.as_str(), session_id) };
        self.chat_sessions.retain(keep, Ghost(session_other(session_id@)));
    }

    /// Writes a message of a conversation.
    pub fn upsert_chat_message_json(
        &mut self,
        session_id: &str,
        message_id: &str,
        created_at_ms: i64,
        message_json: &str,
    )
        ensures
            exists|row: ChatMessage|
                row.session_id@ == session_id@ && row.message_id@ == message_id@
                    && row.created_at_ms == created_at_ms && row.message_json@ == message_json@
                    && *final(self) == (Storage {
                    chat_messages: final(self).chat_messages,
                    ..*old(self)
                }) && final(self).chat_messages.rows@ == #[trigger] rows_upserted(
                    old(self).chat_messages.rows@,
                    is_message(session_id@, message_id@),
                    message_taken_over(row),
                    row,
                ),
            old(self).well_formed() ==> final(self).well_formed(),
    {
        broadcast use group_keyed;

        let row = ChatMessage {
            session_id: owned(session_id),
            message_id: owned(message_id),
            created_at_ms,
            message_json: owned(message_json),
        };
        let new = row.duplicate();
        let held = &row;
        let hit = |m: &ChatMessage| -> (b: bool)
            ensures
                b == is_message(session_id@, message_id@)(*m),
            { same(m.session_id.as_str(), session_id) && same(m.message_id.as_str(), message_id) };
        let change = |m: &ChatMessage| -> (out: ChatMessage)
            ensures
                out == message_taken_over(*held)(*m),
            {
                ChatMessage {
                    session_id: m.session_id.clone(),
                    message_id: m.message_id.clone(),
                    created_at_ms: held.created_at_ms,
                    message_json: held.message_json.clone(),
                }
            };
        self.chat_messages.upsert(
            hit,
            change,
            new,
            Ghost(is_message(session_id@, message_id@)),
            Ghost(message_taken_over(*held)),
        );
    }

    /// The messages of a conversation, the oldest first.
    pub fn list_chat_messages_json(
        &self,
        session_id: &str,
        limit: Option<u32>,
        offset: u32,
    ) -> (out: Vec<String>)
        ensures
            out@ == message_texts(
                page(
                    ranked(
                        self.chat_messages.data(),
                        message_in(session_id@),
                        by_message_time(),
                        false,
                    ),
                    limit,
                    offset,
                ),
            ),
    {
        let keep = |m: &ChatMessage| -> (b: bool)
            ensures
                b == message_in(session_id@)(*m),
            { same(m.session_id.as_str(), session_id) };
        let rank = |m: &ChatMessage| -> (k: Rank)
            ensures
                k == by_message_time()(*m),
            { (m.created_at_ms, 0) };
        let all = self.chat_messages.select(
            keep,
            rank,
            false,
            Ghost(message_in(session_id@)),
            Ghost(by_message_time()),
        );
        let list = take_page(&all, limit, offset);
        let mut out: Vec<String> = Vec::new();
        let mut i: usize = 0;
        while i < list.len()
            invariant
                i <= list@.len(),
                out@.len() == i,
                forall|k: int| 0 <= k < i ==> #[trigger] out@[k] == list@[k].message_json,
            decreases list@.len() - i,
        {
            out.push(list[i].message_json.clone());
            i = i + 1;
        }
        proof {
            assert(out@ =~= message_texts(list@));
        }
        out
    }

    /// The messages of all conversations, the oldest first.
    pub fn list_all_chat_messages(&self) -> (out: Vec<ChatMessage>)
        ensures
            out@ == ranked(self.chat_messages.data(), every(), by_message_time(), false),
    {
        let keep = |m: &ChatMessage| -> (b: bool)
            ensures
                b == every::<ChatMessage>()(*m),
            { true };
        let rank = |m: &ChatMessage| -> (k: Rank)
            ensures
                k == by_message_time()(*m),
            { (m.created_at_ms, 0) };
        self.chat_messages.select(keep, rank, false, Ghost(every()), Ghost(by_message_time()))
    }

    /// The versions of all agents, the most recently changed first.
    pub fn list_all_agent_versions(&self) -> (out: Vec<AgentVersion>)
        ensures
            out@ == ranked(self.agent_versions.data(), every(), by_version_change(), true),
    {
        let keep = |v: &AgentVersion| -> (b: bool)
            ensures
                b == every::<AgentVersion>()(*v),
            { true };
        let rank = |v: &AgentVersion| -> (k: Rank)
            ensures
                k == by_version_change()(*v),
            { (v.updated_at, v.created_at) };
        self.agent_versions.select(keep, rank, true, Ghost(every()), Ghost(by_version_change()))
    }

    /// Removes the messages of a conversation.
    pub fn delete_chat_messages(&mut self, session_id: &str)
        ensures
            *final(self) == (Storage { chat_messages: final(self).chat_messages, ..*old(self) }),
            final(self).chat_messages.rows@ == rows_kept(
                old(self).chat_messages.rows@,
                message_outside(session_id@),
            ),
            old(self).well_formed() ==> final(self).well_formed(),
    {
        broadcast use group_keyed;

        let keep = |m: &ChatMessage| -> (b: bool)
            ensures
                b == message_outside(session_id@)(*m),
            { !same(m.session_id.as_str(), session_id) };
        self.chat_messages.retain(keep, Ghost(message_outside(session_id@)));
    }

    /// Writes the runtime state of a conversation at the time `now`.
    pub fn upsert_chat_runtime_state_json_at(
        &mut self,
        session_id: &str,
        state_json: &str,
        now: i64,
    )
        ensures
            state_written(*old(self), *final(self), session_id@, state_json@, now),
            old(self).well_formed() ==> final(self).well_formed(),
    {
        broadcast use group_keyed;

        let row = ChatRuntimeState {
            session_id: owned(session_id),
            state_json: owned(state_json),
            updated_at: now,
        };
        let new = row.duplicate();
        let held = &row;
        let hit = |s: &ChatRuntimeState| -> (b: bool)
            ensures
                b == state_of(session_id@)(*s),
            { same(s.session_id.as_str(), session_id) };
        let change = |s: &ChatRuntimeState| -> (out: ChatRuntimeState)
            ensures
                out == state_taken_over(*held)(*s),
            {
                ChatRuntimeState {
                    session_id: s.session_id.clone(),
                    state_json: held.state_json.clone(),
                    updated_at: held.updated_at,
                }
            };
        self.chat_runtime_state.upsert(
            hit,
            change,
            new,
            Ghost(state_of(session_id@)),
            Ghost(state_taken_over(*held)),
        );
    }

    /// Writes the runtime state of a conversation now.
    pub fn upsert_chat_runtime_state_json(&mut self, session_id: &str, state_json: &str)
        ensures
            exists|now: i64|
                clock_seconds(now) && #[trigger] state_written(
                    *old(self),
                    *final(self),
                    session_id@,
                    state_json@,
                    now,
                ),
            old(self).well_formed() ==> final(self).well_formed(),
    {
        let now: i64 = now_seconds();
        self.upsert_chat_runtime_state_json_at(session_id, state_json, now);
    }

    /// The runtime state of a conversation.
    pub fn get_chat_runtime_state_json(&self, session_id: &str) -> (out: Option<String>)
        ensures
            out == match first_data(self.chat_runtime_state.data(), state_of(session_id@)) {
                Some(s) => Some(s.state_json),
                None => None,
            },
    {
        let hit = |s: &ChatRuntimeState| -> (b: bool)
            ensures
                b == state_of(session_id@)(*s),
            { same(s.session_id.as_str(), session_id) };
        match self.chat_runtime_state.first(hit, Ghost(state_of(session_id@))) {
            Some(s) => Some(s.state_json),
            None => None,
        }
    }

    /// Removes the runtime state of a conversation.
    pub fn delete_chat_runtime_state(&mut self, session_id: &str)
        ensures
            *final(self) == (Storage {
                chat_runtime_state: final(self).chat_runtime_state,
                ..*old(self)
            }),
            final(self).chat_runtime_state.rows@ == rows_kept(
                old(self).chat_runtime_state.rows@,
                state_not_of(session_id@),
            ),
            old(self).well_formed() ==> final(self).well_formed(),
    {
        broadcast use group_keyed;

        let keep = |s: &ChatRuntimeState| -> (b: bool)
            ensures
                b == state_not_of(session_id@)(*s),
            { !same(s.session_id.as_str(), session_id) };
        self.chat_runtime_state.retain(keep, Ghost(state_not_of(session_id@)));
    }
}

/// The versions of an agent with an id.
pub open spec fn is_version(id: Seq<char>) -> spec_fn(AgentVersion) -> bool {
    |v: AgentVersion| v.version_id@ == id
}

pub open spec fn other_version(id: Seq<char>) -> spec_fn(AgentVersion) -> bool {
    |v: AgentVersion| v.version_id@ != id
}

pub open spec fn version_of_agent(agent: Seq<char>) -> spec_fn(AgentVersion) -> bool {
    |v: AgentVersion| v.agent_id@ == agent
}

/// The rank of a version: the latest change, then the latest creation.
pub open spec fn by_version_change() -> spec_fn(AgentVersion) -> Rank {
    |v: AgentVersion| (v.updated_at, v.created_at)
}

pub open spec fn version_changed(u: AgentVersionUpdate) -> spec_fn(AgentVersion) -> AgentVersion {
    |v: AgentVersion|
        AgentVersion {
            name: u.name,
            raw_markdown: u.raw_markdown,
            updated_at: u.updated_at,
            ..v
        }
}

pub open spec fn version_not_applied() -> spec_fn(AgentVersion) -> AgentVersion {
    |v: AgentVersion| AgentVersion { applied_at: None, ..v }
}

pub open spec fn version_applied(at: i64) -> spec_fn(AgentVersion) -> AgentVersion {
    |v: AgentVersion| AgentVersion { applied_at: Some(at), updated_at: at, ..v }
}

pub open spec fn is_dataset(id: Seq<char>) -> spec_fn(EvalDataset) -> bool {
    |d: EvalDataset| d.dataset_id@ == id
}

pub open spec fn other_dataset(id: Seq<char>) -> spec_fn(EvalDataset) -> bool {
    |d: EvalDataset| d.dataset_id@ != id
}

pub open spec fn by_dataset_change() -> spec_fn(EvalDataset) -> Rank {
    |d: EvalDataset| (d.updated_at, d.created_at)
}

pub open spec fn dataset_changed(u: EvalDatasetUpdate) -> spec_fn(EvalDataset) -> EvalDataset {
    |d: EvalDataset|
        EvalDataset { name: u.name, description: u.description, updated_at: u.updated_at, ..d }
}

pub open spec fn dataset_touched(at: i64) -> spec_fn(EvalDataset) -> EvalDataset {
    |d: EvalDataset| EvalDataset { updated_at: at, ..d }
}

pub open spec fn member_of(dataset: Seq<char>) -> spec_fn(DatasetMember) -> bool {
    |m: DatasetMember| m.dataset_id@ == dataset
}

pub open spec fn member_of_other(dataset: Seq<char>) -> spec_fn(DatasetMember) -> bool {
    |m: DatasetMember| m.dataset_id@ != dataset
}

pub open spec fn is_member(dataset: Seq<char>, session: Seq<char>) -> spec_fn(DatasetMember) -> bool {
    |m: DatasetMember| m.dataset_id@ == dataset && m.session_id@ == session
}

pub open spec fn not_member(dataset: Seq<char>, session: Seq<char>) -> spec_fn(DatasetMember) -> bool {
    |m: DatasetMember| !(m.dataset_id@ == dataset && m.session_id@ == session)
}

pub open spec fn by_addition() -> spec_fn(DatasetMember) -> Rank {
    |m: DatasetMember| (m.added_at, 0i64)
}

pub open spec fn member_added(at: i64) -> spec_fn(DatasetMember) -> DatasetMember {
    |m: DatasetMember| DatasetMember { added_at: at, ..m }
}

pub open spec fn is_run(id: Seq<char>) -> spec_fn(EvalDatasetRun) -> bool {
    |r: EvalDatasetRun| r.run_id@ == id
}

pub open spec fn run_of_dataset(dataset: Seq<char>) -> spec_fn(EvalDatasetRun) -> bool {
    |r: EvalDatasetRun| r.dataset_id@ == dataset
}

pub open spec fn run_of_other_dataset(dataset: Seq<char>) -> spec_fn(EvalDatasetRun) -> bool {
    |r: EvalDatasetRun| r.dataset_id@ != dataset
}

pub open spec fn by_run_creation() -> spec_fn(EvalDatasetRun) -> Rank {
    |r: EvalDatasetRun| (r.created_at, 0i64)
}

pub open spec fn run_touched(at: i64) -> spec_fn(EvalDatasetRun) -> EvalDatasetRun {
    |r: EvalDatasetRun| EvalDatasetRun { updated_at: at, ..r }
}

pub open spec fn item_of_run(run: Seq<char>) -> spec_fn(RunItem) -> bool {
    |i: RunItem| i.run_id@ == run
}

pub open spec fn item_of_other_dataset(dataset: Seq<char>) -> spec_fn(RunItem) -> bool {
    |i: RunItem| i.dataset_id@ != dataset
}

pub open spec fn is_item(run: Seq<char>, session: Seq<char>) -> spec_fn(RunItem) -> bool {
    |i: RunItem| i.run_id@ == run && i.session_id@ == session
}

pub open spec fn by_item_creation() -> spec_fn(RunItem) -> Rank {
    |i: RunItem| (i.created_at, 0i64)
}

pub open spec fn eval_of_run(run: Seq<char>) -> spec_fn(EvalDatasetRunEval) -> bool {
    |e: EvalDatasetRunEval| e.run_id@ == run
}

pub open spec fn eval_of_other_run(run: Seq<char>) -> spec_fn(EvalDatasetRunEval) -> bool {
    |e: EvalDatasetRunEval| e.run_id@ != run
}

pub open spec fn eval_of_other_dataset(dataset: Seq<char>) -> spec_fn(EvalDatasetRunEval) -> bool {
    |e: EvalDatasetRunEval| e.dataset_id@ != dataset
}

pub open spec fn is_eval(run: Seq<char>, session: Seq<char>) -> spec_fn(EvalDatasetRunEval) -> bool {
    |e: EvalDatasetRunEval| e.run_id@ == run && e.session_id@ == session
}

pub open spec fn by_eval_creation() -> spec_fn(EvalDatasetRunEval) -> Rank {
    |e: EvalDatasetRunEval| (e.created_at, 0i64)
}

/// A member of a data set with what the store knows of its conversation.
pub open spec fn member_shown(sessions: Seq<ChatSession>) -> spec_fn(
    DatasetMember,
) -> EvalDatasetSession {
    |m: DatasetMember|
        {
            let known = first_data(sessions, has_session_id(m.session_id@));
            EvalDatasetSession {
                dataset_id: m.dataset_id,
                session_id: m.session_id,
                added_at: m.added_at,
                title: known_title(known),
                last_activity: known_activity(known),
                message_count: known_count(known),
            }
        }
}

/// An item of a run with what the store knows of its conversation.
pub open spec fn item_shown(sessions: Seq<ChatSession>) -> spec_fn(RunItem) -> EvalDatasetRunItem {
    |i: RunItem|
        {
            let known = first_data(sessions, has_session_id(i.session_id@));
            EvalDatasetRunItem {
                item: i,
                title: known_title(known),
                last_activity: known_activity(known),
                message_count: known_count(known),
            }
        }
}

pub open spec fn known_title(s: Option<ChatSession>) -> Option<String> {
    match s {
        Some(s) => s.title,
        None => None,
    }
}

pub open spec fn known_activity(s: Option<ChatSession>) -> Option<i64> {
    match s {
        Some(s) => Some(s.last_activity),
        None => None,
    }
}

pub open spec fn known_count(s: Option<ChatSession>) -> Option<i64> {
    match s {
        Some(s) => Some(s.message_count),
        None => None,
    }
}

/// The rows that a list of new data makes.
pub open spec fn new_rows<T>(data: Seq<T>) -> Seq<Row<T>> {
    data.map_values(|d: T| Row { user_id: None, data: d })
}

pub open spec fn bare_items(items: Seq<EvalDatasetRunItem>) -> Seq<RunItem> {
    items.map_values(|i: EvalDatasetRunItem| i.item)
}

/// Whether an item of a list has the key of a stored item or of an earlier one.
pub open spec fn items_clash(stored: Seq<RunItem>, items: Seq<RunItem>) -> bool {
    exists|k: int|
        0 <= k < items.len() && #[trigger] item_clashes(stored, items, k)
}

pub open spec fn item_clashes(stored: Seq<RunItem>, items: Seq<RunItem>, k: int) -> bool {
    any_data(stored + items.take(k), is_item(items[k].run_id@, items[k].session_id@))
}

/// Whether an evaluation of a list has the key of a stored one or of an earlier one.
pub open spec fn evals_clash(
    stored: Seq<EvalDatasetRunEval>,
    evals: Seq<EvalDatasetRunEval>,
) -> bool {
    exists|k: int| 0 <= k < evals.len() && #[trigger] eval_clashes(stored, evals, k)
}

pub open spec fn eval_clashes(
    stored: Seq<EvalDatasetRunEval>,
    evals: Seq<EvalDatasetRunEval>,
    k: int,
) -> bool {
    any_data(stored + evals.take(k), is_eval(evals[k].run_id@, evals[k].session_id@))
}

proof fn lemma_items_keyed(rows: Seq<Row<RunItem>>, items: Seq<RunItem>)
    requires
        keyed(rows, run_item_key()),
        !items_clash(data_of(rows), items),
    ensures
        keyed(rows + new_rows(items), run_item_key()),
{
    reveal(keyed);
    let key = run_item_key();
    let all = rows + new_rows(items);
    assert forall|i: int, j: int| 0 <= i < j < all.len() implies key((#[trigger] all[i]).data)
        != key((#[trigger] all[j]).data) by {
        if j >= rows.len() {
            let k = j - rows.len();
            assert(!item_clashes(data_of(rows), items, k));
            let earlier = data_of(rows) + items.take(k);
            assert(!is_item(items[k].run_id@, items[k].session_id@)(earlier[i]));
            assert(earlier[i] == all[i].data);
        } else {
            assert(key(rows[i].data) != key(rows[j].data));
        }
    }
}

proof fn lemma_evals_keyed(
    rows: Seq<Row<EvalDatasetRunEval>>,
    evals: Seq<EvalDatasetRunEval>,
)
    requires
        keyed(rows, run_eval_key()),
        !evals_clash(data_of(rows), evals),
    ensures
        keyed(rows + new_rows(evals), run_eval_key()),
{
    reveal(keyed);
    let key = run_eval_key();
    let all = rows + new_rows(evals);
    assert forall|i: int, j: int| 0 <= i < j < all.len() implies key((#[trigger] all[i]).data)
        != key((#[trigger] all[j]).data) by {
        if j >= rows.len() {
            let k = j - rows.len();
            assert(!eval_clashes(data_of(rows), evals, k));
            let earlier = data_of(rows) + evals.take(k);
            assert(!is_eval(evals[k].run_id@, evals[k].session_id@)(earlier[i]));
            assert(earlier[i] == all[i].data);
        } else {
            assert(key(rows[i].data) != key(rows[j].data));
        }
    }
}

/// No conversation is listed twice.
pub proof fn law_sessions_listed_once(s: Storage, limit: Option<u32>)
    requires
        s.well_formed(),
    ensures
        distinct_by(
            page(ranked(s.chat_sessions.data(), every(), by_last_activity(), true), limit, 0),
            session_key(),
        ),
{
    law_listed_once(
        s.chat_sessions.rows@,
        every(),
        by_last_activity(),
        true,
        limit,
        0,
        session_key(),
    );
}

/// A conversation that was put into a data set is in it once, since the time that was given.
pub proof fn law_member_once(
    rows: Seq<Row<DatasetMember>>,
    item: EvalDatasetSession,
)
    requires
        keyed(rows, member_key()),
    ensures
        ({
            let member = DatasetMember {
                dataset_id: item.dataset_id,
                session_id: item.session_id,
                added_at: item.added_at,
            };
            let hit = is_member(item.dataset_id@, item.session_id@);
            let after = rows_upserted(rows, hit, member_added(item.added_at), member);
            &&& at_most_one(data_of(after), hit)
            &&& first_data(data_of(after), hit) matches Some(m) && m.added_at == item.added_at
        }),
{
    let member = DatasetMember {
        dataset_id: item.dataset_id,
        session_id: item.session_id,
        added_at: item.added_at,
    };
    let hit = is_member(item.dataset_id@, item.session_id@);
    law_keyed_is_found_once(rows, member_key(), hit, (item.dataset_id@, item.session_id@));
    law_upsert_read_back(rows, hit, member_added(item.added_at), member);
}

/// What a new run made of each conversation comes back whole, the oldest first.
pub proof fn law_run_items_come_back(
    old: Seq<RunItem>,
    items: Seq<EvalDatasetRunItem>,
    run: Seq<char>,
)
    requires
        !any_data(old, item_of_run(run)),
        forall|i: int| 0 <= i < items.len() ==> (#[trigger] items[i]).item.run_id@ == run,
    ensures
        ranked(old + bare_items(items), item_of_run(run), by_item_creation(), false).to_multiset()
            == bare_items(items).to_multiset(),
        is_ranked(
            ranked(old + bare_items(items), item_of_run(run), by_item_creation(), false),
            by_item_creation(),
            false,
        ),
{
    law_added_come_back(old, bare_items(items), item_of_run(run), by_item_creation(), false);
}

/// The evaluations that were saved for a run are all that the run has: those that it had
/// before are gone.
pub proof fn law_run_evals_come_back(
    rows: Seq<Row<EvalDatasetRunEval>>,
    evals: Seq<EvalDatasetRunEval>,
    run: Seq<char>,
)
    requires
        forall|i: int| 0 <= i < evals.len() ==> (#[trigger] evals[i]).run_id@ == run,
    ensures
        ranked(
            data_of(rows_kept(rows, eval_of_other_run(run)) + new_rows(evals)),
            eval_of_run(run),
            by_eval_creation(),
            false,
        ).to_multiset() == evals.to_multiset(),
{
    let others = rows_kept(rows, eval_of_other_run(run));
    law_removed_is_gone(rows, eval_of_other_run(run));
    let data = data_of(others);
    assert(!any_data(data, eval_of_run(run))) by {
        assert forall|i: int| 0 <= i < data.len() implies !eval_of_run(run)(
            #[trigger] data[i],
        ) by {
            assert(!(|e: EvalDatasetRunEval| !eval_of_other_run(run)(e))(data[i]));
        }
    }
    law_added_come_back(data, evals, eval_of_run(run), by_eval_creation(), false);
    assert(data_of(others + new_rows(evals)) =~= data + evals);
}

/// Whether one of the first `n` evaluations has the key of `item`.
fn holds_eval(list: &Vec<EvalDatasetRunEval>, n: usize, item: &EvalDatasetRunEval) -> (r: bool)
    requires
        n <= list@.len(),
    ensures
        r == exists|w: int|
            0 <= w < n && is_eval(item.run_id@, item.session_id@)(#[trigger] list@[w]),
{
    let mut j: usize = 0;
    while j < n
        invariant
            j <= n <= list@.len(),
            forall|w: int|
                0 <= w < j ==> !is_eval(item.run_id@, item.session_id@)(#[trigger] list@[w]),
        decreases n - j,
    {
        if same(list[j].run_id.as_str(), item.run_id.as_str())
            && same(list[j].session_id.as_str(), item.session_id.as_str()) {
            assert(is_eval(item.run_id@, item.session_id@)(list@[j as int]));
            return true;
        }
        j = j + 1;
    }
    false
}

impl Storage {
    /// Adds a version of an agent; its id must be new.
    pub fn create_agent_version(
        &mut self,
        version: &AgentVersion,
    ) -> (out: Result<(), SdkError>)
        ensures
            out is Err <==> any_data(
                old(self).agent_versions.data(),
                is_version(version.version_id@),
            ),
            out matches Err(e) ==> *final(self) == *old(self) && e@ == (ErrorView::Failure {
                message: "Failed to create agent version"@,
            }),
            out is Ok ==> *final(self)
                == (Storage { agent_versions: final(self).agent_versions, ..*old(self) })
                && final(self).agent_versions.rows@ == old(self).agent_versions.rows@.push(
                (Row { user_id: None, data: *version }),
            ),
            old(self).well_formed() ==> final(self).well_formed(),
    {
        broadcast use group_keyed;

        let hit = |x: &AgentVersion| -> (b: bool)
            ensures
                b == is_version(version.version_id@)(*x),
            { same(x.version_id.as_str(), version.version_id.as_str()) };
        if self.agent_versions.any(hit, Ghost(is_version(version.version_id@))) {
            return Err(failure("Failed to create agent version"));
        }
        self.agent_versions.push(version.duplicate());
        Ok(())
    }

    /// A version of an agent by its id.
    pub fn get_agent_version(&self, version_id: &str) -> (out: Option<AgentVersion>)
        ensures
            out == first_data(self.agent_versions.data(), is_version(version_id@)),
    {
        let hit = |v: &AgentVersion| -> (b: bool)
            ensures
                b == is_version(version_id@)(*v),
            { same(v.version_id.as_str(), version_id) };
        self.agent_versions.first(hit, Ghost(is_version(version_id@)))
    }

    /// The versions of an agent, the latest change first.
    pub fn list_agent_versions(&self, agent_id: &str) -> (out: Vec<AgentVersion>)
        ensures
            out@ == ranked(
                self.agent_versions.data(),
                version_of_agent(agent_id@),
                by_version_change(),
                true,
            ),
    {
        let keep = |v: &AgentVersion| -> (b: bool)
            ensures
                b == version_of_agent(agent_id@)(*v),
            { same(v.agent_id.as_str(), agent_id) };
        let rank = |v: &AgentVersion| -> (k: Rank)
            ensures
                k == by_version_change()(*v),
            { (v.updated_at, v.created_at) };
        let all = self.agent_versions.select(
            keep,
            rank,
            true,
            Ghost(version_of_agent(agent_id@)),
            Ghost(by_version_change()),
        );
        all
    }

    /// Writes name and text of a version.
    pub fn update_agent_version(&mut self, update: &AgentVersionUpdate)
        ensures
            *final(self) == (Storage {
                agent_versions: final(self).agent_versions,
                ..*old(self)
            }),
            final(self).agent_versions.rows@ == rows_updated(
                old(self).agent_versions.rows@,
                is_version(update.version_id@),
                version_changed(*update),
            ),
            old(self).well_formed() ==> final(self).well_formed(),
    {
        broadcast use group_keyed;

        let hit = |v: &AgentVersion| -> (b: bool)
            ensures
                b == is_version(update.version_id@)(*v),
            { same(v.version_id.as_str(), update.version_id.as_str()) };
        let change = |v: &AgentVersion| -> (out: AgentVersion)
            ensures
                out == version_changed(*update)(*v),
            {
                AgentVersion {
                    version_id: v.version_id.clone(),
                    agent_id: v.agent_id.clone(),
                    name: update.name.clone(),
                    raw_markdown: update.raw_markdown.clone(),
                    created_at: v.created_at,
                    updated_at: update.updated_at,
                    applied_at: v.applied_at,
                }
            };
        self.agent_versions.update(
            hit,
            change,
            Ghost(is_version(update.version_id@)),
            Ghost(version_changed(*update)),
        );
    }

    /// Makes a version the applied one of an agent, and the only one of that agent.
    pub fn mark_agent_version_applied(
        &mut self,
        version_id: &str,
        agent_id: &str,
        applied_at: i64,
    )
        ensures
            *final(self) == (Storage {
                agent_versions: final(self).agent_versions,
                ..*old(self)
            }),
            final(self).agent_versions.rows@ == rows_updated(
                rows_updated(
                    old(self).agent_versions.rows@,
                    version_of_agent(agent_id@),
                    version_not_applied(),
                ),
                is_version(version_id@),
                version_applied(applied_at),
            ),
            old(self).well_formed() ==> final(self).well_formed(),
    {
        broadcast use group_keyed;

        let hit = |v: &AgentVersion| -> (b: bool)
            ensures
                b == version_of_agent(agent_id@)(*v),
            { same(v.agent_id.as_str(), agent_id) };
        let change = |v: &AgentVersion| -> (out: AgentVersion)
            ensures
                out == version_not_applied()(*v),
            {
                AgentVersion {
                    version_id: v.version_id.clone(),
                    agent_id: v.agent_id.clone(),
                    name: v.name.clone(),
                    raw_markdown: v.raw_markdown.clone(),
                    created_at: v.created_at,
                    updated_at: v.updated_at,
                    applied_at: None,
                }
            };
        self.agent_versions.update(
            hit,
            change,
            Ghost(version_of_agent(agent_id@)),
            Ghost(version_not_applied()),
        );
        let hit = |v: &AgentVersion| -> (b: bool)
            ensures
                b == is_version(version_id@)(*v),
            { same(v.version_id.as_str(), version_id) };
        let change = |v: &AgentVersion| -> (out: AgentVersion)
            ensures
                out == version_applied(applied_at)(*v),
            {
                AgentVersion {
                    version_id: v.version_id.clone(),
                    agent_id: v.agent_id.clone(),
                    name: v.name.clone(),
                    raw_markdown: v.raw_markdown.clone(),
                    created_at: v.created_at,
                    updated_at: applied_at,
                    applied_at: Some(applied_at),
                }
            };
        self.agent_versions.update(
            hit,
            change,
            Ghost(is_version(version_id@)),
            Ghost(version_applied(applied_at)),
        );
    }

    /// Removes a version of an agent.
    pub fn delete_agent_version(&mut self, version_id: &str)
        ensures
            *final(self) == (Storage {
                agent_versions: final(self).agent_versions,
                ..*old(self)
            }),
            final(self).agent_versions.rows@ == rows_kept(
                old(self).agent_versions.rows@,
                other_version(version_id@),
            ),
            old(self).well_formed() ==> final(self).well_formed(),
    {
        broadcast use group_keyed;

        let keep = |v: &AgentVersion| -> (b: bool)
            ensures
                b == other_version(version_id@)(*v),
            { !same(v.version_id.as_str(), version_id) };
        self.agent_versions.retain(keep, Ghost(other_version(version_id@)));
    }

    /// Adds a data set; its id must be new.
    pub fn create_eval_dataset(&mut self, dataset: &EvalDataset) -> (out: Result<(), SdkError>)
        ensures
            out is Err <==> any_data(
                old(self).eval_datasets.data(),
                is_dataset(dataset.dataset_id@),
            ),
            out matches Err(e) ==> *final(self) == *old(self) && e@ == (ErrorView::Failure {
                message: "Failed to create eval dataset"@,
            }),
            out is Ok ==> *final(self)
                == (Storage { eval_datasets: final(self).eval_datasets, ..*old(self) })
                && final(self).eval_datasets.rows@ == old(self).eval_datasets.rows@.push(
                (Row { user_id: None, data: *dataset }),
            ),
            old(self).well_formed() ==> final(self).well_formed(),
    {
        broadcast use group_keyed;

        let hit = |x: &EvalDataset| -> (b: bool)
            ensures
                b == is_dataset(dataset.dataset_id@)(*x),
            { same(x.dataset_id.as_str(), dataset.dataset_id.as_str()) };
        if self.eval_datasets.any(hit, Ghost(is_dataset(dataset.dataset_id@))) {
            return Err(failure("Failed to create eval dataset"));
        }
        self.eval_datasets.push(dataset.duplicate());
        Ok(())
    }

    /// A data set by its id.
    pub fn get_eval_dataset(&self, dataset_id: &str) -> (out: Option<EvalDataset>)
        ensures
            out == first_data(self.eval_datasets.data(), is_dataset(dataset_id@)),
    {
        let hit = |d: &EvalDataset| -> (b: bool)
            ensures
                b == is_dataset(dataset_id@)(*d),
            { same(d.dataset_id.as_str(), dataset_id) };
        self.eval_datasets.first(hit, Ghost(is_dataset(dataset_id@)))
    }

    /// The data sets, the latest change first.
    pub fn list_eval_datasets(&self) -> (out: Vec<EvalDataset>)
        ensures
            out@ == ranked(
                self.eval_datasets.data(),
                every::<EvalDataset>(),
                by_dataset_change(),
                true,
            ),
    {
        let keep = |d: &EvalDataset| -> (b: bool)
            ensures
                b == every::<EvalDataset>()(*d),
            { true };
        let rank = |d: &EvalDataset| -> (k: Rank)
            ensures
                k == by_dataset_change()(*d),
            { (d.updated_at, d.created_at) };
        let all = self.eval_datasets.select(
            keep,
            rank,
            true,
            Ghost(every::<EvalDataset>()),
            Ghost(by_dataset_change()),
        );
        all
    }

    /// Writes name and description of a data set.
    pub fn update_eval_dataset(&mut self, update: &EvalDatasetUpdate)
        ensures
            *final(self) == (Storage {
                eval_datasets: final(self).eval_datasets,
                ..*old(self)
            }),
            final(self).eval_datasets.rows@ == rows_updated(
                old(self).eval_datasets.rows@,
                is_dataset(update.dataset_id@),
                dataset_changed(*update),
            ),
            old(self).well_formed() ==> final(self).well_formed(),
    {
        broadcast use group_keyed;

        let hit = |d: &EvalDataset| -> (b: bool)
            ensures
                b == is_dataset(update.dataset_id@)(*d),
            { same(d.dataset_id.as_str(), update.dataset_id.as_str()) };
        let change = |d: &EvalDataset| -> (out: EvalDataset)
            ensures
                out == dataset_changed(*update)(*d),
            {
                EvalDataset {
                    dataset_id: d.dataset_id.clone(),
                    name: update.name.clone(),
                    description: update.description.clone(),
                    created_at: d.created_at,
                    updated_at: update.updated_at,
                }
            };
        self.eval_datasets.update(
            hit,
            change,
            Ghost(is_dataset(update.dataset_id@)),
            Ghost(dataset_changed(*update)),
        );
    }

    /// Writes the time of the last change of a data set.
    fn touch_dataset(&mut self, dataset_id: &str, at: i64)
        ensures
            *final(self) == (Storage {
                eval_datasets: final(self).eval_datasets,
                ..*old(self)
            }),
            final(self).eval_datasets.rows@ == rows_updated(
                old(self).eval_datasets.rows@,
                is_dataset(dataset_id@),
                dataset_touched(at),
            ),
    {
        let hit = |d: &EvalDataset| -> (b: bool)
            ensures
                b == is_dataset(dataset_id@)(*d),
            { same(d.dataset_id.as_str(), dataset_id) };
        let change = |d: &EvalDataset| -> (out: EvalDataset)
            ensures
                out == dataset_touched(at)(*d),
            {
                EvalDataset {
                    dataset_id: d.dataset_id.clone(),
                    name: d.name.clone(),
                    description: d.description.clone(),
                    created_at: d.created_at,
                    updated_at: at,
                }
            };
        self.eval_datasets.update(
            hit,
            change,
            Ghost(is_dataset(dataset_id@)),
            Ghost(dataset_touched(at)),
        );
    }

    /// Removes a data set with its members, its runs, their items and evaluations.
    pub fn delete_eval_dataset(&mut self, dataset_id: &str)
        ensures
            *final(self) == (Storage {
                eval_dataset_run_evals: final(self).eval_dataset_run_evals,
                eval_dataset_run_items: final(self).eval_dataset_run_items,
                eval_dataset_runs: final(self).eval_dataset_runs,
                eval_dataset_sessions: final(self).eval_dataset_sessions,
                eval_datasets: final(self).eval_datasets,
                ..*old(self)
            }),
            final(self).eval_dataset_run_evals.rows@ == rows_kept(
                old(self).eval_dataset_run_evals.rows@,
                eval_of_other_dataset(dataset_id@),
            ),
            final(self).eval_dataset_run_items.rows@ == rows_kept(
                old(self).eval_dataset_run_items.rows@,
                item_of_other_dataset(dataset_id@),
            ),
            final(self).eval_dataset_runs.rows@ == rows_kept(
                old(self).eval_dataset_runs.rows@,
                run_of_other_dataset(dataset_id@),
            ),
            final(self).eval_dataset_sessions.rows@ == rows_kept(
                old(self).eval_dataset_sessions.rows@,
                member_of_other(dataset_id@),
            ),
            final(self).eval_datasets.rows@ == rows_kept(
                old(self).eval_datasets.rows@,
                other_dataset(dataset_id@),
            ),
            old(self).well_formed() ==> final(self).well_formed(),
    {
        broadcast use group_keyed;

        let keep = |e: &EvalDatasetRunEval| -> (b: bool)
            ensures
                b == eval_of_other_dataset(dataset_id@)(*e),
            { !same(e.dataset_id.as_str(), dataset_id) };
        self.eval_dataset_run_evals.retain(keep, Ghost(eval_of_other_dataset(dataset_id@)));
        let keep = |i: &RunItem| -> (b: bool)
            ensures
                b == item_of_other_dataset(dataset_id@)(*i),
            { !same(i.dataset_id.as_str(), dataset_id) };
        self.eval_dataset_run_items.retain(keep, Ghost(item_of_other_dataset(dataset_id@)));
        let keep = |r: &EvalDatasetRun| -> (b: bool)
            ensures
                b == run_of_other_dataset(dataset_id@)(*r),
            { !same(r.dataset_id.as_str(), dataset_id) };
        self.eval_dataset_runs.retain(keep, Ghost(run_of_other_dataset(dataset_id@)));
        let keep = |m: &DatasetMember| -> (b: bool)
            ensures
                b == member_of_other(dataset_id@)(*m),
            { !same(m.dataset_id.as_str(), dataset_id) };
        self.eval_dataset_sessions.retain(keep, Ghost(member_of_other(dataset_id@)));
        let keep = |d: &EvalDataset| -> (b: bool)
            ensures
                b == other_dataset(dataset_id@)(*d),
            { !same(d.dataset_id.as_str(), dataset_id) };
        self.eval_datasets.retain(keep, Ghost(other_dataset(dataset_id@)));
    }

    /// Puts a conversation into a data set, or renews its place there. Both must exist.
    pub fn add_session_to_dataset(
        &mut self,
        item: &EvalDatasetSession,
    ) -> (out: Result<(), SdkError>)
        ensures
            out is Ok <==> any_data(old(self).eval_datasets.data(), is_dataset(item.dataset_id@))
                && any_data(old(self).chat_sessions.data(), has_session_id(item.session_id@)),
            out matches Err(e) ==> *final(self) == *old(self) && e@ == (ErrorView::Failure {
                message: "Failed to add session to dataset"@,
            }),
            out is Ok ==> *final(self) == (Storage {
                eval_dataset_sessions: final(self).eval_dataset_sessions,
                eval_datasets: final(self).eval_datasets,
                ..*old(self)
            }),
            out is Ok ==> final(self).eval_dataset_sessions.rows@ == rows_upserted(
                old(self).eval_dataset_sessions.rows@,
                is_member(item.dataset_id@, item.session_id@),
                member_added(item.added_at),
                (DatasetMember {
                    dataset_id: item.dataset_id,
                    session_id: item.session_id,
                    added_at: item.added_at,
                }),
            ),
            out is Ok ==> final(self).eval_datasets.rows@ == rows_updated(
                old(self).eval_datasets.rows@,
                is_dataset(item.dataset_id@),
                dataset_touched(item.added_at),
            ),
            old(self).well_formed() ==> final(self).well_formed(),
    {
        broadcast use group_keyed;

        let hit = |d: &EvalDataset| -> (b: bool)
            ensures
                b == is_dataset(item.dataset_id@)(*d),
            { same(d.dataset_id.as_str(), item.dataset_id.as_str()) };
        let known = self.eval_datasets.any(hit, Ghost(is_dataset(item.dataset_id@)));
        if !known || !session_exists(&self.chat_sessions, item.session_id.as_str()) {
            return Err(failure("Failed to add session to dataset"));
        }
        let hit = |m: &DatasetMember| -> (b: bool)
            ensures
                b == is_member(item.dataset_id@, item.session_id@)(*m),
            {
                same(m.dataset_id.as_str(), item.dataset_id.as_str())
                    && same(m.session_id.as_str(), item.session_id.as_str())
            };
        let change = |m: &DatasetMember| -> (out: DatasetMember)
            ensures
                out == member_added(item.added_at)(*m),
            {
                DatasetMember {
                    dataset_id: m.dataset_id.clone(),
                    session_id: m.session_id.clone(),
                    added_at: item.added_at,
                }
            };
        self.eval_dataset_sessions.upsert(
            hit,
            change,
            DatasetMember {
                dataset_id: item.dataset_id.clone(),
                session_id: item.session_id.clone(),
                added_at: item.added_at,
            },
            Ghost(is_member(item.dataset_id@, item.session_id@)),
            Ghost(member_added(item.added_at)),
        );
        self.touch_dataset(item.dataset_id.as_str(), item.added_at);
        Ok(())
    }

    /// Takes a conversation out of a data set at the time `now`.
    pub fn remove_session_from_dataset_at(
        &mut self,
        dataset_id: &str,
        session_id: &str,
        now: i64,
    )
        ensures
            *final(self) == (Storage {
                eval_dataset_sessions: final(self).eval_dataset_sessions,
                eval_datasets: final(self).eval_datasets,
                ..*old(self)
            }),
            final(self).eval_dataset_sessions.rows@ == rows_kept(
                old(self).eval_dataset_sessions.rows@,
                not_member(dataset_id@, session_id@),
            ),
            final(self).eval_datasets.rows@ == rows_updated(
                old(self).eval_datasets.rows@,
                is_dataset(dataset_id@),
                dataset_touched(now),
            ),
            old(self).well_formed() ==> final(self).well_formed(),
    {
        broadcast use group_keyed;

        let keep = |m: &DatasetMember| -> (b: bool)
            ensures
                b == not_member(dataset_id@, session_id@)(*m),
            { !(same(m.dataset_id.as_str(), dataset_id)
                && same(m.session_id.as_str(), session_id)) };
        self.eval_dataset_sessions.retain(keep, Ghost(not_member(dataset_id@, session_id@)));
        self.touch_dataset(dataset_id, now);
    }

    /// Takes a conversation out of a data set now.
    pub fn remove_session_from_dataset(&mut self, dataset_id: &str, session_id: &str)
        ensures
            *final(self) == (Storage {
                eval_dataset_sessions: final(self).eval_dataset_sessions,
                eval_datasets: final(self).eval_datasets,
                ..*old(self)
            }),
            final(self).eval_dataset_sessions.rows@ == rows_kept(
                old(self).eval_dataset_sessions.rows@,
                not_member(dataset_id@, session_id@),
            ),
            exists|now: i64|
                clock_seconds(now) && final(self).eval_datasets.rows@ == #[trigger] rows_updated(
                    old(self).eval_datasets.rows@,
                    is_dataset(dataset_id@),
                    dataset_touched(now),
                ),
            old(self).well_formed() ==> final(self).well_formed(),
    {
        let now: i64 = now_seconds();
        self.remove_session_from_dataset_at(dataset_id, session_id, now);
    }

    /// The conversations of a data set, the last one added first.
    pub fn list_dataset_sessions(&self, dataset_id: &str) -> (out: Vec<EvalDatasetSession>)
        ensures
            out@ == ranked(self.eval_dataset_sessions.data(), member_of(dataset_id@), by_addition(), true).map_values(
                member_shown(self.chat_sessions.data()),
            ),
    {
        let keep = |m: &DatasetMember| -> (b: bool)
            ensures
                b == member_of(dataset_id@)(*m),
            { same(m.dataset_id.as_str(), dataset_id) };
        let rank = |m: &DatasetMember| -> (k: Rank)
            ensures
                k == by_addition()(*m),
            { (m.added_at, 0) };
        let all = self.eval_dataset_sessions.select(
            keep,
            rank,
            true,
            Ghost(member_of(dataset_id@)),
            Ghost(by_addition()),
        );
        let mut out: Vec<EvalDatasetSession> = Vec::new();
        let mut i: usize = 0;
        while i < all.len()
            invariant
                i <= all@.len(),
                out@ == all@.take(i as int).map_values(member_shown(self.chat_sessions.data())),
            decreases all@.len() - i,
        {
            let known = self.get_chat_session(all[i].session_id.as_str());
            let (title, last_activity, message_count) = match known {
                Some(s) => (s.title, Some(s.last_activity), Some(s.message_count)),
                None => (None, None, None),
            };
            proof {
                assert(all@.take(i + 1) =~= all@.take(i as int).push(all@[i as int]));
            }
            out.push(
                EvalDatasetSession {
                    dataset_id: all[i].dataset_id.clone(),
                    session_id: all[i].session_id.clone(),
                    added_at: all[i].added_at,
                    title,
                    last_activity,
                    message_count,
                },
            );
            i = i + 1;
        }
        proof {
            assert(all@.take(i as int) =~= all@);
        }
        out
    }

    /// Whether an item of a list has the key of a stored item or of an earlier one.
    fn run_items_clash(&self, items: &Vec<EvalDatasetRunItem>) -> (r: bool)
        ensures
            r == items_clash(self.eval_dataset_run_items.data(), bare_items(items@)),
    {
        let ghost stored = self.eval_dataset_run_items.data();
        let ghost bare = bare_items(items@);
        let mut k: usize = 0;
        while k < items.len()
            invariant
                k <= items@.len(),
                stored == self.eval_dataset_run_items.data(),
                bare == bare_items(items@),
                forall|j: int| 0 <= j < k ==> !#[trigger] item_clashes(stored, bare, j),
            decreases items@.len() - k,
        {
            let item = &items[k].item;
            let hit = |i: &RunItem| -> (b: bool)
                ensures
                    b == is_item(item.run_id@, item.session_id@)(*i),
                {
                    same(i.run_id.as_str(), item.run_id.as_str())
                        && same(i.session_id.as_str(), item.session_id.as_str())
                };
            let ghost key = is_item(item.run_id@, item.session_id@);
            let ghost pool = stored + bare.take(k as int);
            if self.eval_dataset_run_items.any(hit, Ghost(key)) {
                proof {
                    let w = choose|w: int| 0 <= w < stored.len() && key(#[trigger] stored[w]);
                    assert(pool[w] == stored[w]);
                    assert(item_clashes(stored, bare, k as int));
                }
                return true;
            }
            let mut j: usize = 0;
            while j < k
                invariant
                    j <= k < items@.len(),
                    stored == self.eval_dataset_run_items.data(),
                    item == items@[k as int].item,
                    bare == bare_items(items@),
                    pool == stored + bare.take(k as int),
                    key == is_item(item.run_id@, item.session_id@),
                    forall|w: int| 0 <= w < j ==> !key(#[trigger] bare[w]),
                decreases k - j,
            {
                if same(items[j].item.run_id.as_str(), item.run_id.as_str())
                    && same(items[j].item.session_id.as_str(), item.session_id.as_str()) {
                    proof {
                        assert(pool[stored.len() + j] == bare[j as int]);
                        assert(item_clashes(stored, bare, k as int));
                    }
                    return true;
                }
                j = j + 1;
            }
            proof {
                if item_clashes(stored, bare, k as int) {
                    let w = choose|w: int| 0 <= w < pool.len() && key(#[trigger] pool[w]);
                    if w < stored.len() {
                        assert(key(stored[w]));
                    } else {
                        assert(key(bare[w - stored.len()]));
                    }
                }
            }
            k = k + 1;
        }
        false
    }

    /// Stores a run over a data set with what it made of each conversation. The run and
    /// each item must be new.
    pub fn create_eval_dataset_run(
        &mut self,
        run: &EvalDatasetRun,
        items: &Vec<EvalDatasetRunItem>,
    ) -> (out: Result<(), SdkError>)
        ensures
            out is Err <==> any_data(old(self).eval_dataset_runs.data(), is_run(run.run_id@))
                || items_clash(old(self).eval_dataset_run_items.data(), bare_items(items@)),
            out matches Err(e) ==> *final(self) == *old(self) && e@ == (ErrorView::Failure {
                message: if any_data(old(self).eval_dataset_runs.data(), is_run(run.run_id@)) {
                    "Failed to create eval dataset run"@
                } else {
                    "Failed to create eval dataset run item"@
                },
            }),
            out is Ok ==> *final(self) == (Storage {
                eval_dataset_runs: final(self).eval_dataset_runs,
                eval_dataset_run_items: final(self).eval_dataset_run_items,
                eval_datasets: final(self).eval_datasets,
                ..*old(self)
            }),
            out is Ok ==> final(self).eval_dataset_runs.rows@
                == old(self).eval_dataset_runs.rows@.push(
                (Row { user_id: None, data: *run }),
            ),
            out is Ok ==> final(self).eval_dataset_run_items.rows@
                == old(self).eval_dataset_run_items.rows@ + new_rows(bare_items(items@)),
            out is Ok ==> final(self).eval_datasets.rows@ == rows_updated(
                old(self).eval_datasets.rows@,
                is_dataset(run.dataset_id@),
                dataset_touched(run.updated_at),
            ),
            old(self).well_formed() ==> final(self).well_formed(),
    {
        broadcast use group_keyed;

        let hit = |r: &EvalDatasetRun| -> (b: bool)
            ensures
                b == is_run(run.run_id@)(*r),
            { same(r.run_id.as_str(), run.run_id.as_str()) };
        if self.eval_dataset_runs.any(hit, Ghost(is_run(run.run_id@))) {
            return Err(failure("Failed to create eval dataset run"));
        }
        if self.run_items_clash(items) {
            return Err(failure("Failed to create eval dataset run item"));
        }
        self.eval_dataset_runs.push(run.duplicate());
        let ghost before = *self;
        let ghost added = new_rows(bare_items(items@));
        proof {
            assert(self.eval_dataset_run_items.rows@ =~= before.eval_dataset_run_items.rows@ + added.take(0));
        }
        let mut k: usize = 0;
        while k < items.len()
            invariant
                k <= items@.len(),
                added == new_rows(bare_items(items@)),
                *self == (Storage {
                    eval_dataset_run_items: self.eval_dataset_run_items,
                    ..before
                }),
                self.eval_dataset_run_items.rows@
                    == before.eval_dataset_run_items.rows@ + added.take(
                    k as int,
                ),
            decreases items@.len() - k,
        {
            self.eval_dataset_run_items.push(items[k].item.duplicate());
            proof {
                assert(added.take(k + 1) =~= added.take(k as int).push(added[k as int]));
                assert(self.eval_dataset_run_items.rows@ =~= before.eval_dataset_run_items.rows@
                    + added.take(k + 1));
            }
            k = k + 1;
        }
        proof {
            assert(added.take(k as int) =~= added);
            if old(self).well_formed() {
                lemma_items_keyed(old(self).eval_dataset_run_items.rows@, bare_items(items@));
            }
        }
        self.touch_dataset(run.dataset_id.as_str(), run.updated_at);
        Ok(())
    }

    /// Whether an evaluation of a list has the key of a stored one of another run or of an
    /// earlier one.
    fn run_evals_clash(
        stored: &Vec<EvalDatasetRunEval>,
        evals: &Vec<EvalDatasetRunEval>,
    ) -> (r: bool)
        ensures
            r == evals_clash(stored@, evals@),
    {
        let mut k: usize = 0;
        while k < evals.len()
            invariant
                k <= evals@.len(),
                forall|j: int| 0 <= j < k ==> !#[trigger] eval_clashes(stored@, evals@, j),
            decreases evals@.len() - k,
        {
            let item = &evals[k];
            let ghost key = is_eval(item.run_id@, item.session_id@);
            let ghost pool = stored@ + evals@.take(k as int);
            if holds_eval(stored, stored.len(), item) {
                proof {
                    let w = choose|w: int| 0 <= w < stored@.len() && key(#[trigger] stored@[w]);
                    assert(pool[w] == stored@[w]);
                    assert(eval_clashes(stored@, evals@, k as int));
                }
                return true;
            }
            if holds_eval(evals, k, item) {
                proof {
                    let w = choose|w: int| 0 <= w < k && key(#[trigger] evals@[w]);
                    assert(pool[stored@.len() + w] == evals@[w]);
                    assert(eval_clashes(stored@, evals@, k as int));
                }
                return true;
            }
            proof {
                if eval_clashes(stored@, evals@, k as int) {
                    let w = choose|w: int| 0 <= w < pool.len() && key(#[trigger] pool[w]);
                    if w < stored@.len() {
                        assert(key(stored@[w]));
                    } else {
                        assert(key(evals@[w - stored@.len()]));
                    }
                }
            }
            k = k + 1;
        }
        false
    }

    /// Replaces the evaluations of a run. Each new one must differ in its key from the
    /// evaluations of other runs and from the new ones before it.
    pub fn save_eval_dataset_run_evals(
        &mut self,
        run_id: &str,
        dataset_id: &str,
        evals: &Vec<EvalDatasetRunEval>,
        updated_at: i64,
    ) -> (out: Result<(), SdkError>)
        ensures
            out is Err <==> evals_clash(
                data_of(
                    rows_kept(old(self).eval_dataset_run_evals.rows@, eval_of_other_run(run_id@)),
                ),
                evals@,
            ),
            out matches Err(e) ==> *final(self) == *old(self) && e@ == (ErrorView::Failure {
                message: "Failed to persist eval dataset run eval"@,
            }),
            out is Ok ==> *final(self) == (Storage {
                eval_dataset_runs: final(self).eval_dataset_runs,
                eval_dataset_run_evals: final(self).eval_dataset_run_evals,
                eval_datasets: final(self).eval_datasets,
                ..*old(self)
            }),
            out is Ok ==> final(self).eval_dataset_run_evals.rows@ == rows_kept(
                old(self).eval_dataset_run_evals.rows@,
                eval_of_other_run(run_id@),
            ) + new_rows(evals@),
            out is Ok ==> final(self).eval_dataset_runs.rows@ == rows_updated(
                old(self).eval_dataset_runs.rows@,
                is_run(run_id@),
                run_touched(updated_at),
            ),
            out is Ok ==> final(self).eval_datasets.rows@ == rows_updated(
                old(self).eval_datasets.rows@,
                is_dataset(dataset_id@),
                dataset_touched(updated_at),
            ),
            old(self).well_formed() ==> final(self).well_formed(),
    {
        broadcast use group_keyed;

        let others = self.evals_of_other_runs(run_id);
        if Self::run_evals_clash(&others, evals) {
            return Err(failure("Failed to persist eval dataset run eval"));
        }
        let keep = |e: &EvalDatasetRunEval| -> (b: bool)
            ensures
                b == eval_of_other_run(run_id@)(*e),
            { !same(e.run_id.as_str(), run_id) };
        self.eval_dataset_run_evals.retain(keep, Ghost(eval_of_other_run(run_id@)));
        let ghost before = *self;
        let ghost added = new_rows(evals@);
        proof {
            assert(self.eval_dataset_run_evals.rows@ =~= before.eval_dataset_run_evals.rows@ + added.take(0));
        }
        let mut k: usize = 0;
        while k < evals.len()
            invariant
                k <= evals@.len(),
                added == new_rows(evals@),
                *self == (Storage {
                    eval_dataset_run_evals: self.eval_dataset_run_evals,
                    ..before
                }),
                self.eval_dataset_run_evals.rows@
                    == before.eval_dataset_run_evals.rows@ + added.take(
                    k as int,
                ),
            decreases evals@.len() - k,
        {
            self.eval_dataset_run_evals.push(evals[k].duplicate());
            proof {
                assert(added.take(k + 1) =~= added.take(k as int).push(added[k as int]));
                assert(self.eval_dataset_run_evals.rows@ =~= before.eval_dataset_run_evals.rows@
                    + added.take(k + 1));
            }
            k = k + 1;
        }
        proof {
            assert(added.take(k as int) =~= added);
            if old(self).well_formed() {
                lemma_evals_keyed(before.eval_dataset_run_evals.rows@, evals@);
            }
        }
        let hit = |r: &EvalDatasetRun| -> (b: bool)
            ensures
                b == is_run(run_id@)(*r),
            { same(r.run_id.as_str(), run_id) };
        let change = |r: &EvalDatasetRun| -> (out: EvalDatasetRun)
            ensures
                out == run_touched(updated_at)(*r),
            {
                EvalDatasetRun {
                    run_id: r.run_id.clone(),
                    dataset_id: r.dataset_id.clone(),
                    agent_id: r.agent_id.clone(),
                    agent_version_id: r.agent_version_id.clone(),
                    agent_version_name: r.agent_version_name.clone(),
                    variant_id: r.variant_id.clone(),
                    variant_label: r.variant_label.clone(),
                    source_session_count: r.source_session_count,
                    created_at: r.created_at,
                    updated_at: updated_at,
                }
            };
        self.eval_dataset_runs.update(
            hit,
            change,
            Ghost(is_run(run_id@)),
            Ghost(run_touched(updated_at)),
        );
        self.touch_dataset(dataset_id, updated_at);
        Ok(())
    }

    /// The evaluations that belong to other runs, in the order of the table.
    fn evals_of_other_runs(&self, run_id: &str) -> (out: Vec<EvalDatasetRunEval>)
        ensures
            out@ == data_of(
                rows_kept(self.eval_dataset_run_evals.rows@, eval_of_other_run(run_id@)),
            ),
    {
        let keep = |e: &EvalDatasetRunEval| -> (b: bool)
            ensures
                b == eval_of_other_run(run_id@)(*e),
            { !same(e.run_id.as_str(), run_id) };
        proof {
            law_kept_rows_hold_kept_data(
                self.eval_dataset_run_evals.rows@,
                eval_of_other_run(run_id@),
            );
        }
        self.eval_dataset_run_evals.pick(keep, Ghost(eval_of_other_run(run_id@)))
    }

    /// The runs over a data set, the latest first.
    pub fn list_eval_dataset_runs(&self, dataset_id: &str) -> (out: Vec<EvalDatasetRun>)
        ensures
            out@ == ranked(
                self.eval_dataset_runs.data(),
                run_of_dataset(dataset_id@),
                by_run_creation(),
                true,
            ),
    {
        let keep = |r: &EvalDatasetRun| -> (b: bool)
            ensures
                b == run_of_dataset(dataset_id@)(*r),
            { same(r.dataset_id.as_str(), dataset_id) };
        let rank = |r: &EvalDatasetRun| -> (k: Rank)
            ensures
                k == by_run_creation()(*r),
            { (r.created_at, 0) };
        let all = self.eval_dataset_runs.select(
            keep,
            rank,
            true,
            Ghost(run_of_dataset(dataset_id@)),
            Ghost(by_run_creation()),
        );
        all
    }

    /// A run by its id.
    pub fn get_eval_dataset_run(&self, run_id: &str) -> (out: Option<EvalDatasetRun>)
        ensures
            out == first_data(self.eval_dataset_runs.data(), is_run(run_id@)),
    {
        let hit = |r: &EvalDatasetRun| -> (b: bool)
            ensures
                b == is_run(run_id@)(*r),
            { same(r.run_id.as_str(), run_id) };
        self.eval_dataset_runs.first(hit, Ghost(is_run(run_id@)))
    }

    /// What a run made of each conversation, the oldest first.
    pub fn list_eval_dataset_run_items(&self, run_id: &str) -> (out: Vec<EvalDatasetRunItem>)
        ensures
            out@ == ranked(self.eval_dataset_run_items.data(), item_of_run(run_id@), by_item_creation(), false).map_values(
                item_shown(self.chat_sessions.data()),
            ),
    {
        let keep = |x: &RunItem| -> (b: bool)
            ensures
                b == item_of_run(run_id@)(*x),
            { same(x.run_id.as_str(), run_id) };
        let rank = |x: &RunItem| -> (k: Rank)
            ensures
                k == by_item_creation()(*x),
            { (x.created_at, 0) };
        let all = self.eval_dataset_run_items.select(
            keep,
            rank,
            false,
            Ghost(item_of_run(run_id@)),
            Ghost(by_item_creation()),
        );
        let mut out: Vec<EvalDatasetRunItem> = Vec::new();
        let mut i: usize = 0;
        while i < all.len()
            invariant
                i <= all@.len(),
                out@ == all@.take(i as int).map_values(item_shown(self.chat_sessions.data())),
            decreases all@.len() - i,
        {
            let known = self.get_chat_session(all[i].session_id.as_str());
            let (title, last_activity, message_count) = match known {
                Some(s) => (s.title, Some(s.last_activity), Some(s.message_count)),
                None => (None, None, None),
            };
            proof {
                assert(all@.take(i + 1) =~= all@.take(i as int).push(all@[i as int]));
            }
            out.push(
                EvalDatasetRunItem {
                    item: all[i].duplicate(),
                    title,
                    last_activity,
                    message_count,
                },
            );
            i = i + 1;
        }
        proof {
            assert(all@.take(i as int) =~= all@);
        }
        out
    }

    /// The evaluations of a run, the oldest first.
    pub fn list_eval_dataset_run_evals(&self, run_id: &str) -> (out: Vec<EvalDatasetRunEval>)
        ensures
            out@ == ranked(
                self.eval_dataset_run_evals.data(),
                eval_of_run(run_id@),
                by_eval_creation(),
                false,
            ),
    {
        let keep = |e: &EvalDatasetRunEval| -> (b: bool)
            ensures
                b == eval_of_run(run_id@)(*e),
            { same(e.run_id.as_str(), run_id) };
        let rank = |e: &EvalDatasetRunEval| -> (k: Rank)
            ensures
                k == by_eval_creation()(*e),
            { (e.created_at, 0) };
        let all = self.eval_dataset_run_evals.select(
            keep,
            rank,
            false,
            Ghost(eval_of_run(run_id@)),
            Ghost(by_eval_creation()),
        );
        all
    }
}

} // verus!
