//! Conversations, versions of agents and data sets for their evaluation.
use super::{only_storage_changed, TriggerSdk};
use crate::clock::{clock_seconds, now_seconds};
use crate::error::{ErrorView, SdkError};
use crate::rows::{
    AgentVersion, ChatMessage, ChatSession, DatasetMember, EvalDataset, EvalDatasetRun,
    EvalDatasetRunEval,
};
use crate::storage::{Storage, has_session_id};
use crate::storage::chat::{
    AgentVersionUpdate, ChatSessionUpdate, EvalDatasetRunItem, EvalDatasetSession,
    EvalDatasetUpdate, bare_items, by_addition, by_dataset_change, by_eval_creation,
    by_item_creation, by_last_activity, by_message_time, by_run_creation, by_version_change,
    dataset_changed, dataset_touched, eval_of_other_dataset, eval_of_other_run, eval_of_run,
    evals_clash, every, is_dataset, is_member, is_message, is_run, is_version,
    item_of_other_dataset, item_of_run, item_shown, items_clash, member_added, member_not_session,
    member_of, member_of_other, member_shown, message_in, message_outside, message_taken_over,
    message_texts, new_rows, not_member, other_dataset, other_version, run_of_dataset,
    run_of_other_dataset, run_touched, session_changed, session_other, session_taken_over,
    state_not_of, state_of, state_written, version_applied, version_changed, version_not_applied,
    version_of_agent,
};
use crate::table::{
    Row, any_data, data_of, first_data, page, ranked, rows_kept, rows_updated, rows_upserted,
};
use vstd::prelude::*;

verus! {

/// A conversation that was written at `now`.
pub open spec fn session_at(
    session_id: String,
    title: Option<String>,
    message_count: i32,
    now: i64,
) -> ChatSession {
    ChatSession {
        session_id,
        title,
        created_at: now,
        last_activity: now,
        message_count: message_count as i64,
    }
}

/// Whether a conversation was written at `now`, and nothing else was changed.
pub open spec fn session_written(
    old: Storage,
    new: Storage,
    session_id: String,
    title: Option<String>,
    message_count: i32,
    now: i64,
) -> bool {
    let session = session_at(session_id, title, message_count, now);
    &&& new == (Storage { chat_sessions: new.chat_sessions, ..old })
    &&& new.chat_sessions.rows@ == rows_upserted(
        old.chat_sessions.rows@,
        has_session_id(session_id@),
        session_taken_over(session),
        session,
    )
}

/// Whether the activity of a conversation was noted at `now`, and nothing else was changed.
pub open spec fn session_active(
    old: Storage,
    new: Storage,
    session_id: String,
    title: Option<String>,
    message_count: i32,
    now: i64,
) -> bool {
    let update = ChatSessionUpdate {
        session_id,
        title,
        last_activity: now,
        message_count: message_count as i64,
    };
    &&& new == (Storage { chat_sessions: new.chat_sessions, ..old })
    &&& new.chat_sessions.rows@ == rows_updated(
        old.chat_sessions.rows@,
        has_session_id(session_id@),
        session_changed(update),
    )
}

impl TriggerSdk {
    /// Writes a conversation that was active at `now`; one that is there keeps the time of its
    /// creation.
    pub fn upsert_chat_session_at(
        &mut self,
        session_id: String,
        title: Option<String>,
        message_count: i32,
        now: i64,
    )
        ensures
            session_written(
                old(self).storage,
                final(self).storage,
                session_id,
                title,
                message_count,
                now,
            ),
            only_storage_changed(*old(self), *final(self)),
    {
        let session = ChatSession {
            session_id,
            title,
            created_at: now,
            last_activity: now,
            message_count: message_count as i64,
        };
        self.storage.upsert_chat_session(&session);
    }

    /// Writes a conversation that is active now; one that is there keeps the time of its
    /// creation.
    pub fn upsert_chat_session(
        &mut self,
        session_id: String,
        title: Option<String>,
        message_count: i32,
    )
        ensures
            exists|now: i64| clock_seconds(now) && #[trigger]
                session_written(
                    old(self).storage,
                    final(self).storage,
                    session_id,
                    title,
                    message_count,
                    now,
                ),
            only_storage_changed(*old(self), *final(self)),
    {
        let now: i64 = now_seconds();
        self.upsert_chat_session_at(session_id, title, message_count, now);
    }

    /// Notes that a conversation was active at `now`.
    pub fn update_session_activity_at(
        &mut self,
        session_id: String,
        title: Option<String>,
        message_count: i32,
        now: i64,
    )
        ensures
            session_active(
                old(self).storage,
                final(self).storage,
                session_id,
                title,
                message_count,
                now,
            ),
            only_storage_changed(*old(self), *final(self)),
    {
        let update = ChatSessionUpdate {
            session_id,
            title,
            last_activity: now,
            message_count: message_count as i64,
        };
        self.storage.update_session_activity(&update);
    }

    /// Notes that a conversation is active now.
    pub fn update_session_activity(
        &mut self,
        session_id: String,
        title: Option<String>,
        message_count: i32,
    )
        ensures
            exists|now: i64| clock_seconds(now) && #[trigger]
                session_active(
                    old(self).storage,
                    final(self).storage,
                    session_id,
                    title,
                    message_count,
                    now,
                ),
            only_storage_changed(*old(self), *final(self)),
    {
        let now: i64 = now_seconds();
        self.update_session_activity_at(session_id, title, message_count, now);
    }

    /// A conversation by its id.
    pub fn get_chat_session(&self, session_id: &str) -> (out: Option<ChatSession>)
        ensures
            out == first_data(self.storage.chat_sessions.data(), has_session_id(session_id@)),
    {
        self.storage.get_chat_session(session_id)
    }

    /// The conversations, the most recently active first.
    pub fn list_chat_sessions(&self, limit: Option<u32>) -> (out: Vec<ChatSession>)
        ensures
            out@ == page(
                ranked(self.storage.chat_sessions.data(), every(), by_last_activity(), true),
                limit,
                0,
            ),
    {
        self.storage.list_chat_sessions(limit)
    }

    /// Adds a version of an agent; its id must be new.
    pub fn create_agent_version(
        &mut self,
        version: &AgentVersion,
    ) -> (out: Result<(), SdkError>)
        ensures
            out is Err <==> any_data(
                old(self).storage.agent_versions.data(),
                is_version(version.version_id@),
            ),
            out matches Err(e) ==> final(self).storage == old(self).storage && e@
                == (ErrorView::Failure {
                message: "Failed to create agent version"@,
            }),
            out is Ok ==> final(self).storage
                == (Storage { agent_versions: final(self).storage.agent_versions, ..old(self).storage })
                && final(self).storage.agent_versions.rows@
                == old(self).storage.agent_versions.rows@.push(
                (Row { user_id: None, data: *version }),
            ),
            only_storage_changed(*old(self), *final(self)),
    {
        self.storage.create_agent_version(version)
    }

    /// A version of an agent by its id.
    pub fn get_agent_version(&self, version_id: &str) -> (out: Option<AgentVersion>)
        ensures
            out == first_data(self.storage.agent_versions.data(), is_version(version_id@)),
    {
        self.storage.get_agent_version(version_id)
    }

    /// The versions of an agent, the latest change first.
    pub fn list_agent_versions(&self, agent_id: &str) -> (out: Vec<AgentVersion>)
        ensures
            out@ == ranked(
                self.storage.agent_versions.data(),
                version_of_agent(agent_id@),
                by_version_change(),
                true,
            ),
    {
        self.storage.list_agent_versions(agent_id)
    }

    /// Writes name and text of a version.
    pub fn update_agent_version(&mut self, update: &AgentVersionUpdate)
        ensures
            final(self).storage == (Storage {
                agent_versions: final(self).storage.agent_versions,
                ..old(self).storage
            }),
            final(self).storage.agent_versions.rows@ == rows_updated(
                old(self).storage.agent_versions.rows@,
                is_version(update.version_id@),
                version_changed(*update),
            ),
            only_storage_changed(*old(self), *final(self)),
    {
        self.storage.update_agent_version(update);
    }

    /// Makes a version the applied one of an agent, and the only one of that agent.
    pub fn mark_agent_version_applied(
        &mut self,
        version_id: &str,
        agent_id: &str,
        applied_at: i64,
    )
        ensures
            final(self).storage == (Storage {
                agent_versions: final(self).storage.agent_versions,
                ..old(self).storage
            }),
            final(self).storage.agent_versions.rows@ == rows_updated(
                rows_updated(
                    old(self).storage.agent_versions.rows@,
                    version_of_agent(agent_id@),
                    version_not_applied(),
                ),
                is_version(version_id@),
                version_applied(applied_at),
            ),
            only_storage_changed(*old(self), *final(self)),
    {
        self.storage.mark_agent_version_applied(version_id, agent_id, applied_at);
    }

    /// Removes a version of an agent.
    pub fn delete_agent_version(&mut self, version_id: &str)
        ensures
            final(self).storage == (Storage {
                agent_versions: final(self).storage.agent_versions,
                ..old(self).storage
            }),
            final(self).storage.agent_versions.rows@ == rows_kept(
                old(self).storage.agent_versions.rows@,
                other_version(version_id@),
            ),
            only_storage_changed(*old(self), *final(self)),
    {
        self.storage.delete_agent_version(version_id);
    }

    /// Adds a data set; its id must be new.
    pub fn create_eval_dataset(&mut self, dataset: &EvalDataset) -> (out: Result<(), SdkError>)
        ensures
            out is Err <==> any_data(
                old(self).storage.eval_datasets.data(),
                is_dataset(dataset.dataset_id@),
            ),
            out matches Err(e) ==> final(self).storage == old(self).storage && e@
                == (ErrorView::Failure {
                message: "Failed to create eval dataset"@,
            }),
            out is Ok ==> final(self).storage
                == (Storage { eval_datasets: final(self).storage.eval_datasets, ..old(self).storage })
                && final(self).storage.eval_datasets.rows@
                == old(self).storage.eval_datasets.rows@.push(
                (Row { user_id: None, data: *dataset }),
            ),
            only_storage_changed(*old(self), *final(self)),
    {
        self.storage.create_eval_dataset(dataset)
    }

    /// A data set by its id.
    pub fn get_eval_dataset(&self, dataset_id: &str) -> (out: Option<EvalDataset>)
        ensures
            out == first_data(self.storage.eval_datasets.data(), is_dataset(dataset_id@)),
    {
        self.storage.get_eval_dataset(dataset_id)
    }

    /// The data sets, the latest change first.
    pub fn list_eval_datasets(&self) -> (out: Vec<EvalDataset>)
        ensures
            out@ == ranked(
                self.storage.eval_datasets.data(),
                every::<EvalDataset>(),
                by_dataset_change(),
                true,
            ),
    {
        self.storage.list_eval_datasets()
    }

    /// Writes name and description of a data set.
    pub fn update_eval_dataset(&mut self, update: &EvalDatasetUpdate)
        ensures
            final(self).storage == (Storage {
                eval_datasets: final(self).storage.eval_datasets,
                ..old(self).storage
            }),
            final(self).storage.eval_datasets.rows@ == rows_updated(
                old(self).storage.eval_datasets.rows@,
                is_dataset(update.dataset_id@),
                dataset_changed(*update),
            ),
            only_storage_changed(*old(self), *final(self)),
    {
        self.storage.update_eval_dataset(update);
    }

    /// Removes a data set with its members, its runs, their items and evaluations.
    pub fn delete_eval_dataset(&mut self, dataset_id: &str)
        ensures
            final(self).storage == (Storage {
                eval_dataset_run_evals: final(self).storage.eval_dataset_run_evals,
                eval_dataset_run_items: final(self).storage.eval_dataset_run_items,
                eval_dataset_runs: final(self).storage.eval_dataset_runs,
                eval_dataset_sessions: final(self).storage.eval_dataset_sessions,
                eval_datasets: final(self).storage.eval_datasets,
                ..old(self).storage
            }),
            final(self).storage.eval_dataset_run_evals.rows@ == rows_kept(
                old(self).storage.eval_dataset_run_evals.rows@,
                eval_of_other_dataset(dataset_id@),
            ),
            final(self).storage.eval_dataset_run_items.rows@ == rows_kept(
                old(self).storage.eval_dataset_run_items.rows@,
                item_of_other_dataset(dataset_id@),
            ),
            final(self).storage.eval_dataset_runs.rows@ == rows_kept(
                old(self).storage.eval_dataset_runs.rows@,
                run_of_other_dataset(dataset_id@),
            ),
            final(self).storage.eval_dataset_sessions.rows@ == rows_kept(
                old(self).storage.eval_dataset_sessions.rows@,
                member_of_other(dataset_id@),
            ),
            final(self).storage.eval_datasets.rows@ == rows_kept(
                old(self).storage.eval_datasets.rows@,
                other_dataset(dataset_id@),
            ),
            only_storage_changed(*old(self), *final(self)),
    {
        self.storage.delete_eval_dataset(dataset_id);
    }

    /// Puts a conversation into a data set, or renews its place there. Both must exist.
    pub fn add_session_to_dataset(
        &mut self,
        item: &EvalDatasetSession,
    ) -> (out: Result<(), SdkError>)
        ensures
            out is Ok <==> any_data(
                old(self).storage.eval_datasets.data(),
                is_dataset(item.dataset_id@),
            )
                && any_data(
                    old(self).storage.chat_sessions.data(),
                    has_session_id(item.session_id@),
                ),
            out matches Err(e) ==> final(self).storage == old(self).storage && e@
                == (ErrorView::Failure {
                message: "Failed to add session to dataset"@,
            }),
            out is Ok ==> final(self).storage == (Storage {
                eval_dataset_sessions: final(self).storage.eval_dataset_sessions,
                eval_datasets: final(self).storage.eval_datasets,
                ..old(self).storage
            }),
            out is Ok ==> final(self).storage.eval_dataset_sessions.rows@ == rows_upserted(
                old(self).storage.eval_dataset_sessions.rows@,
                is_member(item.dataset_id@, item.session_id@),
                member_added(item.added_at),
                (DatasetMember {
                    dataset_id: item.dataset_id,
                    session_id: item.session_id,
                    added_at: item.added_at,
                }),
            ),
            out is Ok ==> final(self).storage.eval_datasets.rows@ == rows_updated(
                old(self).storage.eval_datasets.rows@,
                is_dataset(item.dataset_id@),
                dataset_touched(item.added_at),
            ),
            only_storage_changed(*old(self), *final(self)),
    {
        self.storage.add_session_to_dataset(item)
    }

    /// Takes a conversation out of a data set now.
    pub fn remove_session_from_dataset(&mut self, dataset_id: &str, session_id: &str)
        ensures
            final(self).storage == (Storage {
                eval_dataset_sessions: final(self).storage.eval_dataset_sessions,
                eval_datasets: final(self).storage.eval_datasets,
                ..old(self).storage
            }),
            final(self).storage.eval_dataset_sessions.rows@ == rows_kept(
                old(self).storage.eval_dataset_sessions.rows@,
                not_member(dataset_id@, session_id@),
            ),
            exists|now: i64|
                clock_seconds(now) && final(self).storage.eval_datasets.rows@
                    == #[trigger] rows_updated(
                    old(self).storage.eval_datasets.rows@,
                    is_dataset(dataset_id@),
                    dataset_touched(now),
                ),
            only_storage_changed(*old(self), *final(self)),
    {
        self.storage.remove_session_from_dataset(dataset_id, session_id);
    }

    /// The conversations of a data set, the last one added first.
    pub fn list_dataset_sessions(&self, dataset_id: &str) -> (out: Vec<EvalDatasetSession>)
        ensures
            out@ == ranked(self.storage.eval_dataset_sessions.data(), member_of(dataset_id@), by_addition(), true).map_values(
                member_shown(self.storage.chat_sessions.data()),
            ),
    {
        self.storage.list_dataset_sessions(dataset_id)
    }

    /// Stores a run over a data set with what it made of each conversation. The run and
    /// each item must be new.
    pub fn create_eval_dataset_run(
        &mut self,
        run: &EvalDatasetRun,
        items: &Vec<EvalDatasetRunItem>,
    ) -> (out: Result<(), SdkError>)
        ensures
            out is Err <==> any_data(
                old(self).storage.eval_dataset_runs.data(),
                is_run(run.run_id@),
            )
                || items_clash(old(self).storage.eval_dataset_run_items.data(), bare_items(items@)),
            out matches Err(e) ==> final(self).storage == old(self).storage && e@
                == (ErrorView::Failure {
                message: if any_data(old(self).storage.eval_dataset_runs.data(), is_run(run.run_id@)) {
                    "Failed to create eval dataset run"@
                } else {
                    "Failed to create eval dataset run item"@
                },
            }),
            out is Ok ==> final(self).storage == (Storage {
                eval_dataset_runs: final(self).storage.eval_dataset_runs,
                eval_dataset_run_items: final(self).storage.eval_dataset_run_items,
                eval_datasets: final(self).storage.eval_datasets,
                ..old(self).storage
            }),
            out is Ok ==> final(self).storage.eval_dataset_runs.rows@
                == old(self).storage.eval_dataset_runs.rows@.push(
                (Row { user_id: None, data: *run }),
            ),
            out is Ok ==> final(self).storage.eval_dataset_run_items.rows@
                == old(self).storage.eval_dataset_run_items.rows@ + new_rows(bare_items(items@)),
            out is Ok ==> final(self).storage.eval_datasets.rows@ == rows_updated(
                old(self).storage.eval_datasets.rows@,
                is_dataset(run.dataset_id@),
                dataset_touched(run.updated_at),
            ),
            only_storage_changed(*old(self), *final(self)),
    {
        self.storage.create_eval_dataset_run(run, items)
    }

    /// The runs over a data set, the latest first.
    pub fn list_eval_dataset_runs(&self, dataset_id: &str) -> (out: Vec<EvalDatasetRun>)
        ensures
            out@ == ranked(
                self.storage.eval_dataset_runs.data(),
                run_of_dataset(dataset_id@),
                by_run_creation(),
                true,
            ),
    {
        self.storage.list_eval_dataset_runs(dataset_id)
    }

    /// A run by its id.
    pub fn get_eval_dataset_run(&self, run_id: &str) -> (out: Option<EvalDatasetRun>)
        ensures
            out == first_data(self.storage.eval_dataset_runs.data(), is_run(run_id@)),
    {
        self.storage.get_eval_dataset_run(run_id)
    }

    /// What a run made of each conversation, the oldest first.
    pub fn list_eval_dataset_run_items(&self, run_id: &str) -> (out: Vec<EvalDatasetRunItem>)
        ensures
            out@ == ranked(self.storage.eval_dataset_run_items.data(), item_of_run(run_id@), by_item_creation(), false).map_values(
                item_shown(self.storage.chat_sessions.data()),
            ),
    {
        self.storage.list_eval_dataset_run_items(run_id)
    }

    /// Replaces the evaluations of a run. Each new one must differ in its key from the
    /// evaluations of other runs and from the new ones before it.
    pub fn save_eval_dataset_run_evals(
        &mut self,
        run_id: &str,
        dataset_id: &str,
        evals: &Vec<EvalDatasetRunEval>,
        updated_at: i64,
    ) -> (out: Result<(), SdkError>)
        ensures
            out is Err <==> evals_clash(
                data_of(
                    rows_kept(
                        old(self).storage.eval_dataset_run_evals.rows@,
                        eval_of_other_run(run_id@),
                    ),
                ),
                evals@,
            ),
            out matches Err(e) ==> final(self).storage == old(self).storage && e@
                == (ErrorView::Failure {
                message: "Failed to persist eval dataset run eval"@,
            }),
            out is Ok ==> final(self).storage == (Storage {
                eval_dataset_runs: final(self).storage.eval_dataset_runs,
                eval_dataset_run_evals: final(self).storage.eval_dataset_run_evals,
                eval_datasets: final(self).storage.eval_datasets,
                ..old(self).storage
            }),
            out is Ok ==> final(self).storage.eval_dataset_run_evals.rows@ == rows_kept(
                old(self).storage.eval_dataset_run_evals.rows@,
                eval_of_other_run(run_id@),
            ) + new_rows(evals@),
            out is Ok ==> final(self).storage.eval_dataset_runs.rows@ == rows_updated(
                old(self).storage.eval_dataset_runs.rows@,
                is_run(run_id@),
                run_touched(updated_at),
            ),
            out is Ok ==> final(self).storage.eval_datasets.rows@ == rows_updated(
                old(self).storage.eval_datasets.rows@,
                is_dataset(dataset_id@),
                dataset_touched(updated_at),
            ),
            only_storage_changed(*old(self), *final(self)),
    {
        self.storage.save_eval_dataset_run_evals(run_id, dataset_id, evals, updated_at)
    }

    /// The evaluations of a run, the oldest first.
    pub fn list_eval_dataset_run_evals(&self, run_id: &str) -> (out: Vec<EvalDatasetRunEval>)
        ensures
            out@ == ranked(
                self.storage.eval_dataset_run_evals.data(),
                eval_of_run(run_id@),
                by_eval_creation(),
                false,
            ),
    {
        self.storage.list_eval_dataset_run_evals(run_id)
    }

    /// Removes a conversation with its messages, its runtime state and its places in data
    /// sets.
    pub fn delete_chat_session(&mut self, session_id: &str)
        ensures
            final(self).storage == (Storage {
                chat_sessions: final(self).storage.chat_sessions,
                chat_messages: final(self).storage.chat_messages,
                chat_runtime_state: final(self).storage.chat_runtime_state,
                eval_dataset_sessions: final(self).storage.eval_dataset_sessions,
                ..old(self).storage
            }),
            final(self).storage.chat_sessions.rows@ == rows_kept(
                old(self).storage.chat_sessions.rows@,
                session_other(session_id@),
            ),
            final(self).storage.chat_messages.rows@ == rows_kept(
                old(self).storage.chat_messages.rows@,
                message_outside(session_id@),
            ),
            final(self).storage.chat_runtime_state.rows@ == rows_kept(
                old(self).storage.chat_runtime_state.rows@,
                state_not_of(session_id@),
            ),
            final(self).storage.eval_dataset_sessions.rows@ == rows_kept(
                old(self).storage.eval_dataset_sessions.rows@,
                member_not_session(session_id@),
            ),
            only_storage_changed(*old(self), *final(self)),
    {
        self.storage.delete_chat_session(session_id);
    }

    /// The messages of a conversation, the oldest first.
    pub fn list_chat_messages_json(
        &self,
        session_id: &str,
        limit: Option<u32>,
        offset: u32,
    ) -> (out: Vec<String>)
        ensures
            out@ == message_texts(
                page(
                    ranked(
                        self.storage.chat_messages.data(),
                        message_in(session_id@),
                        by_message_time(),
                        false,
                    ),
                    limit,
                    offset,
                ),
            ),
    {
        self.storage.list_chat_messages_json(session_id, limit, offset)
    }

    /// Removes the messages of a conversation.
    pub fn delete_chat_messages(&mut self, session_id: &str)
        ensures
            final(self).storage
                == (Storage { chat_messages: final(self).storage.chat_messages, ..old(self).storage }),
            final(self).storage.chat_messages.rows@ == rows_kept(
                old(self).storage.chat_messages.rows@,
                message_outside(session_id@),
            ),
            only_storage_changed(*old(self), *final(self)),
    {
        self.storage.delete_chat_messages(session_id);
    }

    /// The runtime state of a conversation.
    pub fn get_chat_runtime_state_json(&self, session_id: &str) -> (out: Option<String>)
        ensures
            out == match first_data(self.storage.chat_runtime_state.data(), state_of(session_id@)) {
                Some(s) => Some(s.state_json),
                None => None,
            },
    {
        self.storage.get_chat_runtime_state_json(session_id)
    }

    /// Removes the runtime state of a conversation.
    pub fn delete_chat_runtime_state(&mut self, session_id: &str)
        ensures
            final(self).storage == (Storage {
                chat_runtime_state: final(self).storage.chat_runtime_state,
                ..old(self).storage
            }),
            final(self).storage.chat_runtime_state.rows@ == rows_kept(
                old(self).storage.chat_runtime_state.rows@,
                state_not_of(session_id@),
            ),
            only_storage_changed(*old(self), *final(self)),
    {
        self.storage.delete_chat_runtime_state(session_id);
    }

    /// Writes a message of a conversation.
    pub fn upsert_chat_message_json(
        &mut self,
        session_id: String,
        message_id: String,
        created_at_ms: i64,
        message_json: String,
    )
        ensures
            exists|row: ChatMessage|
                row.session_id@ == session_id@ && row.message_id@ == message_id@
                    && row.created_at_ms == created_at_ms && row.message_json@ == message_json@
                    && final(self).storage == (Storage {
                    chat_messages: final(self).storage.chat_messages,
                    ..old(self).storage
                }) && final(self).storage.chat_messages.rows@ == #[trigger] rows_upserted(
                    old(self).storage.chat_messages.rows@,
                    is_message(session_id@, message_id@),
                    message_taken_over(row),
                    row,
                ),
            only_storage_changed(*old(self), *final(self)),
    {
        self.storage.upsert_chat_message_json(
            session_id.as_str(),
            message_id.as_str(),
            created_at_ms,
            message_json.as_str(),
        );
    }

    /// Writes the runtime state of a conversation now.
    pub fn upsert_chat_runtime_state_json(&mut self, session_id: String, state_json: String)
        ensures
            exists|now: i64|
                clock_seconds(now) && #[trigger] state_written(
                    old(self).storage,
                    final(self).storage,
                    session_id@,
                    state_json@,
                    now,
                ),
            only_storage_changed(*old(self), *final(self)),
    {
        let ghost before = self.storage;
        self.storage.upsert_chat_runtime_state_json(session_id.as_str(), state_json.as_str());
        proof {
            let now = choose|now: i64| clock_seconds(now) && #[trigger]
                state_written(before, self.storage, session_id@, state_json@, now);
            assert(state_written(old(self).storage, self.storage, session_id@, state_json@, now));
        }
    }
}

} // verus!
