//! The virtual filesystem: the action of a trigger.
use super::creates::{action_args, parse_action_args_json, trim_given, trimmed_given, CreateGiven};
use super::edits::{empty_object, owned_opt};
use super::paths::read_path;
use super::{only_storage_changed, RemiSdk};
use crate::bindings::{
    binding_json, binding_views, bindings_given, given_view, parse_entity_action_bindings_value,
    BindingView, EntityActionBinding,
};
use crate::clock::{clock_seconds, now_seconds};
use crate::error::{refused, ErrorView, SdkError};
use crate::json::{
    json_pretty, json_text, opt_view, plain_json, Json, JsonView, NESTING_LIMIT,
};
use crate::rows::StoredTrigger;
use crate::storage::documents::opt_str_view;
use crate::storage::triggers::{
    is_trigger, json_or_empty, read_json_or_empty, trigger_acting, trigger_action_set,
};
use crate::storage::Storage;
use crate::table::{first_data, law_first_data, law_first_updated, rows_updated};
use crate::text::cat3;
use crate::virtual_path::{path_fault, trigger_view, TriggerFile};
use vstd::prelude::*;

verus! {

/// The refusal of a trigger that is not there.
pub open spec fn trigger_missing(path: Seq<char>, trigger: Seq<char>) -> ErrorView {
    path_fault(path, "trigger_not_found"@, "Trigger '"@ + trigger + "' was not found."@)
}

pub(crate) fn no_trigger(path: &str, trigger_uuid: &str) -> (e: SdkError)
    ensures
        e@ == trigger_missing(path@, trigger_uuid@),
{
    let message = cat3("Trigger '", trigger_uuid, "' was not found.");
    refused(path, "trigger_not_found", message.as_str())
}

/// The action that a trigger is bound to, where there is one. A trigger keeps no label.
pub open spec fn trigger_binding(t: StoredTrigger) -> Option<BindingView> {
    match t.action_uuid {
        None => None,
        Some(action) => Some(
            BindingView {
                action_uuid: action@,
                label_override: None,
                args_json: json_or_empty(t.action_args_json@),
            },
        ),
    }
}

/// The action that a trigger is bound to.
pub fn read_trigger_binding(t: &StoredTrigger) -> (out: Option<EntityActionBinding>)
    ensures
        opt_binding(out) == trigger_binding(*t),
{
    match &t.action_uuid {
        None => None,
        Some(action_uuid) => Some(
            EntityActionBinding {
                action_uuid: action_uuid.clone(),
                label_override: None,
                args_json: read_json_or_empty(t.action_args_json.as_str()),
            },
        ),
    }
}

pub open spec fn opt_binding(b: Option<EntityActionBinding>) -> Option<BindingView> {
    match b {
        Some(b) => Some(b@),
        None => None,
    }
}

/// The JSON form of what a trigger is bound to; null where it is bound to nothing.
pub open spec fn opt_binding_json(b: Option<BindingView>) -> JsonView {
    match b {
        Some(b) => binding_json(b),
        None => JsonView::Null,
    }
}

/// The JSON form of what a trigger is bound to.
pub fn opt_binding_to_json(b: &Option<EntityActionBinding>) -> (j: Json)
    ensures
        j@ == opt_binding_json(opt_binding(*b)),
{
    match b {
        Some(b) => b.to_json(),
        None => Json::Null,
    }
}

pub open spec fn opt_binding_out(out: Result<Option<EntityActionBinding>, SdkError>) -> Result<
    Option<BindingView>,
    ErrorView,
> {
    match out {
        Ok(b) => Ok(opt_binding(b)),
        Err(e) => Err(e@),
    }
}

/// What a value for the action of a trigger stands for: a binding, or none.
pub open spec fn one_binding(path: Seq<char>, value: Option<JsonView>) -> Result<
    Option<BindingView>,
    ErrorView,
> {
    match bindings_given(path, value) {
        Err(e) => Err(e),
        Ok(list) => if list.len() == 0 {
            Ok(None)
        } else if list.len() == 1 {
            Ok(Some(list[0]))
        } else {
            Err(
                path_fault(
                    path,
                    "invalid_value"@,
                    "action.json takes one action binding or null."@,
                ),
            )
        },
    }
}

fn read_one_binding(path: &str, value: Option<&Json>) -> (out: Result<
    Option<EntityActionBinding>,
    SdkError,
>)
    ensures
        opt_binding_out(out) == one_binding(path@, given_view(value)),
{
    match parse_entity_action_bindings_value(path, value) {
        Err(e) => Err(e),
        Ok(mut list) => {
            proof {
                assert(binding_views(list@).len() == list@.len());
                assert(list@.len() > 0 ==> binding_views(list@)[0] == list@[0]@);
            }
            if list.len() == 0 {
                Ok(None)
            } else if list.len() == 1 {
                Ok(Some(list.remove(0)))
            } else {
                Err(
                    refused(path, "invalid_value", "action.json takes one action binding or null."),
                )
            }
        },
    }
}

/// What an edit of the action of a trigger asks for.
pub open spec fn trigger_rebound(
    triggers: Seq<StoredTrigger>,
    path: Seq<char>,
    trigger: Seq<char>,
    value: Option<JsonView>,
) -> Result<Option<BindingView>, ErrorView> {
    match first_data(triggers, is_trigger(trigger)) {
        None => Err(trigger_missing(path, trigger)),
        Some(t) => one_binding(path, value),
    }
}

/// The first action of a trigger: a trigger has one at most.
pub open spec fn trigger_bound(
    triggers: Seq<StoredTrigger>,
    path: Seq<char>,
    trigger: Seq<char>,
    given: CreateGiven,
) -> Result<BindingView, ErrorView> {
    match trimmed_given(given.action_uuid) {
        None => Err(
            path_fault(
                path,
                "missing_action_uuid"@,
                "Creating an action binding requires action_uuid."@,
            ),
        ),
        Some(action_uuid) => match first_data(triggers, is_trigger(trigger)) {
            None => Err(trigger_missing(path, trigger)),
            Some(t) => if t.action_uuid is Some {
                Err(
                    path_fault(
                        path,
                        "duplicate_action_binding"@,
                        "Trigger already has an action binding. Use edit_path_tool on action.json to update it."@,
                    ),
                )
            } else {
                match action_args(path, given.content) {
                    Err(e) => Err(e),
                    Ok(args_json) => Ok(
                        BindingView { action_uuid, label_override: given.title, args_json },
                    ),
                }
            },
        },
    }
}

pub open spec fn binding_out(out: Result<EntityActionBinding, SdkError>) -> Result<
    BindingView,
    ErrorView,
> {
    match out {
        Ok(b) => Ok(b@),
        Err(e) => Err(e@),
    }
}

/// Whether a store is another one after a trigger was bound to an action, or to none.
pub open spec fn trigger_now_bound(
    old: Storage,
    new: Storage,
    trigger: Seq<char>,
    binding: Option<BindingView>,
    now: i64,
) -> bool {
    match binding {
        Some(b) => trigger_action_set(old, new, trigger, Some(b.action_uuid), b.args_json, now),
        None => trigger_action_set(
            old,
            new,
            trigger,
            None,
            JsonView::Object(Seq::empty()),
            now,
        ),
    }
}

impl RemiSdk {
    /// What an edit of the action of a trigger asks for.
    pub(crate) fn rebind_trigger(&self, path: &str, trigger_uuid: &str, value: Option<&Json>) -> (out:
        Result<Option<EntityActionBinding>, SdkError>)
        ensures
            opt_binding_out(out) == trigger_rebound(
                self.storage.triggers.data(),
                path@,
                trigger_uuid@,
                given_view(value),
            ),
    {
        match self.storage.fetch_trigger(trigger_uuid) {
            None => Err(no_trigger(path, trigger_uuid)),
            Some(_) => read_one_binding(path, value),
        }
    }

    /// The first action of a trigger.
    pub(crate) fn bind_trigger(
        &self,
        path: &str,
        trigger_uuid: &str,
        action_uuid: Option<&str>,
        title: Option<&str>,
        content: Option<&str>,
        Ghost(given): Ghost<CreateGiven>,
    ) -> (out: Result<EntityActionBinding, SdkError>)
        requires
            given.action_uuid == opt_str_view(action_uuid),
            given.title == opt_str_view(title),
            given.content == opt_str_view(content),
        ensures
            binding_out(out) == trigger_bound(
                self.storage.triggers.data(),
                path@,
                trigger_uuid@,
                given,
            ),
    {
        let action_uuid = match trim_given(action_uuid) {
            Some(action_uuid) => action_uuid,
            None => return Err(
                refused(
                    path,
                    "missing_action_uuid",
                    "Creating an action binding requires action_uuid.",
                ),
            ),
        };
        match self.storage.fetch_trigger(trigger_uuid) {
            None => return Err(no_trigger(path, trigger_uuid)),
            Some(t) => {
                if t.action_uuid.is_some() {
                    return Err(
                        refused(
                            path,
                            "duplicate_action_binding",
                            "Trigger already has an action binding. Use edit_path_tool on action.json to update it.",
                        ),
                    );
                }
            },
        }
        match parse_action_args_json(path, content) {
            Ok(args_json) => Ok(
                EntityActionBinding { action_uuid, label_override: owned_opt(title), args_json },
            ),
            Err(e) => Err(e),
        }
    }

    /// Binds a trigger to an action or to none, at the time `now`.
    pub fn set_trigger_binding_at(
        &mut self,
        trigger_uuid: &str,
        binding: &Option<EntityActionBinding>,
        now: i64,
    )
        ensures
            only_storage_changed(*old(self), *final(self)),
            final(self).storage == (Storage {
                triggers: final(self).storage.triggers,
                ..old(self).storage
            }),
            trigger_now_bound(
                old(self).storage,
                final(self).storage,
                trigger_uuid@,
                opt_binding(*binding),
                now,
            ),
    {
        match binding {
            Some(b) => {
                let action = Some(b.action_uuid.clone());
                self.storage.set_trigger_action_at(trigger_uuid, action, &b.args_json, now);
            },
            None => {
                let args = empty_object();
                self.storage.set_trigger_action_at(trigger_uuid, None, &args, now);
            },
        }
    }

    /// Binds a trigger to an action or to none.
    pub fn set_trigger_binding(&mut self, trigger_uuid: &str, binding: &Option<EntityActionBinding>)
        ensures
            only_storage_changed(*old(self), *final(self)),
            final(self).storage == (Storage {
                triggers: final(self).storage.triggers,
                ..old(self).storage
            }),
            exists|now: i64|
                clock_seconds(now) && #[trigger] trigger_now_bound(
                    old(self).storage,
                    final(self).storage,
                    trigger_uuid@,
                    opt_binding(*binding),
                    now,
                ),
    {
        let now: i64 = now_seconds();
        self.set_trigger_binding_at(trigger_uuid, binding, now);
    }
}

/// What a trigger is bound to is read under its path, without a label, at any time; what other
/// triggers are bound to stays. The arguments are those of the form in which serde_json gives
/// values.
pub proof fn law_bound_trigger_is_read(
    old: RemiSdk,
    new: RemiSdk,
    trigger: Seq<char>,
    binding: Option<BindingView>,
    now: i64,
    at: Seq<char>,
)
    requires
        trigger_now_bound(old.storage, new.storage, trigger, binding, now),
        first_data(old.storage.triggers.data(), is_trigger(trigger)) is Some,
        binding matches Some(b) ==> plain_json(b.args_json, NESTING_LIMIT as nat),
    ensures
        read_path(new, trigger_view(trigger, TriggerFile::Action), at) == Ok::<Seq<char>, ErrorView>(
            json_pretty(
                opt_binding_json(
                    match binding {
                        Some(b) => Some(BindingView { label_override: None, ..b }),
                        None => None,
                    },
                ),
            ),
        ),
        forall|other: Seq<char>|
            other != trigger ==> #[trigger] read_path(
                new,
                trigger_view(other, TriggerFile::Action),
                at,
            ) == read_path(old, trigger_view(other, TriggerFile::Action), at),
{
    let action = match binding {
        Some(b) => Some(b.action_uuid),
        None => None,
    };
    let args = match binding {
        Some(b) => b.args_json,
        None => JsonView::Object(Seq::empty()),
    };
    assert(trigger_action_set(old.storage, new.storage, trigger, action, args, now));
    let (given, text) = choose|given: Option<String>, text: String|
        opt_view(given) == action && text@ == json_text(args)
            && (plain_json(args, NESTING_LIMIT as nat) ==> json_or_empty(text@) == args)
            && new.storage.triggers.rows@ == rows_updated(
            old.storage.triggers.rows@,
            is_trigger(trigger),
            #[trigger] trigger_acting(given, text, now),
        );
    let change = trigger_acting(given, text, now);
    law_first_updated(
        old.storage.triggers.rows@,
        is_trigger(trigger),
        change,
        is_trigger(trigger),
    );
    let t = first_data(old.storage.triggers.data(), is_trigger(trigger))->0;
    law_first_data(old.storage.triggers.data(), is_trigger(trigger));
    assert(trigger_binding(change(t)) == match binding {
        Some(b) => Some(BindingView { label_override: None, ..b }),
        None => None,
    });
    assert forall|other: Seq<char>| other != trigger implies #[trigger] read_path(
        new,
        trigger_view(other, TriggerFile::Action),
        at,
    ) == read_path(old, trigger_view(other, TriggerFile::Action), at) by {
        law_first_updated(
            old.storage.triggers.rows@,
            is_trigger(trigger),
            change,
            is_trigger(other),
        );
        law_first_data(old.storage.triggers.data(), is_trigger(other));
    }
}

} // verus!
