//! The actions that a collection or a thing is bound to.
use crate::error::{refused, ErrorView, SdkError};
use crate::json::{
    entries_view, entry, field, json_read, lemma_json_list_view, lemma_json_object_view, list_view,
    opt_text_json, opt_view, read_json, Json, JsonView,
};
use crate::rows::ActionDefinition;
use crate::storage::triggers::is_action;
use crate::storage::Storage;
use crate::table::first_data;
use crate::text::{cat, owned, trim, trimmed};
use crate::virtual_path::path_fault;
use vstd::prelude::*;

verus! {

/// An action that an entity is bound to, with the arguments that it is called with.
#[derive(Debug)]
pub struct EntityActionBinding {
    pub action_uuid: String,
    pub label_override: Option<String>,
    pub args_json: Json,
}

/// An action that an entity is bound to, over character sequences.
pub struct BindingView {
    pub action_uuid: Seq<char>,
    pub label_override: Option<Seq<char>>,
    pub args_json: JsonView,
}

impl View for EntityActionBinding {
    type V = BindingView;

    open spec fn view(&self) -> BindingView {
        BindingView {
            action_uuid: self.action_uuid@,
            label_override: opt_view(self.label_override),
            args_json: self.args_json@,
        }
    }
}

pub open spec fn binding_views(list: Seq<EntityActionBinding>) -> Seq<BindingView> {
    list.map_values(|b: EntityActionBinding| b@)
}

impl EntityActionBinding {
    /// Copies the binding.
    pub fn duplicate_binding(&self) -> (copy: Self)
        ensures
            copy@ == self@,
    {
        EntityActionBinding {
            action_uuid: self.action_uuid.clone(),
            label_override: self.label_override.clone(),
            args_json: self.args_json.duplicate_json(),
        }
    }

    /// The JSON form of the binding.
    pub fn to_json(&self) -> (j: Json)
        ensures
            j@ == binding_json(self@),
    {
        let entries = vec![
            entry("action_uuid", Json::text(self.action_uuid.as_str())),
            entry("args_json", self.args_json.duplicate_json()),
            entry("label_override", Json::opt_text(&self.label_override)),
        ];
        proof {
            assert(entries_view(entries@) =~= binding_json(self@)->Object_0);
        }
        Json::object(entries)
    }
}

/// The JSON form of a binding.
pub open spec fn binding_json(b: BindingView) -> JsonView {
    JsonView::Object(
        seq![
            ("action_uuid"@, JsonView::Text(b.action_uuid)),
            ("args_json"@, b.args_json),
            ("label_override"@, opt_text_json(b.label_override)),
        ],
    )
}

/// The JSON form of bindings.
pub open spec fn bindings_json(list: Seq<BindingView>) -> JsonView {
    JsonView::List(list.map_values(|b: BindingView| binding_json(b)))
}

/// The JSON form of bindings.
pub fn bindings_to_json(list: &Vec<EntityActionBinding>) -> (j: Json)
    ensures
        j@ == bindings_json(binding_views(list@)),
{
    let mut items: Vec<Json> = Vec::new();
    let mut i: usize = 0;
    while i < list.len()
        invariant
            i <= list@.len(),
            items@.len() == i,
            forall|k: int| 0 <= k < i ==> (#[trigger] items@[k])@ == binding_json(list@[k]@),
        decreases list@.len() - i,
    {
        items.push(list[i].to_json());
        i = i + 1;
    }
    proof {
        assert(list_view(items@) =~= bindings_json(binding_views(list@))->List_0);
    }
    Json::list(items)
}

/// What is wrong with the JSON form of a binding.
pub open spec fn binding_fault(j: JsonView) -> Option<Seq<char>> {
    if !(j is Object) {
        Some("invalid type: expected an action binding"@)
    } else {
        match field(j, "action_uuid"@) {
            None => Some("missing field `action_uuid`"@),
            Some(JsonView::Text(_)) => match field(j, "label_override"@) {
                None => None,
                Some(JsonView::Null) => None,
                Some(JsonView::Text(_)) => None,
                Some(_) => Some("invalid type: label_override must be a string"@),
            },
            Some(_) => Some("invalid type: action_uuid must be a string"@),
        }
    }
}

/// The binding that a JSON value without fault stands for. A binding without arguments
/// calls its action with an empty object.
pub open spec fn binding_of(j: JsonView) -> BindingView {
    BindingView {
        action_uuid: field(j, "action_uuid"@)->0->Text_0,
        label_override: match field(j, "label_override"@) {
            Some(JsonView::Text(s)) => Some(s),
            _ => None,
        },
        args_json: match field(j, "args_json"@) {
            Some(args) => args,
            None => JsonView::Object(Seq::empty()),
        },
    }
}

/// Reads the JSON form of a binding.
pub fn read_binding(j: &Json) -> (out: Result<EntityActionBinding, String>)
    ensures
        match out {
            Ok(b) => binding_fault(j@) is None && b@ == binding_of(j@),
            Err(e) => binding_fault(j@) == Some(e@),
        },
{
    broadcast use {lemma_json_list_view, lemma_json_object_view};

    match j {
        Json::Object(_) => {},
        _ => return Err(owned("invalid type: expected an action binding")),
    }
    let action_uuid = match j.get("action_uuid") {
        None => return Err(owned("missing field `action_uuid`")),
        Some(Json::Text(uuid)) => uuid.clone(),
        Some(_) => return Err(owned("invalid type: action_uuid must be a string")),
    };
    let label_override = match j.get("label_override") {
        None => None,
        Some(Json::Null) => None,
        Some(Json::Text(label)) => Some(label.clone()),
        Some(_) => return Err(owned("invalid type: label_override must be a string")),
    };
    let args_json = match j.get("args_json") {
        Some(args) => args.duplicate_json(),
        None => {
            let none: Vec<(String, Json)> = Vec::new();
            proof {
                assert(entries_view(none@) =~= Seq::empty());
            }
            Json::object(none)
        },
    };
    Ok(EntityActionBinding { action_uuid, label_override, args_json })
}

/// What is wrong with the first of several JSON values that is no binding.
pub open spec fn bindings_fault(items: Seq<JsonView>) -> Option<Seq<char>>
    decreases items.len(),
{
    if items.len() == 0 {
        None
    } else if bindings_fault(items.drop_last()) is Some {
        bindings_fault(items.drop_last())
    } else {
        binding_fault(items.last())
    }
}

proof fn lemma_fault_stays(items: Seq<JsonView>, n: int)
    requires
        0 <= n <= items.len(),
        bindings_fault(items.take(n)) is Some,
    ensures
        bindings_fault(items) == bindings_fault(items.take(n)),
    decreases items.len() - n,
{
    if n < items.len() {
        assert(items.take(n + 1).drop_last() =~= items.take(n));
        lemma_fault_stays(items, n + 1);
    } else {
        assert(items.take(n) =~= items);
    }
}

pub open spec fn bindings_of(items: Seq<JsonView>) -> Seq<BindingView> {
    items.map_values(|j: JsonView| binding_of(j))
}

/// Reads the JSON form of bindings.
pub fn read_bindings(items: &Vec<Json>) -> (out: Result<Vec<EntityActionBinding>, String>)
    ensures
        match out {
            Ok(list) => bindings_fault(list_view(items@)) is None && binding_views(list@)
                == bindings_of(list_view(items@)),
            Err(e) => bindings_fault(list_view(items@)) == Some(e@),
        },
{
    let ghost all = list_view(items@);
    let mut out: Vec<EntityActionBinding> = Vec::new();
    let mut i: usize = 0;
    proof {
        assert(all.take(0) =~= Seq::empty());
    }
    while i < items.len()
        invariant
            i <= items@.len(),
            all == list_view(items@),
            out@.len() == i,
            bindings_fault(all.take(i as int)) is None,
            forall|k: int| 0 <= k < i ==> (#[trigger] out@[k])@ == binding_of(all[k]),
        decreases items@.len() - i,
    {
        proof {
            assert(all.take(i + 1).drop_last() =~= all.take(i as int));
            assert(all.take(i + 1).last() == items@[i as int]@);
        }
        match read_binding(&items[i]) {
            Ok(b) => out.push(b),
            Err(e) => {
                proof {
                    lemma_fault_stays(all, i + 1);
                }
                return Err(e);
            },
        }
        i = i + 1;
    }
    proof {
        assert(all.take(i as int) =~= all);
        assert(binding_views(out@) =~= bindings_of(all));
    }
    Ok(out)
}

/// Reading what was written of a binding gives the binding back.
pub proof fn law_binding_round_trip(b: BindingView)
    ensures
        binding_fault(binding_json(b)) is None,
        binding_of(binding_json(b)) == b,
{
    let j = binding_json(b);
    let entries = j->Object_0;
    reveal_strlit("action_uuid");
    reveal_strlit("args_json");
    reveal_strlit("label_override");
    assert("action_uuid"@.len() == 11 && "args_json"@.len() == 9 && "label_override"@.len() == 14);
    crate::json::lemma_lookup_at(entries, "action_uuid"@, 0);
    crate::json::lemma_lookup_at(entries, "args_json"@, 1);
    crate::json::lemma_lookup_at(entries, "label_override"@, 2);
}

/// The length of a value that is a text.
pub open spec fn text_length(j: JsonView) -> nat {
    match j {
        JsonView::Text(s) => s.len(),
        _ => 0,
    }
}

/// The bindings that a value stands for: none, a list of them, one of them, or a text that
/// holds one of these as JSON.
pub open spec fn bindings_value(path: Seq<char>, value: JsonView) -> Result<
    Seq<BindingView>,
    ErrorView,
>
    decreases text_length(value),
{
    match value {
        JsonView::Null => Ok(Seq::empty()),
        JsonView::Text(text) => if trimmed(text).len() == 0 {
            Ok(Seq::empty())
        } else {
            match json_read(text) {
                Err(e) => Err(
                    path_fault(
                        path,
                        "invalid_value"@,
                        "actions.json string value must be valid JSON: "@ + e,
                    ),
                ),
                Ok(j) => if text_length(j) < text.len() {
                    bindings_value(path, j)
                } else {
                    Ok(Seq::empty())
                },
            }
        },
        JsonView::List(items) => match bindings_fault(items) {
            None => Ok(bindings_of(items)),
            Some(e) => Err(
                path_fault(
                    path,
                    "invalid_value"@,
                    "actions.json must be an array of action bindings: "@ + e,
                ),
            ),
        },
        _ => match binding_fault(value) {
            None => Ok(seq![binding_of(value)]),
            Some(e) => Err(
                path_fault(
                    path,
                    "invalid_value"@,
                    "actions.json must be an action binding object or array: "@ + e,
                ),
            ),
        },
    }
}

pub open spec fn bindings_out(out: Result<Vec<EntityActionBinding>, SdkError>) -> Result<
    Seq<BindingView>,
    ErrorView,
> {
    match out {
        Ok(list) => Ok(binding_views(list@)),
        Err(e) => Err(e@),
    }
}

fn read_bindings_value(path: &str, value: &Json) -> (out: Result<
    Vec<EntityActionBinding>,
    SdkError,
>)
    ensures
        bindings_out(out) == bindings_value(path@, value@),
    decreases text_length(value@),
{
    broadcast use {lemma_json_list_view, lemma_json_object_view};

    match value {
        Json::Null => {
            let none: Vec<EntityActionBinding> = Vec::new();
            proof {
                assert(binding_views(none@) =~= Seq::empty());
            }
            Ok(none)
        },
        Json::Text(text) => {
            let bare = trim(text.as_str());
            if crate::search::fields::is_empty(bare.as_str()) {
                let none: Vec<EntityActionBinding> = Vec::new();
                proof {
                    assert(binding_views(none@) =~= Seq::empty());
                }
                return Ok(none);
            }
            match read_json(text.as_str()) {
                Err(e) => {
                    let message = cat(
                        "actions.json string value must be valid JSON: ",
                        e.as_str(),
                    );
                    Err(refused(path, "invalid_value", message.as_str()))
                },
                Ok(j) => {
                    proof {
                        if trimmed(text@).len() > 0 && text@.len() == 0 {
                            assert(trimmed(text@).len() == 0);
                        }
                    }
                    read_bindings_value(path, &j)
                },
            }
        },
        Json::List(items) => match read_bindings(items) {
            Ok(list) => Ok(list),
            Err(e) => {
                let message = cat(
                    "actions.json must be an array of action bindings: ",
                    e.as_str(),
                );
                Err(refused(path, "invalid_value", message.as_str()))
            },
        },
        _ => match read_binding(value) {
            Ok(b) => {
                let list = vec![b];
                proof {
                    assert(binding_views(list@) =~= seq![binding_of(value@)]);
                }
                Ok(list)
            },
            Err(e) => {
                let message = cat(
                    "actions.json must be an action binding object or array: ",
                    e.as_str(),
                );
                Err(refused(path, "invalid_value", message.as_str()))
            },
        },
    }
}

/// The bindings that a file of bindings is overwritten with.
pub open spec fn bindings_given(path: Seq<char>, value: Option<JsonView>) -> Result<
    Seq<BindingView>,
    ErrorView,
> {
    match value {
        None => Err(
            path_fault(
                path,
                "invalid_value"@,
                "actions.json requires an array, an object, or null."@,
            ),
        ),
        Some(value) => bindings_value(path, value),
    }
}

pub open spec fn given_view(value: Option<&Json>) -> Option<JsonView> {
    match value {
        Some(j) => Some(j@),
        None => None,
    }
}

/// The bindings that a file of bindings is overwritten with.
pub fn parse_entity_action_bindings_value(path: &str, value: Option<&Json>) -> (out: Result<
    Vec<EntityActionBinding>,
    SdkError,
>)
    ensures
        bindings_out(out) == bindings_given(path@, given_view(value)),
{
    match value {
        None => Err(
            refused(path, "invalid_value", "actions.json requires an array, an object, or null."),
        ),
        Some(value) => read_bindings_value(path, value),
    }
}

/// The bindings among the attributes of an entity; none where they are not as they should
/// be.
pub open spec fn kept_bindings(attrs: Option<JsonView>) -> Seq<BindingView> {
    match attrs {
        Some(attrs) => match field(attrs, "action_bindings"@) {
            Some(JsonView::List(items)) => if bindings_fault(items) is None {
                bindings_of(items)
            } else {
                Seq::empty()
            },
            _ => Seq::empty(),
        },
        None => Seq::empty(),
    }
}

/// The bindings among the attributes of an entity; none where they are not as they should
/// be.
pub fn read_kept_bindings(attrs: &Option<Json>) -> (out: Vec<EntityActionBinding>)
    ensures
        binding_views(out@) == kept_bindings(crate::json::json_opt_view(*attrs)),
{
    broadcast use {lemma_json_list_view, lemma_json_object_view};

    let none: Vec<EntityActionBinding> = Vec::new();
    proof {
        assert(binding_views(none@) =~= Seq::empty());
    }
    match attrs {
        Some(attrs) => match attrs.get("action_bindings") {
            Some(Json::List(items)) => match read_bindings(items) {
                Ok(list) => list,
                Err(_) => none,
            },
            _ => none,
        },
        None => none,
    }
}

/// A binding with what is known of its action.
#[derive(Debug)]
pub struct ResolvedEntityActionBinding {
    pub binding: EntityActionBinding,
    pub action_title: Option<String>,
    pub action_description: Option<String>,
    pub action_enabled: Option<bool>,
    pub action_missing: bool,
}

/// A binding with what is known of its action, over character sequences.
pub struct ResolvedView {
    pub binding: BindingView,
    pub action_title: Option<Seq<char>>,
    pub action_description: Option<Seq<char>>,
    pub action_enabled: Option<bool>,
    pub action_missing: bool,
}

impl View for ResolvedEntityActionBinding {
    type V = ResolvedView;

    open spec fn view(&self) -> ResolvedView {
        ResolvedView {
            binding: self.binding@,
            action_title: opt_view(self.action_title),
            action_description: opt_view(self.action_description),
            action_enabled: self.action_enabled,
            action_missing: self.action_missing,
        }
    }
}

pub open spec fn resolved_views(list: Seq<ResolvedEntityActionBinding>) -> Seq<ResolvedView> {
    list.map_values(|r: ResolvedEntityActionBinding| r@)
}

/// A binding with what is known of its action.
pub open spec fn resolved_binding(b: BindingView, actions: Seq<ActionDefinition>) -> ResolvedView {
    match first_data(actions, is_action(b.action_uuid)) {
        Some(a) => ResolvedView {
            binding: b,
            action_title: Some(a.title@),
            action_description: Some(a.description@),
            action_enabled: Some(a.enabled),
            action_missing: false,
        },
        None => ResolvedView {
            binding: b,
            action_title: None,
            action_description: None,
            action_enabled: None,
            action_missing: true,
        },
    }
}

pub open spec fn resolved_bindings(list: Seq<BindingView>, actions: Seq<ActionDefinition>) -> Seq<
    ResolvedView,
> {
    list.map_values(|b: BindingView| resolved_binding(b, actions))
}

/// Bindings with what the store knows of their actions.
pub fn resolve_entity_action_bindings(
    storage: &Storage,
    bindings: Vec<EntityActionBinding>,
) -> (out: Vec<ResolvedEntityActionBinding>)
    ensures
        resolved_views(out@) == resolved_bindings(
            binding_views(bindings@),
            storage.actions.data(),
        ),
{
    let ghost all = binding_views(bindings@);
    let mut out: Vec<ResolvedEntityActionBinding> = Vec::new();
    let mut i: usize = 0;
    while i < bindings.len()
        invariant
            i <= bindings@.len(),
            all == binding_views(bindings@),
            out@.len() == i,
            forall|k: int|
                0 <= k < i ==> (#[trigger] out@[k])@ == resolved_binding(
                    all[k],
                    storage.actions.data(),
                ),
        decreases bindings@.len() - i,
    {
        let binding = bindings[i].duplicate_binding();
        let resolved = match storage.fetch_action(bindings[i].action_uuid.as_str()) {
            Some(a) => ResolvedEntityActionBinding {
                binding,
                action_title: Some(a.title),
                action_description: Some(a.description),
                action_enabled: Some(a.enabled),
                action_missing: false,
            },
            None => ResolvedEntityActionBinding {
                binding,
                action_title: None,
                action_description: None,
                action_enabled: None,
                action_missing: true,
            },
        };
        proof {
            assert(all[i as int] == bindings@[i as int]@);
        }
        out.push(resolved);
        i = i + 1;
    }
    proof {
        assert(resolved_views(out@) =~= resolved_bindings(all, storage.actions.data()));
    }
    out
}

pub open spec fn opt_bool_json(b: Option<bool>) -> JsonView {
    match b {
        Some(b) => JsonView::Bool(b),
        None => JsonView::Null,
    }
}

/// The JSON form of a binding with what is known of its action.
pub open spec fn resolved_json(r: ResolvedView) -> JsonView {
    JsonView::Object(
        seq![
            ("action_description"@, opt_text_json(r.action_description)),
            ("action_enabled"@, opt_bool_json(r.action_enabled)),
            ("action_missing"@, JsonView::Bool(r.action_missing)),
            ("action_title"@, opt_text_json(r.action_title)),
            ("action_uuid"@, JsonView::Text(r.binding.action_uuid)),
            ("args_json"@, r.binding.args_json),
            ("label_override"@, opt_text_json(r.binding.label_override)),
        ],
    )
}

fn resolved_to_json(r: &ResolvedEntityActionBinding) -> (j: Json)
    ensures
        j@ == resolved_json(r@),
{
    let enabled = match r.action_enabled {
        Some(b) => Json::Bool(b),
        None => Json::Null,
    };
    let entries = vec![
        entry("action_description", Json::opt_text(&r.action_description)),
        entry("action_enabled", enabled),
        entry("action_missing", Json::Bool(r.action_missing)),
        entry("action_title", Json::opt_text(&r.action_title)),
        entry("action_uuid", Json::text(r.binding.action_uuid.as_str())),
        entry("args_json", r.binding.args_json.duplicate_json()),
        entry("label_override", Json::opt_text(&r.binding.label_override)),
    ];
    proof {
        assert(entries_view(entries@) =~= resolved_json(r@)->Object_0);
    }
    Json::object(entries)
}

/// The JSON form of bindings with what is known of their actions.
pub open spec fn resolved_list_json(list: Seq<ResolvedView>) -> JsonView {
    JsonView::List(list.map_values(|r: ResolvedView| resolved_json(r)))
}

/// The JSON form of bindings with what is known of their actions.
pub fn resolved_list_to_json(list: &Vec<ResolvedEntityActionBinding>) -> (j: Json)
    ensures
        j@ == resolved_list_json(resolved_views(list@)),
{
    let mut items: Vec<Json> = Vec::new();
    let mut i: usize = 0;
    while i < list.len()
        invariant
            i <= list@.len(),
            items@.len() == i,
            forall|k: int| 0 <= k < i ==> (#[trigger] items@[k])@ == resolved_json(list@[k]@),
        decreases list@.len() - i,
    {
        items.push(resolved_to_json(&list[i]));
        i = i + 1;
    }
    proof {
        assert(list_view(items@) =~= resolved_list_json(resolved_views(list@))->List_0);
    }
    Json::list(items)
}

} // verus!
