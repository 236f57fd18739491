//! When a collection or a thing was created and last changed. Both times are kept
//! among the attributes of the entity, under keys that a snapshot does not show.
use crate::clock::{
    clock_text, now, plain_time, read_rfc3339, rfc3339_text, rfc3339_time, time_written,
    write_rfc3339, DomainTime,
};
use crate::error::{failure, ErrorView, SdkError};
use crate::json::{
    copy_entries, drop_entry, entries_view, json_opt_view, law_with_entry, lookup, object_entries,
    opt_view, put_entry, text_field, with_entry, without_entry, Json, JsonView,
};
use crate::text::{cat, is_space, trim, trimmed, trimmed_end, trimmed_start};
use vstd::prelude::*;

verus! {

/// When an entity was created and last changed, as RFC 3339 texts.
#[derive(Debug)]
pub struct EntityTimestamps {
    pub created_at: Option<String>,
    pub updated_at: Option<String>,
}

/// A text without white space around it; none where nothing is left.
pub open spec fn trimmed_text(s: Option<Seq<char>>) -> Option<Seq<char>> {
    match s {
        Some(s) => if trimmed(s).len() > 0 { Some(trimmed(s)) } else { None },
        None => None,
    }
}

/// The refusal of a text that is no RFC 3339 time.
pub open spec fn time_fault(text: Seq<char>) -> ErrorView {
    ErrorView::Failure { message: "Invalid RFC 3339 timestamp: "@ + text }
}

/// A time in its normal form: RFC 3339 in UTC.
pub open spec fn normal_time(text: Option<Seq<char>>) -> Result<Option<Seq<char>>, ErrorView> {
    match trimmed_text(text) {
        None => Ok(None),
        Some(t) => match rfc3339_time(t) {
            Some(time) => Ok(Some(rfc3339_text(time))),
            None => Err(time_fault(t)),
        },
    }
}

/// When an entity was created, as its attributes say.
pub open spec fn created_of(attrs: Option<JsonView>) -> Option<Seq<char>> {
    match attrs {
        Some(j) => trimmed_text(text_field(j, "__remi_created_at"@)),
        None => None,
    }
}

/// When an entity was last changed, as its attributes say.
pub open spec fn updated_of(attrs: Option<JsonView>) -> Option<Seq<char>> {
    match attrs {
        Some(j) => trimmed_text(text_field(j, "__remi_updated_at"@)),
        None => None,
    }
}

/// The times of an entity that is written at `now`: those that are given; else the
/// time of creation that it has, and the present.
pub open spec fn resolved_times(
    attrs: Option<JsonView>,
    created: Option<Seq<char>>,
    updated: Option<Seq<char>>,
    existed: bool,
    now: Seq<char>,
) -> Result<(Seq<char>, Seq<char>), ErrorView> {
    match normal_time(created) {
        Err(e) => Err(e),
        Ok(given_created) => match normal_time(updated) {
            Err(e) => Err(e),
            Ok(given_updated) => {
                let c = if given_created is Some {
                    given_created->0
                } else if created_of(attrs) is Some {
                    created_of(attrs)->0
                } else {
                    now
                };
                let u = if given_updated is Some {
                    given_updated->0
                } else if existed {
                    now
                } else {
                    c
                };
                Ok((c, u))
            },
        },
    }
}

/// The entries of an object with a text under a key; without the key where there is no
/// text.
pub open spec fn with_text(
    entries: Seq<(Seq<char>, JsonView)>,
    key: Seq<char>,
    text: Option<Seq<char>>,
) -> Seq<(Seq<char>, JsonView)> {
    match text {
        Some(text) => with_entry(entries, key, JsonView::Text(text)),
        None => without_entry(entries, key),
    }
}

/// Attributes with the two times, each in its normal form.
pub open spec fn attrs_with_times(
    attrs: Option<JsonView>,
    created: Option<Seq<char>>,
    updated: Option<Seq<char>>,
) -> Result<JsonView, ErrorView> {
    match normal_time(created) {
        Err(e) => Err(e),
        Ok(c) => match normal_time(updated) {
            Err(e) => Err(e),
            Ok(u) => Ok(
                JsonView::Object(
                    with_text(
                        with_text(object_entries(attrs), "__remi_created_at"@, c),
                        "__remi_updated_at"@,
                        u,
                    ),
                ),
            ),
        },
    }
}

/// Attributes without the two times; none where nothing else is left.
pub open spec fn attrs_shown(attrs: Option<JsonView>) -> Option<JsonView> {
    match attrs {
        Some(JsonView::Object(entries)) => {
            let kept = without_entry(
                without_entry(entries, "__remi_created_at"@),
                "__remi_updated_at"@,
            );
            if kept.len() == 0 {
                None
            } else {
                Some(JsonView::Object(kept))
            }
        },
        other => other,
    }
}

/// Takes white space away from around a text.
pub fn trim_timestamp_value(value: Option<String>) -> (out: Option<String>)
    ensures
        opt_view(out) == trimmed_text(opt_view(value)),
{
    match value {
        Some(s) => {
            let t = trim(s.as_str());
            if t.as_str().is_empty() {
                None
            } else {
                Some(t)
            }
        },
        None => None,
    }
}

/// Brings a time into its normal form.
pub fn normalize_timestamp_value(value: Option<String>) -> (out: Result<Option<String>, SdkError>)
    ensures
        match out {
            Ok(t) => normal_time(opt_view(value)) == Ok::<Option<Seq<char>>, ErrorView>(
                opt_view(t),
            ),
            Err(e) => normal_time(opt_view(value)) == Err::<Option<Seq<char>>, ErrorView>(e@),
        },
{
    match trim_timestamp_value(value) {
        Some(t) => match read_rfc3339(t.as_str()) {
            Some(time) => Ok(Some(write_rfc3339(time))),
            None => {
                let message = cat("Invalid RFC 3339 timestamp: ", t.as_str());
                Err(failure(message.as_str()))
            },
        },
        None => Ok(None),
    }
}

/// The present in RFC 3339 form.
pub fn now_timestamp_rfc3339() -> (text: String)
    ensures
        clock_text(text@),
{
    let t = now();
    let text = write_rfc3339(t);
    assert(time_written(t, text@));
    text
}

/// The present is in its normal form as long as its year has four digits.
pub proof fn law_present_is_normal(t: DomainTime, text: Seq<char>)
    requires
        plain_time(t),
        time_written(t, text),
    ensures
        normal_time(Some(text)) == Ok::<Option<Seq<char>>, ErrorView>(Some(text)),
        trimmed(text) == text,
{
    assert(!is_space(text[0]) && !is_space(text.last()));
    assert(trimmed_start(text) == text);
    assert(trimmed_end(text) == text);
}

/// The two times among the attributes of an entity.
pub fn extract_entity_timestamps(attrs: &Option<Json>) -> (t: EntityTimestamps)
    ensures
        opt_view(t.created_at) == created_of(json_opt_view(*attrs)),
        opt_view(t.updated_at) == updated_of(json_opt_view(*attrs)),
{
    match attrs {
        Some(j) => EntityTimestamps {
            created_at: trim_timestamp_value(j.get_text("__remi_created_at")),
            updated_at: trim_timestamp_value(j.get_text("__remi_updated_at")),
        },
        None => EntityTimestamps { created_at: None, updated_at: None },
    }
}

/// The attributes of an entity as a snapshot shows them.
pub fn strip_internal_timestamp_attrs(attrs: &Option<Json>) -> (out: Option<Json>)
    ensures
        json_opt_view(out) == attrs_shown(json_opt_view(*attrs)),
{
    broadcast use crate::json::lemma_json_object_view;

    match attrs {
        Some(Json::Object(_)) => {
            let entries = copy_entries(attrs);
            let entries = drop_entry(entries, "__remi_created_at");
            let entries = drop_entry(entries, "__remi_updated_at");
            proof {
                assert(entries_view(entries@).len() == entries@.len());
            }
            if entries.len() == 0 {
                None
            } else {
                Some(Json::object(entries))
            }
        },
        Some(other) => Some(other.duplicate_json()),
        None => None,
    }
}

/// The card template among the attributes of a collection.
pub fn extract_collection_card_jsx(attrs: &Option<Json>) -> (out: Option<String>)
    ensures
        opt_view(out) == attr_text(json_opt_view(*attrs), "card_jsx"@),
{
    attrs_string(attrs, "card_jsx")
}

/// The text under a key of the attributes, without white space around it.
pub open spec fn attr_text(attrs: Option<JsonView>, key: Seq<char>) -> Option<Seq<char>> {
    match attrs {
        Some(j) => trimmed_text(text_field(j, key)),
        None => None,
    }
}

/// The text under a key of the attributes, without white space around it.
pub fn attrs_string(attrs: &Option<Json>, key: &str) -> (out: Option<String>)
    ensures
        opt_view(out) == attr_text(json_opt_view(*attrs), key@),
{
    match attrs {
        Some(j) => trim_timestamp_value(j.get_text(key)),
        None => None,
    }
}

/// Puts a text under a key, or takes the key away.
pub fn set_text_entry(entries: Vec<(String, Json)>, key: &str, text: Option<String>) -> (out: Vec<
    (String, Json),
>)
    ensures
        entries_view(out@) == with_text(entries_view(entries@), key@, opt_view(text)),
{
    match text {
        Some(text) => {
            let mut entries = entries;
            put_entry(&mut entries, key, Json::Text(text));
            entries
        },
        None => drop_entry(entries, key),
    }
}

/// Attributes with the two times.
pub fn merge_entity_timestamps_into_attrs(
    attrs: &Option<Json>,
    created_at: Option<String>,
    updated_at: Option<String>,
) -> (out: Result<Json, SdkError>)
    ensures
        match out {
            Ok(j) => attrs_with_times(
                json_opt_view(*attrs),
                opt_view(created_at),
                opt_view(updated_at),
            ) == Ok::<JsonView, ErrorView>(j@),
            Err(e) => attrs_with_times(
                json_opt_view(*attrs),
                opt_view(created_at),
                opt_view(updated_at),
            ) == Err::<JsonView, ErrorView>(e@),
        },
{
    let created = match normalize_timestamp_value(created_at) {
        Ok(t) => t,
        Err(e) => return Err(e),
    };
    let updated = match normalize_timestamp_value(updated_at) {
        Ok(t) => t,
        Err(e) => return Err(e),
    };
    let entries = copy_entries(attrs);
    let entries = set_text_entry(entries, "__remi_created_at", created);
    let entries = set_text_entry(entries, "__remi_updated_at", updated);
    Ok(Json::object(entries))
}

/// The times of an entity that is written at `now`.
pub fn resolve_entity_timestamps(
    existing_attrs: &Option<Json>,
    provided_created_at: Option<String>,
    provided_updated_at: Option<String>,
    existed: bool,
    now: &String,
) -> (out: Result<(String, String), SdkError>)
    ensures
        match out {
            Ok(t) => resolved_times(
                json_opt_view(*existing_attrs),
                opt_view(provided_created_at),
                opt_view(provided_updated_at),
                existed,
                now@,
            ) == Ok::<(Seq<char>, Seq<char>), ErrorView>((t.0@, t.1@)),
            Err(e) => resolved_times(
                json_opt_view(*existing_attrs),
                opt_view(provided_created_at),
                opt_view(provided_updated_at),
                existed,
                now@,
            ) == Err::<(Seq<char>, Seq<char>), ErrorView>(e@),
        },
{
    let existing = extract_entity_timestamps(existing_attrs);
    let given_created = match normalize_timestamp_value(provided_created_at) {
        Ok(t) => t,
        Err(e) => return Err(e),
    };
    let given_updated = match normalize_timestamp_value(provided_updated_at) {
        Ok(t) => t,
        Err(e) => return Err(e),
    };
    let created_at = match given_created {
        Some(t) => t,
        None => match existing.created_at {
            Some(t) => t,
            None => now.clone(),
        },
    };
    let updated_at = match given_updated {
        Some(t) => t,
        None => if existed {
            now.clone()
        } else {
            created_at.clone()
        },
    };
    Ok((created_at, updated_at))
}

/// Attributes that were written with two times hold these times, and keep every other
/// attribute.
pub proof fn law_attrs_hold_times(
    attrs: Option<JsonView>,
    created: Seq<char>,
    updated: Seq<char>,
    other: Seq<char>,
)
    requires
        attrs_with_times(attrs, Some(created), Some(updated)) is Ok,
        trimmed(created).len() > 0,
        trimmed(updated).len() > 0,
        other != "__remi_created_at"@,
        other != "__remi_updated_at"@,
    ensures
        ({
            let out = attrs_with_times(attrs, Some(created), Some(updated))->Ok_0;
            &&& normal_time(Some(created)) == Ok::<Option<Seq<char>>, ErrorView>(
                text_field(out, "__remi_created_at"@),
            )
            &&& normal_time(Some(updated)) == Ok::<Option<Seq<char>>, ErrorView>(
                text_field(out, "__remi_updated_at"@),
            )
            &&& lookup(out->Object_0, other) == lookup(object_entries(attrs), other)
        }),
{
    reveal_strlit("__remi_created_at");
    reveal_strlit("__remi_updated_at");
    let ck = "__remi_created_at"@;
    let uk = "__remi_updated_at"@;
    assert(ck[7] == 'c' && uk[7] == 'u');
    let c = normal_time(Some(created))->Ok_0->0;
    let u = normal_time(Some(updated))->Ok_0->0;
    let base = object_entries(attrs);
    let first = with_entry(base, ck, JsonView::Text(c));
    law_with_entry(base, ck, JsonView::Text(c), other);
    law_with_entry(first, uk, JsonView::Text(u), ck);
    law_with_entry(first, uk, JsonView::Text(u), other);
}

} // verus!
