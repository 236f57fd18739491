//! Whether two values are the same.
use crate::content_registry::{ContentEntryPayload, LocationField};
use crate::json::{entries_view, list_view, opt_view, Json};
use crate::json::{lemma_json_list_view, lemma_json_object_view};
use crate::text::same;
use crate::things_types::{ThingCollectionEntry, ThingEntry};
use vstd::prelude::*;

verus! {

/// Whether two texts that may be missing are the same.
pub fn same_opt(a: &Option<String>, b: &Option<String>) -> (r: bool)
    ensures
        r == (opt_view(*a) == opt_view(*b)),
{
    match (a, b) {
        (Some(a), Some(b)) => same(a.as_str(), b.as_str()),
        (None, None) => true,
        _ => false,
    }
}

/// Whether two values are the same.
pub fn same_json(a: &Json, b: &Json) -> (r: bool)
    ensures
        r == (a@ == b@),
    decreases *a,
{
    match (a, b) {
        (Json::Null, Json::Null) => true,
        (Json::Bool(x), Json::Bool(y)) => *x == *y,
        (Json::Number(x), Json::Number(y)) => same(x.as_str(), y.as_str()),
        (Json::Text(x), Json::Text(y)) => same(x.as_str(), y.as_str()),
        (Json::List(x), Json::List(y)) => {
            proof {
                broadcast use lemma_json_list_view;

                assert(a@ == crate::json::JsonView::List(list_view(x@)));
                assert(b@ == crate::json::JsonView::List(list_view(y@)));
                assert(list_view(x@).len() == x@.len());
                assert(list_view(y@).len() == y@.len());
            }
            if x.len() != y.len() {
                return false;
            }
            let mut i: usize = 0;
            while i < x.len()
                invariant
                    i <= x@.len(),
                    x@.len() == y@.len(),
                    *a == Json::List(*x),
                    a@ == crate::json::JsonView::List(list_view(x@)),
                    b@ == crate::json::JsonView::List(list_view(y@)),
                    forall|k: int| 0 <= k < i ==> (#[trigger] x@[k])@ == y@[k]@,
                decreases x@.len() - i,
            {
                proof {
                    assert(decreases_to!(*a => a->List_0@[i as int]));
                }
                if !same_json(&x[i], &y[i]) {
                    proof {
                        assert(list_view(x@)[i as int] != list_view(y@)[i as int]);
                    }
                    return false;
                }
                i = i + 1;
            }
            proof {
                assert(list_view(x@) =~= list_view(y@));
            }
            true
        },
        (Json::Object(x), Json::Object(y)) => {
            proof {
                broadcast use lemma_json_object_view;

                assert(a@ == crate::json::JsonView::Object(entries_view(x@)));
                assert(b@ == crate::json::JsonView::Object(entries_view(y@)));
                assert(entries_view(x@).len() == x@.len());
                assert(entries_view(y@).len() == y@.len());
            }
            if x.len() != y.len() {
                return false;
            }
            let mut i: usize = 0;
            while i < x.len()
                invariant
                    i <= x@.len(),
                    x@.len() == y@.len(),
                    *a == Json::Object(*x),
                    a@ == crate::json::JsonView::Object(entries_view(x@)),
                    b@ == crate::json::JsonView::Object(entries_view(y@)),
                    forall|k: int|
                        0 <= k < i ==> (#[trigger] x@[k]).0@ == y@[k].0@ && x@[k].1@ == y@[k].1@,
                decreases x@.len() - i,
            {
                proof {
                    assert(decreases_to!(*a => a->Object_0@[i as int].1));
                }
                if !same(x[i].0.as_str(), y[i].0.as_str()) || !same_json(&x[i].1, &y[i].1) {
                    proof {
                        assert(entries_view(x@)[i as int] != entries_view(y@)[i as int]);
                    }
                    return false;
                }
                i = i + 1;
            }
            proof {
                assert(entries_view(x@) =~= entries_view(y@));
            }
            true
        },
        _ => {
            proof {
                broadcast use {lemma_json_list_view, lemma_json_object_view};

            }
            false
        },
    }
}

/// Whether two payloads are the same.
pub fn same_payload(a: &ContentEntryPayload, b: &ContentEntryPayload) -> (r: bool)
    ensures
        r == (a@ == b@),
{
    match (a, b) {
        (
            ContentEntryPayload::Markdown { doc_uuid: x },
            ContentEntryPayload::Markdown { doc_uuid: y },
        ) => same(x.as_str(), y.as_str()),
        (ContentEntryPayload::JsonObject(x), ContentEntryPayload::JsonObject(y)) => same(
            x.data_doc_uuid.as_str(),
            y.data_doc_uuid.as_str(),
        ) && same_opt(&x.schema_doc_uuid, &y.schema_doc_uuid),
        (ContentEntryPayload::Url(x), ContentEntryPayload::Url(y)) => same(
            x.url.as_str(),
            y.url.as_str(),
        ) && same_opt(&x.title, &y.title) && same_opt(&x.description, &y.description) && same_opt(
            &x.image_url,
            &y.image_url,
        ) && same_opt(&x.favicon_url, &y.favicon_url) && same_opt(&x.site_name, &y.site_name)
            && x.resolved == y.resolved,
        (
            ContentEntryPayload::Location(
                LocationField::Coordinate { lat, lng, coord_system, source_name },
            ),
            ContentEntryPayload::Location(
                LocationField::Coordinate {
                    lat: lat2,
                    lng: lng2,
                    coord_system: coord_system2,
                    source_name: source_name2,
                },
            ),
        ) => same(lat.as_str(), lat2.as_str()) && same(lng.as_str(), lng2.as_str()) && same(
            coord_system.as_str(),
            coord_system2.as_str(),
        ) && same_opt(source_name, source_name2),
        (
            ContentEntryPayload::Location(LocationField::Fuzzy { name, place_type }),
            ContentEntryPayload::Location(
                LocationField::Fuzzy { name: name2, place_type: place_type2 },
            ),
        ) => same(name.as_str(), name2.as_str()) && same(
            place_type.as_str(),
            place_type2.as_str(),
        ),
        (ContentEntryPayload::Date(x), ContentEntryPayload::Date(y)) => x.timestamp_ms
            == y.timestamp_ms && x.has_time == y.has_time && same_opt(&x.timezone, &y.timezone),
        (ContentEntryPayload::Image(x), ContentEntryPayload::Image(y)) => same(
            x.uri.as_str(),
            y.uri.as_str(),
        ) && same_opt(&x.caption, &y.caption) && x.width == y.width && x.height == y.height
            && x.size_bytes == y.size_bytes && same_opt(&x.device_id, &y.device_id),
        (
            ContentEntryPayload::Custom { content_type, data },
            ContentEntryPayload::Custom { content_type: content_type2, data: data2 },
        ) => same(content_type.as_str(), content_type2.as_str()) && same_json(data, data2),
        _ => false,
    }
}

/// Whether two collections of snapshots are the same.
pub fn same_collection_entry(a: &ThingCollectionEntry, b: &ThingCollectionEntry) -> (r: bool)
    ensures
        r == (a@ == b@),
{
    same(a.uuid.as_str(), b.uuid.as_str()) && same(a.title.as_str(), b.title.as_str())
        && a.collection_type == b.collection_type && same_opt(&a.app_id, &b.app_id)
        && a.archived_at == b.archived_at && same_opt(&a.card_jsx, &b.card_jsx) && a.created_at
        == b.created_at && a.updated_at == b.updated_at && same_opt(&a.actor_type, &b.actor_type)
        && same_opt(&a.actor_app_id, &b.actor_app_id) && same_opt(
        &a.actor_display_name,
        &b.actor_display_name,
    )
}

/// Whether two things of snapshots are the same. A kind is the same where its name is.
pub fn same_thing_entry(a: &ThingEntry, b: &ThingEntry) -> (r: bool)
    ensures
        r == (a@ == b@),
{
    same(a.uuid.as_str(), b.uuid.as_str()) && same(a.title.as_str(), b.title.as_str()) && same(
        a.datatype.as_str(),
        b.datatype.as_str(),
    ) && same_json(&a.data, &b.data) && same(
        a.collection_uuid.as_str(),
        b.collection_uuid.as_str(),
    ) && same_opt(&a.parent_uuid, &b.parent_uuid) && a.archived_at == b.archived_at && same_opt(
        &a.archived_from_collection_uuid,
        &b.archived_from_collection_uuid,
    ) && a.created_at == b.created_at && a.updated_at == b.updated_at && same(
        a.status.as_str(),
        b.status.as_str(),
    ) && a.status_timestamp_ms == b.status_timestamp_ms && same_opt(&a.actor_type, &b.actor_type)
        && same_opt(&a.actor_app_id, &b.actor_app_id) && same_opt(
        &a.actor_display_name,
        &b.actor_display_name,
    )
}

} // verus!
