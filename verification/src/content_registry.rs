//! The kinds of content that a thing can hold, and their JSON form.
use crate::error::{failure, ErrorView, SdkError};
use crate::json::{
    bool_field, copy_entries, drop_entry, entries_view, entry, field, float_field, float_of,
    int_field, int_text, law_without_entry, lemma_json_list_view, lemma_json_object_view,
    lemma_lookup_at, list_view, opt_text_json, opt_uint_json, opt_view, put_entry, text_field,
    uint_field, with_entry, without_entry, Json, JsonView,
};
use crate::text::{cat, owned, same, trim, trimmed};
use crate::uuids::{is_uuid_text, random_uuid};
use vstd::prelude::*;

verus! {

/// A link and what is known of its target.
#[derive(Debug)]
pub struct UrlField {
    pub url: String,
    pub title: Option<String>,
    pub description: Option<String>,
    pub image_url: Option<String>,
    pub favicon_url: Option<String>,
    pub site_name: Option<String>,
    pub resolved: bool,
}

/// A place, by its coordinates or by a name. A coordinate is kept as a number's text.
#[derive(Debug)]
pub enum LocationField {
    Coordinate { lat: String, lng: String, coord_system: String, source_name: Option<String> },
    Fuzzy { name: String, place_type: String },
}

/// A date.
#[derive(Debug)]
pub struct DateField {
    pub timestamp_ms: i64,
    pub has_time: bool,
    pub timezone: Option<String>,
}

/// A picture.
#[derive(Debug)]
pub struct ImageField {
    pub uri: String,
    pub caption: Option<String>,
    pub width: Option<u32>,
    pub height: Option<u32>,
    pub size_bytes: Option<u64>,
    pub device_id: Option<String>,
}

/// The documents that hold a JSON object and its schema.
#[derive(Debug)]
pub struct JsonObjectField {
    pub data_doc_uuid: String,
    pub schema_doc_uuid: Option<String>,
}

/// What a content entry holds.
#[derive(Debug)]
pub enum ContentEntryPayload {
    Markdown { doc_uuid: String },
    JsonObject(JsonObjectField),
    Url(UrlField),
    Location(LocationField),
    Date(DateField),
    Image(ImageField),
    Custom { content_type: String, data: Json },
}

/// One piece of content of a thing. Its place among the others is a number's text.
#[derive(Debug)]
pub struct ContentEntry {
    pub id: String,
    pub title: Option<String>,
    pub order: String,
    pub payload: ContentEntryPayload,
}

/// What a content entry holds, over character sequences.
#[allow(inconsistent_fields)]
pub enum PayloadView {
    Markdown { doc_uuid: Seq<char> },
    JsonObject { data_doc_uuid: Seq<char>, schema_doc_uuid: Option<Seq<char>> },
    Url {
        url: Seq<char>,
        title: Option<Seq<char>>,
        description: Option<Seq<char>>,
        image_url: Option<Seq<char>>,
        favicon_url: Option<Seq<char>>,
        site_name: Option<Seq<char>>,
        resolved: bool,
    },
    Coordinate {
        lat: Seq<char>,
        lng: Seq<char>,
        coord_system: Seq<char>,
        source_name: Option<Seq<char>>,
    },
    Fuzzy { name: Seq<char>, place_type: Seq<char> },
    Date { timestamp_ms: int, has_time: bool, timezone: Option<Seq<char>> },
    Image {
        uri: Seq<char>,
        caption: Option<Seq<char>>,
        width: Option<nat>,
        height: Option<nat>,
        size_bytes: Option<nat>,
        device_id: Option<Seq<char>>,
    },
    Custom { content_type: Seq<char>, data: JsonView },
}

/// A content entry over character sequences.
pub struct EntryView {
    pub id: Seq<char>,
    pub title: Option<Seq<char>>,
    pub order: Seq<char>,
    pub payload: PayloadView,
}

pub open spec fn opt_u32_view(n: Option<u32>) -> Option<nat> {
    match n {
        Some(n) => Some(n as nat),
        None => None,
    }
}

pub open spec fn opt_u64_view(n: Option<u64>) -> Option<nat> {
    match n {
        Some(n) => Some(n as nat),
        None => None,
    }
}

impl View for ContentEntryPayload {
    type V = PayloadView;

    open spec fn view(&self) -> PayloadView {
        match self {
            ContentEntryPayload::Markdown { doc_uuid } => PayloadView::Markdown {
                doc_uuid: doc_uuid@,
            },
            ContentEntryPayload::JsonObject(f) => PayloadView::JsonObject {
                data_doc_uuid: f.data_doc_uuid@,
                schema_doc_uuid: opt_view(f.schema_doc_uuid),
            },
            ContentEntryPayload::Url(f) => PayloadView::Url {
                url: f.url@,
                title: opt_view(f.title),
                description: opt_view(f.description),
                image_url: opt_view(f.image_url),
                favicon_url: opt_view(f.favicon_url),
                site_name: opt_view(f.site_name),
                resolved: f.resolved,
            },
            ContentEntryPayload::Location(
                LocationField::Coordinate { lat, lng, coord_system, source_name },
            ) => PayloadView::Coordinate {
                lat: lat@,
                lng: lng@,
                coord_system: coord_system@,
                source_name: opt_view(*source_name),
            },
            ContentEntryPayload::Location(
                LocationField::Fuzzy { name, place_type },
            ) => PayloadView::Fuzzy { name: name@, place_type: place_type@ },
            ContentEntryPayload::Date(f) => PayloadView::Date {
                timestamp_ms: f.timestamp_ms as int,
                has_time: f.has_time,
                timezone: opt_view(f.timezone),
            },
            ContentEntryPayload::Image(f) => PayloadView::Image {
                uri: f.uri@,
                caption: opt_view(f.caption),
                width: opt_u32_view(f.width),
                height: opt_u32_view(f.height),
                size_bytes: opt_u64_view(f.size_bytes),
                device_id: opt_view(f.device_id),
            },
            ContentEntryPayload::Custom { content_type, data } => PayloadView::Custom {
                content_type: content_type@,
                data: data@,
            },
        }
    }
}

impl View for ContentEntry {
    type V = EntryView;

    open spec fn view(&self) -> EntryView {
        EntryView {
            id: self.id@,
            title: opt_view(self.title),
            order: self.order@,
            payload: self.payload@,
        }
    }
}

pub open spec fn or_text(s: Option<Seq<char>>, default: Seq<char>) -> Seq<char> {
    match s {
        Some(s) => s,
        None => default,
    }
}

pub open spec fn or_bool(b: Option<bool>, default: bool) -> bool {
    match b {
        Some(b) => b,
        None => default,
    }
}

/// A text that holds more than white space.
pub open spec fn nonblank(s: Option<Seq<char>>) -> Option<Seq<char>> {
    match s {
        Some(s) => if trimmed(s).len() > 0 { Some(s) } else { None },
        None => None,
    }
}

pub open spec fn low_32_bits(n: Option<nat>) -> Option<nat> {
    match n {
        Some(n) => Some(n % 0x1_0000_0000),
        None => None,
    }
}

/// The name of the kind of content that a payload is of.
pub open spec fn payload_type(j: JsonView) -> Option<Seq<char>> {
    nonblank(text_field(j, "type"@))
}

/// What is wrong with a payload.
pub open spec fn payload_fault(j: JsonView) -> Option<Seq<char>> {
    match payload_type(j) {
        None => Some("Missing payload type"@),
        Some(kind) => if kind == "location"@ {
            let loc_type = or_text(text_field(j, "loc_type"@), ""@);
            if loc_type == "coordinate"@ {
                if float_field(j, "lat"@) is None {
                    Some("Missing lat"@)
                } else if float_field(j, "lng"@) is None {
                    Some("Missing lng"@)
                } else {
                    None
                }
            } else if loc_type == "fuzzy"@ {
                None
            } else {
                Some("Invalid location type: "@ + loc_type)
            }
        } else if kind == "date"@ {
            if int_field(j, "timestamp_ms"@) is None {
                Some("Missing timestamp_ms"@)
            } else {
                None
            }
        } else {
            None
        },
    }
}

/// What a payload without a fault says; `fresh` is the id of a document that it needs
/// and does not name.
pub open spec fn payload_of(j: JsonView, fresh: Seq<char>) -> PayloadView {
    let kind = payload_type(j)->0;
    if kind == "markdown"@ {
        PayloadView::Markdown { doc_uuid: or_text(text_field(j, "doc_uuid"@), fresh) }
    } else if kind == "json_object"@ {
        PayloadView::JsonObject {
            data_doc_uuid: or_text(nonblank(text_field(j, "data_doc_uuid"@)), fresh),
            schema_doc_uuid: nonblank(text_field(j, "schema_doc_uuid"@)),
        }
    } else if kind == "url"@ {
        PayloadView::Url {
            url: or_text(text_field(j, "url"@), ""@),
            title: text_field(j, "title"@),
            description: text_field(j, "description"@),
            image_url: text_field(j, "image_url"@),
            favicon_url: text_field(j, "favicon_url"@),
            site_name: text_field(j, "site_name"@),
            resolved: or_bool(bool_field(j, "resolved"@), false),
        }
    } else if kind == "location"@ {
        if or_text(text_field(j, "loc_type"@), ""@) == "coordinate"@ {
            PayloadView::Coordinate {
                lat: float_field(j, "lat"@)->0,
                lng: float_field(j, "lng"@)->0,
                coord_system: or_text(text_field(j, "coord_system"@), "wgs84"@),
                source_name: text_field(j, "source_name"@),
            }
        } else {
            PayloadView::Fuzzy {
                name: or_text(text_field(j, "name"@), ""@),
                place_type: or_text(text_field(j, "place_type"@), ""@),
            }
        }
    } else if kind == "date"@ {
        PayloadView::Date {
            timestamp_ms: int_field(j, "timestamp_ms"@)->0,
            has_time: or_bool(bool_field(j, "has_time"@), false),
            timezone: text_field(j, "timezone"@),
        }
    } else if kind == "image"@ {
        PayloadView::Image {
            uri: or_text(text_field(j, "uri"@), ""@),
            caption: text_field(j, "caption"@),
            width: low_32_bits(uint_field(j, "width"@)),
            height: low_32_bits(uint_field(j, "height"@)),
            size_bytes: uint_field(j, "size_bytes"@),
            device_id: text_field(j, "device_id"@),
        }
    } else if kind == "custom"@ {
        PayloadView::Custom {
            content_type: kind,
            data: match field(j, "data"@) {
                Some(data) => data,
                None => JsonView::Null,
            },
        }
    } else {
        PayloadView::Custom {
            content_type: kind,
            data: match j {
                JsonView::Object(entries) => JsonView::Object(without_entry(entries, "type"@)),
                _ => JsonView::Null,
            },
        }
    }
}

/// `base` with every entry of `extra` put into it, in order.
pub open spec fn merged(
    base: Seq<(Seq<char>, JsonView)>,
    extra: Seq<(Seq<char>, JsonView)>,
) -> Seq<(Seq<char>, JsonView)>
    decreases extra.len(),
{
    if extra.len() == 0 {
        base
    } else {
        with_entry(merged(base, extra.drop_last()), extra.last().0, extra.last().1)
    }
}

/// The JSON form of a payload.
pub open spec fn payload_json(p: PayloadView) -> JsonView {
    match p {
        PayloadView::Markdown { doc_uuid } => JsonView::Object(
            seq![
                ("doc_uuid"@, JsonView::Text(doc_uuid)),
                ("type"@, JsonView::Text("markdown"@)),
            ],
        ),
        PayloadView::JsonObject { data_doc_uuid, schema_doc_uuid } => JsonView::Object(
            seq![
                ("data_doc_uuid"@, JsonView::Text(data_doc_uuid)),
                ("schema_doc_uuid"@, opt_text_json(schema_doc_uuid)),
                ("type"@, JsonView::Text("json_object"@)),
            ],
        ),
        PayloadView::Url {
            url,
            title,
            description,
            image_url,
            favicon_url,
            site_name,
            resolved,
        } => JsonView::Object(
            seq![
                ("description"@, opt_text_json(description)),
                ("favicon_url"@, opt_text_json(favicon_url)),
                ("image_url"@, opt_text_json(image_url)),
                ("resolved"@, JsonView::Bool(resolved)),
                ("site_name"@, opt_text_json(site_name)),
                ("title"@, opt_text_json(title)),
                ("type"@, JsonView::Text("url"@)),
                ("url"@, JsonView::Text(url)),
            ],
        ),
        PayloadView::Coordinate { lat, lng, coord_system, source_name } => JsonView::Object(
            seq![
                ("coord_system"@, JsonView::Text(coord_system)),
                ("lat"@, JsonView::Number(lat)),
                ("lng"@, JsonView::Number(lng)),
                ("loc_type"@, JsonView::Text("coordinate"@)),
                ("source_name"@, opt_text_json(source_name)),
                ("type"@, JsonView::Text("location"@)),
            ],
        ),
        PayloadView::Fuzzy { name, place_type } => JsonView::Object(
            seq![
                ("loc_type"@, JsonView::Text("fuzzy"@)),
                ("name"@, JsonView::Text(name)),
                ("place_type"@, JsonView::Text(place_type)),
                ("type"@, JsonView::Text("location"@)),
            ],
        ),
        PayloadView::Date { timestamp_ms, has_time, timezone } => JsonView::Object(
            seq![
                ("has_time"@, JsonView::Bool(has_time)),
                ("timestamp_ms"@, JsonView::Number(int_text(timestamp_ms))),
                ("timezone"@, opt_text_json(timezone)),
                ("type"@, JsonView::Text("date"@)),
            ],
        ),
        PayloadView::Image { uri, caption, width, height, size_bytes, device_id } => JsonView::Object(
            seq![
                ("caption"@, opt_text_json(caption)),
                ("device_id"@, opt_text_json(device_id)),
                ("height"@, opt_uint_json(height)),
                ("size_bytes"@, opt_uint_json(size_bytes)),
                ("type"@, JsonView::Text("image"@)),
                ("uri"@, JsonView::Text(uri)),
                ("width"@, opt_uint_json(width)),
            ],
        ),
        PayloadView::Custom { content_type, data } => if content_type == "custom"@ {
            JsonView::Object(seq![("data"@, data), ("type"@, JsonView::Text("custom"@))])
        } else {
            match data {
                JsonView::Object(entries) => JsonView::Object(
                    merged(seq![("type"@, JsonView::Text(content_type))], entries),
                ),
                other => JsonView::Object(
                    seq![("data"@, other), ("type"@, JsonView::Text(content_type))],
                ),
            }
        },
    }
}

/// The JSON form of a content entry.
pub open spec fn entry_json(e: EntryView) -> JsonView {
    JsonView::Object(
        seq![
            ("id"@, JsonView::Text(e.id)),
            ("order"@, JsonView::Number(e.order)),
            ("payload"@, payload_json(e.payload)),
            ("title"@, opt_text_json(e.title)),
        ],
    )
}

pub open spec fn entry_views(entries: Seq<ContentEntry>) -> Seq<EntryView> {
    entries.map_values(|e: ContentEntry| e@)
}

/// The content entries in the snapshot of a thing.
pub open spec fn snapshot_entries(data: JsonView) -> Option<Seq<JsonView>> {
    match field(data, "built_in"@) {
        Some(built_in) => match field(built_in, "content_entries"@) {
            Some(JsonView::List(items)) => Some(items),
            _ => None,
        },
        None => None,
    }
}

/// What is wrong with a content entry of a snapshot.
pub open spec fn snapshot_entry_fault(j: JsonView) -> Option<Seq<char>> {
    match field(j, "payload"@) {
        None => Some("Missing payload in stashed content entry"@),
        Some(payload) => if text_field(j, "id"@) is None {
            Some("Missing id in stashed content entry"@)
        } else {
            payload_fault(payload)
        },
    }
}

/// What a content entry of a snapshot without a fault says.
pub open spec fn snapshot_entry_of(j: JsonView, fresh: Seq<char>) -> EntryView {
    EntryView {
        id: text_field(j, "id"@)->0,
        title: text_field(j, "title"@),
        order: or_text(float_field(j, "order"@), "0.0"@),
        payload: payload_of(field(j, "payload"@)->0, fresh),
    }
}

/// Whether a payload was read from a JSON value, with some random id where it needs one.
pub open spec fn payload_read(j: JsonView, p: PayloadView) -> bool {
    exists|fresh: Seq<char>| is_uuid_text(fresh) && p == #[trigger] payload_of(j, fresh)
}

pub open spec fn snapshot_entry_read(j: JsonView, e: EntryView) -> bool {
    exists|fresh: Seq<char>| is_uuid_text(fresh) && e == #[trigger] snapshot_entry_of(j, fresh)
}

/// What is wrong with the first entry of a list that has a fault.
pub open spec fn first_entry_fault(items: Seq<JsonView>) -> Option<Seq<char>>
    decreases items.len(),
{
    if items.len() == 0 {
        None
    } else if first_entry_fault(items.drop_last()) is Some {
        first_entry_fault(items.drop_last())
    } else {
        snapshot_entry_fault(items.last())
    }
}

/// What is wrong with the content entries in the snapshot of a thing.
pub open spec fn entries_fault(data: JsonView) -> Option<Seq<char>> {
    match snapshot_entries(data) {
        Some(items) => first_entry_fault(items),
        None => None,
    }
}

/// Whether content entries were read from the snapshot of a thing, one for one.
pub open spec fn entries_read(data: JsonView, list: Seq<EntryView>) -> bool {
    match snapshot_entries(data) {
        Some(items) => {
            &&& list.len() == items.len()
            &&& forall|i: int|
                0 <= i < items.len() ==> snapshot_entry_read(items[i], #[trigger] list[i])
        },
        None => list.len() == 0,
    }
}

proof fn lemma_first_entry_fault(items: Seq<JsonView>, at: int)
    requires
        0 <= at <= items.len(),
        first_entry_fault(items.take(at)) is Some,
    ensures
        first_entry_fault(items) == first_entry_fault(items.take(at)),
    decreases items.len(),
{
    if at < items.len() {
        assert(items.drop_last().take(at) =~= items.take(at));
        lemma_first_entry_fault(items.drop_last(), at);
    } else {
        assert(items.take(at) =~= items);
    }
}

/// The text of the first block with the id `main`.
pub open spec fn main_block_text(blocks: Seq<JsonView>) -> Option<Seq<char>>
    decreases blocks.len(),
{
    if blocks.len() == 0 {
        None
    } else if field(blocks[0], "id"@) == Some(JsonView::Text("main"@)) {
        text_field(blocks[0], "text"@)
    } else {
        main_block_text(blocks.drop_first())
    }
}

/// The markdown text in the snapshot of a thing.
pub open spec fn snapshot_markdown(data: JsonView) -> Option<Seq<char>> {
    match text_field(data, "markdown"@) {
        Some(s) => Some(s),
        None => match field(data, "content"@) {
            Some(content) => match field(content, "blocks"@) {
                Some(JsonView::List(blocks)) => main_block_text(blocks),
                _ => None,
            },
            None => None,
        },
    }
}

/// Whether a text holds more than white space.
fn is_nonblank(s: &str) -> (r: bool)
    ensures
        r == (trimmed(s@).len() > 0),
{
    let t = trim(s);
    !t.as_str().is_empty()
}

fn nonblank_text(s: Option<String>) -> (out: Option<String>)
    ensures
        opt_view(out) == nonblank(opt_view(s)),
{
    match s {
        Some(s) => if is_nonblank(s.as_str()) { Some(s) } else { None },
        None => None,
    }
}

fn text_or(s: Option<String>, default: &str) -> (out: String)
    ensures
        out@ == or_text(opt_view(s), default@),
{
    match s {
        Some(s) => s,
        None => owned(default),
    }
}

fn low_bits(n: Option<u64>) -> (out: Option<u32>)
    ensures
        opt_u32_view(out) == low_32_bits(opt_u64_view(n)),
{
    match n {
        Some(n) => Some((n % 0x1_0000_0000) as u32),
        None => None,
    }
}

/// Reads and writes the JSON form of content.
#[derive(Clone, Copy)]
pub struct ContentTypeRegistry;

impl ContentTypeRegistry {
    pub fn new() -> (r: Self)
        ensures
            r == ContentTypeRegistry,
    {
        ContentTypeRegistry
    }

    /// Reads a payload; `fresh` is the id for a document that it needs and does not name.
    pub fn parse_content_entry_payload_with(&self, value: &Json, fresh: &String) -> (out: Result<
        ContentEntryPayload,
        SdkError,
    >)
        ensures
            match out {
                Ok(p) => payload_fault(value@) is None && p@ == payload_of(value@, fresh@),
                Err(e) => payload_fault(value@) is Some && e@ == (ErrorView::Failure {
                    message: payload_fault(value@)->0,
                }),
            },
    {
        let kind = match nonblank_text(value.get_text("type")) {
            Some(kind) => kind,
            None => return Err(failure("Missing payload type")),
        };
        let name = kind.as_str();
        proof {
            reveal_strlit("markdown");
            reveal_strlit("json_object");
            reveal_strlit("url");
            reveal_strlit("location");
            reveal_strlit("date");
            reveal_strlit("image");
            reveal_strlit("custom");
            assert("markdown"@.len() == 8 && "location"@.len() == 8 && "markdown"@[0] == 'm'
                && "location"@[0] == 'l');
        }
        if same(name, "markdown") {
            Ok(
                ContentEntryPayload::Markdown {
                    doc_uuid: text_or(value.get_text("doc_uuid"), fresh.as_str()),
                },
            )
        } else if same(name, "json_object") {
            Ok(
                ContentEntryPayload::JsonObject(
                    JsonObjectField {
                        data_doc_uuid: text_or(
                            nonblank_text(value.get_text("data_doc_uuid")),
                            fresh.as_str(),
                        ),
                        schema_doc_uuid: nonblank_text(value.get_text("schema_doc_uuid")),
                    },
                ),
            )
        } else if same(name, "url") {
            Ok(ContentEntryPayload::Url(self.parse_url_payload(value)))
        } else if same(name, "location") {
            self.parse_location_payload(value)
        } else if same(name, "date") {
            match value.get_int("timestamp_ms") {
                Some(timestamp_ms) => Ok(
                    ContentEntryPayload::Date(
                        DateField {
                            timestamp_ms,
                            has_time: match value.get_bool("has_time") {
                                Some(b) => b,
                                None => false,
                            },
                            timezone: value.get_text("timezone"),
                        },
                    ),
                ),
                None => Err(failure("Missing timestamp_ms")),
            }
        } else if same(name, "image") {
            Ok(
                ContentEntryPayload::Image(
                    ImageField {
                        uri: text_or(value.get_text("uri"), ""),
                        caption: value.get_text("caption"),
                        width: low_bits(value.get_uint("width")),
                        height: low_bits(value.get_uint("height")),
                        size_bytes: value.get_uint("size_bytes"),
                        device_id: value.get_text("device_id"),
                    },
                ),
            )
        } else {
            let data = self.parse_custom_data(name, value);
            Ok(ContentEntryPayload::Custom { content_type: kind, data })
        }
    }

    fn parse_url_payload(&self, value: &Json) -> (f: UrlField)
        ensures
            f.url@ == or_text(text_field(value@, "url"@), ""@),
            opt_view(f.title) == text_field(value@, "title"@),
            opt_view(f.description) == text_field(value@, "description"@),
            opt_view(f.image_url) == text_field(value@, "image_url"@),
            opt_view(f.favicon_url) == text_field(value@, "favicon_url"@),
            opt_view(f.site_name) == text_field(value@, "site_name"@),
            f.resolved == or_bool(bool_field(value@, "resolved"@), false),
    {
        UrlField {
            url: text_or(value.get_text("url"), ""),
            title: value.get_text("title"),
            description: value.get_text("description"),
            image_url: value.get_text("image_url"),
            favicon_url: value.get_text("favicon_url"),
            site_name: value.get_text("site_name"),
            resolved: match value.get_bool("resolved") {
                Some(b) => b,
                None => false,
            },
        }
    }

    fn parse_location_payload(&self, value: &Json) -> (out: Result<ContentEntryPayload, SdkError>)
        requires
            payload_type(value@) == Some("location"@),
        ensures
            match out {
                Ok(p) => payload_fault(value@) is None && forall|fresh: Seq<char>|
                    p@ == #[trigger] payload_of(value@, fresh),
                Err(e) => payload_fault(value@) is Some && e@ == (ErrorView::Failure {
                    message: payload_fault(value@)->0,
                }),
            },
    {
        proof {
            reveal_strlit("markdown");
            reveal_strlit("json_object");
            reveal_strlit("url");
            reveal_strlit("location");
            assert("markdown"@[0] == 'm' && "location"@[0] == 'l');
        }
        let loc_type = text_or(value.get_text("loc_type"), "");
        if same(loc_type.as_str(), "coordinate") {
            let lat = match value.get_float("lat") {
                Some(n) => n,
                None => return Err(failure("Missing lat")),
            };
            let lng = match value.get_float("lng") {
                Some(n) => n,
                None => return Err(failure("Missing lng")),
            };
            Ok(
                ContentEntryPayload::Location(
                    LocationField::Coordinate {
                        lat,
                        lng,
                        coord_system: text_or(value.get_text("coord_system"), "wgs84"),
                        source_name: value.get_text("source_name"),
                    },
                ),
            )
        } else if same(loc_type.as_str(), "fuzzy") {
            Ok(
                ContentEntryPayload::Location(
                    LocationField::Fuzzy {
                        name: text_or(value.get_text("name"), ""),
                        place_type: text_or(value.get_text("place_type"), ""),
                    },
                ),
            )
        } else {
            let message = cat("Invalid location type: ", loc_type.as_str());
            Err(failure(message.as_str()))
        }
    }

    fn parse_custom_data(&self, content_type: &str, value: &Json) -> (data: Json)
        ensures
            data@ == (if content_type@ == "custom"@ {
                match field(value@, "data"@) {
                    Some(data) => data,
                    None => JsonView::Null,
                }
            } else {
                match value@ {
                    JsonView::Object(entries) => JsonView::Object(without_entry(entries, "type"@)),
                    _ => JsonView::Null,
                }
            }),
    {
        broadcast use lemma_json_object_view;

        if same(content_type, "custom") {
            match value.get("data") {
                Some(data) => data.duplicate_json(),
                None => Json::Null,
            }
        } else {
            match value {
                Json::Object(entries) => {
                    let copy = copy_entries(&Some(value.duplicate_json()));
                    Json::object(drop_entry(copy, "type"))
                },
                _ => Json::Null,
            }
        }
    }

    /// Reads a payload; a document that it needs and does not name gets a random id.
    pub fn parse_content_entry_payload(&self, value: &Json) -> (out: Result<
        ContentEntryPayload,
        SdkError,
    >)
        ensures
            match out {
                Ok(p) => payload_fault(value@) is None && payload_read(value@, p@),
                Err(e) => payload_fault(value@) is Some && e@ == (ErrorView::Failure {
                    message: payload_fault(value@)->0,
                }),
            },
    {
        let fresh = random_uuid();
        self.parse_content_entry_payload_with(value, &fresh)
    }

    /// The JSON form of a payload.
    pub fn serialize_content_entry_payload(&self, payload: &ContentEntryPayload) -> (j: Json)
        ensures
            j@ == payload_json(payload@),
    {
        match payload {
            ContentEntryPayload::Markdown { doc_uuid } => {
                let entries = vec![
                    entry("doc_uuid", Json::text(doc_uuid.as_str())),
                    entry("type", Json::text("markdown")),
                ];
                proof {
                    assert(JsonView::Object(entries_view(entries@)) =~= payload_json(payload@)) by {
                        assert(entries_view(entries@) =~= payload_json(payload@)->Object_0);
                    }
                }
                Json::object(entries)
            },
            ContentEntryPayload::JsonObject(f) => {
                let entries = vec![
                    entry("data_doc_uuid", Json::text(f.data_doc_uuid.as_str())),
                    entry("schema_doc_uuid", Json::opt_text(&f.schema_doc_uuid)),
                    entry("type", Json::text("json_object")),
                ];
                proof {
                    assert(entries_view(entries@) =~= payload_json(payload@)->Object_0);
                }
                Json::object(entries)
            },
            ContentEntryPayload::Url(f) => {
                let entries = vec![
                    entry("description", Json::opt_text(&f.description)),
                    entry("favicon_url", Json::opt_text(&f.favicon_url)),
                    entry("image_url", Json::opt_text(&f.image_url)),
                    entry("resolved", Json::Bool(f.resolved)),
                    entry("site_name", Json::opt_text(&f.site_name)),
                    entry("title", Json::opt_text(&f.title)),
                    entry("type", Json::text("url")),
                    entry("url", Json::text(f.url.as_str())),
                ];
                proof {
                    assert(entries_view(entries@) =~= payload_json(payload@)->Object_0);
                }
                Json::object(entries)
            },
            ContentEntryPayload::Location(location) => self.serialize_location_payload(location),
            ContentEntryPayload::Date(f) => {
                let entries = vec![
                    entry("has_time", Json::Bool(f.has_time)),
                    entry("timestamp_ms", Json::signed(f.timestamp_ms)),
                    entry("timezone", Json::opt_text(&f.timezone)),
                    entry("type", Json::text("date")),
                ];
                proof {
                    assert(entries_view(entries@) =~= payload_json(payload@)->Object_0);
                }
                Json::object(entries)
            },
            ContentEntryPayload::Image(f) => {
                let entries = vec![
                    entry("caption", Json::opt_text(&f.caption)),
                    entry("device_id", Json::opt_text(&f.device_id)),
                    entry("height", opt_u32_json(f.height)),
                    entry("size_bytes", opt_u64_json(f.size_bytes)),
                    entry("type", Json::text("image")),
                    entry("uri", Json::text(f.uri.as_str())),
                    entry("width", opt_u32_json(f.width)),
                ];
                proof {
                    assert(entries_view(entries@) =~= payload_json(payload@)->Object_0);
                }
                Json::object(entries)
            },
            ContentEntryPayload::Custom { content_type, data } => self.serialize_custom_payload(
                content_type.as_str(),
                data,
            ),
        }
    }

    fn serialize_location_payload(&self, location: &LocationField) -> (j: Json)
        ensures
            j@ == payload_json((ContentEntryPayload::Location(*location))@),
    {
        let ghost form = payload_json((ContentEntryPayload::Location(*location))@);
        match location {
            LocationField::Coordinate { lat, lng, coord_system, source_name } => {
                let entries = vec![
                    entry("coord_system", Json::text(coord_system.as_str())),
                    entry("lat", Json::Number(lat.clone())),
                    entry("lng", Json::Number(lng.clone())),
                    entry("loc_type", Json::text("coordinate")),
                    entry("source_name", Json::opt_text(source_name)),
                    entry("type", Json::text("location")),
                ];
                proof {
                    assert(entries_view(entries@) =~= form->Object_0);
                }
                Json::object(entries)
            },
            LocationField::Fuzzy { name, place_type } => {
                let entries = vec![
                    entry("loc_type", Json::text("fuzzy")),
                    entry("name", Json::text(name.as_str())),
                    entry("place_type", Json::text(place_type.as_str())),
                    entry("type", Json::text("location")),
                ];
                proof {
                    assert(entries_view(entries@) =~= form->Object_0);
                }
                Json::object(entries)
            },
        }
    }

    fn serialize_custom_payload(&self, content_type: &str, data: &Json) -> (j: Json)
        ensures
            j@ == payload_json(
                (PayloadView::Custom { content_type: content_type@, data: data@ }),
            ),
    {
        broadcast use lemma_json_object_view;

        let ghost form = payload_json(
            (PayloadView::Custom { content_type: content_type@, data: data@ }),
        );
        if !same(content_type, "custom") {
            if let Json::Object(extra) = data {
                let mut entries = vec![entry("type", Json::text(content_type))];
                let ghost base = seq![("type"@, JsonView::Text(content_type@))];
                let ghost all = entries_view(extra@);
                proof {
                    assert(entries_view(entries@) =~= base);
                    assert(all.take(0) =~= Seq::<(Seq<char>, JsonView)>::empty());
                }
                let mut i: usize = 0;
                while i < extra.len()
                    invariant
                        i <= extra@.len(),
                        all == entries_view(extra@),
                        entries_view(entries@) == merged(base, all.take(i as int)),
                    decreases extra@.len() - i,
                {
                    proof {
                        assert(all.take(i + 1).drop_last() =~= all.take(i as int));
                        assert(all.take(i + 1).last() == all[i as int]);
                    }
                    put_entry(&mut entries, extra[i].0.as_str(), extra[i].1.duplicate_json());
                    i = i + 1;
                }
                proof {
                    assert(all.take(i as int) =~= all);
                }
                return Json::object(entries);
            }
        }
        let entries = vec![
            entry("data", data.duplicate_json()),
            entry("type", Json::text(content_type)),
        ];
        proof {
            assert(entries_view(entries@) =~= form->Object_0);
        }
        Json::object(entries)
    }

    /// The JSON form of a content entry.
    pub fn serialize_content_entry(&self, e: &ContentEntry) -> (j: Json)
        ensures
            j@ == entry_json(e@),
    {
        let entries = vec![
            entry("id", Json::text(e.id.as_str())),
            entry("order", Json::Number(e.order.clone())),
            entry("payload", self.serialize_content_entry_payload(&e.payload)),
            entry("title", Json::opt_text(&e.title)),
        ];
        proof {
            assert(entries_view(entries@) =~= entry_json(e@)->Object_0);
        }
        Json::object(entries)
    }

    /// The JSON form of content entries, in their order.
    pub fn serialize_content_entries(&self, entries: &Vec<ContentEntry>) -> (j: Json)
        ensures
            j@ == JsonView::List(
                entry_views(entries@).map_values(|e: EntryView| entry_json(e)),
            ),
    {
        let mut out: Vec<Json> = Vec::new();
        let mut i: usize = 0;
        while i < entries.len()
            invariant
                i <= entries@.len(),
                out@.len() == i,
                forall|k: int| 0 <= k < i ==> (#[trigger] out@[k])@ == entry_json(entries@[k]@),
            decreases entries@.len() - i,
        {
            out.push(self.serialize_content_entry(&entries[i]));
            i = i + 1;
        }
        proof {
            assert(list_view(out@) =~= entry_views(entries@).map_values(
                |e: EntryView| entry_json(e),
            ));
        }
        Json::list(out)
    }

    /// The markdown text in the snapshot of a thing: the field `markdown`, or else the
    /// text of the block `main`.
    pub fn extract_markdown_text_from_snapshot_data(&self, data: &Json) -> (out: Option<String>)
        ensures
            opt_view(out) == snapshot_markdown(data@),
    {
        broadcast use lemma_json_list_view;

        if let Some(markdown) = data.get_text("markdown") {
            return Some(markdown);
        }
        let content = match data.get("content") {
            Some(content) => content,
            None => return None,
        };
        let blocks = match content.get("blocks") {
            Some(Json::List(blocks)) => blocks,
            _ => return None,
        };
        let ghost all = list_view(blocks@);
        let mut i: usize = 0;
        proof {
            assert(all.skip(0) =~= all);
        }
        while i < blocks.len()
            invariant
                i <= blocks@.len(),
                all == list_view(blocks@),
                snapshot_markdown(data@) == main_block_text(all),
                main_block_text(all) == main_block_text(all.skip(i as int)),
            decreases blocks@.len() - i,
        {
            proof {
                assert(all.skip(i as int)[0] == blocks@[i as int]@);
                assert(all.skip(i as int).drop_first() =~= all.skip(i + 1));
            }
            if let Some(Json::Text(id)) = blocks[i].get("id") {
                if same(id.as_str(), "main") {
                    return blocks[i].get_text("text");
                }
            }
            i = i + 1;
        }
        None
    }

    /// The content entries in the snapshot of a thing, in their order. Without a list of
    /// entries there are none; the first entry with a fault is reported.
    pub fn extract_content_entries_from_snapshot_data(&self, data: &Json) -> (out: Result<
        Vec<ContentEntry>,
        SdkError,
    >)
        ensures
            match out {
                Ok(list) => entries_fault(data@) is None && entries_read(
                    data@,
                    entry_views(list@),
                ),
                Err(e) => entries_fault(data@) is Some && e@ == (ErrorView::Failure {
                    message: entries_fault(data@)->0,
                }),
            },
    {
        broadcast use lemma_json_list_view;

        let mut out: Vec<ContentEntry> = Vec::new();
        let built_in = match data.get("built_in") {
            Some(built_in) => built_in,
            None => return Ok(out),
        };
        let list = match built_in.get("content_entries") {
            Some(Json::List(list)) => list,
            _ => return Ok(out),
        };
        let ghost items = list_view(list@);
        let mut i: usize = 0;
        while i < list.len()
            invariant
                i <= list@.len(),
                items == list_view(list@),
                snapshot_entries(data@) == Some(items),
                out@.len() == i,
                first_entry_fault(items.take(i as int)) is None,
                forall|k: int|
                    0 <= k < i ==> snapshot_entry_read(items[k], (#[trigger] out@[k])@),
            decreases list@.len() - i,
        {
            let item = &list[i];
            proof {
                assert(items[i as int] == item@);
                assert(items.take(i + 1).drop_last() =~= items.take(i as int));
                assert(items.take(i + 1).last() == item@);
                if snapshot_entry_fault(item@) is Some {
                    lemma_first_entry_fault(items, i + 1);
                }
            }
            let payload = match item.get("payload") {
                Some(payload) => payload,
                None => return Err(failure("Missing payload in stashed content entry")),
            };
            let id = match item.get_text("id") {
                Some(id) => id,
                None => return Err(failure("Missing id in stashed content entry")),
            };
            let fresh = random_uuid();
            match self.parse_content_entry_payload_with(payload, &fresh) {
                Ok(payload) => {
                    let e = ContentEntry {
                        id,
                        title: item.get_text("title"),
                        order: text_or(item.get_float("order"), "0.0"),
                        payload,
                    };
                    proof {
                        assert(e@ == snapshot_entry_of(item@, fresh@));
                        assert(snapshot_entry_read(items[i as int], e@));
                    }
                    out.push(e);
                },
                Err(e) => return Err(e),
            }
            i = i + 1;
        }
        proof {
            assert(items.take(i as int) =~= items);
            assert forall|k: int| 0 <= k < items.len() implies snapshot_entry_read(
                items[k],
                #[trigger] entry_views(out@)[k],
            ) by {
                assert(snapshot_entry_read(items[k], out@[k]@));
            }
        }
        Ok(out)
    }

    /// The markdown text and the content entries in the snapshot of a thing.
    pub fn extract_thing_snapshot_parts(&self, data: &Json) -> (out: Result<
        (Option<String>, Vec<ContentEntry>),
        SdkError,
    >)
        ensures
            match out {
                Ok(parts) => {
                    &&& entries_fault(data@) is None
                    &&& opt_view(parts.0) == snapshot_markdown(data@)
                    &&& entries_read(data@, entry_views(parts.1@))
                },
                Err(e) => entries_fault(data@) is Some && e@ == (ErrorView::Failure {
                    message: entries_fault(data@)->0,
                }),
            },
    {
        let markdown = self.extract_markdown_text_from_snapshot_data(data);
        match self.extract_content_entries_from_snapshot_data(data) {
            Ok(entries) => Ok((markdown, entries)),
            Err(e) => Err(e),
        }
    }

    /// Reads a content entry. An entry without an id, and a document that the payload
    /// needs and does not name, get a random one.
    pub fn parse_content_entry(&self, value: &Json) -> (out: Result<ContentEntry, SdkError>)
        ensures
            match (field(value@, "payload"@), out) {
                (None, Err(e)) => e@ == (ErrorView::Failure { message: "Missing payload"@ }),
                (Some(payload), Ok(e)) => {
                    &&& payload_fault(payload) is None
                    &&& payload_read(payload, e.payload@)
                    &&& opt_view(e.title) == text_field(value@, "title"@)
                    &&& e.order@ == or_text(float_field(value@, "order"@), "0.0"@)
                    &&& match text_field(value@, "id"@) {
                        Some(id) => e.id@ == id,
                        None => is_uuid_text(e.id@),
                    }
                },
                (Some(payload), Err(e)) => payload_fault(payload) is Some && e@
                    == (ErrorView::Failure { message: payload_fault(payload)->0 }),
                (None, Ok(_)) => false,
            },
    {
        let id = match value.get_text("id") {
            Some(id) => id,
            None => random_uuid(),
        };
        let payload = match value.get("payload") {
            Some(payload) => payload,
            None => return Err(failure("Missing payload")),
        };
        match self.parse_content_entry_payload(payload) {
            Ok(payload) => Ok(
                ContentEntry {
                    id,
                    title: value.get_text("title"),
                    order: text_or(value.get_float("order"), "0.0"),
                    payload,
                },
            ),
            Err(e) => Err(e),
        }
    }

    /// Reads a change of a content entry: for each part whether it changes, and to what.
    pub fn parse_content_entry_update(&self, value: &Json) -> (out: Result<
        (Option<Option<String>>, Option<String>, Option<ContentEntryPayload>),
        SdkError,
    >)
        ensures
            match out {
                Ok(update) => {
                    &&& match update.0 {
                        Some(title) => field(value@, "title"@) is Some && opt_view(title)
                            == text_field(value@, "title"@),
                        None => field(value@, "title"@) is None,
                    }
                    &&& opt_view(update.1) == float_field(value@, "order"@)
                    &&& match update.2 {
                        Some(payload) => field(value@, "payload"@) is Some && payload_fault(
                            field(value@, "payload"@)->0,
                        ) is None && payload_read(field(value@, "payload"@)->0, payload@),
                        None => field(value@, "payload"@) is None,
                    }
                },
                Err(e) => {
                    &&& field(value@, "payload"@) is Some
                    &&& payload_fault(field(value@, "payload"@)->0) is Some
                    &&& e@ == (ErrorView::Failure {
                        message: payload_fault(field(value@, "payload"@)->0)->0,
                    })
                },
            },
    {
        let title = match value.get("title") {
            Some(_) => Some(value.get_text("title")),
            None => None,
        };
        let order = value.get_float("order");
        match value.get("payload") {
            Some(payload) => match self.parse_content_entry_payload(payload) {
                Ok(payload) => Ok((title, order, Some(payload))),
                Err(e) => Err(e),
            },
            None => Ok((title, order, None)),
        }
    }
}

/// A payload whose JSON form can be read back as it is.
pub open spec fn regular_payload(p: PayloadView) -> bool {
    match p {
        PayloadView::JsonObject { data_doc_uuid, schema_doc_uuid } => {
            &&& trimmed(data_doc_uuid).len() > 0
            &&& schema_doc_uuid matches Some(id) ==> trimmed(id).len() > 0
        },
        PayloadView::Coordinate { lat, lng, .. } => float_of(lat) == Some(lat) && float_of(lng)
            == Some(lng),
        PayloadView::Date { timestamp_ms, .. } => i64::MIN <= timestamp_ms <= i64::MAX,
        PayloadView::Image { width, height, size_bytes, .. } => {
            &&& width matches Some(n) ==> n <= u32::MAX
            &&& height matches Some(n) ==> n <= u32::MAX
            &&& size_bytes matches Some(n) ==> n <= u64::MAX
        },
        PayloadView::Custom { content_type, data } => {
            ||| content_type == "custom"@
            ||| {
                &&& external_type(content_type)
                &&& data matches JsonView::Object(entries) && own_keys(entries)
            }
        },
        _ => true,
    }
}

/// The name of a kind of content that the library does not know.
pub open spec fn external_type(name: Seq<char>) -> bool {
    &&& trimmed(name).len() > 0
    &&& name != "markdown"@
    &&& name != "json_object"@
    &&& name != "url"@
    &&& name != "location"@
    &&& name != "date"@
    &&& name != "image"@
    &&& name != "custom"@
}

/// Entries with keys of their own, none of them `type`.
pub open spec fn own_keys(entries: Seq<(Seq<char>, JsonView)>) -> bool {
    &&& forall|i: int| 0 <= i < entries.len() ==> (#[trigger] entries[i]).0 != "type"@
    &&& forall|i: int, j: int|
        0 <= i < j < entries.len() ==> (#[trigger] entries[i]).0 != (#[trigger] entries[j]).0
}

proof fn lemma_with_new_entry(
    entries: Seq<(Seq<char>, JsonView)>,
    key: Seq<char>,
    value: JsonView,
)
    requires
        forall|i: int| 0 <= i < entries.len() ==> (#[trigger] entries[i]).0 != key,
    ensures
        with_entry(entries, key, value) == entries.push((key, value)),
    decreases entries.len(),
{
    if entries.len() == 0 {
        assert(entries.push((key, value)) =~= seq![(key, value)]);
    } else {
        let rest = entries.drop_first();
        assert(entries[0].0 != key);
        assert forall|i: int| 0 <= i < rest.len() implies (#[trigger] rest[i]).0 != key by {
            assert(entries[i + 1].0 != key);
        }
        lemma_with_new_entry(rest, key, value);
        assert(seq![entries[0]] + rest.push((key, value)) =~= entries.push((key, value)));
    }
}

proof fn lemma_merged_own(content_type: Seq<char>, entries: Seq<(Seq<char>, JsonView)>)
    requires
        own_keys(entries),
    ensures
        merged(seq![("type"@, JsonView::Text(content_type))], entries) == seq![
            ("type"@, JsonView::Text(content_type)),
        ] + entries,
    decreases entries.len(),
{
    let base = seq![("type"@, JsonView::Text(content_type))];
    if entries.len() == 0 {
        assert(base + entries =~= base);
    } else {
        let front = entries.drop_last();
        lemma_merged_own(content_type, front);
        let before = base + front;
        assert forall|i: int| 0 <= i < before.len() implies (#[trigger] before[i]).0
            != entries.last().0 by {
            assert(entries[entries.len() - 1].0 != "type"@);
            if i > 0 {
                assert(entries[i - 1].0 != entries[entries.len() - 1].0);
            }
        }
        lemma_with_new_entry(before, entries.last().0, entries.last().1);
        assert(before.push(entries.last()) =~= base + entries);
    }
}

proof fn lemma_without_missing(entries: Seq<(Seq<char>, JsonView)>, key: Seq<char>)
    requires
        forall|i: int| 0 <= i < entries.len() ==> (#[trigger] entries[i]).0 != key,
    ensures
        without_entry(entries, key) == entries,
    decreases entries.len(),
{
    if entries.len() > 0 {
        let rest = entries.drop_first();
        assert(entries[0].0 != key);
        assert forall|i: int| 0 <= i < rest.len() implies (#[trigger] rest[i]).0 != key by {
            assert(entries[i + 1].0 != key);
        }
        lemma_without_missing(rest, key);
        assert(seq![entries[0]] + rest =~= entries);
    } else {
        assert(without_entry(entries, key) =~= entries);
    }
}

proof fn lemma_trimmed_word(s: Seq<char>)
    requires
        s.len() > 0,
        !crate::text::is_space(s[0]),
    ensures
        trimmed(s).len() > 0,
    decreases s.len(),
{
    assert(crate::text::trimmed_start(s) == s);
    lemma_trimmed_end_keeps(s);
}

proof fn lemma_trimmed_end_keeps(s: Seq<char>)
    requires
        s.len() > 0,
        !crate::text::is_space(s[0]),
    ensures
        crate::text::trimmed_end(s).len() > 0,
    decreases s.len(),
{
    if crate::text::is_space(s.last()) {
        lemma_trimmed_end_keeps(s.drop_last());
    }
}

/// Reading the JSON form of a payload gives the payload back: kinds that the library
/// knows, the explicit `custom` kind, and external kinds with named fields.
pub proof fn law_payload_round_trip(p: PayloadView, fresh: Seq<char>)
    requires
        regular_payload(p),
    ensures
        payload_fault(payload_json(p)) is None,
        payload_of(payload_json(p), fresh) == p,
{
    match p {
        PayloadView::Markdown { .. } => lemma_markdown_round_trip(p, fresh),
        PayloadView::JsonObject { .. } => lemma_jsonobject_round_trip(p, fresh),
        PayloadView::Url { .. } => lemma_url_round_trip(p, fresh),
        PayloadView::Coordinate { .. } => lemma_coordinate_round_trip(p, fresh),
        PayloadView::Fuzzy { .. } => lemma_fuzzy_round_trip(p, fresh),
        PayloadView::Date { .. } => lemma_date_round_trip(p, fresh),
        PayloadView::Image { .. } => lemma_image_round_trip(p, fresh),
        PayloadView::Custom { .. } => lemma_custom_round_trip(p, fresh),
    }
}

/// Entries of which no two have the same key, as a parsed object has them.
pub open spec fn distinct_keys(entries: Seq<(Seq<char>, JsonView)>) -> bool {
    forall|i: int, j: int|
        0 <= i < j < entries.len() ==> (#[trigger] entries[i]).0 != (#[trigger] entries[j]).0
}

proof fn lemma_without_own(entries: Seq<(Seq<char>, JsonView)>)
    requires
        distinct_keys(entries),
    ensures
        own_keys(without_entry(entries, "type"@)),
        forall|i: int|
            0 <= i < without_entry(entries, "type"@).len() ==> entries.contains(
                #[trigger] without_entry(entries, "type"@)[i],
            ),
    decreases entries.len(),
{
    if entries.len() > 0 {
        let rest = entries.drop_first();
        assert forall|i: int, j: int| 0 <= i < j < rest.len() implies (#[trigger] rest[i]).0 != (
        #[trigger] rest[j]).0 by {
            assert(entries[i + 1].0 != entries[j + 1].0);
        }
        lemma_without_own(rest);
        let kept = without_entry(rest, "type"@);
        let out = without_entry(entries, "type"@);
        assert forall|i: int| 0 <= i < kept.len() implies entries.contains(#[trigger] kept[i])
            && kept[i].0 != entries[0].0 by {
            let k = choose|k: int| 0 <= k < rest.len() && rest[k] == kept[i];
            assert(rest.contains(kept[i]));
            assert(entries[k + 1] == kept[i]);
        }
        if entries[0].0 != "type"@ {
            assert(out =~= seq![entries[0]] + kept);
            assert forall|i: int| 0 <= i < out.len() implies entries.contains(#[trigger] out[i])
                && out[i].0 != "type"@ by {
                if i > 0 {
                    assert(out[i] == kept[i - 1]);
                }
            }
            assert forall|i: int, j: int| 0 <= i < j < out.len() implies (#[trigger] out[i]).0 != (
            #[trigger] out[j]).0 by {
                assert(out[j] == kept[j - 1]);
                if i > 0 {
                    assert(out[i] == kept[i - 1]);
                }
            }
        }
    }
}

/// An object of an external kind comes back from its payload with the fields that it
/// had, and no others.
pub proof fn law_external_payload_round_trip(j: JsonView, fresh: Seq<char>, key: Seq<char>)
    requires
        payload_type(j) matches Some(kind) && external_type(kind),
        distinct_keys(j->Object_0),
    ensures
        payload_fault(j) is None,
        field(payload_json(payload_of(j, fresh)), key) == field(j, key),
{
    let entries = j->Object_0;
    let kind = payload_type(j)->0;
    let own = without_entry(entries, "type"@);
    let base = seq![("type"@, JsonView::Text(kind))];
    lemma_without_own(entries);
    lemma_merged_own(kind, own);
    law_without_entry(entries, "type"@, key);
    let out = base + own;
    assert(out.drop_first() =~= own);
    assert(out[0] == base[0]);
    assert(payload_json(payload_of(j, fresh)) == JsonView::Object(out));
}

proof fn lemma_markdown_round_trip(p: PayloadView, fresh: Seq<char>)
    requires
        p is Markdown,
        regular_payload(p),
    ensures
        payload_fault(payload_json(p)) is None,
        payload_of(payload_json(p), fresh) == p,
{
    let entries = payload_json(p)->Object_0;
    reveal_strlit("markdown");
    reveal_strlit("json_object");
    reveal_strlit("url");
    reveal_strlit("location");
    reveal_strlit("date");
    reveal_strlit("image");
    reveal_strlit("custom");
    assert("markdown"@.len() == 8);
    assert("json_object"@.len() == 11);
    assert("url"@.len() == 3);
    assert("location"@.len() == 8);
    assert("date"@.len() == 4);
    assert("image"@.len() == 5);
    assert("custom"@.len() == 6);
    assert("markdown"@[0] == 'm' && "location"@[0] == 'l');
    assert(!crate::text::is_space("markdown"@[0]));
    lemma_trimmed_word("markdown"@);
    reveal_strlit("doc_uuid");
    reveal_strlit("type");
    assert("doc_uuid"@.len() == 8 && entries[0].0 == "doc_uuid"@);
    assert("type"@.len() == 4 && entries[1].0 == "type"@);
    lemma_lookup_at(entries, "doc_uuid"@, 0);
    lemma_lookup_at(entries, "type"@, 1);
}

proof fn lemma_jsonobject_round_trip(p: PayloadView, fresh: Seq<char>)
    requires
        p is JsonObject,
        regular_payload(p),
    ensures
        payload_fault(payload_json(p)) is None,
        payload_of(payload_json(p), fresh) == p,
{
    let entries = payload_json(p)->Object_0;
    reveal_strlit("markdown");
    reveal_strlit("json_object");
    reveal_strlit("url");
    reveal_strlit("location");
    reveal_strlit("date");
    reveal_strlit("image");
    reveal_strlit("custom");
    assert("markdown"@.len() == 8);
    assert("json_object"@.len() == 11);
    assert("url"@.len() == 3);
    assert("location"@.len() == 8);
    assert("date"@.len() == 4);
    assert("image"@.len() == 5);
    assert("custom"@.len() == 6);
    assert("markdown"@[0] == 'm' && "location"@[0] == 'l');
    assert(!crate::text::is_space("json_object"@[0]));
    lemma_trimmed_word("json_object"@);
    reveal_strlit("data_doc_uuid");
    reveal_strlit("schema_doc_uuid");
    reveal_strlit("type");
    assert("data_doc_uuid"@.len() == 13 && entries[0].0 == "data_doc_uuid"@);
    assert("schema_doc_uuid"@.len() == 15 && entries[1].0 == "schema_doc_uuid"@);
    assert("type"@.len() == 4 && entries[2].0 == "type"@);
    lemma_lookup_at(entries, "data_doc_uuid"@, 0);
    lemma_lookup_at(entries, "schema_doc_uuid"@, 1);
    lemma_lookup_at(entries, "type"@, 2);
}

proof fn lemma_url_round_trip(p: PayloadView, fresh: Seq<char>)
    requires
        p is Url,
        regular_payload(p),
    ensures
        payload_fault(payload_json(p)) is None,
        payload_of(payload_json(p), fresh) == p,
{
    let entries = payload_json(p)->Object_0;
    reveal_strlit("markdown");
    reveal_strlit("json_object");
    reveal_strlit("url");
    reveal_strlit("location");
    reveal_strlit("date");
    reveal_strlit("image");
    reveal_strlit("custom");
    assert("markdown"@.len() == 8);
    assert("json_object"@.len() == 11);
    assert("url"@.len() == 3);
    assert("location"@.len() == 8);
    assert("date"@.len() == 4);
    assert("image"@.len() == 5);
    assert("custom"@.len() == 6);
    assert("markdown"@[0] == 'm' && "location"@[0] == 'l');
    assert(!crate::text::is_space("url"@[0]));
    lemma_trimmed_word("url"@);
    reveal_strlit("description");
    reveal_strlit("favicon_url");
    reveal_strlit("image_url");
    reveal_strlit("resolved");
    reveal_strlit("site_name");
    reveal_strlit("title");
    reveal_strlit("type");
    reveal_strlit("url");
    assert("description"@.len() == 11 && entries[0].0 == "description"@);
    assert("favicon_url"@.len() == 11 && entries[1].0 == "favicon_url"@);
    assert("image_url"@.len() == 9 && entries[2].0 == "image_url"@);
    assert("resolved"@.len() == 8 && entries[3].0 == "resolved"@);
    assert("site_name"@.len() == 9 && entries[4].0 == "site_name"@);
    assert("title"@.len() == 5 && entries[5].0 == "title"@);
    assert("type"@.len() == 4 && entries[6].0 == "type"@);
    assert("url"@.len() == 3 && entries[7].0 == "url"@);
    assert("description"@[0] == 'd' && "favicon_url"@[0] == 'f');
    assert("image_url"@[0] == 'i' && "site_name"@[0] == 's');
    lemma_lookup_at(entries, "description"@, 0);
    lemma_lookup_at(entries, "favicon_url"@, 1);
    lemma_lookup_at(entries, "image_url"@, 2);
    lemma_lookup_at(entries, "resolved"@, 3);
    lemma_lookup_at(entries, "site_name"@, 4);
    lemma_lookup_at(entries, "title"@, 5);
    lemma_lookup_at(entries, "type"@, 6);
    lemma_lookup_at(entries, "url"@, 7);
}

proof fn lemma_coordinate_round_trip(p: PayloadView, fresh: Seq<char>)
    requires
        p is Coordinate,
        regular_payload(p),
    ensures
        payload_fault(payload_json(p)) is None,
        payload_of(payload_json(p), fresh) == p,
{
    let entries = payload_json(p)->Object_0;
    reveal_strlit("markdown");
    reveal_strlit("json_object");
    reveal_strlit("url");
    reveal_strlit("location");
    reveal_strlit("date");
    reveal_strlit("image");
    reveal_strlit("custom");
    assert("markdown"@.len() == 8);
    assert("json_object"@.len() == 11);
    assert("url"@.len() == 3);
    assert("location"@.len() == 8);
    assert("date"@.len() == 4);
    assert("image"@.len() == 5);
    assert("custom"@.len() == 6);
    assert("markdown"@[0] == 'm' && "location"@[0] == 'l');
    assert(!crate::text::is_space("location"@[0]));
    lemma_trimmed_word("location"@);
    reveal_strlit("coord_system");
    reveal_strlit("lat");
    reveal_strlit("lng");
    reveal_strlit("loc_type");
    reveal_strlit("source_name");
    reveal_strlit("type");
    assert("coord_system"@.len() == 12 && entries[0].0 == "coord_system"@);
    assert("lat"@.len() == 3 && entries[1].0 == "lat"@);
    assert("lng"@.len() == 3 && entries[2].0 == "lng"@);
    assert("loc_type"@.len() == 8 && entries[3].0 == "loc_type"@);
    assert("source_name"@.len() == 11 && entries[4].0 == "source_name"@);
    assert("type"@.len() == 4 && entries[5].0 == "type"@);
    assert("lat"@[1] == 'a' && "lng"@[1] == 'n');
    lemma_lookup_at(entries, "coord_system"@, 0);
    lemma_lookup_at(entries, "lat"@, 1);
    lemma_lookup_at(entries, "lng"@, 2);
    lemma_lookup_at(entries, "loc_type"@, 3);
    lemma_lookup_at(entries, "source_name"@, 4);
    lemma_lookup_at(entries, "type"@, 5);
    reveal_strlit("coordinate");
    reveal_strlit("fuzzy");
    assert("coordinate"@.len() == 10);
    assert("fuzzy"@.len() == 5);
}

proof fn lemma_fuzzy_round_trip(p: PayloadView, fresh: Seq<char>)
    requires
        p is Fuzzy,
        regular_payload(p),
    ensures
        payload_fault(payload_json(p)) is None,
        payload_of(payload_json(p), fresh) == p,
{
    let entries = payload_json(p)->Object_0;
    reveal_strlit("markdown");
    reveal_strlit("json_object");
    reveal_strlit("url");
    reveal_strlit("location");
    reveal_strlit("date");
    reveal_strlit("image");
    reveal_strlit("custom");
    assert("markdown"@.len() == 8);
    assert("json_object"@.len() == 11);
    assert("url"@.len() == 3);
    assert("location"@.len() == 8);
    assert("date"@.len() == 4);
    assert("image"@.len() == 5);
    assert("custom"@.len() == 6);
    assert("markdown"@[0] == 'm' && "location"@[0] == 'l');
    assert(!crate::text::is_space("location"@[0]));
    lemma_trimmed_word("location"@);
    reveal_strlit("loc_type");
    reveal_strlit("name");
    reveal_strlit("place_type");
    reveal_strlit("type");
    assert("loc_type"@.len() == 8 && entries[0].0 == "loc_type"@);
    assert("name"@.len() == 4 && entries[1].0 == "name"@);
    assert("place_type"@.len() == 10 && entries[2].0 == "place_type"@);
    assert("type"@.len() == 4 && entries[3].0 == "type"@);
    assert("name"@[0] == 'n' && "type"@[0] == 't');
    lemma_lookup_at(entries, "loc_type"@, 0);
    lemma_lookup_at(entries, "name"@, 1);
    lemma_lookup_at(entries, "place_type"@, 2);
    lemma_lookup_at(entries, "type"@, 3);
    reveal_strlit("coordinate");
    reveal_strlit("fuzzy");
    assert("coordinate"@.len() == 10);
    assert("fuzzy"@.len() == 5);
}

proof fn lemma_date_round_trip(p: PayloadView, fresh: Seq<char>)
    requires
        p is Date,
        regular_payload(p),
    ensures
        payload_fault(payload_json(p)) is None,
        payload_of(payload_json(p), fresh) == p,
{
    let entries = payload_json(p)->Object_0;
    reveal_strlit("markdown");
    reveal_strlit("json_object");
    reveal_strlit("url");
    reveal_strlit("location");
    reveal_strlit("date");
    reveal_strlit("image");
    reveal_strlit("custom");
    assert("markdown"@.len() == 8);
    assert("json_object"@.len() == 11);
    assert("url"@.len() == 3);
    assert("location"@.len() == 8);
    assert("date"@.len() == 4);
    assert("image"@.len() == 5);
    assert("custom"@.len() == 6);
    assert("markdown"@[0] == 'm' && "location"@[0] == 'l');
    assert(!crate::text::is_space("date"@[0]));
    lemma_trimmed_word("date"@);
    reveal_strlit("has_time");
    reveal_strlit("timestamp_ms");
    reveal_strlit("timezone");
    reveal_strlit("type");
    assert("has_time"@.len() == 8 && entries[0].0 == "has_time"@);
    assert("timestamp_ms"@.len() == 12 && entries[1].0 == "timestamp_ms"@);
    assert("timezone"@.len() == 8 && entries[2].0 == "timezone"@);
    assert("type"@.len() == 4 && entries[3].0 == "type"@);
    assert("has_time"@[0] == 'h' && "timezone"@[0] == 't');
    lemma_lookup_at(entries, "has_time"@, 0);
    lemma_lookup_at(entries, "timestamp_ms"@, 1);
    lemma_lookup_at(entries, "timezone"@, 2);
    lemma_lookup_at(entries, "type"@, 3);
    crate::json::law_int_round_trip(p->timestamp_ms);
}

proof fn lemma_image_round_trip(p: PayloadView, fresh: Seq<char>)
    requires
        p is Image,
        regular_payload(p),
    ensures
        payload_fault(payload_json(p)) is None,
        payload_of(payload_json(p), fresh) == p,
{
    let entries = payload_json(p)->Object_0;
    reveal_strlit("markdown");
    reveal_strlit("json_object");
    reveal_strlit("url");
    reveal_strlit("location");
    reveal_strlit("date");
    reveal_strlit("image");
    reveal_strlit("custom");
    assert("markdown"@.len() == 8);
    assert("json_object"@.len() == 11);
    assert("url"@.len() == 3);
    assert("location"@.len() == 8);
    assert("date"@.len() == 4);
    assert("image"@.len() == 5);
    assert("custom"@.len() == 6);
    assert("markdown"@[0] == 'm' && "location"@[0] == 'l');
    assert(!crate::text::is_space("image"@[0]));
    lemma_trimmed_word("image"@);
    reveal_strlit("caption");
    reveal_strlit("device_id");
    reveal_strlit("height");
    reveal_strlit("size_bytes");
    reveal_strlit("type");
    reveal_strlit("uri");
    reveal_strlit("width");
    assert("caption"@.len() == 7 && entries[0].0 == "caption"@);
    assert("device_id"@.len() == 9 && entries[1].0 == "device_id"@);
    assert("height"@.len() == 6 && entries[2].0 == "height"@);
    assert("size_bytes"@.len() == 10 && entries[3].0 == "size_bytes"@);
    assert("type"@.len() == 4 && entries[4].0 == "type"@);
    assert("uri"@.len() == 3 && entries[5].0 == "uri"@);
    assert("width"@.len() == 5 && entries[6].0 == "width"@);
    lemma_lookup_at(entries, "caption"@, 0);
    lemma_lookup_at(entries, "device_id"@, 1);
    lemma_lookup_at(entries, "height"@, 2);
    lemma_lookup_at(entries, "size_bytes"@, 3);
    lemma_lookup_at(entries, "type"@, 4);
    lemma_lookup_at(entries, "uri"@, 5);
    lemma_lookup_at(entries, "width"@, 6);
    if let Some(n) = p->width {
        crate::json::law_uint_round_trip(n);
    }
    if let Some(n) = p->height {
        crate::json::law_uint_round_trip(n);
    }
    if let Some(n) = p->size_bytes {
        crate::json::law_uint_round_trip(n);
    }
}

proof fn lemma_custom_round_trip(p: PayloadView, fresh: Seq<char>)
    requires
        p is Custom,
        regular_payload(p),
    ensures
        payload_fault(payload_json(p)) is None,
        payload_of(payload_json(p), fresh) == p,
{
    let entries = payload_json(p)->Object_0;
    reveal_strlit("markdown");
    reveal_strlit("json_object");
    reveal_strlit("url");
    reveal_strlit("location");
    reveal_strlit("date");
    reveal_strlit("image");
    reveal_strlit("custom");
    assert("markdown"@.len() == 8);
    assert("json_object"@.len() == 11);
    assert("url"@.len() == 3);
    assert("location"@.len() == 8);
    assert("date"@.len() == 4);
    assert("image"@.len() == 5);
    assert("custom"@.len() == 6);
    assert("markdown"@[0] == 'm' && "location"@[0] == 'l');
    assert(!crate::text::is_space("custom"@[0]));
    lemma_trimmed_word("custom"@);
    if p->content_type == "custom"@ {
        reveal_strlit("data");
        reveal_strlit("type");
        assert("data"@.len() == 4 && entries[0].0 == "data"@);
        assert("type"@.len() == 4 && entries[1].0 == "type"@);
        assert("data"@[0] == 'd' && "type"@[0] == 't');
        lemma_lookup_at(entries, "data"@, 0);
        lemma_lookup_at(entries, "type"@, 1);
    } else {
        let own = p->data->Object_0;
        lemma_merged_own(p->content_type, own);
        lemma_lookup_at(entries, "type"@, 0);
        assert(entries.drop_first() =~= own);
        assert(entries[0].0 == "type"@);
        lemma_without_missing(own, "type"@);
        assert(without_entry(entries, "type"@) == own);
    }
}

fn opt_u32_json(n: Option<u32>) -> (j: Json)
    ensures
        j@ == opt_uint_json(opt_u32_view(n)),
{
    match n {
        Some(n) => Json::unsigned(n as u64),
        None => Json::Null,
    }
}

fn opt_u64_json(n: Option<u64>) -> (j: Json)
    ensures
        j@ == opt_uint_json(opt_u64_view(n)),
{
    match n {
        Some(n) => Json::unsigned(n),
        None => Json::Null,
    }
}

impl ContentEntryPayload {
    /// Copies the payload.
    pub fn duplicate_payload(&self) -> (copy: Self)
        ensures
            copy@ == self@,
    {
        match self {
            ContentEntryPayload::Markdown { doc_uuid } => ContentEntryPayload::Markdown {
                doc_uuid: doc_uuid.clone(),
            },
            ContentEntryPayload::JsonObject(f) => ContentEntryPayload::JsonObject(
                JsonObjectField {
                    data_doc_uuid: f.data_doc_uuid.clone(),
                    schema_doc_uuid: f.schema_doc_uuid.clone(),
                },
            ),
            ContentEntryPayload::Url(f) => ContentEntryPayload::Url(
                UrlField {
                    url: f.url.clone(),
                    title: f.title.clone(),
                    description: f.description.clone(),
                    image_url: f.image_url.clone(),
                    favicon_url: f.favicon_url.clone(),
                    site_name: f.site_name.clone(),
                    resolved: f.resolved,
                },
            ),
            ContentEntryPayload::Location(
                LocationField::Coordinate { lat, lng, coord_system, source_name },
            ) => ContentEntryPayload::Location(
                LocationField::Coordinate {
                    lat: lat.clone(),
                    lng: lng.clone(),
                    coord_system: coord_system.clone(),
                    source_name: source_name.clone(),
                },
            ),
            ContentEntryPayload::Location(
                LocationField::Fuzzy { name, place_type },
            ) => ContentEntryPayload::Location(
                LocationField::Fuzzy { name: name.clone(), place_type: place_type.clone() },
            ),
            ContentEntryPayload::Date(f) => ContentEntryPayload::Date(
                DateField {
                    timestamp_ms: f.timestamp_ms,
                    has_time: f.has_time,
                    timezone: f.timezone.clone(),
                },
            ),
            ContentEntryPayload::Image(f) => ContentEntryPayload::Image(
                ImageField {
                    uri: f.uri.clone(),
                    caption: f.caption.clone(),
                    width: f.width,
                    height: f.height,
                    size_bytes: f.size_bytes,
                    device_id: f.device_id.clone(),
                },
            ),
            ContentEntryPayload::Custom { content_type, data } => ContentEntryPayload::Custom {
                content_type: content_type.clone(),
                data: data.duplicate_json(),
            },
        }
    }
}

impl ContentEntry {
    /// Copies the entry.
    pub fn duplicate_entry(&self) -> (copy: Self)
        ensures
            copy@ == self@,
    {
        ContentEntry {
            id: self.id.clone(),
            title: self.title.clone(),
            order: self.order.clone(),
            payload: self.payload.duplicate_payload(),
        }
    }
}

/// What kind of content an entry holds.
#[derive(Debug)]
pub enum ContentEntryKind {
    Markdown,
    JsonObject,
    Url,
    Location,
    Date,
    Image,
    Custom(String),
}

/// Whether a payload is of a kind.
pub open spec fn is_of_kind(p: PayloadView, kind: ContentEntryKind) -> bool {
    match kind {
        ContentEntryKind::Markdown => p is Markdown,
        ContentEntryKind::JsonObject => p is JsonObject,
        ContentEntryKind::Url => p is Url,
        ContentEntryKind::Location => p is Coordinate || p is Fuzzy,
        ContentEntryKind::Date => p is Date,
        ContentEntryKind::Image => p is Image,
        ContentEntryKind::Custom(name) => p matches PayloadView::Custom { content_type, data }
            && content_type == name@,
    }
}

/// The payload of the first entry of a kind.
pub open spec fn first_of_kind(entries: Seq<EntryView>, kind: ContentEntryKind) -> Option<PayloadView>
    decreases entries.len(),
{
    if entries.len() == 0 {
        None
    } else if is_of_kind(entries[0].payload, kind) {
        Some(entries[0].payload)
    } else {
        first_of_kind(entries.drop_first(), kind)
    }
}

fn has_kind(payload: &ContentEntryPayload, kind: &ContentEntryKind) -> (r: bool)
    ensures
        r == is_of_kind(payload@, *kind),
{
    match (payload, kind) {
        (ContentEntryPayload::Markdown { .. }, ContentEntryKind::Markdown) => true,
        (ContentEntryPayload::JsonObject(_), ContentEntryKind::JsonObject) => true,
        (ContentEntryPayload::Url(_), ContentEntryKind::Url) => true,
        (ContentEntryPayload::Location(_), ContentEntryKind::Location) => true,
        (ContentEntryPayload::Date(_), ContentEntryKind::Date) => true,
        (ContentEntryPayload::Image(_), ContentEntryKind::Image) => true,
        (
            ContentEntryPayload::Custom { content_type, .. },
            ContentEntryKind::Custom(name),
        ) => same(content_type.as_str(), name.as_str()),
        _ => false,
    }
}

impl ContentTypeRegistry {
    /// The JSON form of the payload of the first entry of a kind.
    pub fn find_first_payload_by_kind(
        &self,
        entries: &Vec<ContentEntry>,
        kind: &ContentEntryKind,
    ) -> (out: Option<Json>)
        ensures
            match first_of_kind(entry_views(entries@), *kind) {
                Some(p) => out matches Some(j) && j@ == payload_json(p),
                None => out is None,
            },
    {
        let ghost all = entry_views(entries@);
        let mut i: usize = 0;
        proof {
            assert(all.skip(0) =~= all);
        }
        while i < entries.len()
            invariant
                i <= entries@.len(),
                all == entry_views(entries@),
                first_of_kind(all, *kind) == first_of_kind(all.skip(i as int), *kind),
            decreases entries@.len() - i,
        {
            proof {
                assert(all.skip(i as int)[0] == entries@[i as int]@);
                assert(all.skip(i as int).drop_first() =~= all.skip(i + 1));
            }
            if has_kind(&entries[i].payload, kind) {
                return Some(self.serialize_content_entry_payload(&entries[i].payload));
            }
            i = i + 1;
        }
        proof {
            assert(all.skip(i as int) =~= Seq::empty());
        }
        None
    }
}

} // verus!
