//! Things and collections as the snapshot shows them.
use crate::clock::DomainTime;
use crate::json::{opt_view, Json, JsonView};
use crate::text::same;
use vstd::prelude::*;

verus! {

/// What a collection is for.
#[derive(Clone, Copy, Debug, PartialEq, Eq, Structural)]
pub enum CollectionType {
    Normal,
    Default,
    Trash,
    App,
}

/// The name of a type of collections.
pub open spec fn collection_type_name(t: CollectionType) -> Seq<char> {
    match t {
        CollectionType::Normal => "normal"@,
        CollectionType::Default => "default"@,
        CollectionType::Trash => "trash"@,
        CollectionType::App => "app"@,
    }
}

/// The type of collections with a name; an ordinary one where the name is unknown.
pub open spec fn collection_type_of(name: Option<Seq<char>>) -> CollectionType {
    if name == Some("default"@) {
        CollectionType::Default
    } else if name == Some("trash"@) {
        CollectionType::Trash
    } else if name == Some("app"@) {
        CollectionType::App
    } else {
        CollectionType::Normal
    }
}

/// The name of a type of collections names that type.
pub proof fn law_collection_type_name(t: CollectionType)
    ensures
        collection_type_of(Some(collection_type_name(t))) == t,
{
    reveal_strlit("normal");
    reveal_strlit("default");
    reveal_strlit("trash");
    reveal_strlit("app");
    assert("normal"@.len() == 6 && "default"@.len() == 7 && "trash"@.len() == 5 && "app"@.len()
        == 3);
}

impl CollectionType {
    /// The name of the type.
    pub fn as_str(&self) -> (name: &'static str)
        ensures
            name@ == collection_type_name(*self),
    {
        match self {
            CollectionType::Normal => "normal",
            CollectionType::Default => "default",
            CollectionType::Trash => "trash",
            CollectionType::App => "app",
        }
    }

    /// The type with a name; an ordinary one where the name is missing or unknown.
    pub fn from_name(name: &Option<String>) -> (t: Self)
        ensures
            t == collection_type_of(opt_view(*name)),
    {
        match name {
            Some(name) => if same(name.as_str(), "default") {
                CollectionType::Default
            } else if same(name.as_str(), "trash") {
                CollectionType::Trash
            } else if same(name.as_str(), "app") {
                CollectionType::App
            } else {
                CollectionType::Normal
            },
            None => CollectionType::Normal,
        }
    }
}

/// What kind of text a thing is: markdown, or something embedded in it.
#[derive(Debug)]
pub enum ThingDatatype {
    Markdown,
    Embedded(String),
}

pub open spec fn datatype_name(d: ThingDatatype) -> Seq<char> {
    match d {
        ThingDatatype::Markdown => "markdown"@,
        ThingDatatype::Embedded(name) => name@,
    }
}

impl ThingDatatype {
    /// The name of the kind.
    pub fn as_str(&self) -> (name: &str)
        ensures
            name@ == datatype_name(*self),
    {
        match self {
            ThingDatatype::Markdown => "markdown",
            ThingDatatype::Embedded(name) => name.as_str(),
        }
    }

    /// Copies the kind.
    pub fn duplicate_datatype(&self) -> (copy: Self)
        ensures
            copy == *self,
    {
        match self {
            ThingDatatype::Markdown => ThingDatatype::Markdown,
            ThingDatatype::Embedded(name) => ThingDatatype::Embedded(name.clone()),
        }
    }
}

/// A collection in a snapshot.
#[derive(Debug)]
pub struct ThingCollectionEntry {
    pub uuid: String,
    pub title: String,
    pub collection_type: CollectionType,
    pub app_id: Option<String>,
    pub archived_at: Option<DomainTime>,
    pub card_jsx: Option<String>,
    pub created_at: DomainTime,
    pub updated_at: DomainTime,
    pub actor_type: Option<String>,
    pub actor_app_id: Option<String>,
    pub actor_display_name: Option<String>,
}

/// A collection in a snapshot, over character sequences.
pub struct CollectionEntryView {
    pub uuid: Seq<char>,
    pub title: Seq<char>,
    pub collection_type: CollectionType,
    pub app_id: Option<Seq<char>>,
    pub archived_at: Option<DomainTime>,
    pub card_jsx: Option<Seq<char>>,
    pub created_at: DomainTime,
    pub updated_at: DomainTime,
    pub actor_type: Option<Seq<char>>,
    pub actor_app_id: Option<Seq<char>>,
    pub actor_display_name: Option<Seq<char>>,
}

impl View for ThingCollectionEntry {
    type V = CollectionEntryView;

    open spec fn view(&self) -> CollectionEntryView {
        CollectionEntryView {
            uuid: self.uuid@,
            title: self.title@,
            collection_type: self.collection_type,
            app_id: opt_view(self.app_id),
            archived_at: self.archived_at,
            card_jsx: opt_view(self.card_jsx),
            created_at: self.created_at,
            updated_at: self.updated_at,
            actor_type: opt_view(self.actor_type),
            actor_app_id: opt_view(self.actor_app_id),
            actor_display_name: opt_view(self.actor_display_name),
        }
    }
}

/// A thing in a snapshot.
#[derive(Debug)]
pub struct ThingEntry {
    pub uuid: String,
    pub title: String,
    pub datatype: ThingDatatype,
    pub data: Json,
    pub collection_uuid: String,
    pub parent_uuid: Option<String>,
    pub archived_at: Option<DomainTime>,
    pub archived_from_collection_uuid: Option<String>,
    pub created_at: DomainTime,
    pub updated_at: DomainTime,
    pub status: String,
    pub status_timestamp_ms: Option<i64>,
    pub actor_type: Option<String>,
    pub actor_app_id: Option<String>,
    pub actor_display_name: Option<String>,
}

/// A thing in a snapshot, over character sequences.
pub struct ThingEntryView {
    pub uuid: Seq<char>,
    pub title: Seq<char>,
    pub datatype: Seq<char>,
    pub data: JsonView,
    pub collection_uuid: Seq<char>,
    pub parent_uuid: Option<Seq<char>>,
    pub archived_at: Option<DomainTime>,
    pub archived_from_collection_uuid: Option<Seq<char>>,
    pub created_at: DomainTime,
    pub updated_at: DomainTime,
    pub status: Seq<char>,
    pub status_timestamp_ms: Option<i64>,
    pub actor_type: Option<Seq<char>>,
    pub actor_app_id: Option<Seq<char>>,
    pub actor_display_name: Option<Seq<char>>,
}

impl View for ThingEntry {
    type V = ThingEntryView;

    open spec fn view(&self) -> ThingEntryView {
        ThingEntryView {
            uuid: self.uuid@,
            title: self.title@,
            datatype: datatype_name(self.datatype),
            data: self.data@,
            collection_uuid: self.collection_uuid@,
            parent_uuid: opt_view(self.parent_uuid),
            archived_at: self.archived_at,
            archived_from_collection_uuid: opt_view(self.archived_from_collection_uuid),
            created_at: self.created_at,
            updated_at: self.updated_at,
            status: self.status@,
            status_timestamp_ms: self.status_timestamp_ms,
            actor_type: opt_view(self.actor_type),
            actor_app_id: opt_view(self.actor_app_id),
            actor_display_name: opt_view(self.actor_display_name),
        }
    }
}

pub open spec fn collection_entry_views(
    list: Seq<ThingCollectionEntry>,
) -> Seq<CollectionEntryView> {
    list.map_values(|c: ThingCollectionEntry| c@)
}

pub open spec fn thing_entry_views(list: Seq<ThingEntry>) -> Seq<ThingEntryView> {
    list.map_values(|t: ThingEntry| t@)
}

/// What a snapshot holds.
#[derive(Clone, Copy, Debug, PartialEq, Eq, Structural)]
pub struct SnapshotOptions {
    /// Whether the data of a thing holds its content.
    pub include_content: bool,
}

impl Default for SnapshotOptions {
    fn default() -> (options: Self)
        ensures
            options.include_content,
    {
        SnapshotOptions { include_content: true }
    }
}

/// The collections and things that are not deleted.
#[derive(Debug)]
pub struct ThingsSnapshot {
    pub collections: Vec<ThingCollectionEntry>,
    pub things: Vec<ThingEntry>,
}

/// A snapshot with the state of its synchronisation.
#[derive(Debug)]
pub struct ThingsSnapshotState {
    pub collections: Vec<ThingCollectionEntry>,
    pub things: Vec<ThingEntry>,
    pub dirty: bool,
    pub last_sync_at: Option<String>,
}

} // verus!
