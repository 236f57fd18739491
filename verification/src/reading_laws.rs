//! What is shown of the documents of things: each shown value is the one that the document holds.
use crate::clock::{rfc3339_time, DomainTime};
use crate::content_registry::{entry_json, EntryView};
use crate::json::{
    field, law_with_entry, law_without_entry, lemma_lookup_at, lookup, object_entries, text_field,
    with_entry, without_entry, JsonView,
};
use crate::json::opt_view;
use crate::letters::{first_place, law_replaced_absent, replaced};
use crate::rows::ActorMetaEntry;
use crate::storage::things_log::is_actor_of;
use crate::table::{first_data, law_first_data, lemma_position_of};
use crate::text::{decimal, trimmed};
use crate::text_laws::law_paths_are_written;
use crate::things_content::{
    block_text, blocks_spliced, content_of, is_block, main_text, markdown_text_of, payload_written,
    spliced,
};
use crate::things_docs::{BlockView, CollView, ContentView, SetView, ThingDocView};
use crate::things_laws::law_content_read_after_write;
use crate::things_local::{
    archive_attrs, entry_link, reference_replaced, refers_to, with_collection_actor,
    with_thing_actor,
};
use crate::things_reader::{block_json, built_in_json, collection_entry, content_json, thing_entry};
use crate::things_types::{
    CollectionEntryView, CollectionType, SnapshotOptions, ThingDatatype, ThingEntryView,
};
use crate::timestamps::attrs_shown;
use crate::virtual_path::{displayed, thing_view, ThingFile};
use vstd::prelude::*;

verus! {

proof fn lemma_names()
    ensures
        "attrs"@.len() == 5,
        "built_in"@.len() == 8 && "built_in"@[0] == 'b',
        "content"@.len() == 7,
        "datatype"@.len() == 8 && "datatype"@[0] == 'd',
        "status"@.len() == 6,
        "content_entries"@.len() == 15,
        "extra"@.len() == 5,
        "blocks"@.len() == 6,
        "payload"@.len() == 7,
{
    reveal_strlit("attrs");
    reveal_strlit("built_in");
    reveal_strlit("content");
    reveal_strlit("datatype");
    reveal_strlit("status");
    reveal_strlit("content_entries");
    reveal_strlit("extra");
    reveal_strlit("blocks");
    reveal_strlit("payload");
}

/// What is shown of a thing is what its document holds: the id, the title, the parent, the kind,
/// the status, its entries in their order, and what else it holds. The content is shown only
/// where it is asked for.
pub proof fn law_thing_is_shown_as_it_is(
    set: SetView,
    collection: Seq<char>,
    t: ThingDocView,
    options: SnapshotOptions,
)
    ensures
        ({
            let e = thing_entry(set, collection, t, options);
            let built_in = field(e.data, "built_in"@);
            &&& e.uuid == t.id && e.collection_uuid == collection && e.parent_uuid == t.parent_id
            &&& e.datatype == t.datatype && e.status == t.status && e.status_timestamp_ms
                == t.status_timestamp_ms
            &&& t.title is Some ==> Some(e.title) == t.title
            &&& t.title is None ==> e.title.len() == 0
            &&& field(e.data, "status"@) == Some(JsonView::Text(t.status))
            &&& field(e.data, "datatype"@) == Some(JsonView::Text(t.datatype))
            &&& attrs_shown(t.attrs) is Some ==> field(e.data, "attrs"@) == attrs_shown(t.attrs)
            &&& attrs_shown(t.attrs) is None ==> field(e.data, "attrs"@) == Some(JsonView::Null)
            &&& built_in is Some && t.entries.len() > 0 ==> field(
                built_in->0,
                "content_entries"@,
            ) == Some(JsonView::List(t.entries.map_values(|x: EntryView| entry_json(x))))
            &&& built_in is Some && t.extra is Some ==> field(built_in->0, "extra"@) == t.extra
            &&& built_in is Some
            &&& options.include_content ==> field(e.data, "content"@) == Some(
                content_json(content_of(set, t.id)),
            )
            &&& !options.include_content ==> field(e.data, "content"@) is None
        }),
{
    lemma_names();
    reveal_strlit("");
    let e = thing_entry(set, collection, t, options);
    let entries = e.data->Object_0;
    lemma_lookup_at(entries, "attrs"@, 0);
    lemma_lookup_at(entries, "built_in"@, 1);
    if options.include_content {
        lemma_lookup_at(entries, "content"@, 2);
        lemma_lookup_at(entries, "datatype"@, 3);
        lemma_lookup_at(entries, "status"@, 4);
    } else {
        lemma_lookup_at(entries, "datatype"@, 2);
        lemma_lookup_at(entries, "status"@, 3);
        lemma_no_key(entries, "content"@);
    }
    let inner = built_in_json(t)->Object_0;
    if t.entries.len() > 0 {
        lemma_lookup_at(inner, "content_entries"@, 0);
        if t.extra is Some {
            lemma_lookup_at(inner, "extra"@, 1);
        }
    } else if t.extra is Some {
        lemma_lookup_at(inner, "extra"@, 0);
    }
}

proof fn lemma_no_key(entries: Seq<(Seq<char>, JsonView)>, key: Seq<char>)
    requires
        forall|k: int| 0 <= k < entries.len() ==> (#[trigger] entries[k]).0 != key,
    ensures
        lookup(entries, key) is None,
    decreases entries.len(),
{
    if entries.len() > 0 {
        let rest = entries.drop_first();
        assert forall|k: int| 0 <= k < rest.len() implies (#[trigger] rest[k]).0 != key by {
            assert(rest[k] == entries[k + 1]);
        }
        assert(entries[0].0 != key);
        lemma_no_key(rest, key);
    }
}

/// The content that is shown lists the blocks in their order with their ids, kinds and texts, or
/// holds the value of an object.
pub proof fn law_content_is_shown_as_it_is(blocks: Seq<BlockView>, i: int, j: JsonView)
    requires
        0 <= i < blocks.len(),
    ensures
        ({
            let shown = content_json(Some(ContentView::Blocks(blocks)));
            let list = field(shown, "blocks"@);
            &&& list is Some && list->0 is List && list->0->List_0.len() == blocks.len()
            &&& text_field(list->0->List_0[i], "id"@) == Some(blocks[i].id)
            &&& text_field(list->0->List_0[i], "type"@) == Some(blocks[i].kind)
            &&& blocks[i].text is Some ==> text_field(list->0->List_0[i], "text"@)
                == blocks[i].text
            &&& blocks[i].attrs_json is Some ==> text_field(list->0->List_0[i], "attrs_json"@)
                == blocks[i].attrs_json
            &&& field(content_json(Some(ContentView::Payload(j))), "payload"@) == Some(j)
        }),
{
    lemma_names();
    reveal_strlit("attrs_json");
    reveal_strlit("id");
    reveal_strlit("text");
    reveal_strlit("type");
    assert("attrs_json"@.len() == 10 && "id"@.len() == 2 && "text"@.len() == 4);
    assert("type"@.len() == 4 && "text"@[1] == 'e' && "type"@[1] == 'y');
    let shown = content_json(Some(ContentView::Blocks(blocks)));
    lemma_lookup_at(shown->Object_0, "blocks"@, 0);
    let b = block_json(blocks[i])->Object_0;
    lemma_lookup_at(b, "attrs_json"@, 0);
    lemma_lookup_at(b, "id"@, 1);
    lemma_lookup_at(b, "text"@, 2);
    lemma_lookup_at(b, "type"@, 3);
    lemma_lookup_at(content_json(Some(ContentView::Payload(j)))->Object_0, "payload"@, 1);
}

/// The text of an attribute without the white space around it, where there is more than that.
pub open spec fn plain_attr(attrs: JsonView, key: Seq<char>) -> Option<Seq<char>> {
    match text_field(attrs, key) {
        Some(s) => if trimmed(s).len() > 0 {
            Some(trimmed(s))
        } else {
            None
        },
        None => None,
    }
}

/// Whether a time is the one that an attribute holds.
pub open spec fn shows_time(
    attrs: JsonView,
    key: Seq<char>,
    time: Option<DomainTime>,
) -> bool {
    match plain_attr(attrs, key) {
        Some(s) => time == rfc3339_time(s),
        None => time is None,
    }
}

/// What is shown of a collection is what its document holds: the id, the title, and of its
/// attributes the kind, the app and the card.
pub proof fn law_collection_is_shown_as_it_is(c: CollView)
    ensures
        ({
            let e = collection_entry(c);
            &&& e.uuid == c.id && e.title == c.title
            &&& c.attrs is None ==> e.collection_type == CollectionType::Normal && e.app_id is None
                && e.card_jsx is None && e.archived_at is None
            &&& c.attrs matches Some(attrs) ==> {
                &&& plain_attr(attrs, "collection_type"@) == Some("trash"@) ==> e.collection_type
                    == CollectionType::Trash
                &&& plain_attr(attrs, "collection_type"@) == Some("app"@) ==> e.collection_type
                    == CollectionType::App
                &&& plain_attr(attrs, "collection_type"@) == Some("default"@)
                    ==> e.collection_type == CollectionType::Default
                &&& plain_attr(attrs, "collection_type"@) is None ==> e.collection_type
                    == CollectionType::Normal
                &&& e.app_id == plain_attr(attrs, "app_id"@)
                &&& e.card_jsx == plain_attr(attrs, "card_jsx"@)
                &&& shows_time(attrs, "archived_at"@, e.archived_at)
                &&& plain_attr(attrs, "__remi_created_at"@) is Some ==> shows_time(
                    attrs,
                    "__remi_created_at"@,
                    Some(e.created_at),
                ) || rfc3339_time(plain_attr(attrs, "__remi_created_at"@)->0) is None
                &&& plain_attr(attrs, "__remi_updated_at"@) is Some ==> shows_time(
                    attrs,
                    "__remi_updated_at"@,
                    Some(e.updated_at),
                ) || rfc3339_time(plain_attr(attrs, "__remi_updated_at"@)->0) is None
            }
        }),
{
    reveal_strlit("default");
    reveal_strlit("trash");
    reveal_strlit("app");
    assert("default"@.len() == 7 && "trash"@.len() == 5 && "app"@.len() == 3);
}

/// The times that are shown of a thing are those that its attributes hold.
pub proof fn law_times_are_shown(
    set: SetView,
    collection: Seq<char>,
    t: ThingDocView,
    options: SnapshotOptions,
    attrs: JsonView,
)
    requires
        t.attrs == Some(attrs),
    ensures
        ({
            let e = thing_entry(set, collection, t, options);
            &&& plain_attr(attrs, "__remi_created_at"@) is Some ==> shows_time(
                attrs,
                "__remi_created_at"@,
                Some(e.created_at),
            ) || rfc3339_time(plain_attr(attrs, "__remi_created_at"@)->0) is None
            &&& plain_attr(attrs, "__remi_updated_at"@) is Some ==> shows_time(
                attrs,
                "__remi_updated_at"@,
                Some(e.updated_at),
            ) || rfc3339_time(plain_attr(attrs, "__remi_updated_at"@)->0) is None
            &&& shows_time(attrs, "archived_at"@, e.archived_at)
            &&& e.archived_from_collection_uuid == plain_attr(
                attrs,
                "archived_from_collection_uuid"@,
            )
        }),
{
}

/// Who made a thing or a collection is what is kept of its id; nothing else is changed by it, and
/// nothing is said where nothing is kept.
pub proof fn law_actors_are_those_kept(
    t: ThingEntryView,
    c: CollectionEntryView,
    actors: Seq<ActorMetaEntry>,
)
    ensures
        ({
            let shown = with_thing_actor(t, actors);
            let none = forall|k: int|
                0 <= k < actors.len() ==> (#[trigger] actors[k]).uuid@ != t.uuid;
            &&& none ==> shown == t
            &&& !none ==> exists|k: int|
                0 <= k < actors.len() && (#[trigger] actors[k]).uuid@ == t.uuid && shown == (
                ThingEntryView {
                    actor_type: Some(actors[k].actor_type@),
                    actor_app_id: opt_view(actors[k].actor_app_id),
                    actor_display_name: opt_view(actors[k].actor_display_name),
                    ..t
                })
        }),
        ({
            let shown = with_collection_actor(c, actors);
            let none = forall|k: int|
                0 <= k < actors.len() ==> (#[trigger] actors[k]).uuid@ != c.uuid;
            &&& none ==> shown == c
            &&& !none ==> exists|k: int|
                0 <= k < actors.len() && (#[trigger] actors[k]).uuid@ == c.uuid && shown == (
                CollectionEntryView {
                    actor_type: Some(actors[k].actor_type@),
                    actor_app_id: opt_view(actors[k].actor_app_id),
                    actor_display_name: opt_view(actors[k].actor_display_name),
                    ..c
                })
        }),
{
    lemma_actor(actors, t.uuid);
    lemma_actor(actors, c.uuid);
}

proof fn lemma_actor(actors: Seq<ActorMetaEntry>, uuid: Seq<char>)
    ensures
        first_data(actors, is_actor_of(uuid)) is None <==> forall|k: int|
            0 <= k < actors.len() ==> (#[trigger] actors[k]).uuid@ != uuid,
        first_data(actors, is_actor_of(uuid)) matches Some(a) ==> exists|k: int|
            0 <= k < actors.len() && #[trigger] actors[k] == a && a.uuid@ == uuid,
{
    law_first_data(actors, is_actor_of(uuid));
    if let Some(a) = first_data(actors, is_actor_of(uuid)) {
        let k = choose|k: int| 0 <= k < actors.len() && actors[k] == a;
        assert(actors[k].uuid@ == uuid);
    } else {
        assert forall|k: int| 0 <= k < actors.len() implies (#[trigger] actors[k]).uuid@
            != uuid by {
            assert(!is_actor_of(uuid)(actors[k]));
        }
    }
}

/// A splice takes characters away at a place and puts others there; what is before and after stays.
/// Taking away what was put in gives the text back, and taking all away leaves what was
/// put in.
pub proof fn law_splices(text: Seq<char>, index: nat, delete: nat, insert: Seq<char>)
    ensures
        index + delete <= text.len() ==> spliced(text, index, delete, insert) == text.take(
            index as int,
        ) + insert + text.skip(index + delete as int),
        index <= text.len() ==> spliced(
            spliced(text, index, 0, insert),
            index,
            insert.len(),
            Seq::empty(),
        ) == text,
        delete >= text.len() ==> spliced(text, 0, delete, insert) == insert,
        index > text.len() ==> spliced(text, index, delete, insert) == text + insert,
        index + delete <= text.len() ==> spliced(text, index, delete, insert).len() + delete
            == text.len() + insert.len(),
{
    assert(text.take(text.len() as int) =~= text);
    assert(text.skip(text.len() as int) =~= Seq::<char>::empty());
    if index <= text.len() {
        let once = spliced(text, index, 0, insert);
        assert(once =~= text.take(index as int) + insert + text.skip(index as int));
        assert(spliced(once, index, insert.len(), Seq::empty()) =~= text);
    }
    if delete >= text.len() {
        assert(spliced(text, 0, delete, insert) =~= insert);
    }
    if index > text.len() {
        assert(spliced(text, index, delete, insert) =~= text + insert);
    }
}

/// A splice in a block changes the text of the first block with the id alone.
pub proof fn law_splice_in_one_block(
    blocks: Seq<BlockView>,
    id: Seq<char>,
    index: nat,
    delete: nat,
    insert: Seq<char>,
    i: int,
)
    requires
        0 <= i < blocks.len(),
    ensures
        ({
            let out = blocks_spliced(blocks, id, index, delete, insert);
            &&& out.len() == blocks.len()
            &&& blocks[i].id != id ==> out[i] == blocks[i]
            &&& blocks[i].id == id && (forall|k: int| 0 <= k < i ==> (#[trigger] blocks[k]).id
                != id) ==> out[i] == (BlockView {
                text: Some(spliced(block_text(blocks[i]), index, delete, insert)),
                ..blocks[i]
            })
        }),
{
    lemma_position_of(blocks, is_block(id));
    if blocks[i].id == id && (forall|k: int| 0 <= k < i ==> (#[trigger] blocks[k]).id != id) {
        crate::table::lemma_position_is(blocks, is_block(id), i);
    }
}

/// A link to a content entry leads to the path of the entry, and says whether it is a picture.
pub proof fn law_links_lead_to_entries(
    collection: Seq<char>,
    thing: Seq<char>,
    index: nat,
    e: EntryView,
)
    ensures
        ({
            let path = displayed(thing_view(collection, thing, ThingFile::Entry(index)));
            &&& e.payload is Image ==> entry_link(collection, thing, index, e) == "["@ + "IMG"@
                + "]("@ + path + ")"@
            &&& !(e.payload is Image) ==> entry_link(collection, thing, index, e) == "["@
                + "内容"@ + "]("@ + path + ")"@
        }),
{
    law_paths_are_written(collection, thing, index);
    reveal_strlit("/");
    reveal_strlit("collection");
    reveal_strlit("things");
    reveal_strlit("entries.");
    reveal_strlit("/collection/");
    reveal_strlit("/things/");
    reveal_strlit("/entries.");
    assert("/collection/"@ =~= "/"@ + "collection"@ + "/"@);
    assert("/things/"@ =~= "/"@ + "things"@ + "/"@);
    assert("/entries."@ =~= "/"@ + "entries."@);
    let path = "/collection/"@ + collection + "/things/"@ + thing + "/entries."@ + decimal(index);
    assert(path =~= displayed(thing_view(collection, thing, ThingFile::Entry(index))));
}

proof fn lemma_all_replaced(s: Seq<char>, to: Seq<char>)
    requires
        s.len() > 0,
    ensures
        replaced(s, s, to) == to,
{
    assert(s.take(s.len() as int) =~= s);
    assert(s.skip(s.len() as int) =~= Seq::<char>::empty());
    assert(replaced(Seq::<char>::empty(), s, to) == Seq::<char>::empty());
    assert(to + Seq::<char>::empty() =~= to);
}

/// A reference to an entry, in each of its three forms, becomes the link to it.
pub proof fn law_references_become_links(id: Seq<char>, link: Seq<char>)
    requires
        !refers_to(link, id),
        first_place("[remi-entry]("@ + ("remi-entry://"@ + id) + ")"@, "![]("@ + (
        "remi-entry://"@ + id) + ")"@) is None,
        first_place("<"@ + ("remi-entry://"@ + id) + ">"@, "![]("@ + ("remi-entry://"@ + id)
            + ")"@) is None,
        first_place("<"@ + ("remi-entry://"@ + id) + ">"@, "[remi-entry]("@ + ("remi-entry://"@
            + id) + ")"@) is None,
    ensures
        reference_replaced("![]("@ + ("remi-entry://"@ + id) + ")"@, id, link) == link,
        reference_replaced("[remi-entry]("@ + ("remi-entry://"@ + id) + ")"@, id, link) == link,
        reference_replaced("<"@ + ("remi-entry://"@ + id) + ">"@, id, link) == link,
{
    reveal_strlit("![](");
    reveal_strlit("[remi-entry](");
    reveal_strlit("<");
    let target = "remi-entry://"@ + id;
    let a = "![]("@ + target + ")"@;
    let b = "[remi-entry]("@ + target + ")"@;
    let c = "<"@ + target + ">"@;
    lemma_all_replaced(a, link);
    lemma_all_replaced(b, link);
    lemma_all_replaced(c, link);
    law_replaced_absent(link, b, link);
    law_replaced_absent(link, c, link);
    law_replaced_absent(b, a, link);
    law_replaced_absent(c, a, link);
    law_replaced_absent(c, b, link);
}

/// When a thing was archived and from where is kept among its attributes, and taken out again where
/// it is not given; the other attributes stay.
pub proof fn law_archived_things_say_so(
    existing: Option<JsonView>,
    at: Seq<char>,
    from: Seq<char>,
    key: Seq<char>,
)
    requires
        trimmed(at).len() > 0,
        trimmed(from).len() > 0,
        key != "archived_at"@,
        key != "archived_from_collection_uuid"@,
    ensures
        ({
            let kept = archive_attrs(existing, Some(at), Some(from));
            let gone = archive_attrs(existing, None, None);
            &&& text_field(kept, "archived_at"@) == Some(trimmed(at))
            &&& text_field(kept, "archived_from_collection_uuid"@) == Some(trimmed(from))
            &&& text_field(gone, "archived_at"@) is None
            &&& text_field(gone, "archived_from_collection_uuid"@) is None
            &&& field(kept, key) == lookup(object_entries(existing), key)
            &&& field(gone, key) == lookup(object_entries(existing), key)
        }),
{
    reveal_strlit("archived_at");
    reveal_strlit("archived_from_collection_uuid");
    assert("archived_at"@.len() == 11 && "archived_from_collection_uuid"@.len() == 29);
    let a = "archived_at"@;
    let b = "archived_from_collection_uuid"@;
    let start = object_entries(existing);
    let one = with_entry(start, a, JsonView::Text(trimmed(at)));
    law_with_entry(start, a, JsonView::Text(trimmed(at)), key);
    law_with_entry(one, b, JsonView::Text(trimmed(from)), key);
    law_with_entry(one, b, JsonView::Text(trimmed(from)), a);
    law_without_entry(start, a, key);
    law_without_entry(without_entry(start, a), b, key);
    law_without_entry(without_entry(start, a), b, a);
}

/// A thing that is written with a value as its text has that text: the value where it is a text,
/// and its markdown where it is an object with one.
pub proof fn law_value_becomes_the_text(set: SetView, thing: Seq<char>, payload: JsonView)
    ensures
        main_text(content_of(payload_written(set, thing, ThingDatatype::Markdown, payload), thing))
            == Some(markdown_text_of(payload)),
        payload matches JsonView::Text(s) ==> markdown_text_of(payload) == s,
        payload is Object && text_field(payload, "markdown"@) is Some ==> Some(
            markdown_text_of(payload),
        ) == text_field(payload, "markdown"@),
{
    let other = if thing.len() == 0 {
        seq!['a']
    } else {
        Seq::empty()
    };
    let block = crate::things_content::block_from_value(ThingDatatype::Markdown, payload);
    let blocks = seq![block];
    law_content_read_after_write(
        set,
        thing,
        thing,
        "markdown"@,
        ContentView::Blocks(blocks),
        other,
    );
    crate::table::lemma_position_is(blocks, is_block("main"@), 0);
}

} // verus!
