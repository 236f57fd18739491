//! What a listing of the virtual filesystem shows: every collection, every thing in its place, and
//! every file, each with a line of its own.
use crate::content_registry::EntryView;
use crate::path_tree::{
    child_of, children_lines, children_of, entries_nodes, entry_nodes, leaf, listed, node_lines,
    thing_children, thing_nodes, tree_collection_in, tree_node, tree_text, tree_thing_in, NodeView,
};
use crate::rows::ActionDefinition;
use crate::sdk::paths::{located, tree_answer};
use crate::sdk::RemiSdk;
use crate::search::document_laws::{law_joined_holds_parts, law_part_of_part};
use crate::storage::chat::every;
use crate::storage::triggers::by_action_creation;
use crate::table::ranked;
use crate::text::{decimal, has_part, joined};
use crate::things_docs::{CollView, SetView, ThingDocView};
use crate::things_reader::{
    all_thing_ids, all_tree_things, coll_tree_things, law_live_collections, live_colls, live_things,
    thing_ids, tree_collections, tree_thing, tree_things, TreeCollectionView, TreeThingView,
};
use crate::virtual_path::{
    action_view, collection_view, thing_view, ActionFile, CollectionFile, PathView, ThingFile,
};
use vstd::prelude::*;

verus! {

/// How a thing is named in a listing: by its id, with its title and its status.
pub open spec fn thing_label(t: TreeThingView) -> Seq<char> {
    t.uuid + "/ [name=\""@ + t.title + "\", status=\""@ + t.status + "\"]"@
}

/// Whether nodes list exactly the things that are asked for, each once and in their order, under
/// its name.
pub open spec fn lists_things(
    nodes: Seq<NodeView>,
    things: Seq<TreeThingView>,
    collection: Seq<char>,
    parent: Option<Seq<char>>,
) -> bool {
    let asked = things.filter(
        |t: TreeThingView| t.collection_uuid == collection && t.parent_uuid == parent,
    );
    &&& nodes.len() == asked.len()
    &&& forall|k: int|
        0 <= k < nodes.len() ==> (#[trigger] nodes[k]).label == thing_label(asked[k])
}

proof fn lemma_lists_things(
    things: Seq<TreeThingView>,
    collection: Seq<char>,
    parent: Option<Seq<char>>,
)
    ensures
        lists_things(
            thing_nodes(things, children_of(things, collection, parent)),
            things,
            collection,
            parent,
        ),
{
    let keep = |t: TreeThingView| t.collection_uuid == collection && t.parent_uuid == parent;
    assert(keep =~= child_of(collection, parent));
}

proof fn lemma_filter_keeps<T>(s: Seq<T>, keep: spec_fn(T) -> bool, at: int)
    requires
        0 <= at < s.len(),
        keep(s[at]),
    ensures
        s.filter(keep).contains(s[at]),
    decreases s.len(),
{
    reveal(Seq::filter);
    let front = s.drop_last();
    if at < front.len() {
        lemma_filter_keeps(front, keep, at);
        assert(front[at] == s[at]);
        let k = choose|k: int| 0 <= k < front.filter(keep).len() && front.filter(keep)[k] == s[at];
        assert(s.filter(keep)[k] == s[at]);
    } else {
        assert(s.filter(keep).last() == s[at]);
    }
}

proof fn lemma_filter_all<T>(s: Seq<T>, keep: spec_fn(T) -> bool)
    requires
        forall|x: T| #[trigger] keep(x),
    ensures
        s.filter(keep) == s,
    decreases s.len(),
{
    reveal(Seq::filter);
    if s.len() > 0 {
        lemma_filter_all(s.drop_last(), keep);
        assert(keep(s.last()));
        assert(s.drop_last().push(s.last()) =~= s);
    }
}

/// A thing that is asked for has a node.
proof fn lemma_thing_is_listed(
    nodes: Seq<NodeView>,
    things: Seq<TreeThingView>,
    collection: Seq<char>,
    parent: Option<Seq<char>>,
    j: int,
)
    requires
        lists_things(nodes, things, collection, parent),
        0 <= j < things.len(),
        things[j].collection_uuid == collection,
        things[j].parent_uuid == parent,
    ensures
        exists|k: int|
            0 <= k < nodes.len() && (#[trigger] nodes[k]).label == thing_label(things[j]),
{
    let keep = |t: TreeThingView| t.collection_uuid == collection && t.parent_uuid == parent;
    lemma_filter_keeps(things, keep, j);
    let asked = things.filter(keep);
    let k = choose|k: int| 0 <= k < asked.len() && asked[k] == things[j];
    assert(nodes[k].label == thing_label(things[j]));
}

/// The listings of the root and of the collections show every collection, each once and in
/// their order, under its id and with its title. Under `things/` of a collection stand
/// exactly its things that have no parent, each once, with their titles and statuses.
pub proof fn law_collections_are_listed(
    actions: Seq<ActionDefinition>,
    found: Option<ActionDefinition>,
    collections: Seq<TreeCollectionView>,
    things: Seq<TreeThingView>,
    i: int,
    j: int,
)
    requires
        0 <= i < collections.len(),
    ensures
        ({
            let root = tree_node(PathView::Root, actions, found, collections, things)->Ok_0;
            let top = tree_node(PathView::CollectionRoot, actions, found, collections, things);
            let nodes = top->Ok_0.children;
            let c = collections[i];
            let dir = nodes[i].children[3];
            &&& tree_node(PathView::Root, actions, found, collections, things) is Ok
            &&& top is Ok
            &&& root.children.len() == 2 && root.children[1].label == "collection/"@
            &&& root.children[1].children == nodes
            &&& nodes.len() == collections.len()
            &&& nodes[i].label == c.uuid + "/ [name=\""@ + c.title + "\"]"@
            &&& nodes[i].children.len() == 4
            &&& dir.label == "things/"@
            &&& lists_things(dir.children, things, c.uuid, None)
            &&& 0 <= j < things.len() && things[j].collection_uuid == c.uuid
                && things[j].parent_uuid is None ==> exists|k: int|
                0 <= k < dir.children.len() && (#[trigger] dir.children[k]).label == thing_label(
                    things[j],
                )
        }),
{
    lemma_filter_all(collections, listed(None));
    let c = collections[i];
    lemma_lists_things(things, c.uuid, None);
    if 0 <= j < things.len() && things[j].collection_uuid == c.uuid && things[j].parent_uuid
        is None {
        lemma_thing_is_listed(
            thing_nodes(things, children_of(things, c.uuid, None)),
            things,
            c.uuid,
            None,
            j,
        );
    }
}

proof fn lemma_collection_in(collections: Seq<TreeCollectionView>, uuid: Seq<char>)
    ensures
        match tree_collection_in(collections, uuid) {
            Some(c) => c.uuid == uuid && collections.contains(c),
            None => forall|i: int| 0 <= i < collections.len() ==> (#[trigger] collections[i]).uuid
                != uuid,
        },
    decreases collections.len(),
{
    if collections.len() > 0 {
        let front = collections.drop_last();
        if collections.last().uuid == uuid {
            assert(collections[collections.len() - 1] == collections.last());
        } else {
            lemma_collection_in(front, uuid);
            match tree_collection_in(front, uuid) {
                Some(c) => {
                    let k = choose|k: int| 0 <= k < front.len() && front[k] == c;
                    assert(collections[k] == c);
                },
                None => {
                    assert forall|i: int| 0 <= i < collections.len() implies (
                    #[trigger] collections[i]).uuid != uuid by {
                        if i < front.len() {
                            assert(front[i].uuid != uuid);
                        }
                    }
                },
            }
        }
    }
}

proof fn lemma_thing_in(things: Seq<TreeThingView>, collection: Seq<char>, thing: Seq<char>)
    ensures
        match tree_thing_in(things, collection, thing) {
            Some(t) => t.uuid == thing && t.collection_uuid == collection && things.contains(t),
            None => forall|i: int|
                0 <= i < things.len() ==> !((#[trigger] things[i]).uuid == thing
                    && things[i].collection_uuid == collection),
        },
    decreases things.len(),
{
    if things.len() > 0 {
        let front = things.drop_last();
        if things.last().collection_uuid == collection && things.last().uuid == thing {
            assert(things[things.len() - 1] == things.last());
        } else {
            lemma_thing_in(front, collection, thing);
            match tree_thing_in(front, collection, thing) {
                Some(t) => {
                    let k = choose|k: int| 0 <= k < front.len() && front[k] == t;
                    assert(things[k] == t);
                },
                None => {
                    assert forall|i: int| 0 <= i < things.len() implies !((
                    #[trigger] things[i]).uuid == thing && things[i].collection_uuid
                        == collection) by {
                        if i < front.len() {
                            assert(front[i] == things[i]);
                        }
                    }
                },
            }
        }
    }
}

/// The listing of one collection is there where the collection is, and shows its title and
/// exactly its things that have no parent.
pub proof fn law_one_collection_is_listed(
    actions: Seq<ActionDefinition>,
    found: Option<ActionDefinition>,
    collections: Seq<TreeCollectionView>,
    things: Seq<TreeThingView>,
    uuid: Seq<char>,
)
    ensures
        ({
            let path = collection_view(uuid, CollectionFile::Dir);
            let out = tree_node(path, actions, found, collections, things);
            let nodes = out->Ok_0.children;
            &&& out is Ok <==> exists|i: int|
                0 <= i < collections.len() && (#[trigger] collections[i]).uuid == uuid
            &&& out is Ok ==> nodes.len() == 4 && nodes[3].label == "things/"@ && lists_things(
                nodes[3].children,
                things,
                uuid,
                None,
            )
            &&& out is Ok ==> exists|i: int|
                0 <= i < collections.len() && (#[trigger] collections[i]).uuid == uuid
                    && nodes[0].label == "name"@ + " [value=\""@ + collections[i].title + "\"]"@
        }),
{
    lemma_collection_in(collections, uuid);
    lemma_lists_things(things, uuid, None);
    match tree_collection_in(collections, uuid) {
        Some(c) => {
            let i = choose|i: int| 0 <= i < collections.len() && collections[i] == c;
            assert(collections[i].uuid == uuid);
        },
        None => {},
    }
}

proof fn lemma_entries_nodes(entries: Seq<EntryView>, n: int, k: int)
    requires
        0 <= k < n <= entries.len(),
    ensures
        entries_nodes(entries, n).contains(leaf("entries."@ + decimal(k as nat))),
        entries[k].payload is JsonObject ==> {
            &&& entries_nodes(entries, n).contains(
                leaf("entries."@ + decimal(k as nat) + ".data.json"@),
            )
            &&& entries_nodes(entries, n).contains(
                leaf("entries."@ + decimal(k as nat) + ".schema.json"@),
            )
        },
    decreases n,
{
    let front = entries_nodes(entries, n - 1);
    let back = entry_nodes((n - 1) as nat, entries[n - 1]);
    let all = entries_nodes(entries, n);
    assert(all == front + back);
    let name = "entries."@ + decimal(k as nat);
    if k < n - 1 {
        lemma_entries_nodes(entries, n - 1, k);
        assert forall|x: NodeView| front.contains(x) implies #[trigger] all.contains(x) by {
            let q = choose|q: int| 0 <= q < front.len() && front[q] == x;
            assert(all[q] == x);
        }
    } else {
        assert(all[front.len() as int] == back[0]);
        if entries[k].payload is JsonObject {
            assert(all[front.len() as int + 1] == back[1]);
            assert(all[front.len() as int + 2] == back[2]);
        }
    }
}

/// The listing of a thing is there where its collection has the thing. It shows its title, its
/// status and its text, a file for each of its content entries, and under `things/` exactly
/// the things whose parent it is; that directory is left out where there are none. The
/// directory of its things by itself shows the same.
pub proof fn law_one_thing_is_listed(
    actions: Seq<ActionDefinition>,
    found: Option<ActionDefinition>,
    collections: Seq<TreeCollectionView>,
    things: Seq<TreeThingView>,
    collection: Seq<char>,
    thing: Seq<char>,
    j: int,
    k: int,
)
    requires
        0 <= j < things.len(),
        things[j].collection_uuid == collection,
        things[j].uuid == thing,
        forall|i: int|
            0 <= i < things.len() && i != j ==> !((#[trigger] things[i]).uuid == thing
                && things[i].collection_uuid == collection),
    ensures
        ({
            let t = things[j];
            let dir = tree_node(
                thing_view(collection, thing, ThingFile::Dir),
                actions,
                found,
                collections,
                things,
            );
            let below = tree_node(
                thing_view(collection, thing, ThingFile::Children),
                actions,
                found,
                collections,
                things,
            );
            let nodes = dir->Ok_0.children;
            &&& dir is Ok && below is Ok
            &&& lists_things(below->Ok_0.children, things, collection, Some(thing))
            &&& nodes.len() >= 4
            &&& nodes[0].label == "name"@ + " [value=\""@ + t.title + "\"]"@
            &&& nodes[1] == leaf("actions.json"@)
            &&& nodes[2].label == "status"@ + " [value=\""@ + t.status + "\"]"@
            &&& nodes[3] == leaf("content.md"@)
            &&& 0 <= k < t.entries.len() ==> nodes.contains(
                leaf("entries."@ + decimal(k as nat)),
            )
            &&& 0 <= k < t.entries.len() && t.entries[k].payload is JsonObject ==> nodes.contains(
                leaf("entries."@ + decimal(k as nat) + ".data.json"@),
            ) && nodes.contains(leaf("entries."@ + decimal(k as nat) + ".schema.json"@))
            &&& (below->Ok_0.children.len() > 0 ==> nodes.last() == (NodeView {
                label: "things/"@,
                children: below->Ok_0.children,
            }))
        }),
{
    let t = things[j];
    lemma_thing_in(things, collection, thing);
    let shown = tree_thing_in(things, collection, thing)->0;
    let at = choose|at: int| 0 <= at < things.len() && things[at] == shown;
    assert(at == j);
    lemma_lists_things(things, collection, Some(thing));
    let files = entries_nodes(t.entries, t.entries.len() as int);
    let nodes = thing_children(things, collection, thing)->Ok_0;
    assert forall|x: NodeView| files.contains(x) implies #[trigger] nodes.contains(x) by {
        let q = choose|q: int| 0 <= q < files.len() && files[q] == x;
        assert(nodes[4 + q] == x);
    }
    if 0 <= k < t.entries.len() {
        lemma_entries_nodes(t.entries, t.entries.len() as int, k);
    }
}

/// Whether a label stands somewhere in a tree.
pub open spec fn in_tree(node: NodeView, label: Seq<char>) -> bool
    decreases node,
{
    node.label == label || exists|i: int|
        0 <= i < node.children.len() && in_tree(#[trigger] node.children[i], label)
}

/// Whether one of some lines holds a text.
pub open spec fn some_line(lines: Seq<Seq<char>>, text: Seq<char>) -> bool {
    exists|k: int| 0 <= k < lines.len() && has_part(#[trigger] lines[k], text)
}

proof fn lemma_line_of_label(node: NodeView, prefix: Seq<char>, last: bool, label: Seq<char>)
    requires
        in_tree(node, label),
    ensures
        some_line(node_lines(node, prefix, last), label),
    decreases node,
{
    let lines = node_lines(node, prefix, last);
    let below = crate::path_tree::child_prefix(prefix, last);
    let rest = children_lines(node.children, below, node.children.len());
    if node.label == label {
        let head = lines[0];
        let at = head.len() - label.len();
        assert(head.subrange(at, at + label.len()) =~= label);
    } else {
        let i = choose|i: int|
            0 <= i < node.children.len() && in_tree(#[trigger] node.children[i], label);
        lemma_line_of_label(
            node.children[i],
            below,
            i + 1 == node.children.len(),
            label,
        );
        lemma_lines_of_child(node.children, below, node.children.len(), i, label);
        let k = choose|k: int| 0 <= k < rest.len() && has_part(#[trigger] rest[k], label);
        assert(lines[k + 1] == rest[k]);
    }
}

proof fn lemma_lines_of_child(
    children: Seq<NodeView>,
    prefix: Seq<char>,
    n: nat,
    i: int,
    label: Seq<char>,
)
    requires
        0 <= i < n <= children.len(),
        some_line(node_lines(children[i], prefix, i + 1 == children.len()), label),
    ensures
        some_line(children_lines(children, prefix, n), label),
    decreases n,
{
    let front = children_lines(children, prefix, (n - 1) as nat);
    let back = node_lines(children[n - 1], prefix, n == children.len());
    let all = children_lines(children, prefix, n);
    assert(all == front + back);
    if i < n - 1 {
        lemma_lines_of_child(children, prefix, (n - 1) as nat, i, label);
        let k = choose|k: int| 0 <= k < front.len() && has_part(#[trigger] front[k], label);
        assert(all[k] == front[k]);
    } else {
        let k = choose|k: int| 0 <= k < back.len() && has_part(#[trigger] back[k], label);
        assert(all[front.len() + k] == back[k]);
    }
}

/// The text of a tree holds the label of each of its nodes.
pub proof fn law_labels_are_written(root: NodeView, label: Seq<char>)
    requires
        in_tree(root, label),
    ensures
        has_part(tree_text(root), label),
{
    let rest = children_lines(root.children, Seq::empty(), root.children.len());
    let lines = seq![root.label] + rest;
    if root.label == label {
        assert(lines[0] == label);
        lemma_joined_part(lines, "\n"@, 0, label);
    } else {
        let i = choose|i: int|
            0 <= i < root.children.len() && in_tree(#[trigger] root.children[i], label);
        lemma_line_of_label(
            root.children[i],
            Seq::empty(),
            i + 1 == root.children.len(),
            label,
        );
        lemma_lines_of_child(root.children, Seq::empty(), root.children.len(), i, label);
        let k = choose|k: int| 0 <= k < rest.len() && has_part(#[trigger] rest[k], label);
        assert(lines[k + 1] == rest[k]);
        lemma_joined_part(lines, "\n"@, k + 1, label);
    }
}

proof fn lemma_whole_part(s: Seq<char>)
    ensures
        has_part(s, s),
{
    assert(s.subrange(0, 0int + s.len()) =~= s);
}

proof fn lemma_joined_part(lines: Seq<Seq<char>>, sep: Seq<char>, k: int, text: Seq<char>)
    requires
        0 <= k < lines.len(),
        has_part(lines[k], text) || lines[k] == text,
    ensures
        has_part(joined(lines, sep), text),
{
    lemma_whole_part(text);
    law_joined_holds_parts(lines, sep, k);
    law_part_of_part(joined(lines, sep), lines[k], text);
}

proof fn lemma_things_of_collections(colls: Seq<CollView>, at: int, t: TreeThingView)
    requires
        0 <= at < colls.len(),
        coll_tree_things(colls[at]).contains(t),
    ensures
        all_tree_things(colls).contains(t),
    decreases colls.len(),
{
    let front = all_tree_things(colls.drop_last());
    let back = coll_tree_things(colls.last());
    if at < colls.len() - 1 {
        assert(colls.drop_last()[at] == colls[at]);
        lemma_things_of_collections(colls.drop_last(), at, t);
        let k = choose|k: int| 0 <= k < front.len() && front[k] == t;
        assert((front + back)[k] == t);
    } else {
        let k = choose|k: int| 0 <= k < back.len() && back[k] == t;
        assert((front + back)[front.len() + k] == t);
    }
}

/// A live thing of a live collection is in the tree, with its title, its status, its parent and its
/// content entries; and so is the collection, with its title.
pub proof fn law_live_things_are_in_the_tree(set: SetView, i: int, j: int)
    requires
        0 <= i < set.collections.len(),
        !set.collections[i].deleted,
    ensures
        exists|k: int|
            0 <= k < tree_collections(set).len() && (#[trigger] tree_collections(set)[k]).uuid
                == set.collections[i].id && tree_collections(set)[k].title
                == set.collections[i].title,
        0 <= j < set.collections[i].things.len() && !set.collections[i].things[j].deleted
            ==> exists|k: int|
            0 <= k < tree_things(set).len() && {
                let t = #[trigger] tree_things(set)[k];
                let doc = set.collections[i].things[j];
                &&& t.uuid == doc.id
                &&& t.collection_uuid == set.collections[i].id
                &&& doc.title is Some ==> Some(t.title) == doc.title
                &&& t.status == doc.status
                &&& t.parent_uuid == doc.parent_id
                &&& t.entries == doc.entries
            },
{
    let c = set.collections[i];
    let live = live_colls(set.collections);
    law_live_collections(set.collections);
    assert(set.collections.contains(c));
    assert(live.contains(c));
    let at = choose|at: int| 0 <= at < live.len() && live[at] == c;
    assert(tree_collections(set)[at].uuid == c.id);
    if 0 <= j < c.things.len() && !c.things[j].deleted {
        let keep = |t: ThingDocView| !t.deleted;
        lemma_filter_keeps(c.things, keep, j);
        let kept = live_things(c.things);
        let q = choose|q: int| 0 <= q < kept.len() && kept[q] == c.things[j];
        let t = tree_thing(c.id, c.things[j]);
        assert(coll_tree_things(c)[q] == t);
        lemma_things_of_collections(live, at, t);
        let k = choose|k: int| 0 <= k < tree_things(set).len() && tree_things(set)[k] == t;
        assert(tree_things(set)[k].uuid == t.uuid);
    }
}

/// The text of the tree of the root, and of the collections, names every thing without a parent
/// of every collection, with its title and its status.
pub proof fn law_tree_names_things(
    actions: Seq<ActionDefinition>,
    found: Option<ActionDefinition>,
    collections: Seq<TreeCollectionView>,
    things: Seq<TreeThingView>,
    i: int,
    j: int,
)
    requires
        0 <= i < collections.len(),
        0 <= j < things.len(),
        things[j].collection_uuid == collections[i].uuid,
        things[j].parent_uuid is None,
    ensures
        has_part(
            tree_text(tree_node(PathView::Root, actions, found, collections, things)->Ok_0),
            thing_label(things[j]),
        ),
        has_part(
            tree_text(
                tree_node(PathView::CollectionRoot, actions, found, collections, things)->Ok_0,
            ),
            thing_label(things[j]),
        ),
{
    let root = tree_node(PathView::Root, actions, found, collections, things)->Ok_0;
    let top = tree_node(PathView::CollectionRoot, actions, found, collections, things)->Ok_0;
    law_collections_are_listed(actions, found, collections, things, i, j);
    let node = top.children[i];
    let dir = node.children[3];
    let k = choose|k: int|
        0 <= k < dir.children.len() && (#[trigger] dir.children[k]).label == thing_label(
            things[j],
        );
    let label = thing_label(things[j]);
    assert(in_tree(dir.children[k], label));
    assert(in_tree(dir, label));
    assert(in_tree(node, label));
    assert(in_tree(top, label));
    assert(root.children[1].children[i] == node);
    assert(in_tree(root.children[1], label));
    assert(in_tree(root, label));
    law_labels_are_written(root, label);
    law_labels_are_written(top, label);
}

/// A thing of the tree is a live one of a live collection.
pub proof fn law_tree_things_are_live(set: SetView, k: int)
    requires
        0 <= k < tree_things(set).len(),
    ensures
        exists|i: int, j: int|
            0 <= i < set.collections.len() && 0 <= j < set.collections[i].things.len()
                && !set.collections[i].deleted && !set.collections[i].things[j].deleted
                && set.collections[i].id == tree_things(set)[k].collection_uuid && (
            #[trigger] set.collections[i].things[j]).id == tree_things(set)[k].uuid,
{
    let live = live_colls(set.collections);
    law_live_collections(set.collections);
    let at = lemma_collection_of_thing(live, k);
    let c = live[at];
    assert(live.contains(c));
    let i = choose|i: int| 0 <= i < set.collections.len() && set.collections[i] == c;
    let t = tree_things(set)[k];
    let q = choose|q: int| 0 <= q < coll_tree_things(c).len() && coll_tree_things(c)[q] == t;
    let keep = |t: ThingDocView| !t.deleted;
    let j = lemma_filter_from(c.things, keep, q);
    assert(set.collections[i].things[j].id == t.uuid);
}

proof fn lemma_filter_from<T>(s: Seq<T>, keep: spec_fn(T) -> bool, k: int) -> (at: int)
    requires
        0 <= k < s.filter(keep).len(),
    ensures
        0 <= at < s.len(),
        s[at] == s.filter(keep)[k],
        keep(s[at]),
    decreases s.len(),
{
    reveal(Seq::filter);
    let front = s.drop_last();
    if k < front.filter(keep).len() {
        let at = lemma_filter_from(front, keep, k);
        assert(front[at] == s[at]);
        at
    } else {
        s.len() - 1
    }
}

proof fn lemma_collection_of_thing(colls: Seq<CollView>, k: int) -> (at: int)
    requires
        0 <= k < all_tree_things(colls).len(),
    ensures
        0 <= at < colls.len(),
        coll_tree_things(colls[at]).contains(all_tree_things(colls)[k]),
    decreases colls.len(),
{
    let front = all_tree_things(colls.drop_last());
    let back = coll_tree_things(colls.last());
    if k < front.len() {
        let at = lemma_collection_of_thing(colls.drop_last(), k);
        assert(colls.drop_last()[at] == colls[at]);
        at
    } else {
        assert(back[k - front.len()] == all_tree_things(colls)[k]);
        colls.len() - 1
    }
}

/// The directory of the actions lists each of them by its id and title, in their order, with a file
/// for each part of it. The root lists the first five, and says how many more there are.
pub proof fn law_actions_are_listed(
    actions: Seq<ActionDefinition>,
    found: Option<ActionDefinition>,
    collections: Seq<TreeCollectionView>,
    things: Seq<TreeThingView>,
    i: int,
)
    requires
        0 <= i < actions.len(),
    ensures
        ({
            let dir = tree_node(PathView::ActionRoot, actions, found, collections, things);
            let root = tree_node(PathView::Root, actions, found, collections, things);
            let label = actions[i].action_uuid@ + "/ [title=\""@ + actions[i].title@ + "\"]"@;
            let preview = root->Ok_0.children[0];
            &&& dir is Ok && dir->Ok_0.children.len() == actions.len()
            &&& dir->Ok_0.children[i].label == label
            &&& dir->Ok_0.children[i].children.contains(leaf("script.js"@))
            &&& dir->Ok_0.children[i].children.contains(leaf("metadata.json"@))
            &&& dir->Ok_0.children[i].children.contains(leaf("input.schema.json"@))
            &&& dir->Ok_0.children[i].children.contains(leaf("output.schema.json"@))
            &&& dir->Ok_0.children[i].children.contains(leaf("latest-invocation.json"@))
            &&& dir->Ok_0.children[i].children.contains(
                leaf("name"@ + " [value=\""@ + actions[i].title@ + "\"]"@),
            )
            &&& root is Ok && preview.label == "action/"@
            &&& i < 5 ==> preview.children[i].label == label
            &&& actions.len() <= 5 ==> preview.children.len() == actions.len()
            &&& actions.len() > 5 ==> preview.children.len() == 6 && preview.children[5].label
                == "Has "@ + decimal((actions.len() - 5) as nat) + " More"@
        }),
{
    let dir = tree_node(PathView::ActionRoot, actions, found, collections, things);
    let files = dir->Ok_0.children[i].children;
    assert(files[0] == leaf("name"@ + " [value=\""@ + actions[i].title@ + "\"]"@));
    assert(files[1] == leaf("metadata.json"@));
    assert(files[2] == leaf("input.schema.json"@));
    assert(files[3] == leaf("output.schema.json"@));
    assert(files[4] == leaf("script.js"@));
    assert(files[5] == leaf("latest-invocation.json"@));
}

/// The directory of an action shows the files of the action that was found, and is refused where
/// none was.
pub proof fn law_one_action_is_listed(
    actions: Seq<ActionDefinition>,
    found: Option<ActionDefinition>,
    collections: Seq<TreeCollectionView>,
    things: Seq<TreeThingView>,
    action: Seq<char>,
)
    ensures
        ({
            let dir = tree_node(
                action_view(action, ActionFile::Dir),
                actions,
                found,
                collections,
                things,
            );
            &&& dir is Ok <==> found is Some
            &&& found matches Some(a) ==> dir->Ok_0.children.contains(
                leaf("name"@ + " [value=\""@ + a.title@ + "\"]"@),
            ) && dir->Ok_0.children.contains(leaf("script.js"@))
        }),
{
    let dir = tree_node(
        action_view(action, ActionFile::Dir),
        actions,
        found,
        collections,
        things,
    );
    if let Some(a) = found {
        assert(dir->Ok_0.children[0] == leaf("name"@ + " [value=\""@ + a.title@ + "\"]"@));
        assert(dir->Ok_0.children[4] == leaf("script.js"@));
    }
}

/// What the client shows under `/` and under `/collection` names every live thing of a live
/// collection that has no parent, with its title and its status.
pub proof fn law_client_lists_things(sdk: RemiSdk, path: Seq<char>, i: int, j: int)
    requires
        located(path) is Ok,
        located(path)->Ok_0.1 is Root || located(path)->Ok_0.1 is CollectionRoot,
        0 <= i < sdk.documents@.collections.len(),
        !sdk.documents@.collections[i].deleted,
        0 <= j < sdk.documents@.collections[i].things.len(),
        !sdk.documents@.collections[i].things[j].deleted,
        sdk.documents@.collections[i].things[j].parent_id is None,
        sdk.documents@.collections[i].things[j].title is Some,
    ensures
        tree_answer(sdk, path) is Ok,
        ({
            let t = sdk.documents@.collections[i].things[j];
            has_part(
                tree_answer(sdk, path)->Ok_0.1,
                t.id + "/ [name=\""@ + t.title->0 + "\", status=\""@ + t.status + "\"]"@,
            )
        }),
{
    let set = sdk.documents@;
    law_live_things_are_in_the_tree(set, i, j);
    let doc = set.collections[i].things[j];
    let q = choose|k: int|
        0 <= k < tree_collections(set).len() && (#[trigger] tree_collections(set)[k]).uuid
            == set.collections[i].id && tree_collections(set)[k].title == set.collections[i].title;
    let k = choose|k: int|
        0 <= k < tree_things(set).len() && {
            let t = #[trigger] tree_things(set)[k];
            &&& t.uuid == doc.id
            &&& t.collection_uuid == set.collections[i].id
            &&& doc.title is Some ==> Some(t.title) == doc.title
            &&& t.status == doc.status
            &&& t.parent_uuid == doc.parent_id
            &&& t.entries == doc.entries
        };
    let actions = ranked(sdk.storage.actions.data(), every(), by_action_creation(), false);
    law_tree_names_things(actions, None, tree_collections(set), tree_things(set), q, k);
}

/// The ids of the things of collections are those of their live things: each is there, and nothing
/// else.
pub proof fn law_ids_are_those_of_live_things(colls: Seq<CollView>, id: Seq<char>)
    ensures
        all_thing_ids(colls).contains(id) <==> exists|i: int, j: int|
            0 <= i < colls.len() && 0 <= j < colls[i].things.len()
                && !(#[trigger] colls[i].things[j]).deleted && colls[i].things[j].id == id,
    decreases colls.len(),
{
    if colls.len() > 0 {
        let rest = colls.drop_last();
        let last = colls.last();
        let front = all_thing_ids(rest);
        let back = thing_ids(last.things);
        let live = live_things(last.things);
        law_ids_are_those_of_live_things(rest, id);
        lemma_live_members(last.things);
        assert(front + back == all_thing_ids(colls));
        if all_thing_ids(colls).contains(id) {
            let k = choose|k: int| 0 <= k < (front + back).len() && (front + back)[k] == id;
            if k < front.len() {
                assert(front[k] == id);
                let (i, j) = choose|i: int, j: int|
                    0 <= i < rest.len() && 0 <= j < rest[i].things.len()
                        && !(#[trigger] rest[i].things[j]).deleted && rest[i].things[j].id == id;
                assert(!colls[i].things[j].deleted);
            } else {
                assert(live.contains(live[k - front.len()]));
                let j = choose|j: int|
                    0 <= j < last.things.len() && last.things[j] == live[k - front.len()];
                assert(!colls[colls.len() - 1].things[j].deleted);
            }
        }
        if exists|i: int, j: int|
            0 <= i < colls.len() && 0 <= j < colls[i].things.len()
                && !(#[trigger] colls[i].things[j]).deleted && colls[i].things[j].id == id {
            let (i, j) = choose|i: int, j: int|
                0 <= i < colls.len() && 0 <= j < colls[i].things.len()
                    && !(#[trigger] colls[i].things[j]).deleted && colls[i].things[j].id == id;
            if i < rest.len() {
                assert(!rest[i].things[j].deleted);
                let k = choose|k: int| 0 <= k < front.len() && front[k] == id;
                assert((front + back)[k] == id);
            } else {
                assert(last.things.contains(last.things[j]));
                assert(live.contains(last.things[j]));
                let k = choose|k: int| 0 <= k < live.len() && live[k] == last.things[j];
                assert(back[k] == id);
                assert((front + back)[front.len() + k] == id);
            }
        }
    }
}

proof fn lemma_live_members(things: Seq<ThingDocView>)
    ensures
        forall|t: ThingDocView| #[trigger]
            live_things(things).contains(t) <==> things.contains(t) && !t.deleted,
{
    let keep = |t: ThingDocView| !t.deleted;
    let live = live_things(things);
    assert(live == things.filter(keep));
    assert forall|t: ThingDocView| #[trigger] live.contains(t) <==> things.contains(t)
        && !t.deleted by {
        if live.contains(t) {
            let k = choose|k: int| 0 <= k < live.len() && live[k] == t;
            things.lemma_filter_contains_rev(keep, t);
            things.filter_lemma(keep);
            assert(keep(live[k]));
        }
        if things.contains(t) && !t.deleted {
            let k = choose|k: int| 0 <= k < things.len() && things[k] == t;
            things.lemma_filter_contains(keep, k);
        }
    }
}

} // verus!
