//! The virtual filesystem as a tree: its nodes, and their form as text.
use crate::content_registry::{ContentEntry, ContentEntryPayload, EntryView};
use crate::error::{refused, ErrorView, SdkError};
use crate::rows::ActionDefinition;
use crate::storage::documents::opt_str_view;
use crate::text::{cat, cat3, cat5, decimal, decimal_text, join, joined, owned, same, views};
use crate::things_reader::{
    tree_coll_views, tree_thing_views, ThingsTreeData, TreeCollectionData, TreeCollectionView,
    TreeThingData, TreeThingView,
};
use crate::virtual_path::{
    display_path, displayed, path_fault, ActionFile, CollectionFile, PathView, ThingFile,
    VirtualPath,
};
use vstd::prelude::*;

verus! {

/// A node of the tree.
#[derive(Debug)]
pub struct TreeNode {
    pub label: String,
    pub children: Vec<TreeNode>,
}

/// A node of the tree, over character sequences.
pub struct NodeView {
    pub label: Seq<char>,
    pub children: Seq<NodeView>,
}

impl View for TreeNode {
    type V = NodeView;

    open spec fn view(&self) -> NodeView {
        node_view(*self)
    }
}

pub open spec fn node_view(n: TreeNode) -> NodeView
    decreases n,
{
    NodeView {
        label: n.label@,
        children: Seq::new(
            n.children@.len(),
            |i: int|
                if 0 <= i < n.children@.len() {
                    node_view(n.children@[i])
                } else {
                    NodeView { label: Seq::empty(), children: Seq::empty() }
                },
        ),
    }
}

pub open spec fn node_views(list: Seq<TreeNode>) -> Seq<NodeView> {
    list.map_values(|n: TreeNode| n@)
}

pub broadcast proof fn lemma_node_view(n: TreeNode)
    ensures
        #[trigger] n@ == (NodeView { label: n.label@, children: node_views(n.children@) }),
{
    assert(n@.children =~= node_views(n.children@));
}

/// A node without children.
pub open spec fn leaf(label: Seq<char>) -> NodeView {
    NodeView { label, children: Seq::empty() }
}

impl TreeNode {
    /// A node without children.
    pub fn new(label: &str) -> (n: Self)
        ensures
            n@ == leaf(label@),
    {
        let n = TreeNode { label: owned(label), children: Vec::new() };
        proof {
            broadcast use lemma_node_view;

            assert(node_views(n.children@) =~= Seq::empty());
        }
        n
    }

    /// A node with children.
    pub fn with_children(label: &str, children: Vec<TreeNode>) -> (n: Self)
        ensures
            n@ == (NodeView { label: label@, children: node_views(children@) }),
    {
        let n = TreeNode { label: owned(label), children };
        proof {
            broadcast use lemma_node_view;

        }
        n
    }
}

/// A node whose label shows a value.
pub open spec fn valued(name: Seq<char>, value: Seq<char>) -> NodeView {
    leaf(name + " [value=\""@ + value + "\"]"@)
}

fn value_node(name: &str, value: &str) -> (n: TreeNode)
    ensures
        n@ == valued(name@, value@),
{
    let start = cat(name, " [value=\"");
    let label = cat3(start.as_str(), value, "\"]");
    TreeNode::new(label.as_str())
}

/// The files of an action.
pub open spec fn action_files(title: Seq<char>) -> Seq<NodeView> {
    seq![
        valued("name"@, title),
        leaf("metadata.json"@),
        leaf("input.schema.json"@),
        leaf("output.schema.json"@),
        leaf("script.js"@),
        leaf("latest-invocation.json"@),
    ]
}

fn action_file_nodes(title: &str) -> (out: Vec<TreeNode>)
    ensures
        node_views(out@) == action_files(title@),
{
    let out = vec![
        value_node("name", title),
        TreeNode::new("metadata.json"),
        TreeNode::new("input.schema.json"),
        TreeNode::new("output.schema.json"),
        TreeNode::new("script.js"),
        TreeNode::new("latest-invocation.json"),
    ];
    proof {
        assert(node_views(out@) =~= action_files(title@));
    }
    out
}

pub open spec fn action_label(a: ActionDefinition) -> Seq<char> {
    a.action_uuid@ + "/ [title=\""@ + a.title@ + "\"]"@
}

/// The first actions, and how many there are besides.
pub open spec fn action_preview(actions: Seq<ActionDefinition>) -> Seq<NodeView> {
    if actions.len() > 5 {
        actions.take(5).map_values(|a: ActionDefinition| leaf(action_label(a))).push(
            leaf("Has "@ + decimal((actions.len() - 5) as nat) + " More"@),
        )
    } else {
        actions.map_values(|a: ActionDefinition| leaf(action_label(a)))
    }
}

/// All actions with their files.
pub open spec fn action_nodes(actions: Seq<ActionDefinition>) -> Seq<NodeView> {
    actions.map_values(
        |a: ActionDefinition|
            NodeView { label: action_label(a), children: action_files(a.title@) },
    )
}

/// The actions: the first ones only, or all of them with their files.
pub fn render_action_listing(actions: &Vec<ActionDefinition>, limit_preview: bool) -> (out: Vec<
    TreeNode,
>)
    ensures
        node_views(out@) == if limit_preview {
            action_preview(actions@)
        } else {
            action_nodes(actions@)
        },
{
    let shown: usize = if limit_preview && actions.len() > 5 {
        5
    } else {
        actions.len()
    };
    let mut out: Vec<TreeNode> = Vec::new();
    let mut i: usize = 0;
    while i < shown
        invariant
            i <= shown <= actions@.len(),
            out@.len() == i,
            forall|k: int|
                0 <= k < i ==> (#[trigger] out@[k])@ == if limit_preview {
                    leaf(action_label(actions@[k]))
                } else {
                    NodeView {
                        label: action_label(actions@[k]),
                        children: action_files(actions@[k].title@),
                    }
                },
        decreases shown - i,
    {
        let a = &actions[i];
        let start = cat(a.action_uuid.as_str(), "/ [title=\"");
        let label = cat3(start.as_str(), a.title.as_str(), "\"]");
        if limit_preview {
            out.push(TreeNode::new(label.as_str()));
        } else {
            out.push(TreeNode::with_children(label.as_str(), action_file_nodes(a.title.as_str())));
        }
        i = i + 1;
    }
    if limit_preview && actions.len() > 5 {
        let number = decimal_text((actions.len() - 5) as u64);
        let label = cat3("Has ", number.as_str(), " More");
        out.push(TreeNode::new(label.as_str()));
        proof {
            assert(node_views(out@) =~= action_preview(actions@));
        }
    } else {
        proof {
            if limit_preview {
                assert(node_views(out@) =~= action_preview(actions@));
            } else {
                assert(node_views(out@) =~= action_nodes(actions@));
            }
        }
    }
    out
}

/// The things of a collection that have a parent, or that have none.
pub open spec fn child_of(collection: Seq<char>, parent: Option<Seq<char>>) -> spec_fn(
    TreeThingView,
) -> bool {
    |t: TreeThingView| t.collection_uuid == collection && t.parent_uuid == parent
}

pub open spec fn children_of(
    things: Seq<TreeThingView>,
    collection: Seq<char>,
    parent: Option<Seq<char>>,
) -> Seq<TreeThingView> {
    things.filter(child_of(collection, parent))
}

/// Whether a thing is the parent of another.
pub open spec fn has_children(
    things: Seq<TreeThingView>,
    collection: Seq<char>,
    thing: Seq<char>,
) -> bool {
    exists|i: int|
        0 <= i < things.len() && child_of(collection, Some(thing))(#[trigger] things[i])
}

/// The last thing of a collection with a uuid.
pub open spec fn tree_thing_in(
    things: Seq<TreeThingView>,
    collection: Seq<char>,
    thing: Seq<char>,
) -> Option<TreeThingView>
    decreases things.len(),
{
    if things.len() == 0 {
        None
    } else if things.last().collection_uuid == collection && things.last().uuid == thing {
        Some(things.last())
    } else {
        tree_thing_in(things.drop_last(), collection, thing)
    }
}

/// The last collection with a uuid.
pub open spec fn tree_collection_in(
    collections: Seq<TreeCollectionView>,
    uuid: Seq<char>,
) -> Option<TreeCollectionView>
    decreases collections.len(),
{
    if collections.len() == 0 {
        None
    } else if collections.last().uuid == uuid {
        Some(collections.last())
    } else {
        tree_collection_in(collections.drop_last(), uuid)
    }
}

/// A thing in the listing of its collection or of its parent.
pub open spec fn thing_node(things: Seq<TreeThingView>, t: TreeThingView) -> NodeView {
    let files = seq![leaf("actions.json"@), valued("status"@, t.status)];
    NodeView {
        label: t.uuid + "/ [name=\""@ + t.title + "\", status=\""@ + t.status + "\"]"@,
        children: if has_children(things, t.collection_uuid, t.uuid) {
            files.push(leaf("things/"@))
        } else {
            files
        },
    }
}

pub open spec fn thing_nodes(things: Seq<TreeThingView>, listed: Seq<TreeThingView>) -> Seq<
    NodeView,
> {
    listed.map_values(|t: TreeThingView| thing_node(things, t))
}

/// Where things are looked up for the tree.
pub struct TreeIndex<'a> {
    pub tree: &'a ThingsTreeData,
}

impl<'a> TreeIndex<'a> {
    pub open spec fn things(self) -> Seq<TreeThingView> {
        tree_thing_views(self.tree.things@)
    }

    pub open spec fn collections(self) -> Seq<TreeCollectionView> {
        tree_coll_views(self.tree.collections@)
    }

    /// Looks up in the given data.
    pub fn build(tree_data: &'a ThingsTreeData) -> (index: Self)
        ensures
            index.tree == tree_data,
    {
        TreeIndex { tree: tree_data }
    }

    /// The collection with a uuid.
    pub fn collection(&self, collection_uuid: &str) -> (out: Option<&'a TreeCollectionData>)
        ensures
            match out {
                Some(c) => tree_collection_in(self.collections(), collection_uuid@) == Some(c@),
                None => tree_collection_in(self.collections(), collection_uuid@) is None,
            },
    {
        let ghost all = self.collections();
        let mut i: usize = self.tree.collections.len();
        proof {
            assert(all.take(i as int) =~= all);
        }
        while i > 0
            invariant
                i <= self.tree.collections@.len(),
                all == self.collections(),
                tree_collection_in(all, collection_uuid@) == tree_collection_in(
                    all.take(i as int),
                    collection_uuid@,
                ),
            decreases i,
        {
            i = i - 1;
            proof {
                assert(all.take(i + 1).last() == self.tree.collections@[i as int]@);
                assert(all.take(i + 1).drop_last() =~= all.take(i as int));
            }
            if same(self.tree.collections[i].uuid.as_str(), collection_uuid) {
                return Some(&self.tree.collections[i]);
            }
        }
        None
    }

    /// The thing of a collection with a uuid.
    pub fn thing(&self, collection_uuid: &str, thing_uuid: &str) -> (out: Option<
        &'a TreeThingData,
    >)
        ensures
            match out {
                Some(t) => tree_thing_in(self.things(), collection_uuid@, thing_uuid@) == Some(t@),
                None => tree_thing_in(self.things(), collection_uuid@, thing_uuid@) is None,
            },
    {
        let ghost all = self.things();
        let mut i: usize = self.tree.things.len();
        proof {
            assert(all.take(i as int) =~= all);
        }
        while i > 0
            invariant
                i <= self.tree.things@.len(),
                all == self.things(),
                tree_thing_in(all, collection_uuid@, thing_uuid@) == tree_thing_in(
                    all.take(i as int),
                    collection_uuid@,
                    thing_uuid@,
                ),
            decreases i,
        {
            i = i - 1;
            proof {
                assert(all.take(i + 1).last() == self.tree.things@[i as int]@);
                assert(all.take(i + 1).drop_last() =~= all.take(i as int));
            }
            let t = &self.tree.things[i];
            if same(t.collection_uuid.as_str(), collection_uuid) && same(
                t.uuid.as_str(),
                thing_uuid,
            ) {
                return Some(t);
            }
        }
        None
    }

    /// Whether a thing is the parent of another.
    pub fn has_children(&self, collection_uuid: &str, thing_uuid: &str) -> (r: bool)
        ensures
            r == has_children(self.things(), collection_uuid@, thing_uuid@),
    {
        let ghost all = self.things();
        let mut i: usize = 0;
        while i < self.tree.things.len()
            invariant
                i <= self.tree.things@.len(),
                all == self.things(),
                forall|k: int|
                    0 <= k < i ==> !child_of(collection_uuid@, Some(thing_uuid@))(
                        #[trigger] all[k],
                    ),
            decreases self.tree.things@.len() - i,
        {
            let t = &self.tree.things[i];
            let parent = match &t.parent_uuid {
                Some(p) => same(p.as_str(), thing_uuid),
                None => false,
            };
            if parent && same(t.collection_uuid.as_str(), collection_uuid) {
                proof {
                    assert(child_of(collection_uuid@, Some(thing_uuid@))(all[i as int]));
                }
                return true;
            }
            i = i + 1;
        }
        false
    }

    /// The nodes of the things of a collection with a parent, or without one.
    pub fn render_child_things(&self, collection_uuid: &str, parent_uuid: Option<&str>) -> (out:
        Vec<TreeNode>)
        ensures
            node_views(out@) == thing_nodes(
                self.things(),
                children_of(self.things(), collection_uuid@, opt_str_view(parent_uuid)),
            ),
    {
        let ghost all = self.things();
        let ghost keep = child_of(collection_uuid@, opt_str_view(parent_uuid));
        let ghost show = |t: TreeThingView| thing_node(all, t);
        let mut out: Vec<TreeNode> = Vec::new();
        let mut i: usize = 0;
        proof {
            reveal(Seq::filter);
            assert(all.take(0).filter(keep) =~= Seq::empty());
            assert(node_views(out@) =~= Seq::empty());
        }
        while i < self.tree.things.len()
            invariant
                i <= self.tree.things@.len(),
                all == self.things(),
                keep == child_of(collection_uuid@, opt_str_view(parent_uuid)),
                show == (|t: TreeThingView| thing_node(all, t)),
                node_views(out@) == all.take(i as int).filter(keep).map_values(show),
            decreases self.tree.things@.len() - i,
        {
            let t = &self.tree.things[i];
            let held = match (&t.parent_uuid, parent_uuid) {
                (Some(a), Some(b)) => same(a.as_str(), b),
                (None, None) => true,
                _ => false,
            };
            let ghost so_far = all.take(i as int).filter(keep);
            proof {
                reveal(Seq::filter);
                assert(all.take(i + 1).drop_last() =~= all.take(i as int));
                assert(all.take(i + 1).last() == t@);
            }
            if held && same(t.collection_uuid.as_str(), collection_uuid) {
                let ghost before = out@;
                let node = render_thing_node(t, self);
                let ghost added = node@;
                out.push(node);
                proof {
                    assert(node_views(out@) =~= node_views(before).push(added));
                    assert(so_far.push(t@).map_values(show) =~= so_far.map_values(show).push(
                        show(t@),
                    ));
                }
            }
            i = i + 1;
        }
        proof {
            assert(all.take(i as int) =~= all);
        }
        out
    }
}

/// A thing in the listing of its collection or of its parent.
fn render_thing_node(t: &TreeThingData, index: &TreeIndex<'_>) -> (n: TreeNode)
    ensures
        n@ == thing_node(index.things(), t@),
{
    let mut children = vec![
        TreeNode::new("actions.json"),
        value_node("status", t.status.as_str()),
    ];
    if index.has_children(t.collection_uuid.as_str(), t.uuid.as_str()) {
        children.push(TreeNode::new("things/"));
    }
    let start = cat3(t.uuid.as_str(), "/ [name=\"", t.title.as_str());
    let label = cat3(start.as_str(), "\", status=\"", t.status.as_str());
    let label = cat(label.as_str(), "\"]");
    proof {
        assert(node_views(children@) =~= thing_node(index.things(), t@).children);
    }
    TreeNode::with_children(label.as_str(), children)
}

/// The collections that are listed: all of them, or those with a uuid.
pub open spec fn listed(filter: Option<Seq<char>>) -> spec_fn(TreeCollectionView) -> bool {
    |c: TreeCollectionView| filter is None || filter == Some(c.uuid)
}

/// A collection in a listing.
pub open spec fn collection_node(things: Seq<TreeThingView>, c: TreeCollectionView) -> NodeView {
    NodeView {
        label: c.uuid + "/ [name=\""@ + c.title + "\"]"@,
        children: seq![
            valued("name"@, c.title),
            leaf("card.jsx"@),
            leaf("actions.json"@),
            NodeView {
                label: "things/"@,
                children: thing_nodes(things, children_of(things, c.uuid, None)),
            },
        ],
    }
}

pub open spec fn collection_nodes(
    collections: Seq<TreeCollectionView>,
    things: Seq<TreeThingView>,
    filter: Option<Seq<char>>,
) -> Seq<NodeView> {
    collections.filter(listed(filter)).map_values(
        |c: TreeCollectionView| collection_node(things, c),
    )
}

fn render_collection(c: &TreeCollectionData, index: &TreeIndex<'_>) -> (n: TreeNode)
    ensures
        n@ == collection_node(index.things(), c@),
{
    let children = vec![
        value_node("name", c.title.as_str()),
        TreeNode::new("card.jsx"),
        TreeNode::new("actions.json"),
        TreeNode::with_children("things/", index.render_child_things(c.uuid.as_str(), None)),
    ];
    let start = cat(c.uuid.as_str(), "/ [name=\"");
    let label = cat3(start.as_str(), c.title.as_str(), "\"]");
    proof {
        assert(node_views(children@) =~= collection_node(index.things(), c@).children);
    }
    TreeNode::with_children(label.as_str(), children)
}

/// The collections, all of them or those with a uuid, each with its things.
pub fn render_collection_listing(index: &TreeIndex<'_>, collection_filter: Option<&str>) -> (out:
    Vec<TreeNode>)
    ensures
        node_views(out@) == collection_nodes(
            index.collections(),
            index.things(),
            opt_str_view(collection_filter),
        ),
{
    let ghost all = index.collections();
    let ghost keep = listed(opt_str_view(collection_filter));
    let ghost things = index.things();
    let ghost show = |c: TreeCollectionView| collection_node(things, c);
    let mut out: Vec<TreeNode> = Vec::new();
    let mut i: usize = 0;
    proof {
        reveal(Seq::filter);
        assert(all.take(0).filter(keep) =~= Seq::empty());
        assert(node_views(out@) =~= Seq::empty());
    }
    while i < index.tree.collections.len()
        invariant
            i <= index.tree.collections@.len(),
            all == index.collections(),
            keep == listed(opt_str_view(collection_filter)),
            things == index.things(),
            show == (|c: TreeCollectionView| collection_node(things, c)),
            node_views(out@) == all.take(i as int).filter(keep).map_values(show),
        decreases index.tree.collections@.len() - i,
    {
        let c = &index.tree.collections[i];
        let held = match collection_filter {
            Some(uuid) => same(uuid, c.uuid.as_str()),
            None => true,
        };
        let ghost so_far = all.take(i as int).filter(keep);
        proof {
            reveal(Seq::filter);
            assert(all.take(i + 1).drop_last() =~= all.take(i as int));
            assert(all.take(i + 1).last() == c@);
        }
        if held {
            let ghost before = out@;
            let node = render_collection(c, index);
            let ghost added = node@;
            out.push(node);
            proof {
                assert(node_views(out@) =~= node_views(before).push(added));
                assert(so_far.push(c@).map_values(show) =~= so_far.map_values(show).push(
                    show(c@),
                ));
            }
        }
        i = i + 1;
    }
    proof {
        assert(all.take(i as int) =~= all);
    }
    out
}

pub open spec fn collection_missing(uuid: Seq<char>) -> ErrorView {
    path_fault(
        "/collection/"@ + uuid,
        "collection_not_found"@,
        "Collection '"@ + uuid + "' was not found."@,
    )
}

/// The children of the directory of a collection.
pub open spec fn collection_children(
    collections: Seq<TreeCollectionView>,
    things: Seq<TreeThingView>,
    uuid: Seq<char>,
) -> Result<Seq<NodeView>, ErrorView> {
    match tree_collection_in(collections, uuid) {
        None => Err(collection_missing(uuid)),
        Some(c) => Ok(
            seq![
                valued("name"@, c.title),
                leaf("card.jsx"@),
                leaf("actions.json"@),
                NodeView {
                    label: "things/"@,
                    children: thing_nodes(things, children_of(things, uuid, None)),
                },
            ],
        ),
    }
}

/// The children of the directory of a collection.
pub fn collection_dir_children(index: &TreeIndex<'_>, collection_uuid: &str) -> (out: Result<
    Vec<TreeNode>,
    SdkError,
>)
    ensures
        match collection_children(index.collections(), index.things(), collection_uuid@) {
            Ok(nodes) => out matches Ok(found) && node_views(found@) == nodes,
            Err(e) => out matches Err(found) && found@ == e,
        },
{
    match index.collection(collection_uuid) {
        None => {
            let path = cat("/collection/", collection_uuid);
            let message = cat3("Collection '", collection_uuid, "' was not found.");
            Err(refused(path.as_str(), "collection_not_found", message.as_str()))
        },
        Some(c) => {
            let out = vec![
                value_node("name", c.title.as_str()),
                TreeNode::new("card.jsx"),
                TreeNode::new("actions.json"),
                TreeNode::with_children(
                    "things/",
                    index.render_child_things(collection_uuid, None),
                ),
            ];
            proof {
                assert(node_views(out@) =~= collection_children(
                    index.collections(),
                    index.things(),
                    collection_uuid@,
                )->Ok_0);
            }
            Ok(out)
        },
    }
}

/// The files of a content entry.
pub open spec fn entry_nodes(index: nat, e: EntryView) -> Seq<NodeView> {
    let first = leaf("entries."@ + decimal(index));
    if e.payload is JsonObject {
        seq![
            first,
            leaf("entries."@ + decimal(index) + ".data.json"@),
            leaf("entries."@ + decimal(index) + ".schema.json"@),
        ]
    } else {
        seq![first]
    }
}

/// The files of the first `n` content entries.
pub open spec fn entries_nodes(entries: Seq<EntryView>, n: int) -> Seq<NodeView>
    decreases n,
{
    if n <= 0 {
        Seq::empty()
    } else {
        entries_nodes(entries, n - 1) + entry_nodes((n - 1) as nat, entries[n - 1])
    }
}

/// The children of the directory of a thing.
pub open spec fn thing_children(
    things: Seq<TreeThingView>,
    collection: Seq<char>,
    thing: Seq<char>,
) -> Result<Seq<NodeView>, ErrorView> {
    match tree_thing_in(things, collection, thing) {
        None => Err(
            path_fault(
                "/collection/"@ + collection + "/things/"@ + thing,
                "thing_not_found"@,
                "Thing '"@ + thing + "' was not found in collection '"@ + collection + "'."@,
            ),
        ),
        Some(t) => {
            let files = seq![
                valued("name"@, t.title),
                leaf("actions.json"@),
                valued("status"@, t.status),
                leaf("content.md"@),
            ] + entries_nodes(t.entries, t.entries.len() as int);
            let children = children_of(things, collection, Some(thing));
            Ok(
                if children.len() > 0 {
                    files.push(
                        NodeView { label: "things/"@, children: thing_nodes(things, children) },
                    )
                } else {
                    files
                },
            )
        },
    }
}

fn push_entry_nodes(out: &mut Vec<TreeNode>, index: usize, e: &ContentEntry)
    ensures
        node_views(final(out)@) == node_views(old(out)@) + entry_nodes(index as nat, e@),
{
    let ghost start = out@;
    let number = decimal_text(index as u64);
    let name = cat("entries.", number.as_str());
    out.push(TreeNode::new(name.as_str()));
    let object = match &e.payload {
        ContentEntryPayload::JsonObject(_) => true,
        _ => false,
    };
    if object {
        let data = cat(name.as_str(), ".data.json");
        out.push(TreeNode::new(data.as_str()));
        let schema = cat(name.as_str(), ".schema.json");
        out.push(TreeNode::new(schema.as_str()));
    }
    proof {
        assert(node_views(out@) =~= node_views(start) + entry_nodes(index as nat, e@));
    }
}

/// The children of the directory of a thing.
pub fn thing_dir_children(index: &TreeIndex<'_>, collection_uuid: &str, thing_uuid: &str) -> (out:
    Result<Vec<TreeNode>, SdkError>)
    ensures
        match thing_children(index.things(), collection_uuid@, thing_uuid@) {
            Ok(nodes) => out matches Ok(found) && node_views(found@) == nodes,
            Err(e) => out matches Err(found) && found@ == e,
        },
{
    match index.thing(collection_uuid, thing_uuid) {
        None => {
            let path = cat3("/collection/", collection_uuid, "/things/");
            let path = cat(path.as_str(), thing_uuid);
            let message = cat5(
                "Thing '",
                thing_uuid,
                "' was not found in collection '",
                collection_uuid,
                "'.",
            );
            Err(refused(path.as_str(), "thing_not_found", message.as_str()))
        },
        Some(t) => {
            let mut out = vec![
                value_node("name", t.title.as_str()),
                TreeNode::new("actions.json"),
                value_node("status", t.status.as_str()),
                TreeNode::new("content.md"),
            ];
            let ghost head = node_views(out@);
            let ghost all = t@.entries;
            let mut i: usize = 0;
            proof {
                assert(head =~= seq![
                    valued("name"@, t@.title),
                    leaf("actions.json"@),
                    valued("status"@, t@.status),
                    leaf("content.md"@),
                ]);
                assert(head + entries_nodes(all, 0) =~= head);
            }
            while i < t.entries.len()
                invariant
                    i <= t.entries@.len(),
                    all == t@.entries,
                    node_views(out@) == head + entries_nodes(all, i as int),
                decreases t.entries@.len() - i,
            {
                proof {
                    assert(all[i as int] == t.entries@[i as int]@);
                    let so_far = entries_nodes(all, i as int);
                    let more = entry_nodes(i as nat, all[i as int]);
                    assert(head + so_far + more =~= head + (so_far + more));
                }
                push_entry_nodes(&mut out, i, &t.entries[i]);
                i = i + 1;
            }
            let ghost files = node_views(out@);
            let nodes = index.render_child_things(collection_uuid, Some(thing_uuid));
            let ghost children = children_of(
                index.things(),
                collection_uuid@,
                Some(thing_uuid@),
            );
            proof {
                assert(node_views(nodes@).len() == nodes@.len());
                assert(thing_nodes(index.things(), children).len() == children.len());
            }
            if nodes.len() > 0 {
                let ghost before = out@;
                let node = TreeNode::with_children("things/", nodes);
                let ghost added = node@;
                out.push(node);
                proof {
                    assert(node_views(out@) =~= node_views(before).push(added));
                }
            }
            Ok(out)
        },
    }
}

pub open spec fn action_missing(path: Seq<char>, uuid: Seq<char>) -> ErrorView {
    path_fault(path, "action_not_found"@, "Action '"@ + uuid + "' was not found."@)
}

/// The node that is shown for a path. `found` is the action that the path names, where
/// there is one.
pub open spec fn tree_node(
    path: PathView,
    actions: Seq<ActionDefinition>,
    found: Option<ActionDefinition>,
    collections: Seq<TreeCollectionView>,
    things: Seq<TreeThingView>,
) -> Result<NodeView, ErrorView> {
    match path {
        PathView::Root => Ok(
            NodeView {
                label: "/"@,
                children: seq![
                    NodeView { label: "action/"@, children: action_preview(actions) },
                    NodeView {
                        label: "collection/"@,
                        children: collection_nodes(collections, things, None),
                    },
                ],
            },
        ),
        PathView::ActionRoot => Ok(
            NodeView { label: "/action/"@, children: action_nodes(actions) },
        ),
        PathView::Action { action, file: ActionFile::Dir } => match found {
            None => Err(action_missing("/action"@, action)),
            Some(a) => Ok(
                NodeView {
                    label: "/action/"@ + action + "/"@,
                    children: action_files(a.title@),
                },
            ),
        },
        PathView::CollectionRoot => Ok(
            NodeView {
                label: "/collection/"@,
                children: collection_nodes(collections, things, None),
            },
        ),
        PathView::Collection { collection, file: CollectionFile::Dir } => match collection_children(
            collections,
            things,
            collection,
        ) {
            Err(e) => Err(e),
            Ok(children) => Ok(
                NodeView { label: "/collection/"@ + collection + "/"@, children },
            ),
        },
        PathView::Collection { collection, file: CollectionFile::Things } => Ok(
            NodeView {
                label: "/collection/"@ + collection + "/things/"@,
                children: collection_nodes(collections, things, Some(collection)),
            },
        ),
        PathView::Thing { collection, thing, file: ThingFile::Dir } => match thing_children(
            things,
            collection,
            thing,
        ) {
            Err(e) => Err(e),
            Ok(children) => Ok(
                NodeView {
                    label: "/collection/"@ + collection + "/things/"@ + thing + "/"@,
                    children,
                },
            ),
        },
        PathView::Thing { collection, thing, file: ThingFile::Children } => Ok(
            NodeView {
                label: "/collection/"@ + collection + "/things/"@ + thing + "/things/"@,
                children: thing_nodes(things, children_of(things, collection, Some(thing))),
            },
        ),
        _ => Err(
            path_fault(
                displayed(path),
                "tree_unsupported"@,
                "tree_tool expects a directory path such as /, /action, /collection, /collection/{collection_uuid}, or /collection/{collection_uuid}/things/{thing_uuid}."@,
            ),
        ),
    }
}

pub open spec fn node_out(out: Result<TreeNode, SdkError>) -> Result<NodeView, ErrorView> {
    match out {
        Ok(n) => Ok(n@),
        Err(e) => Err(e@),
    }
}

/// The refusal of a request for an action that is not there.
pub fn no_action(path: &str, action_uuid: &str) -> (e: SdkError)
    ensures
        e@ == action_missing(path@, action_uuid@),
{
    let message = cat3("Action '", action_uuid, "' was not found.");
    refused(path, "action_not_found", message.as_str())
}

/// The node that is shown for a path. `found` is the action that the path names, where
/// there is one.
pub fn build_tree_node_from_tree_data(
    path: &VirtualPath,
    actions: &Vec<ActionDefinition>,
    found: &Option<ActionDefinition>,
    tree_data: &ThingsTreeData,
) -> (out: Result<TreeNode, SdkError>)
    ensures
        node_out(out) == tree_node(
            path@,
            actions@,
            *found,
            tree_coll_views(tree_data.collections@),
            tree_thing_views(tree_data.things@),
        ),
{
    let index = TreeIndex::build(tree_data);
    match path {
        VirtualPath::Root => {
            let children = vec![
                TreeNode::with_children("action/", render_action_listing(actions, true)),
                TreeNode::with_children("collection/", render_collection_listing(&index, None)),
            ];
            proof {
                assert(node_views(children@) =~= tree_node(
                    path@,
                    actions@,
                    *found,
                    index.collections(),
                    index.things(),
                )->Ok_0.children);
            }
            Ok(TreeNode::with_children("/", children))
        },
        VirtualPath::ActionRoot => Ok(
            TreeNode::with_children("/action/", render_action_listing(actions, false)),
        ),
        VirtualPath::ActionDir { action_uuid } => match found {
            None => Err(no_action("/action", action_uuid.as_str())),
            Some(a) => {
                let label = cat3("/action/", action_uuid.as_str(), "/");
                Ok(TreeNode::with_children(label.as_str(), action_file_nodes(a.title.as_str())))
            },
        },
        VirtualPath::CollectionRoot => Ok(
            TreeNode::with_children("/collection/", render_collection_listing(&index, None)),
        ),
        VirtualPath::CollectionDir { collection_uuid } => {
            match collection_dir_children(&index, collection_uuid.as_str()) {
                Err(e) => Err(e),
                Ok(children) => {
                    let label = cat3("/collection/", collection_uuid.as_str(), "/");
                    Ok(TreeNode::with_children(label.as_str(), children))
                },
            }
        },
        VirtualPath::CollectionThingsDir { collection_uuid } => {
            let label = cat3("/collection/", collection_uuid.as_str(), "/things/");
            Ok(
                TreeNode::with_children(
                    label.as_str(),
                    render_collection_listing(&index, Some(collection_uuid.as_str())),
                ),
            )
        },
        VirtualPath::ThingDir { collection_uuid, thing_uuid } => {
            match thing_dir_children(&index, collection_uuid.as_str(), thing_uuid.as_str()) {
                Err(e) => Err(e),
                Ok(children) => {
                    let label = cat5(
                        "/collection/",
                        collection_uuid.as_str(),
                        "/things/",
                        thing_uuid.as_str(),
                        "/",
                    );
                    Ok(TreeNode::with_children(label.as_str(), children))
                },
            }
        },
        VirtualPath::ThingChildrenDir { collection_uuid, thing_uuid } => {
            let label = cat5(
                "/collection/",
                collection_uuid.as_str(),
                "/things/",
                thing_uuid.as_str(),
                "/things/",
            );
            Ok(
                TreeNode::with_children(
                    label.as_str(),
                    index.render_child_things(
                        collection_uuid.as_str(),
                        Some(thing_uuid.as_str()),
                    ),
                ),
            )
        },
        _ => {
            let shown = display_path(path);
            Err(
                refused(
                    shown.as_str(),
                    "tree_unsupported",
                    "tree_tool expects a directory path such as /, /action, /collection, /collection/{collection_uuid}, or /collection/{collection_uuid}/things/{thing_uuid}.",
                ),
            )
        },
    }
}

/// What stands before the children of a node.
pub open spec fn child_prefix(prefix: Seq<char>, last: bool) -> Seq<char> {
    prefix + if last {
        "    "@
    } else {
        "|   "@
    }
}

/// The lines of a node below the first one.
pub open spec fn node_lines(node: NodeView, prefix: Seq<char>, last: bool) -> Seq<Seq<char>>
    decreases node, 0nat,
{
    seq![
        prefix + (if last {
            "`-- "@
        } else {
            "|-- "@
        }) + node.label,
    ] + children_lines(node.children, child_prefix(prefix, last), node.children.len())
}

/// The lines of the first `n` children of a node.
pub open spec fn children_lines(children: Seq<NodeView>, prefix: Seq<char>, n: nat) -> Seq<
    Seq<char>,
>
    decreases children, n,
{
    if n == 0 || n > children.len() {
        Seq::empty()
    } else {
        children_lines(children, prefix, (n - 1) as nat) + node_lines(
            children[n - 1],
            prefix,
            n == children.len(),
        )
    }
}

/// The form of a tree as text.
pub open spec fn tree_text(root: NodeView) -> Seq<char> {
    joined(
        seq![root.label] + children_lines(root.children, Seq::empty(), root.children.len()),
        "\n"@,
    )
}

/// Adds the lines of a node below the first one.
pub fn render_tree_child(node: &TreeNode, prefix: &str, is_last: bool, lines: &mut Vec<String>)
    ensures
        views(final(lines)@) == views(old(lines)@) + node_lines(node@, prefix@, is_last),
    decreases *node,
{
    let ghost start = views(lines@);
    let branch = if is_last {
        "`-- "
    } else {
        "|-- "
    };
    let line = cat3(prefix, branch, node.label.as_str());
    let ghost before = lines@;
    let ghost first = line@;
    lines.push(line);
    let below = if is_last {
        cat(prefix, "    ")
    } else {
        cat(prefix, "|   ")
    };
    let ghost all = node_views(node.children@);
    let ghost head = views(lines@);
    proof {
        broadcast use lemma_node_view;

        assert(node@.children == all);
        assert(node@.label == node.label@);
        assert(head =~= start.push(first));
        assert(head + children_lines(all, below@, 0) =~= head);
    }
    let mut i: usize = 0;
    while i < node.children.len()
        invariant
            i <= node.children@.len(),
            all == node_views(node.children@),
            views(lines@) == head + children_lines(all, below@, i as nat),
        decreases node.children@.len() - i,
    {
        proof {
            assert(decreases_to!(*node => node.children@[i as int]));
            assert(all[i as int] == node.children@[i as int]@);
            let so_far = children_lines(all, below@, i as nat);
            let more = node_lines(all[i as int], below@, i + 1 == all.len());
            assert(head + so_far + more =~= head + (so_far + more));
        }
        let last = i + 1 == node.children.len();
        render_tree_child(&node.children[i], below.as_str(), last, lines);
        i = i + 1;
    }
    proof {
        let rest = children_lines(all, below@, all.len());
        assert(start.push(first) + rest =~= start + (seq![first] + rest));
    }
}

/// The form of a tree as text.
pub fn render_tree(root: &TreeNode) -> (text: String)
    ensures
        text@ == tree_text(root@),
{
    let mut lines = vec![root.label.clone()];
    let ghost all = node_views(root.children@);
    let ghost head = views(lines@);
    proof {
        broadcast use lemma_node_view;

        assert(root@.children == all);
        assert(root@.label == root.label@);
        reveal_strlit("");
        assert(""@ =~= Seq::empty());
        assert(head =~= seq![root@.label]);
        assert(head + children_lines(all, Seq::empty(), 0) =~= head);
    }
    let mut i: usize = 0;
    while i < root.children.len()
        invariant
            i <= root.children@.len(),
            all == node_views(root.children@),
            ""@ == Seq::<char>::empty(),
            views(lines@) == head + children_lines(all, Seq::empty(), i as nat),
        decreases root.children@.len() - i,
    {
        proof {
            assert(all[i as int] == root.children@[i as int]@);
            let so_far = children_lines(all, Seq::empty(), i as nat);
            let more = node_lines(all[i as int], Seq::empty(), i + 1 == all.len());
            assert(head + so_far + more =~= head + (so_far + more));
        }
        let last = i + 1 == root.children.len();
        render_tree_child(&root.children[i], "", last, &mut lines);
        i = i + 1;
    }
    join(&lines, "\n")
}

/// How many nodes there are in a tree.
pub open spec fn count_nodes(node: NodeView) -> nat
    decreases node, 0nat,
{
    1 + count_children(node.children, node.children.len())
}

pub open spec fn count_children(children: Seq<NodeView>, n: nat) -> nat
    decreases children, n,
{
    if n == 0 || n > children.len() {
        0
    } else {
        count_children(children, (n - 1) as nat) + count_nodes(children[n - 1])
    }
}

/// A tree has one line for each of its nodes.
pub proof fn law_one_line_per_node(node: NodeView, prefix: Seq<char>, last: bool)
    ensures
        node_lines(node, prefix, last).len() == count_nodes(node),
    decreases node, 0nat,
{
    lemma_children_count(node.children, child_prefix(prefix, last), node.children.len());
}

proof fn lemma_children_count(children: Seq<NodeView>, prefix: Seq<char>, n: nat)
    ensures
        children_lines(children, prefix, n).len() == count_children(children, n),
    decreases children, n,
{
    if n > 0 && n <= children.len() {
        lemma_children_count(children, prefix, (n - 1) as nat);
        law_one_line_per_node(children[n - 1], prefix, n == children.len());
    }
}

} // verus!
