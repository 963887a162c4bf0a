//! The tree that holds the shape of a view: which element stands under
//! which, and in what order. The tree is `id_tree`'s; what this module states
//! of it is taken on trust from that crate.

use crate::name_map::{lemma_key_index, lemma_key_index_same_keys, with_entry, Entries};
use crate::view::{attr_views, attrs_text, ViewNode, ViewNodeModel};
use vstd::prelude::*;

verus! {

/// `id_tree::Tree`, carried as it is.
#[verifier::external_type_specification]
#[verifier::external_body]
#[verifier::reject_recursive_types(T)]
pub struct ExTree<T>(id_tree::Tree<T>);

/// `id_tree::NodeId`, the identifier that a tree gives to a node it takes in.
#[verifier::external_type_specification]
#[verifier::external_body]
pub struct ExNodeId(id_tree::NodeId);

/// `id_tree::NodeIdError`, the refusal of an identifier that a tree does not
/// hold.
#[verifier::external_type_specification]
#[verifier::external_body]
pub struct ExNodeIdError(id_tree::NodeIdError);

/// What a tree holds: for the identifier of each of its nodes, the node's
/// value, the identifier of its parent, and the identifiers of its children
/// in order.
pub uninterp spec fn tree_nodes(t: id_tree::Tree<usize>) -> Map<
    id_tree::NodeId,
    (usize, Option<id_tree::NodeId>, Seq<id_tree::NodeId>),
>;

/// The identifier of a tree's root.
pub uninterp spec fn tree_root(t: id_tree::Tree<usize>) -> Option<id_tree::NodeId>;

/// `TreeBuilder::new().build()`: a tree without nodes and without a root.
#[verifier::external_body]
pub(crate) fn tree_new() -> (t: id_tree::Tree<usize>)
    ensures
        forall|id: id_tree::NodeId| !tree_nodes(t).dom().contains(id),
        tree_root(t) is None,
{
    id_tree::TreeBuilder::new().build()
}

/// `Tree::insert` with `InsertBehavior::AsRoot`: it never fails; the new node
/// gets an identifier that the tree did not hold, becomes the root, and the
/// root that there was becomes its only child.
#[verifier::external_body]
pub(crate) fn tree_insert_root(t: &mut id_tree::Tree<usize>, value: usize) -> (r: Result<
    id_tree::NodeId,
    id_tree::NodeIdError,
>)
    ensures
        r is Ok,
        r matches Ok(id) ==> {
            &&& !tree_nodes(*old(t)).dom().contains(id)
            &&& tree_root(*final(t)) == Some(id)
            &&& tree_nodes(*final(t)) == match tree_root(*old(t)) {
                None => tree_nodes(*old(t)).insert(id, (value, None, Seq::empty())),
                Some(o) => tree_nodes(*old(t)).insert(
                    o,
                    (tree_nodes(*old(t))[o].0, Some(id), tree_nodes(*old(t))[o].2),
                ).insert(id, (value, None, seq![o])),
            }
        },
{
    t.insert(id_tree::Node::new(value), id_tree::InsertBehavior::AsRoot)
}

/// `Tree::insert` with `InsertBehavior::UnderNode`: under a node of the tree
/// it does not fail; the new node gets an identifier that the tree did not
/// hold and becomes the last child of `parent`.
#[verifier::external_body]
pub(crate) fn tree_insert_under(
    t: &mut id_tree::Tree<usize>,
    parent: &id_tree::NodeId,
    value: usize,
) -> (r: Result<id_tree::NodeId, id_tree::NodeIdError>)
    requires
        tree_nodes(*old(t)).dom().contains(*parent),
    ensures
        r is Ok,
        r matches Ok(id) ==> {
            &&& !tree_nodes(*old(t)).dom().contains(id)
            &&& tree_root(*final(t)) == tree_root(*old(t))
            &&& tree_nodes(*final(t)) == tree_nodes(*old(t)).insert(
                *parent,
                (
                    tree_nodes(*old(t))[*parent].0,
                    tree_nodes(*old(t))[*parent].1,
                    tree_nodes(*old(t))[*parent].2.push(id),
                ),
            ).insert(id, (value, Some(*parent), Seq::empty()))
        },
{
    t.insert(id_tree::Node::new(value), id_tree::InsertBehavior::UnderNode(parent))
}

/// `Tree::ancestors` and the first item it yields: the value of the parent
/// of node `id`, where the node has a parent that the tree holds.
#[verifier::external_body]
pub(crate) fn tree_parent_value(t: &id_tree::Tree<usize>, id: &id_tree::NodeId) -> (r: Option<
    usize,
>)
    requires
        tree_nodes(*t).dom().contains(*id),
    ensures
        match tree_nodes(*t)[*id].1 {
            Some(p) => tree_nodes(*t).dom().contains(p) ==> r == Some(tree_nodes(*t)[p].0),
            None => r is None,
        },
{
    match t.ancestors(id) {
        Ok(mut above) => above.next().map(|n| *n.data()),
        Err(_) => None,
    }
}

/// `Tree::children`: the values of the children of node `id`, in order, where
/// the tree holds them all.
#[verifier::external_body]
pub(crate) fn tree_child_values(t: &id_tree::Tree<usize>, id: &id_tree::NodeId) -> (r: Vec<usize>)
    requires
        tree_nodes(*t).dom().contains(*id),
    ensures
        (forall|j: int|
            0 <= j < tree_nodes(*t)[*id].2.len() ==> tree_nodes(*t).dom().contains(
                #[trigger] tree_nodes(*t)[*id].2[j],
            )) ==> r@ == Seq::new(
            tree_nodes(*t)[*id].2.len(),
            |j: int| tree_nodes(*t)[tree_nodes(*t)[*id].2[j]].0,
        ),
{
    match t.children(id) {
        Ok(below) => below.map(|n| *n.data()).collect(),
        Err(_) => Vec::new(),
    }
}

/// `Tree::root_node_id` and `Tree::get`: the value of the root, where the
/// tree has one and holds it.
#[verifier::external_body]
pub(crate) fn tree_root_value(t: &id_tree::Tree<usize>) -> (r: Option<usize>)
    ensures
        match tree_root(*t) {
            Some(id) => tree_nodes(*t).dom().contains(id) ==> r == Some(tree_nodes(*t)[id].0),
            None => r is None,
        },
{
    match t.root_node_id() {
        Some(id) => t.get(id).ok().map(|n| *n.data()),
        None => None,
    }
}

/// A tree of elements as the contracts see it. The elements are numbered in
/// the order in which they were opened.
pub struct ViewTreeModel {
    /// The elements.
    pub nodes: Seq<ViewNodeModel>,
    /// For each element, the element above it.
    pub parents: Seq<Option<int>>,
    /// For each element, the elements below it, in order.
    pub children: Seq<Seq<int>>,
    /// For each element, how many elements stand above it.
    pub levels: Seq<nat>,
    /// The root.
    pub root: Option<int>,
    /// The element under which the next one is opened.
    pub cursor: Option<int>,
}

/// The tree without elements.
pub open spec fn empty_view_tree() -> ViewTreeModel {
    ViewTreeModel {
        nodes: Seq::empty(),
        parents: Seq::empty(),
        children: Seq::empty(),
        levels: Seq::empty(),
        root: None,
        cursor: None,
    }
}

/// The tree once `node` is opened: as the last child of the element at the
/// cursor, or, where the cursor is at none, as the root, with the root that
/// there was as its only child. The cursor moves to the new element.
pub open spec fn opened(m: ViewTreeModel, node: ViewNodeModel) -> ViewTreeModel {
    let k = m.nodes.len() as int;
    match m.cursor {
        Some(c) => ViewTreeModel {
            nodes: m.nodes.push(node),
            parents: m.parents.push(Some(c)),
            children: m.children.update(c, m.children[c].push(k)).push(Seq::empty()),
            levels: m.levels.push(m.levels[c] + 1),
            root: m.root,
            cursor: Some(k),
        },
        None => match m.root {
            Some(r) => ViewTreeModel {
                nodes: m.nodes.push(node),
                parents: m.parents.update(r, Some(k)).push(None),
                children: m.children.push(seq![r]),
                levels: Seq::new(m.levels.len(), |i: int| (m.levels[i] + 1) as nat).push(0),
                root: Some(k),
                cursor: Some(k),
            },
            None => ViewTreeModel {
                nodes: m.nodes.push(node),
                parents: m.parents.push(None),
                children: m.children.push(Seq::empty()),
                levels: m.levels.push(0),
                root: Some(k),
                cursor: Some(k),
            },
        },
    }
}

/// Whether `node` may be opened: it would not stand under an element that has
/// text, and it would not, with text of its own, stand above the root that
/// there is.
pub open spec fn admits(m: ViewTreeModel, node: ViewNodeModel) -> bool {
    match m.cursor {
        Some(c) => 0 <= c < m.nodes.len() && m.nodes[c].content is None,
        None => m.root is Some ==> node.content is None,
    }
}

/// No element has both text and children.
pub open spec fn exclusive(m: ViewTreeModel) -> bool {
    forall|k: int|
        0 <= k < m.nodes.len() && 0 <= k < m.children.len() && (#[trigger] m.nodes[k]).content
            is Some ==> m.children[k].len() == 0
}

/// The tree once the element at the cursor is closed: the cursor moves to the
/// element above it.
pub open spec fn closed(m: ViewTreeModel) -> ViewTreeModel {
    match m.cursor {
        Some(c) => ViewTreeModel { cursor: m.parents[c], ..m },
        None => m,
    }
}

/// The tree in which element `k` has the attribute `key` with value `value`.
pub open spec fn with_attr(m: ViewTreeModel, k: int, key: Seq<char>, value: Seq<char>) -> ViewTreeModel {
    ViewTreeModel {
        nodes: m.nodes.update(
            k,
            ViewNodeModel { attrs: with_entry(m.nodes[k].attrs, key, value), ..m.nodes[k] },
        ),
        ..m
    }
}

/// The opening tag of an element.
pub open spec fn open_tag(node: ViewNodeModel) -> Seq<char> {
    if node.attrs.len() > 0 {
        "<"@ + node.tag + " "@ + attrs_text(node.attrs) + ">"@
    } else {
        "<"@ + node.tag + ">"@
    }
}

/// The closing tag of an element, with the line feed that follows it.
pub open spec fn close_tag(node: ViewNodeModel) -> Seq<char> {
    "</"@ + node.tag + ">\n"@
}

/// How far element `k` stands from the deepest level that a tree of as many
/// elements can have.
pub open spec fn room_below(m: ViewTreeModel, k: int) -> int {
    if 0 <= k < m.levels.len() && m.levels[k] < m.nodes.len() {
        m.nodes.len() - m.levels[k]
    } else {
        0
    }
}

/// The markup of element `k` and of what is below it: the opening tag, then
/// the element's text or else its children's markup, then the closing tag.
pub open spec fn markup(m: ViewTreeModel, k: int) -> Seq<char>
    decreases room_below(m, k), 1nat, 0nat,
{
    if !(0 <= k < m.nodes.len()) || m.children.len() != m.nodes.len() || m.levels.len()
        != m.nodes.len() || m.levels[k] >= m.nodes.len() {
        Seq::empty()
    } else {
        match m.nodes[k].content {
            Some(text) => open_tag(m.nodes[k]) + text + close_tag(m.nodes[k]),
            None => open_tag(m.nodes[k]) + markup_list(m, k, m.children[k]) + close_tag(
                m.nodes[k],
            ),
        }
    }
}

/// The markup of the elements `kids`, which stand under element `k`, one
/// after the other.
pub open spec fn markup_list(m: ViewTreeModel, k: int, kids: Seq<int>) -> Seq<char>
    decreases room_below(m, k), 0nat, kids.len(),
{
    if kids.len() == 0 {
        Seq::empty()
    } else if 0 <= k < m.levels.len() && 0 <= kids.last() < m.levels.len()
        && m.levels[kids.last()] == m.levels[k] + 1 && m.levels[kids.last()] < m.nodes.len() {
        markup_list(m, k, kids.drop_last()) + markup(m, kids.last())
    } else {
        markup_list(m, k, kids.drop_last())
    }
}

/// The markup of the whole tree: that of its root.
pub open spec fn tree_markup(m: ViewTreeModel) -> Option<Seq<char>> {
    match m.root {
        Some(r) => Some(markup(m, r)),
        None => None,
    }
}

/// Setting an attribute and then viewing the attributes is viewing them and
/// then setting the value's view.
pub proof fn lemma_attr_insert(entries: Entries<String>, key: Seq<char>, value: String)
    ensures
        attr_views(with_entry(entries, key, value)) == with_entry(
            attr_views(entries),
            key,
            value@,
        ),
{
    lemma_key_index_same_keys(entries, attr_views(entries), key, 0);
    lemma_key_index(entries, key, 0);
    assert(attr_views(with_entry(entries, key, value)) =~= with_entry(
        attr_views(entries),
        key,
        value@,
    ));
}

/// The elements of a vector as the contracts see them.
pub open spec fn node_views(v: Seq<ViewNode>) -> Seq<ViewNodeModel> {
    v.map_values(|n: ViewNode| n@)
}

/// A rooted, ordered tree of elements with the cursor at which it grows.
pub struct ViewTree {
    nodes: Vec<ViewNode>,
    ids: Vec<id_tree::NodeId>,
    links: id_tree::Tree<usize>,
    cursor: Option<usize>,
    levels: Ghost<Seq<nat>>,
}

impl View for ViewTree {
    type V = ViewTreeModel;

    closed spec fn view(&self) -> ViewTreeModel {
        let held = tree_nodes(self.links);
        ViewTreeModel {
            nodes: node_views(self.nodes@),
            parents: Seq::new(
                self.nodes@.len(),
                |k: int|
                    match held[self.ids@[k]].1 {
                        Some(p) => Some(held[p].0 as int),
                        None => None,
                    },
            ),
            children: Seq::new(
                self.nodes@.len(),
                |k: int| held[self.ids@[k]].2.map_values(|c: id_tree::NodeId| held[c].0 as int),
            ),
            levels: self.levels@,
            root: match tree_root(self.links) {
                Some(r) => Some(held[r].0 as int),
                None => None,
            },
            cursor: match self.cursor {
                Some(c) => Some(c as int),
                None => None,
            },
        }
    }
}

impl ViewTree {
    /// Every element stands one level below the element above it, and the
    /// root stands on top.
    spec fn leveled(&self) -> bool {
        let n = self.nodes@.len();
        &&& self.levels@.len() == n
        &&& forall|k: int| 0 <= k < n ==> #[trigger] self.levels@[k] < n
        &&& forall|k: int, j: int|
            0 <= k < n && 0 <= j < self@.children[k].len() ==> {
                let c = #[trigger] self@.children[k][j];
                0 <= c < n && self.levels@[c] == self.levels@[k] + 1
            }
        &&& (self@.root matches Some(r) ==> 0 <= r < n && self.levels@[r] == 0)
    }

    /// The elements and the links agree, the links make a tree, and no
    /// element has both text and children.
    pub closed spec fn wf(&self) -> bool {
        self.linked() && self.leveled() && exclusive(self@)
    }

    /// The elements and the links agree: element `k` is the value of exactly
    /// one node of the links, every link leads to a node that the links hold,
    /// and the cursor is at an element.
    spec fn linked(&self) -> bool {
        let held = tree_nodes(self.links);
        let n = self.nodes@.len();
        &&& self.ids@.len() == n
        &&& forall|k: int|
            0 <= k < n ==> held.dom().contains(#[trigger] self.ids@[k]) && held[self.ids@[k]].0 == k
        &&& forall|id: id_tree::NodeId| #[trigger]
            held.dom().contains(id) ==> held[id].0 < n && self.ids@[held[id].0 as int] == id
        &&& forall|id: id_tree::NodeId| #[trigger]
            held.dom().contains(id) ==> (held[id].1 matches Some(p) ==> held.dom().contains(p))
        &&& forall|id: id_tree::NodeId, j: int|
            held.dom().contains(id) && 0 <= j < held[id].2.len() ==> held.dom().contains(
                #[trigger] held[id].2[j],
            )
        &&& (tree_root(self.links) matches Some(r) ==> held.dom().contains(r))
        &&& (self.cursor matches Some(c) ==> c < n)
    }

    /// A tree without elements.
    pub fn new() -> (r: Self)
        ensures
            r.wf(),
            r@ == empty_view_tree(),
    {
        let r = ViewTree {
            nodes: Vec::new(),
            ids: Vec::new(),
            links: tree_new(),
            cursor: None,
            levels: Ghost(Seq::empty()),
        };
        proof {
            assert(r@.nodes =~= Seq::empty());
            assert(r@.parents =~= Seq::empty());
            assert(r@.children =~= Seq::empty());
        }
        r
    }

    /// The number of elements.
    pub fn len(&self) -> (n: usize)
        ensures
            n == self@.nodes.len(),
    {
        self.nodes.len()
    }

    /// The shape of a well-formed tree: every element has its list of
    /// children and its parent, and every link leads to an element.
    pub proof fn lemma_shape(&self)
        requires
            self.wf(),
        ensures
            self@.parents.len() == self@.nodes.len(),
            self@.children.len() == self@.nodes.len(),
            self@.levels.len() == self@.nodes.len(),
            exclusive(self@),
            forall|k: int| 0 <= k < self@.nodes.len() ==> #[trigger] self@.levels[k] < self@.nodes.len(),
            forall|k: int, j: int|
                0 <= k < self@.nodes.len() && 0 <= j < self@.children[k].len() ==> self@.levels[(
                #[trigger] self@.children[k][j])] == self@.levels[k] + 1,
            self@.root matches Some(r) ==> 0 <= r < self@.nodes.len(),
            self@.cursor matches Some(c) ==> 0 <= c < self@.nodes.len(),
            forall|k: int|
                0 <= k < self@.nodes.len() ==> (#[trigger] self@.parents[k] matches Some(p) ==> 0
                    <= p < self@.nodes.len()),
            forall|k: int, j: int|
                0 <= k < self@.nodes.len() && 0 <= j < self@.children[k].len() ==> 0
                    <= #[trigger] self@.children[k][j] < self@.nodes.len(),
    {
        let held = tree_nodes(self.links);
        assert forall|k: int, j: int|
            0 <= k < self@.nodes.len() && 0 <= j < self@.children[k].len() implies 0
            <= #[trigger] self@.children[k][j] < self@.nodes.len() by {
            let id = self.ids@[k];
            assert(held.dom().contains(id));
            assert(held.dom().contains(held[id].2[j]));
        }
    }

    /// Element `k`.
    pub fn node(&self, k: usize) -> (r: &ViewNode)
        requires
            k < self@.nodes.len(),
        ensures
            r@ == self@.nodes[k as int],
    {
        &self.nodes[k]
    }

    /// The element under which the next one is opened.
    pub fn cursor(&self) -> (r: Option<usize>)
        ensures
            match r {
                Some(c) => self@.cursor == Some(c as int),
                None => self@.cursor is None,
            },
    {
        self.cursor
    }

    /// After a node with a fresh identifier has joined the links, as the
    /// links' own contract says, the tree is the one that `opened` describes.
    proof fn lemma_opened(&self, before: Self, node: ViewNode, id: id_tree::NodeId, n: usize)
        requires
            before.wf(),
            n == before.nodes@.len(),
            admits(before@, node@),
            !tree_nodes(before.links).dom().contains(id),
            self.nodes@ == before.nodes@.push(node),
            self.ids@ == before.ids@.push(id),
            self.cursor == Some(n),
            self.levels@ == opened(before@, node@).levels,
            match before.cursor {
                Some(c) => {
                    let up = before.ids@[c as int];
                    let held = tree_nodes(before.links);
                    &&& tree_root(self.links) == tree_root(before.links)
                    &&& tree_nodes(self.links) == held.insert(
                        up,
                        (held[up].0, held[up].1, held[up].2.push(id)),
                    ).insert(id, (n, Some(up), Seq::empty()))
                },
                None => {
                    let held = tree_nodes(before.links);
                    &&& tree_root(self.links) == Some(id)
                    &&& tree_nodes(self.links) == match tree_root(before.links) {
                        None => held.insert(
                            id,
                            (n, None, Seq::empty()),
                        ),
                        Some(o) => held.insert(o, (held[o].0, Some(id), held[o].2)).insert(
                            id,
                            (n, None, seq![o]),
                        ),
                    }
                },
            },
        ensures
            self.wf(),
            self@ == opened(before@, node@),
    {
        let k = before.nodes@.len() as int;
        let held = tree_nodes(before.links);
        let now = tree_nodes(self.links);
        let after = opened(before@, node@);
        before.lemma_shape();
        match before.cursor {
            Some(c) => {
                assert(held.dom().contains(before.ids@[c as int]));
            },
            None => {},
        }
        match tree_root(before.links) {
            Some(o) => {
                assert(held.dom().contains(o));
            },
            None => {},
        }
        assert forall|i: int| 0 <= i < k + 1 implies now.dom().contains(#[trigger] self.ids@[i])
            && now[self.ids@[i]].0 == i by {
            if i < k {
                assert(held.dom().contains(before.ids@[i]));
            }
        }
        assert forall|x: id_tree::NodeId, j: int|
            now.dom().contains(x) && 0 <= j < now[x].2.len() implies now.dom().contains(
            #[trigger] now[x].2[j],
        ) by {
            if x != id {
                assert(held.dom().contains(x));
                if j < held[x].2.len() {
                    assert(held.dom().contains(held[x].2[j]));
                }
            }
        }
        assert forall|x: id_tree::NodeId| #[trigger] now.dom().contains(x) implies now[x].0 < k + 1
            && self.ids@[now[x].0 as int] == x by {
            if x != id {
                assert(held.dom().contains(x));
            }
        }
        assert forall|x: id_tree::NodeId| #[trigger] now.dom().contains(x) implies (now[x].1 matches Some(
            p,
        ) ==> now.dom().contains(p)) by {
            if x != id {
                assert(held.dom().contains(x));
            }
        }
        assert(self.linked());
        assert(self@.nodes =~= after.nodes);
        assert(self@.parents =~= after.parents) by {
            assert forall|i: int| 0 <= i < k implies self@.parents[i] == after.parents[i] by {
                let x = before.ids@[i];
                assert(held.dom().contains(x));
                if held[x].1 is Some {
                    assert(held.dom().contains(held[x].1->0));
                }
            }
        }
        assert(self@.children =~= after.children) by {
            assert forall|i: int| 0 <= i < k + 1 implies self@.children[i] =~= after.children[i] by {
                if i < k {
                    let x = before.ids@[i];
                    assert(held.dom().contains(x));
                    assert forall|j: int| 0 <= j < held[x].2.len() implies now[held[x].2[j]].0
                        == held[held[x].2[j]].0 by {
                        assert(held.dom().contains(held[x].2[j]));
                    }
                }
            }
        }
        assert(self@ == after);
        let m = before@;
        assert forall|x: int, j: int| 0 <= x < k + 1 && 0 <= j < after.children[x].len() implies {
            let c = #[trigger] after.children[x][j];
            0 <= c < k + 1 && after.levels[c] == after.levels[x] + 1
        } by {
            if x < k {
                if j < m.children[x].len() {
                    assert(after.children[x][j] == m.children[x][j]);
                }
            }
        }
        assert(self.leveled());
        assert forall|x: int|
            0 <= x < after.nodes.len() && 0 <= x < after.children.len() && (
            #[trigger] after.nodes[x]).content is Some implies after.children[x].len() == 0 by {
            if x < k {
                assert(after.nodes[x] == m.nodes[x]);
            }
        }
    }

    /// Opens `node` at the cursor and returns its number. Nothing is opened,
    /// and `None` comes back, where the cursor is at an element that has
    /// text, or where `node` has text and would stand above the root.
    pub fn open(&mut self, node: ViewNode) -> (r: Option<usize>)
        requires
            old(self).wf(),
        ensures
            final(self).wf(),
            if admits(old(self)@, node@) {
                &&& r matches Some(k) && k == old(self)@.nodes.len()
                &&& final(self)@ == opened(old(self)@, node@)
            } else {
                r is None && final(self)@ == old(self)@
            },
    {
        let k = self.nodes.len();
        let ghost before = *self;
        proof {
            before.lemma_shape();
        }
        let inserted = match self.cursor {
            Some(c) => {
                if self.nodes[c].str_content.is_some() {
                    return None;
                }
                tree_insert_under(&mut self.links, &self.ids[c], k)
            },
            None => {
                if node.str_content.is_some() && tree_root_value(&self.links).is_some() {
                    return None;
                }
                tree_insert_root(&mut self.links, k)
            },
        };
        let id = inserted.unwrap();
        let ghost levels = opened(before@, node@).levels;
        self.nodes.push(node);
        self.ids.push(id);
        self.cursor = Some(k);
        self.levels = Ghost(levels);
        proof {
            self.lemma_opened(before, node, id, k);
        }
        Some(k)
    }

    /// Closes the element at the cursor: the cursor moves to the element
    /// above it, or to none where there is none above.
    pub fn close(&mut self)
        requires
            old(self).wf(),
        ensures
            final(self).wf(),
            final(self)@ == closed(old(self)@),
    {
        match self.cursor {
            Some(c) => {
                let ghost held = tree_nodes(self.links);
                let ghost id = self.ids@[c as int];
                proof {
                    assert(held.dom().contains(id));
                    if held[id].1 is Some {
                        assert(held.dom().contains(held[id].1->0));
                    }
                }
                let above = tree_parent_value(&self.links, &self.ids[c]);
                self.cursor = above;
            },
            None => {},
        }
    }

    /// Gives element `k` the attribute `key` with value `value`, in the place
    /// of the value that the attribute had, or as its last attribute.
    pub fn set_attr(&mut self, k: usize, key: String, value: String)
        requires
            old(self).wf(),
            k < old(self)@.nodes.len(),
        ensures
            final(self).wf(),
            final(self)@ == with_attr(old(self)@, k as int, key@, value@),
    {
        let ghost before = *self;
        proof {
            lemma_attr_insert(self.nodes@[k as int].modifier@, key@, value);
        }
        self.nodes[k].modifier.insert(key, value);
        proof {
            before.lemma_shape();
            assert(self@.nodes =~= with_attr(before@, k as int, key@, value@).nodes);
            assert(self@.parents =~= before@.parents);
            assert(self@.children =~= before@.children);
        }
    }

    fn render_node(&self, k: usize, out: &mut String)
        requires
            self.wf(),
            k < self@.nodes.len(),
        ensures
            final(out)@ == old(out)@ + markup(self@, k as int),
        decreases room_below(self@, k as int),
    {
        proof {
            self.lemma_shape();
        }
        let ghost start = out@;
        let node = &self.nodes[k];
        let mut head = String::new();
        head.append("<");
        head.append(node.tag.as_str());
        if node.modifier.len() > 0 {
            head.append(" ");
            head.append(node.attr_str().as_str());
        }
        head.append(">");
        let mut tail = String::new();
        tail.append("</");
        tail.append(node.tag.as_str());
        tail.append(">\n");
        proof {
            assert(head@ == open_tag(node@));
            assert(tail@ == close_tag(node@));
        }
        out.append(head.as_str());
        match &node.str_content {
            Some(text) => {
                out.append(text.as_str());
                out.append(tail.as_str());
                proof {
                    assert(out@ =~= start + (head@ + text@ + tail@));
                }
            },
            None => {
                let ghost held = tree_nodes(self.links);
                let ghost id = self.ids@[k as int];
                proof {
                    assert(held.dom().contains(id));
                    assert forall|j: int| 0 <= j < held[id].2.len() implies held.dom().contains(
                        #[trigger] held[id].2[j],
                    ) by {}
                }
                let kids = tree_child_values(&self.links, &self.ids[k]);
                let ghost list = self@.children[k as int];
                proof {
                    assert(kids@.map_values(|x: usize| x as int) =~= list);
                }
                let mut i: usize = 0;
                while i < kids.len()
                    invariant
                        self.wf(),
                        i <= kids.len(),
                        k < self@.nodes.len(),
                        list == self@.children[k as int],
                        kids@.map_values(|x: usize| x as int) == list,
                        out@ == start + head@ + markup_list(self@, k as int, list.take(i as int)),
                    decreases kids.len() - i,
                {
                    let ghost sofar = markup_list(self@, k as int, list.take(i as int));
                    proof {
                        self.lemma_shape();
                        assert(list.take(i as int + 1).drop_last() =~= list.take(i as int));
                        assert(list[i as int] == kids@[i as int] as int);
                        assert(list.take(i as int + 1).last() == list[i as int]);
                    }
                    self.render_node(kids[i], out);
                    proof {
                        assert(out@ =~= start + head@ + (sofar + markup(self@, list[i as int])));
                    }
                    i = i + 1;
                }
                proof {
                    assert(list.take(kids@.len() as int) =~= list);
                }
                let ghost body = markup_list(self@, k as int, list);
                out.append(tail.as_str());
                proof {
                    assert(out@ =~= start + (head@ + body + tail@));
                }
            },
        }
    }

    /// The markup of the tree, or nothing where the tree has no root.
    pub fn render(&self) -> (r: Option<String>)
        requires
            self.wf(),
        ensures
            match r {
                Some(s) => tree_markup(self@) == Some(s@),
                None => tree_markup(self@) is None,
            },
    {
        proof {
            self.lemma_shape();
        }
        match tree_root_value(&self.links) {
            Some(root) => {
                let mut out = String::new();
                self.render_node(root, &mut out);
                proof {
                    assert(Seq::<char>::empty() + markup(self@, root as int) =~= markup(
                        self@,
                        root as int,
                    ));
                }
                Some(out)
            },
            None => None,
        }
    }
}

} // verus!
