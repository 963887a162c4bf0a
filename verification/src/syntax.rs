//! The concrete syntax tree that every pass reads.
//!
//! A tree is an arena of nodes. A node is named by its index in the arena, and
//! every node stands after its parent, so a walk from a node towards its
//! children only ever moves to larger indices.

use vstd::prelude::*;

verus! {

/// The outcome of reading a tree whose shape the passes do not accept: an
/// expected child is absent, a node has an unexpected kind, or an index names
/// no node.
#[derive(Debug, Clone, Copy, PartialEq, Eq, Structural)]
pub struct Malformed;

/// What one node of the tree is, as the contracts see it.
pub struct NodeModel {
    /// The grammar's name for the node.
    pub kind: Seq<char>,
    /// The source text that the node spans.
    pub text: Seq<char>,
    /// Line of the node's first character, counted from zero.
    pub row: nat,
    /// Column of the node's first character, counted from zero.
    pub col: nat,
    /// The node above, if any.
    pub parent: Option<int>,
    /// The node's position among its parent's children.
    pub slot: int,
    /// The nodes below, in source order.
    pub children: Seq<int>,
}

/// A tree as the contracts see it: the nodes in arena order.
pub type TreeModel = Seq<NodeModel>;

/// The links of node `id` agree with the links of its neighbours, and its
/// line number leaves room for counting from one.
pub open spec fn node_wf(t: TreeModel, id: int) -> bool {
    &&& t[id].row < usize::MAX
    &&& match t[id].parent {
        Some(p) => 0 <= p < id && 0 <= t[id].slot < t[p].children.len() && t[p].children[t[id].slot]
            == id,
        None => t[id].slot == 0,
    }
    &&& forall|j: int|
        0 <= j < t[id].children.len() ==> {
            let c = #[trigger] t[id].children[j];
            id < c < t.len() && t[c].parent == Some(id) && t[c].slot == j
        }
}

/// Every node of the tree is well linked.
pub open spec fn tree_wf(t: TreeModel) -> bool {
    &&& t.len() <= usize::MAX
    &&& forall|id: int| 0 <= id < t.len() ==> node_wf(t, id)
}

/// The `j`-th child of node `id`, where there is one below it in the arena.
pub open spec fn child_at(t: TreeModel, id: int, j: int) -> Option<int> {
    if 0 <= id < t.len() && 0 <= j < t[id].children.len() && id < t[id].children[j] < t.len() {
        Some(t[id].children[j])
    } else {
        None
    }
}

/// The number of children of node `id`; zero where `id` names no node.
pub open spec fn child_count_of(t: TreeModel, id: int) -> int {
    if 0 <= id < t.len() {
        t[id].children.len() as int
    } else {
        0
    }
}

/// The parent of node `id`.
pub open spec fn parent_of(t: TreeModel, id: int) -> Option<int> {
    if 0 <= id < t.len() {
        match t[id].parent {
            Some(p) => if 0 <= p < id {
                Some(p)
            } else {
                None
            },
            None => None,
        }
    } else {
        None
    }
}

/// The sibling that follows node `id` under the same parent.
pub open spec fn next_sibling_of(t: TreeModel, id: int) -> Option<int> {
    match parent_of(t, id) {
        Some(p) => if 0 <= t[id].slot {
            child_at(t, p, t[id].slot + 1)
        } else {
            None
        },
        None => None,
    }
}

/// The sibling that precedes node `id` under the same parent.
pub open spec fn prev_sibling_of(t: TreeModel, id: int) -> Option<int> {
    match parent_of(t, id) {
        Some(p) => if 0 < t[id].slot {
            child_at(t, p, t[id].slot - 1)
        } else {
            None
        },
        None => None,
    }
}

/// Whether node `id` exists and has the kind `kind`.
pub open spec fn has_kind(t: TreeModel, id: int, kind: Seq<char>) -> bool {
    0 <= id < t.len() && t[id].kind == kind
}

/// The tree `t` with one more node, appended as the last child of `parent`
/// (or standing alone where `parent` is `None`).
pub open spec fn with_node(
    t: TreeModel,
    parent: Option<int>,
    kind: Seq<char>,
    text: Seq<char>,
    row: nat,
    col: nat,
) -> TreeModel {
    let id = t.len() as int;
    match parent {
        Some(p) => {
            let node = NodeModel {
                kind,
                text,
                row,
                col,
                parent: Some(p),
                slot: t[p].children.len() as int,
                children: Seq::empty(),
            };
            let above = NodeModel { children: t[p].children.push(id), ..t[p] };
            t.update(p, above).push(node)
        },
        None => t.push(
            NodeModel { kind, text, row, col, parent: None, slot: 0, children: Seq::empty() },
        ),
    }
}

/// Whether a node with these links and this position may join the tree.
pub open spec fn admits_node(t: TreeModel, parent: Option<int>, row: nat) -> bool {
    &&& t.len() < usize::MAX
    &&& row < usize::MAX
    &&& match parent {
        Some(p) => 0 <= p < t.len(),
        None => true,
    }
}

/// One node of the arena.
#[derive(Debug)]
pub struct SyntaxNode {
    kind: String,
    text: String,
    row: usize,
    col: usize,
    parent: Option<usize>,
    slot: usize,
    children: Vec<usize>,
}

impl View for SyntaxNode {
    type V = NodeModel;

    closed spec fn view(&self) -> NodeModel {
        NodeModel {
            kind: self.kind@,
            text: self.text@,
            row: self.row as nat,
            col: self.col as nat,
            parent: match self.parent {
                Some(p) => Some(p as int),
                None => None,
            },
            slot: self.slot as int,
            children: self.children@.map_values(|c: usize| c as int),
        }
    }
}

/// A concrete syntax tree: typed nodes, each with the source text it spans.
#[derive(Debug)]
pub struct SyntaxTree {
    nodes: Vec<SyntaxNode>,
}

impl View for SyntaxTree {
    type V = TreeModel;

    closed spec fn view(&self) -> TreeModel {
        self.nodes@.map_values(|n: SyntaxNode| n@)
    }
}

impl SyntaxTree {
    /// The tree's nodes are well linked.
    pub open spec fn wf(&self) -> bool {
        tree_wf(self@)
    }

    /// A tree without nodes.
    pub fn new() -> (t: Self)
        ensures
            t@.len() == 0,
            t.wf(),
    {
        SyntaxTree { nodes: Vec::new() }
    }

    /// The number of nodes.
    pub fn len(&self) -> (n: usize)
        ensures
            n == self@.len(),
    {
        self.nodes.len()
    }

    /// Appends a node as the last child of `parent`, or as a node without a
    /// parent, and returns its index. Nothing is added, and `None` comes back,
    /// where `parent` names no node, the arena is full, or `row` is the
    /// largest `usize`.
    pub fn add_node(
        &mut self,
        parent: Option<usize>,
        kind: &str,
        text: &str,
        row: usize,
        col: usize,
    ) -> (r: Option<usize>)
        requires
            old(self).wf(),
        ensures
            final(self).wf(),
            ({
                let above = match parent {
                    Some(p) => Some(p as int),
                    None => None,
                };
                if admits_node(old(self)@, above, row as nat) {
                    &&& r == Some(old(self)@.len() as usize)
                    &&& final(self)@ == with_node(
                        old(self)@,
                        above,
                        kind@,
                        text@,
                        row as nat,
                        col as nat,
                    )
                } else {
                    r is None && final(self)@ == old(self)@
                }
            }),
    {
        let id = self.nodes.len();
        if id == usize::MAX || row == usize::MAX {
            return None;
        }
        let ghost before = self@;
        match parent {
            Some(p) => {
                if p >= id {
                    return None;
                }
                let slot = self.nodes[p].children.len();
                let node = SyntaxNode {
                    kind: kind.to_owned(),
                    text: text.to_owned(),
                    row,
                    col,
                    parent: Some(p),
                    slot,
                    children: Vec::new(),
                };
                self.nodes[p].children.push(id);
                self.nodes.push(node);
                proof {
                    let after = with_node(
                        before,
                        Some(p as int),
                        kind@,
                        text@,
                        row as nat,
                        col as nat,
                    );
                    assert(self@[p as int].children =~= before[p as int].children.push(id as int));
                    assert(self@[id as int].children =~= Seq::<int>::empty());
                    assert(self@ =~= after);
                    assert forall|k: int| 0 <= k < after.len() implies node_wf(after, k) by {
                        if k < id {
                            assert(node_wf(before, k));
                            if k == p {
                                assert forall|j: int| 0 <= j < after[k].children.len() implies {
                                    let c = #[trigger] after[k].children[j];
                                    k < c < after.len() && after[c].parent == Some(k)
                                        && after[c].slot == j
                                } by {
                                    if j < before[k].children.len() {
                                        assert(after[k].children[j] == before[k].children[j]);
                                    }
                                }
                            } else {
                                assert(after[k] == before[k]);
                                assert forall|j: int| 0 <= j < after[k].children.len() implies {
                                    let c = #[trigger] after[k].children[j];
                                    k < c < after.len() && after[c].parent == Some(k)
                                        && after[c].slot == j
                                } by {
                                    assert(after[k].children[j] == before[k].children[j]);
                                }
                            }
                        }
                    }
                }
                Some(id)
            },
            None => {
                let node = SyntaxNode {
                    kind: kind.to_owned(),
                    text: text.to_owned(),
                    row,
                    col,
                    parent: None,
                    slot: 0,
                    children: Vec::new(),
                };
                self.nodes.push(node);
                proof {
                    let after = with_node(before, None, kind@, text@, row as nat, col as nat);
                    assert(self@[id as int].children =~= Seq::<int>::empty());
                    assert(self@ =~= after);
                    assert forall|k: int| 0 <= k < after.len() implies node_wf(after, k) by {
                        if k < id {
                            assert(node_wf(before, k));
                            assert(after[k] == before[k]);
                            assert forall|j: int| 0 <= j < after[k].children.len() implies {
                                let c = #[trigger] after[k].children[j];
                                k < c < after.len() && after[c].parent == Some(k) && after[c].slot
                                    == j
                            } by {
                                assert(after[k].children[j] == before[k].children[j]);
                            }
                        }
                    }
                }
                Some(id)
            },
        }
    }

    /// The kind of node `id`.
    pub fn kind(&self, id: usize) -> (k: &str)
        requires
            id < self@.len(),
        ensures
            k@ == self@[id as int].kind,
    {
        self.nodes[id].kind.as_str()
    }

    /// The source text of node `id`.
    pub fn text(&self, id: usize) -> (s: &str)
        requires
            id < self@.len(),
        ensures
            s@ == self@[id as int].text,
    {
        self.nodes[id].text.as_str()
    }

    /// The line on which node `id` starts, counted from zero.
    pub fn row(&self, id: usize) -> (r: usize)
        requires
            id < self@.len(),
        ensures
            r == self@[id as int].row,
    {
        self.nodes[id].row
    }

    /// The column at which node `id` starts, counted from zero.
    pub fn col(&self, id: usize) -> (c: usize)
        requires
            id < self@.len(),
        ensures
            c == self@[id as int].col,
    {
        self.nodes[id].col
    }

    /// Whether `id` names a node of kind `kind`.
    pub fn is_kind(&self, id: usize, kind: &str) -> (r: bool)
        ensures
            r == has_kind(self@, id as int, kind@),
    {
        if id < self.nodes.len() {
            crate::text::str_eq(self.nodes[id].kind.as_str(), kind)
        } else {
            false
        }
    }

    /// The number of children of node `id`.
    pub fn child_count(&self, id: usize) -> (n: usize)
        ensures
            n == child_count_of(self@, id as int),
    {
        if id < self.nodes.len() {
            self.nodes[id].children.len()
        } else {
            0
        }
    }

    /// The `j`-th child of node `id`.
    pub fn child(&self, id: usize, j: usize) -> (r: Option<usize>)
        requires
            self.wf(),
        ensures
            r matches Some(c) ==> id < c < self@.len(),
            r is Some <==> j < child_count_of(self@, id as int),
            match r {
                Some(c) => child_at(self@, id as int, j as int) == Some(c as int),
                None => child_at(self@, id as int, j as int) is None,
            },
    {
        if id < self.nodes.len() && j < self.nodes[id].children.len() {
            let c = self.nodes[id].children[j];
            proof {
                assert(node_wf(self@, id as int));
                assert(self@[id as int].children[j as int] == c as int);
            }
            Some(c)
        } else {
            None
        }
    }

    /// The parent of node `id`.
    pub fn parent(&self, id: usize) -> (r: Option<usize>)
        requires
            self.wf(),
        ensures
            r matches Some(p) ==> p < id && id < self@.len(),
            match r {
                Some(p) => parent_of(self@, id as int) == Some(p as int),
                None => parent_of(self@, id as int) is None,
            },
    {
        if id < self.nodes.len() {
            proof {
                assert(node_wf(self@, id as int));
            }
            self.nodes[id].parent
        } else {
            None
        }
    }

    /// The sibling after node `id`.
    pub fn next_sibling(&self, id: usize) -> (r: Option<usize>)
        requires
            self.wf(),
        ensures
            r matches Some(s) ==> s < self@.len(),
            match r {
                Some(s) => next_sibling_of(self@, id as int) == Some(s as int),
                None => next_sibling_of(self@, id as int) is None,
            },
    {
        match self.parent(id) {
            Some(p) => {
                let slot = self.nodes[id].slot;
                let width = self.nodes[p].children.len();
                proof {
                    assert(node_wf(self@, id as int));
                    assert(self@[p as int].children.len() == width);
                }
                self.child(p, slot + 1)
            },
            None => None,
        }
    }

    /// The sibling before node `id`.
    pub fn prev_sibling(&self, id: usize) -> (r: Option<usize>)
        requires
            self.wf(),
        ensures
            r matches Some(s) ==> s < self@.len(),
            match r {
                Some(s) => prev_sibling_of(self@, id as int) == Some(s as int),
                None => prev_sibling_of(self@, id as int) is None,
            },
    {
        match self.parent(id) {
            Some(p) => {
                let slot = self.nodes[id].slot;
                if slot > 0 {
                    self.child(p, slot - 1)
                } else {
                    None
                }
            },
            None => None,
        }
    }
}

} // verus!
