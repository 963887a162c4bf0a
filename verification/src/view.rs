//! The view tree builder: the body of a view declaration, read into a tree
//! of elements and written out as a component.

use crate::common::array::{array2js_call_with_obj_context, array_text};
use crate::common::model::{date_model2js_fn, model_factory};
use crate::common::object::{call_object, callexp2object_with_context};
use crate::component::{compute_modifier, modifier_of};
use crate::name_map::{lookup, with_entry, Entries, NameMap};
use crate::paser::{
    lemma_member_lookup, lemma_struct_view, member_views, opt_view, MemberModel, StructInfo,
    StructMember, StructModel,
};
use crate::pattern::{regex_replace_all, regex_replaced, rewritten_or, rewritten_or_same};
use crate::shape::{
    admits, closed, empty_view_tree, lemma_attr_insert, opened, tree_markup, with_attr, ViewTree,
    ViewTreeModel,
};
use crate::syntax::{
    child_at, child_count_of, has_kind, next_sibling_of, parent_of, Malformed, SyntaxTree,
    TreeModel,
};
use crate::text::{
    join, join_strs, opt_str_eq, remove_char, split, split_on, str_eq, trim, trim_end, trimmed,
    trimmed_end, views, without_char,
};
use std::collections::HashMap;
use vstd::prelude::*;

verus! {

broadcast use vstd::std_specs::hash::group_hash_axioms;

/// A construct that the builder recognises and does not support, with the
/// place where the source has it.
#[derive(Debug)]
pub struct ViewParseError {
    /// What is not supported.
    pub message: String,
    /// The source text of the construct.
    pub node_code: String,
    /// The line on which it starts, counted from one.
    pub row: usize,
    /// The column at which it starts, counted from zero.
    pub col: usize,
}

/// An error as the contracts see it.
pub struct ErrorModel {
    pub message: Seq<char>,
    pub node_code: Seq<char>,
    pub row: nat,
    pub col: nat,
}

impl View for ViewParseError {
    type V = ErrorModel;

    open spec fn view(&self) -> ErrorModel {
        ErrorModel {
            message: self.message@,
            node_code: self.node_code@,
            row: self.row as nat,
            col: self.col as nat,
        }
    }
}

/// The error that reports `message` for node `id`: the node's text, its line
/// counted from one and its column counted from zero.
pub open spec fn error_at(message: Seq<char>, t: TreeModel, id: int) -> ErrorModel {
    ErrorModel { message, node_code: t[id].text, row: t[id].row + 1, col: t[id].col }
}

impl ViewParseError {
    /// The error that reports `message` for the construct at `node`.
    pub fn new(message: String, tree: &SyntaxTree, node: usize) -> (r: Self)
        requires
            tree.wf(),
            node < tree@.len(),
        ensures
            r@ == error_at(message@, tree@, node as int),
    {
        proof {
            assert(crate::syntax::node_wf(tree@, node as int));
        }
        ViewParseError {
            message,
            node_code: tree.text(node).to_owned(),
            row: tree.row(node) + 1,
            col: tree.col(node),
        }
    }
}

/// One element of a view: its tag, its attributes and directives, and its
/// text, if it has text instead of children.
#[derive(Debug)]
pub struct ViewNode {
    pub tag: String,
    pub modifier: NameMap<String>,
    pub str_content: Option<String>,
}

/// An element as the contracts see it.
pub struct ViewNodeModel {
    pub tag: Seq<char>,
    pub attrs: Entries<Seq<char>>,
    pub content: Option<Seq<char>>,
}

/// The attributes of a map as the contracts see them.
pub open spec fn attr_views(entries: Entries<String>) -> Entries<Seq<char>> {
    entries.map_values(|e: (Seq<char>, String)| (e.0, e.1@))
}

impl View for ViewNode {
    type V = ViewNodeModel;

    open spec fn view(&self) -> ViewNodeModel {
        ViewNodeModel {
            tag: self.tag@,
            attrs: attr_views(self.modifier@),
            content: opt_view(self.str_content),
        }
    }
}

/// One attribute in markup: the bare name where the value is empty, and
/// `name="value"` otherwise.
pub open spec fn attr_text(entry: (Seq<char>, Seq<char>)) -> Seq<char> {
    if entry.1.len() == 0 {
        entry.0
    } else {
        entry.0 + "=\""@ + entry.1 + "\""@
    }
}

/// The attributes in markup, in order.
pub open spec fn attr_texts(attrs: Entries<Seq<char>>) -> Seq<Seq<char>> {
    attrs.map_values(|e: (Seq<char>, Seq<char>)| attr_text(e))
}

/// The attributes of an element in markup, separated by single spaces.
pub open spec fn attrs_text(attrs: Entries<Seq<char>>) -> Seq<char> {
    join(attr_texts(attrs), " "@)
}

impl ViewNode {
    /// An element with the given tag, without attributes and without text.
    pub fn new(tag: String) -> (r: Self)
        ensures
            r@ == (ViewNodeModel { tag: tag@, attrs: Seq::empty(), content: None }),
    {
        let r = ViewNode { tag, modifier: NameMap::new(), str_content: None };
        proof {
            assert(r@.attrs =~= Seq::empty());
        }
        r
    }

    /// The element's attributes in markup, separated by single spaces.
    pub fn attr_str(&self) -> (r: String)
        ensures
            r@ == attrs_text(self@.attrs),
    {
        let mut pieces: Vec<String> = Vec::new();
        let n = self.modifier.len();
        let mut i: usize = 0;
        while i < n
            invariant
                i <= n,
                n == self.modifier@.len(),
                views(pieces@) == attr_texts(self@.attrs.take(i as int)),
            decreases n - i,
        {
            let ghost before = views(pieces@);
            let key = self.modifier.key_at(i);
            let value = self.modifier.value_at(i);
            let mut piece = String::new();
            piece.append(key);
            if value.as_str().unicode_len() > 0 {
                piece.append("=\"");
                piece.append(value.as_str());
                piece.append("\"");
            }
            pieces.push(piece);
            proof {
                assert(self@.attrs[i as int] == (key@, value@));
                assert(views(pieces@) =~= before.push(attr_text(self@.attrs[i as int])));
                assert(views(pieces@) =~= attr_texts(self@.attrs.take(i as int + 1)));
            }
            i = i + 1;
        }
        proof {
            assert(self@.attrs.take(n as int) =~= self@.attrs);
        }
        join_strs(&pieces, " ")
    }
}

/// The tag of the view that the call at node `id` constructs: the text of
/// its callee where the callee is a bare identifier.
pub open spec fn view_tag(t: TreeModel, id: int) -> Result<Option<Seq<char>>, Malformed> {
    match child_at(t, id, 0) {
        None => Err(Malformed),
        Some(callee) => if t[callee].kind == "simple_identifier"@ {
            Ok(Some(t[callee].text))
        } else {
            Ok(None)
        },
    }
}

/// The element once the pair resolved for one argument is applied: the pair
/// with the key `content` sets the element's text, any other pair sets an
/// attribute.
pub open spec fn node_with_pair(node: ViewNodeModel, pair: Option<(Seq<char>, Seq<char>)>) -> ViewNodeModel {
    match pair {
        None => node,
        Some((key, value)) => if key == "content"@ {
            ViewNodeModel { content: Some(value), ..node }
        } else {
            ViewNodeModel { attrs: with_entry(node.attrs, key, value), ..node }
        },
    }
}

/// The element once the argument list `list` is applied from its `k`-th
/// argument position on. The positions are the children between the two
/// parentheses; a comma applies nothing.
pub open spec fn node_with_args_from(
    t: TreeModel,
    tag: Seq<char>,
    list: int,
    k: int,
    node: ViewNodeModel,
) -> Result<ViewNodeModel, Malformed>
    decreases child_count_of(t, list) - k,
{
    if k < 0 || k + 2 >= child_count_of(t, list) {
        Ok(node)
    } else {
        match child_at(t, list, k + 1) {
            None => Err(Malformed),
            Some(arg) => if t[arg].kind == ","@ {
                node_with_args_from(t, tag, list, k + 1, node)
            } else {
                match modifier_of(tag, t, arg) {
                    Err(e) => Err(e),
                    Ok(pair) => node_with_args_from(
                        t,
                        tag,
                        list,
                        k + 1,
                        node_with_pair(node, pair),
                    ),
                }
            },
        }
    }
}

/// The element once the first argument list among the children of the call
/// suffix `suffix` from the `j`-th on is applied.
pub open spec fn node_with_suffix_from(
    t: TreeModel,
    tag: Seq<char>,
    suffix: int,
    j: int,
    node: ViewNodeModel,
) -> Result<ViewNodeModel, Malformed>
    decreases child_count_of(t, suffix) - j,
{
    match child_at(t, suffix, j) {
        None => Ok(node),
        Some(c) => if t[c].kind == "value_arguments"@ {
            if child_count_of(t, c) < 2 {
                Err(Malformed)
            } else {
                node_with_args_from(t, tag, c, 0, node)
            }
        } else {
            node_with_suffix_from(t, tag, suffix, j + 1, node)
        },
    }
}

/// The element once the call suffixes among the children of the call `call`
/// from the `i`-th on are applied. A suffix that starts with a closure holds
/// the element's children and applies nothing.
pub open spec fn node_from_call_from(
    t: TreeModel,
    tag: Seq<char>,
    call: int,
    i: int,
    node: ViewNodeModel,
) -> Result<ViewNodeModel, Malformed>
    decreases child_count_of(t, call) - i,
{
    match child_at(t, call, i) {
        None => Ok(node),
        Some(c) => if t[c].kind == "call_suffix"@ {
            match child_at(t, c, 0) {
                None => Err(Malformed),
                Some(first) => if t[first].kind == "lambda_literal"@ {
                    node_from_call_from(t, tag, call, i + 1, node)
                } else {
                    match node_with_suffix_from(t, tag, c, 0, node) {
                        Err(e) => Err(e),
                        Ok(next) => node_from_call_from(t, tag, call, i + 1, next),
                    }
                },
            }
        } else {
            node_from_call_from(t, tag, call, i + 1, node)
        },
    }
}

/// The element that the call `call` of a view with tag `tag` constructs.
pub open spec fn node_from_call(t: TreeModel, tag: Seq<char>, call: int) -> Result<
    ViewNodeModel,
    Malformed,
> {
    node_from_call_from(
        t,
        tag,
        call,
        0,
        ViewNodeModel { tag, attrs: Seq::empty(), content: None },
    )
}

/// The node whose text is the value of the modifier with call suffix
/// `suffix`: the first argument, or the value after its label; none where
/// the suffix has no argument or is a closure.
pub open spec fn modifier_arg(t: TreeModel, suffix: int) -> Result<Option<int>, Malformed> {
    match child_at(t, suffix, 0) {
        None => Err(Malformed),
        Some(args) => if child_count_of(t, args) > 2 && t[args].kind != "lambda_literal"@ {
            match child_at(t, args, 1) {
                None => Err(Malformed),
                Some(first) => match child_at(t, first, 0) {
                    None => Err(Malformed),
                    Some(v) => if t[v].kind == "value_argument_label"@ {
                        match next_sibling_of(t, v) {
                            None => Err(Malformed),
                            Some(colon) => match next_sibling_of(t, colon) {
                                None => Err(Malformed),
                                Some(value) => Ok(Some(value)),
                            },
                        }
                    } else {
                        Ok(Some(v))
                    },
                },
            }
        } else {
            Ok(None)
        },
    }
}

/// The value of the modifier with call suffix `suffix`: the text of its
/// argument, without the leading dot of an enum case; empty where it has no
/// argument.
pub open spec fn modifier_value(t: TreeModel, suffix: int) -> Result<Seq<char>, Malformed> {
    match modifier_arg(t, suffix) {
        Err(e) => Err(e),
        Ok(None) => Ok(Seq::empty()),
        Ok(Some(arg)) => if t[arg].kind == "prefix_expression"@ {
            match child_at(t, arg, 1) {
                None => Err(Malformed),
                Some(name) => Ok(t[name].text),
            }
        } else {
            Ok(t[arg].text)
        },
    }
}

/// The attribute that a modifier's name stands for: the tap gesture is the
/// click directive, every other name stands for itself.
pub open spec fn modifier_name(name: Seq<char>) -> Seq<char> {
    if name == "onTapGesture"@ {
        "@click"@
    } else {
        name
    }
}

/// The state of the builder as the contracts see it.
pub struct BuildModel {
    /// The elements built so far.
    pub tree: ViewTreeModel,
    /// How many calls the walk is inside of.
    pub calls: nat,
    /// The call suffixes of the chains whose modifier has not been met yet,
    /// the innermost last.
    pub pending: Seq<int>,
    /// The call that the open chain applies to.
    pub chain: Option<int>,
    /// The call suffixes consumed as modifiers, which the walk does not enter.
    pub ignored: Seq<int>,
    /// For each call that constructed an element, the element.
    pub placed: Map<int, int>,
}

/// What the builder does on reaching a call, and whether the walk goes on
/// below it. Where the call constructs a view, the element is opened at the
/// cursor and remembered for the call, and a call that stands as the target of
/// a chain becomes the chain's call. Below a call whose element has text the
/// walk does not go: such an element has no children.
pub open spec fn enter_call(t: TreeModel, id: int, st: BuildModel) -> Result<
    (BuildModel, bool),
    Malformed,
> {
    let counted = BuildModel { calls: st.calls + 1, ..st };
    match view_tag(t, id) {
        Err(e) => Err(e),
        Ok(None) => Ok((counted, true)),
        Ok(Some(tag)) => match node_from_call(t, tag, id) {
            Err(e) => Err(e),
            Ok(node) => match parent_of(t, id) {
                None => Err(Malformed),
                Some(p) => if admits(st.tree, node) {
                    Ok(
                        (
                            BuildModel {
                                tree: opened(st.tree, node),
                                placed: st.placed.insert(id, st.tree.nodes.len() as int),
                                chain: if t[p].kind == "navigation_expression"@ {
                                    Some(id)
                                } else {
                                    st.chain
                                },
                                ..counted
                            },
                            node.content is None,
                        ),
                    )
                } else {
                    Err(Malformed)
                },
            },
        },
    }
}

/// What the builder does on reaching the target of a chain: a chain opens, as
/// yet without a call, and the call suffix that follows the target is kept
/// until the chain's modifier is met.
pub open spec fn enter_navigation(t: TreeModel, id: int, st: BuildModel) -> Result<
    BuildModel,
    Malformed,
> {
    match parent_of(t, id) {
        None => Err(Malformed),
        Some(p) => if t[p].kind == "call_expression"@ {
            match next_sibling_of(t, id) {
                None => Err(Malformed),
                Some(suffix) => if t[suffix].kind == "call_suffix"@ {
                    Ok(BuildModel { pending: st.pending.push(suffix), chain: None, ..st })
                } else {
                    Err(Malformed)
                },
            }
        } else {
            Ok(st)
        },
    }
}

/// What the builder does on reaching the modifier of a chain: the chain's
/// call suffix is consumed, and the modifier's name and value become one
/// attribute of the element of the chain's call. A context menu sets nothing.
pub open spec fn enter_suffix(t: TreeModel, id: int, st: BuildModel) -> Result<BuildModel, Malformed> {
    match parent_of(t, id) {
        None => Err(Malformed),
        Some(p) => match parent_of(t, p) {
            None => Err(Malformed),
            Some(g) => if t[g].kind != "call_expression"@ {
                Ok(st)
            } else if st.pending.len() == 0 {
                Err(Malformed)
            } else {
                let suffix = st.pending.last();
                let taken = BuildModel {
                    pending: st.pending.drop_last(),
                    ignored: st.ignored.push(suffix),
                    ..st
                };
                match child_at(t, id, 1) {
                    None => Err(Malformed),
                    Some(name) => match modifier_value(t, suffix) {
                        Err(e) => Err(e),
                        Ok(value) => if t[name].text == "contextMenu"@ {
                            Ok(taken)
                        } else {
                            match st.chain {
                                None => Err(Malformed),
                                Some(call) => if st.placed.dom().contains(call) && 0
                                    <= st.placed[call] < st.tree.nodes.len() {
                                    Ok(
                                        BuildModel {
                                            tree: with_attr(
                                                st.tree,
                                                st.placed[call],
                                                modifier_name(t[name].text),
                                                value,
                                            ),
                                            ..taken
                                        },
                                    )
                                } else {
                                    Err(Malformed)
                                },
                            }
                        },
                    },
                }
            },
        },
    }
}

/// What the builder does on reaching node `id`, and whether the walk goes on
/// below it. Comments and consumed call suffixes are not entered.
pub open spec fn enter_view(t: TreeModel, id: int, st: BuildModel) -> Result<
    (BuildModel, bool),
    Malformed,
> {
    if t[id].kind == "comment"@ {
        Ok((st, false))
    } else if t[id].kind == "call_expression"@ {
        enter_call(t, id, st)
    } else if t[id].kind == "navigation_expression"@ {
        match enter_navigation(t, id, st) {
            Err(e) => Err(e),
            Ok(next) => Ok((next, true)),
        }
    } else if t[id].kind == "navigation_suffix"@ {
        match enter_suffix(t, id, st) {
            Err(e) => Err(e),
            Ok(next) => Ok((next, true)),
        }
    } else if t[id].kind == "call_suffix"@ {
        Ok((st, !st.ignored.contains(id)))
    } else {
        Ok((st, true))
    }
}

/// What the builder does on leaving node `id`: at the end of a call that
/// constructed a view, the cursor moves back to the element above, and a call
/// that stands as the target of a chain is the chain's call again, whatever
/// chains were met below it.
pub open spec fn leave_view(t: TreeModel, id: int, st: BuildModel) -> Result<BuildModel, Malformed> {
    if t[id].kind == "call_expression"@ {
        let counted = BuildModel {
            calls: if st.calls > 0 {
                (st.calls - 1) as nat
            } else {
                0
            },
            ..st
        };
        match view_tag(t, id) {
            Err(e) => Err(e),
            Ok(None) => Ok(counted),
            Ok(Some(tag)) => Ok(
                BuildModel {
                    tree: closed(st.tree),
                    chain: match parent_of(t, id) {
                        Some(p) => if t[p].kind == "navigation_expression"@ {
                            Some(id)
                        } else {
                            st.chain
                        },
                        None => st.chain,
                    },
                    ..counted
                },
            ),
        }
    } else {
        Ok(st)
    }
}

/// The state after the builder's walk over node `id` and everything below.
pub open spec fn build(t: TreeModel, id: int, st: BuildModel) -> Result<BuildModel, Malformed>
    decreases t.len() - id, child_count_of(t, id) + 1,
{
    if !(0 <= id < t.len()) {
        Err(Malformed)
    } else {
        match enter_view(t, id, st) {
            Err(e) => Err(e),
            Ok((st1, go)) => if go {
                match build_from(t, id, 0, st1) {
                    Err(e) => Err(e),
                    Ok(st2) => leave_view(t, id, st2),
                }
            } else {
                leave_view(t, id, st1)
            },
        }
    }
}

/// The state after the builder's walk over the children of `id` from the
/// `j`-th on.
pub open spec fn build_from(t: TreeModel, id: int, j: int, st: BuildModel) -> Result<
    BuildModel,
    Malformed,
>
    decreases t.len() - id, child_count_of(t, id) - j,
{
    match child_at(t, id, j) {
        None => Ok(st),
        Some(c) => match build(t, c, st) {
            Err(e) => Err(e),
            Ok(next) => build_from(t, id, j + 1, next),
        },
    }
}

fn apply_pair(node: ViewNode, pair: Option<(String, String)>) -> (r: ViewNode)
    ensures
        r@ == node_with_pair(node@, crate::component::pair_view(pair)),
{
    let mut node = node;
    match pair {
        None => node,
        Some((key, value)) => {
            if str_eq(key.as_str(), "content") {
                node.str_content = Some(value);
            } else {
                proof {
                    lemma_attr_insert(node.modifier@, key@, value);
                }
                node.modifier.insert(key, value);
            }
            node
        },
    }
}

fn apply_args(tree: &SyntaxTree, tag: &str, list: usize, seed: ViewNode) -> (r: Result<
    ViewNode,
    Malformed,
>)
    requires
        tree.wf(),
        child_count_of(tree@, list as int) >= 2,
    ensures
        match r {
            Ok(n) => node_with_args_from(tree@, tag@, list as int, 0, seed@) == Ok::<
                ViewNodeModel,
                Malformed,
            >(n@),
            Err(e) => node_with_args_from(tree@, tag@, list as int, 0, seed@) is Err,
        },
{
    let ghost goal = node_with_args_from(tree@, tag@, list as int, 0, seed@);
    let mut node = seed;
    let n = tree.child_count(list);
    let mut k: usize = 0;
    while k + 2 < n
        invariant
            tree.wf(),
            n == child_count_of(tree@, list as int),
            n >= 2,
            k + 2 <= n,
            goal == node_with_args_from(tree@, tag@, list as int, 0, seed@),
            goal == node_with_args_from(tree@, tag@, list as int, k as int, node@),
        decreases n - k,
    {
        let arg = match tree.child(list, k + 1) {
            Some(a) => a,
            None => {
                return Err(Malformed);
            },
        };
        if !tree.is_kind(arg, ",") {
            let pair = compute_modifier(tag, tree, arg)?;
            node = apply_pair(node, pair);
        }
        k = k + 1;
    }
    Ok(node)
}

fn apply_suffix(tree: &SyntaxTree, tag: &str, suffix: usize, node: ViewNode) -> (r: Result<
    ViewNode,
    Malformed,
>)
    requires
        tree.wf(),
    ensures
        match r {
            Ok(n) => node_with_suffix_from(tree@, tag@, suffix as int, 0, node@) == Ok::<
                ViewNodeModel,
                Malformed,
            >(n@),
            Err(e) => node_with_suffix_from(tree@, tag@, suffix as int, 0, node@) is Err,
        },
{
    let n = tree.child_count(suffix);
    let mut j: usize = 0;
    while j < n
        invariant
            tree.wf(),
            j <= n,
            n == child_count_of(tree@, suffix as int),
            node_with_suffix_from(tree@, tag@, suffix as int, 0, node@) == node_with_suffix_from(
                tree@,
                tag@,
                suffix as int,
                j as int,
                node@,
            ),
        decreases n - j,
    {
        let c = match tree.child(suffix, j) {
            Some(c) => c,
            None => {
                return Ok(node);
            },
        };
        if tree.is_kind(c, "value_arguments") {
            if tree.child_count(c) < 2 {
                return Err(Malformed);
            }
            return apply_args(tree, tag, c, node);
        }
        j = j + 1;
    }
    Ok(node)
}

fn node_for_call(tree: &SyntaxTree, tag: &str, call: usize) -> (r: Result<ViewNode, Malformed>)
    requires
        tree.wf(),
    ensures
        match r {
            Ok(n) => node_from_call(tree@, tag@, call as int) == Ok::<ViewNodeModel, Malformed>(
                n@,
            ),
            Err(e) => node_from_call(tree@, tag@, call as int) is Err,
        },
{
    let mut node = ViewNode::new(tag.to_owned());
    let ghost goal = node_from_call(tree@, tag@, call as int);
    let n = tree.child_count(call);
    let mut i: usize = 0;
    while i < n
        invariant
            tree.wf(),
            i <= n,
            n == child_count_of(tree@, call as int),
            goal == node_from_call(tree@, tag@, call as int),
            goal == node_from_call_from(tree@, tag@, call as int, i as int, node@),
        decreases n - i,
    {
        let c = match tree.child(call, i) {
            Some(c) => c,
            None => {
                return Ok(node);
            },
        };
        if tree.is_kind(c, "call_suffix") {
            let first = match tree.child(c, 0) {
                Some(f) => f,
                None => {
                    return Err(Malformed);
                },
            };
            if !tree.is_kind(first, "lambda_literal") {
                node = apply_suffix(tree, tag, c, node)?;
            }
        }
        i = i + 1;
    }
    Ok(node)
}

fn value_of_modifier(tree: &SyntaxTree, suffix: usize) -> (r: Result<String, Malformed>)
    requires
        tree.wf(),
    ensures
        match r {
            Ok(v) => modifier_value(tree@, suffix as int) == Ok::<Seq<char>, Malformed>(v@),
            Err(e) => modifier_value(tree@, suffix as int) is Err,
        },
{
    let args = match tree.child(suffix, 0) {
        Some(a) => a,
        None => {
            return Err(Malformed);
        },
    };
    if !(tree.child_count(args) > 2 && !tree.is_kind(args, "lambda_literal")) {
        return Ok(String::new());
    }
    let first = match tree.child(args, 1) {
        Some(f) => f,
        None => {
            return Err(Malformed);
        },
    };
    let v = match tree.child(first, 0) {
        Some(v) => v,
        None => {
            return Err(Malformed);
        },
    };
    let arg = if tree.is_kind(v, "value_argument_label") {
        let colon = match tree.next_sibling(v) {
            Some(c) => c,
            None => {
                return Err(Malformed);
            },
        };
        match tree.next_sibling(colon) {
            Some(value) => value,
            None => {
                return Err(Malformed);
            },
        }
    } else {
        v
    };
    if tree.is_kind(arg, "prefix_expression") {
        match tree.child(arg, 1) {
            Some(name) => Ok(tree.text(name).to_owned()),
            None => Err(Malformed),
        }
    } else {
        Ok(tree.text(arg).to_owned())
    }
}

/// The node numbers of a vector as the contracts see them.
pub open spec fn ints(v: Seq<usize>) -> Seq<int> {
    v.map_values(|x: usize| x as int)
}

/// A map between node numbers as the contracts see it.
pub open spec fn int_map(m: Map<usize, usize>) -> Map<int, int> {
    Map::new(
        |k: int| 0 <= k <= usize::MAX && m.dom().contains(k as usize),
        |k: int| m[k as usize] as int,
    )
}

/// The state of a builder that has built nothing.
pub open spec fn initial_build() -> BuildModel {
    BuildModel {
        tree: empty_view_tree(),
        calls: 0,
        pending: Seq::empty(),
        chain: None,
        ignored: Seq::empty(),
        placed: Map::empty(),
    }
}

fn holds(v: &Vec<usize>, x: usize) -> (r: bool)
    ensures
        r == ints(v@).contains(x as int),
{
    let mut i: usize = 0;
    while i < v.len()
        invariant
            i <= v.len(),
            forall|k: int| 0 <= k < i ==> ints(v@)[k] != x as int,
        decreases v.len() - i,
    {
        if v[i] == x {
            proof {
                assert(ints(v@)[i as int] == x as int);
            }
            return true;
        }
        i = i + 1;
    }
    false
}

/// The builder for one view declaration: the declaration, the syntax tree it
/// was read from, and the elements built so far.
pub struct ViewParser<'a> {
    tree: &'a SyntaxTree,
    struct_info: StructInfo,
    view_tree: ViewTree,
    in_call_expression: usize,
    /// The call suffixes of the chains whose modifier has not been met yet.
    navigation_expression_level: Vec<usize>,
    navigation_component_node_id: Option<usize>,
    ignore_nodes: Vec<usize>,
    id_to_tree_id: HashMap<usize, usize>,
}

impl<'a> ViewParser<'a> {
    /// The syntax tree that the builder reads.
    pub closed spec fn syntax(&self) -> TreeModel {
        self.tree@
    }

    /// The declaration that the builder works on.
    pub closed spec fn info(&self) -> StructModel {
        self.struct_info@
    }

    /// The builder's state.
    pub closed spec fn state(&self) -> BuildModel {
        BuildModel {
            tree: self.view_tree@,
            calls: self.in_call_expression as nat,
            pending: ints(self.navigation_expression_level@),
            chain: match self.navigation_component_node_id {
                Some(c) => Some(c as int),
                None => None,
            },
            ignored: ints(self.ignore_nodes@),
            placed: int_map(self.id_to_tree_id@),
        }
    }

    spec fn inv(&self) -> bool {
        &&& self.tree.wf()
        &&& self.view_tree.wf()
        &&& forall|k: usize| #[trigger]
            self.id_to_tree_id@.dom().contains(k) ==> self.id_to_tree_id@[k]
                < self.view_tree@.nodes.len()
    }

    /// The builder is between two walks: its trees are well formed, every
    /// remembered element exists, and it is inside no call.
    pub closed spec fn wf(&self) -> bool {
        self.inv() && self.in_call_expression == 0
    }

    /// A builder for the declaration `st`, read from `tree`.
    pub fn from_struct(st: StructInfo, tree: &'a SyntaxTree) -> (r: Self)
        requires
            tree.wf(),
        ensures
            r.wf(),
            r.syntax() == tree@,
            r.info() == st@,
            r.state() == initial_build(),
    {
        let r = ViewParser {
            tree,
            struct_info: st,
            view_tree: ViewTree::new(),
            in_call_expression: 0,
            navigation_expression_level: Vec::new(),
            navigation_component_node_id: None,
            ignore_nodes: Vec::new(),
            id_to_tree_id: HashMap::new(),
        };
        proof {
            assert(r.state().pending =~= Seq::empty());
            assert(r.state().ignored =~= Seq::empty());
            assert(r.state().placed =~= Map::empty());
        }
        r
    }

    /// No element that the builder has built has both text and children.
    pub proof fn lemma_text_excludes_children(&self)
        requires
            self.wf(),
        ensures
            crate::shape::exclusive(self.state().tree),
    {
        self.view_tree.lemma_shape();
    }

    /// The elements built so far.
    pub fn view_tree(&self) -> (r: &ViewTree)
        ensures
            r@ == self.state().tree,
    {
        &self.view_tree
    }

    fn extract_view_tag(&self, node: usize) -> (r: Result<Option<String>, Malformed>)
        requires
            self.tree.wf(),
        ensures
            match r {
                Ok(tag) => view_tag(self.tree@, node as int) == Ok::<
                    Option<Seq<char>>,
                    Malformed,
                >(opt_view(tag)),
                Err(e) => view_tag(self.tree@, node as int) is Err,
            },
    {
        match self.tree.child(node, 0) {
            None => Err(Malformed),
            Some(callee) => {
                if self.tree.is_kind(callee, "simple_identifier") {
                    Ok(Some(self.tree.text(callee).to_owned()))
                } else {
                    Ok(None)
                }
            },
        }
    }

    fn handle_call(&mut self, node: usize) -> (r: Result<bool, Malformed>)
        requires
            old(self).inv(),
            node < old(self).tree@.len(),
            old(self).in_call_expression <= node,
        ensures
            final(self).tree == old(self).tree,
            final(self).struct_info == old(self).struct_info,
            final(self).inv(),
            match r {
                Ok(go) => enter_call(old(self).tree@, node as int, old(self).state()) == Ok::<
                    (BuildModel, bool),
                    Malformed,
                >((final(self).state(), go)) && final(self).in_call_expression == old(
                    self,
                ).in_call_expression + 1,
                Err(e) => enter_call(old(self).tree@, node as int, old(self).state()) is Err,
            },
    {
        let tree = self.tree;
        self.in_call_expression = self.in_call_expression + 1;
        let tag = match self.extract_view_tag(node)? {
            Some(tag) => tag,
            None => {
                return Ok(true);
            },
        };
        let view_node = node_for_call(tree, tag.as_str(), node)?;
        let parent = match tree.parent(node) {
            Some(p) => p,
            None => {
                return Err(Malformed);
            },
        };
        let ghost before = old(self).state();
        let go = view_node.str_content.is_none();
        let k = match self.view_tree.open(view_node) {
            Some(k) => k,
            None => {
                return Err(Malformed);
            },
        };
        self.id_to_tree_id.insert(node, k);
        if tree.is_kind(parent, "navigation_expression") {
            self.navigation_component_node_id = Some(node);
        }
        proof {
            assert(self.state().placed =~= before.placed.insert(node as int, k as int));
        }
        Ok(go)
    }

    fn handle_navigation(&mut self, node: usize) -> (r: Result<(), Malformed>)
        requires
            old(self).inv(),
            node < old(self).tree@.len(),
        ensures
            final(self).tree == old(self).tree,
            final(self).struct_info == old(self).struct_info,
            final(self).in_call_expression == old(self).in_call_expression,
            final(self).inv(),
            match r {
                Ok(_) => enter_navigation(
                    old(self).tree@,
                    node as int,
                    old(self).state(),
                ) == Ok::<BuildModel, Malformed>(final(self).state()),
                Err(e) => enter_navigation(old(self).tree@, node as int, old(self).state()) is Err,
            },
    {
        let tree = self.tree;
        let parent = match tree.parent(node) {
            Some(p) => p,
            None => {
                return Err(Malformed);
            },
        };
        if !tree.is_kind(parent, "call_expression") {
            return Ok(());
        }
        let suffix = match tree.next_sibling(node) {
            Some(s) => s,
            None => {
                return Err(Malformed);
            },
        };
        if !tree.is_kind(suffix, "call_suffix") {
            return Err(Malformed);
        }
        let ghost before = old(self).state();
        self.navigation_expression_level.push(suffix);
        self.navigation_component_node_id = None;
        proof {
            assert(self.state().pending =~= before.pending.push(suffix as int));
        }
        Ok(())
    }

    fn handle_suffix(&mut self, node: usize) -> (r: Result<(), Malformed>)
        requires
            old(self).inv(),
            node < old(self).tree@.len(),
        ensures
            final(self).tree == old(self).tree,
            final(self).struct_info == old(self).struct_info,
            final(self).in_call_expression == old(self).in_call_expression,
            final(self).inv(),
            match r {
                Ok(_) => enter_suffix(
                    old(self).tree@,
                    node as int,
                    old(self).state(),
                ) == Ok::<BuildModel, Malformed>(final(self).state()),
                Err(e) => enter_suffix(old(self).tree@, node as int, old(self).state()) is Err,
            },
    {
        let tree = self.tree;
        let ghost before = old(self).state();
        let parent = match tree.parent(node) {
            Some(p) => p,
            None => {
                return Err(Malformed);
            },
        };
        let grand = match tree.parent(parent) {
            Some(g) => g,
            None => {
                return Err(Malformed);
            },
        };
        if !tree.is_kind(grand, "call_expression") {
            return Ok(());
        }
        let suffix = match self.navigation_expression_level.pop() {
            Some(s) => s,
            None => {
                return Err(Malformed);
            },
        };
        self.ignore_nodes.push(suffix);
        proof {
            assert(self.state().pending =~= before.pending.drop_last());
            assert(self.state().ignored =~= before.ignored.push(suffix as int));
            assert(before.pending.last() == suffix as int);
        }
        let name = match tree.child(node, 1) {
            Some(n) => n,
            None => {
                return Err(Malformed);
            },
        };
        let value = value_of_modifier(tree, suffix)?;
        if str_eq(tree.text(name), "contextMenu") {
            return Ok(());
        }
        let key = if str_eq(tree.text(name), "onTapGesture") {
            "@click".to_owned()
        } else {
            tree.text(name).to_owned()
        };
        let call = match self.navigation_component_node_id {
            Some(c) => c,
            None => {
                return Err(Malformed);
            },
        };
        let k = match self.id_to_tree_id.get(&call) {
            Some(k) => *k,
            None => {
                return Err(Malformed);
            },
        };
        self.view_tree.set_attr(k, key, value);
        Ok(())
    }

    fn handle_node(&mut self, node: usize) -> (r: Result<bool, Malformed>)
        requires
            old(self).inv(),
            node < old(self).tree@.len(),
            old(self).in_call_expression <= node,
        ensures
            final(self).tree == old(self).tree,
            final(self).struct_info == old(self).struct_info,
            final(self).inv(),
            match r {
                Ok(go) => enter_view(
                    old(self).tree@,
                    node as int,
                    old(self).state(),
                ) == Ok::<(BuildModel, bool), Malformed>((final(self).state(), go))
                    && final(self).in_call_expression <= node + 1
                    && final(self).in_call_expression == old(self).in_call_expression + (if old(
                    self,
                ).tree@[node as int].kind == "call_expression"@ {
                    1int
                } else {
                    0int
                }),
                Err(e) => enter_view(old(self).tree@, node as int, old(self).state()) is Err,
            },
    {
        let tree = self.tree;
        let is_call = tree.is_kind(node, "call_expression");
        if tree.is_kind(node, "comment") {
            proof {
                reveal_strlit("comment");
                reveal_strlit("call_expression");
                assert("comment"@.len() != "call_expression"@.len());
            }
            return Ok(false);
        }
        if is_call {
            return self.handle_call(node);
        }
        if tree.is_kind(node, "navigation_expression") {
            self.handle_navigation(node)?;
            return Ok(true);
        }
        if tree.is_kind(node, "navigation_suffix") {
            self.handle_suffix(node)?;
            return Ok(true);
        }
        if tree.is_kind(node, "call_suffix") {
            return Ok(!holds(&self.ignore_nodes, node));
        }
        Ok(true)
    }

    fn handle_node_post(&mut self, node: usize) -> (r: Result<(), Malformed>)
        requires
            old(self).inv(),
            node < old(self).tree@.len(),
        ensures
            final(self).tree == old(self).tree,
            final(self).struct_info == old(self).struct_info,
            final(self).inv(),
            match r {
                Ok(_) => leave_view(
                    old(self).tree@,
                    node as int,
                    old(self).state(),
                ) == Ok::<BuildModel, Malformed>(final(self).state())
                    && final(self).in_call_expression == (if old(self).tree@[node as int].kind
                    == "call_expression"@ && old(self).in_call_expression > 0 {
                    old(self).in_call_expression - 1
                } else {
                    old(self).in_call_expression as int
                }),
                Err(e) => leave_view(old(self).tree@, node as int, old(self).state()) is Err,
            },
    {
        let tree = self.tree;
        if tree.is_kind(node, "call_expression") {
            if self.in_call_expression > 0 {
                self.in_call_expression = self.in_call_expression - 1;
            }
            match self.extract_view_tag(node)? {
                Some(_) => {
                    self.view_tree.close();
                    match tree.parent(node) {
                        Some(p) => {
                            if tree.is_kind(p, "navigation_expression") {
                                self.navigation_component_node_id = Some(node);
                            }
                        },
                        None => {},
                    }
                },
                None => {},
            }
        }
        Ok(())
    }

    fn handle_struct(&mut self, node: usize) -> (r: Result<(), Malformed>)
        requires
            old(self).inv(),
            old(self).in_call_expression <= node,
        ensures
            final(self).tree == old(self).tree,
            final(self).struct_info == old(self).struct_info,
            final(self).inv(),
            match r {
                Ok(_) => build(
                    old(self).tree@,
                    node as int,
                    old(self).state(),
                ) == Ok::<BuildModel, Malformed>(final(self).state())
                    && final(self).in_call_expression == old(self).in_call_expression,
                Err(e) => build(old(self).tree@, node as int, old(self).state()) is Err,
            },
        decreases old(self).tree@.len() - node, child_count_of(old(self).tree@, node as int) + 1,
    {
        let tree = self.tree;
        if node >= tree.len() {
            return Err(Malformed);
        }
        let go = self.handle_node(node)?;
        if go {
            let ghost entered = self.state();
            let ghost level = self.in_call_expression;
            let n = tree.child_count(node);
            let mut j: usize = 0;
            while j < n
                invariant
                    self.inv(),
                    self.tree == old(self).tree,
                    self.tree == tree,
                    self.struct_info == old(self).struct_info,
                    j <= n,
                    node < tree@.len(),
                    n == child_count_of(tree@, node as int),
                    self.in_call_expression == level,
                    level <= node + 1,
                    build_from(tree@, node as int, 0, entered) == build_from(
                        tree@,
                        node as int,
                        j as int,
                        self.state(),
                    ),
                    enter_view(tree@, node as int, old(self).state()) == Ok::<
                        (BuildModel, bool),
                        Malformed,
                    >((entered, true)),
                decreases n - j,
            {
                match tree.child(node, j) {
                    None => {
                        return Err(Malformed);
                    },
                    Some(c) => {
                        self.handle_struct(c)?;
                    },
                }
                j = j + 1;
            }
        }
        self.handle_node_post(node)
    }
}

/// The pattern of a constructor call whose arguments all carry labels, as
/// written inside a statement: a name, and in parentheses a text with a colon
/// and without parentheses of its own.
pub open spec fn labeled_call_pattern() -> Seq<char> {
    "(\\w+)\\(([^()]+:[^)]+)\\)"@
}

/// What a call that matches the pattern is replaced by: an object literal
/// that holds the call's arguments.
pub open spec fn object_literal_template() -> Seq<char> {
    "{ $2 }"@
}

/// A text followed by the result of what comes after it.
pub open spec fn after(prefix: Seq<char>, rest: Result<Seq<char>, Malformed>) -> Result<
    Seq<char>,
    Malformed,
> {
    match rest {
        Ok(s) => Ok(prefix + s),
        Err(e) => Err(e),
    }
}

/// Whether the member `name` is a property with the state attribute.
pub open spec fn is_state_property(members: Entries<MemberModel>, name: Seq<char>) -> bool {
    match lookup(members, name) {
        Some(MemberModel::Property { node, modifier }) => modifier == Some("State"@),
        _ => false,
    }
}

/// The script line for the statement `c` of a function body. An assignment to
/// a state property writes through the property's reference; any other
/// assignment stays as written. In any other statement every call with
/// labeled arguments only becomes an object literal.
pub open spec fn statement_text(t: TreeModel, members: Entries<MemberModel>, c: int) -> Result<
    Seq<char>,
    Malformed,
> {
    if t[c].kind == "assignment"@ {
        match child_at(t, c, 0) {
            None => Err(Malformed),
            Some(target) => if is_state_property(members, t[target].text) {
                match child_at(t, c, 1) {
                    None => Err(Malformed),
                    Some(op) => match child_at(t, c, 2) {
                        None => Err(Malformed),
                        Some(v) => Ok(
                            t[target].text + ".value "@ + t[op].text + " "@ + t[v].text + ";\n"@,
                        ),
                    },
                }
            } else {
                Ok(t[c].text + "\n"@)
            },
        }
    } else {
        Ok(
            rewritten_or(
                t[c].text,
                regex_replaced(labeled_call_pattern(), t[c].text, object_literal_template()),
            ) + "\n"@,
        )
    }
}

/// The script lines for the statements of `id` from the `j`-th on.
pub open spec fn function_text_from(
    t: TreeModel,
    members: Entries<MemberModel>,
    id: int,
    j: int,
) -> Result<Seq<char>, Malformed>
    decreases child_count_of(t, id) - j,
{
    match child_at(t, id, j) {
        None => Ok(Seq::empty()),
        Some(c) => match statement_text(t, members, c) {
            Err(e) => Err(e),
            Ok(line) => after(line, function_text_from(t, members, id, j + 1)),
        },
    }
}

/// The script lines for the function body at node `id`.
pub open spec fn function_text(t: TreeModel, members: Entries<MemberModel>, id: int) -> Result<
    Seq<char>,
    Malformed,
> {
    if 0 <= id < t.len() && t[id].kind == "statements"@ {
        function_text_from(t, members, id, 0)
    } else {
        Err(Malformed)
    }
}

/// The script text for the initializer at node `id`: an array literal or a
/// constructor call rewritten, anything else as written.
pub open spec fn member_expression_text(t: TreeModel, id: int) -> Result<Seq<char>, Malformed> {
    if !(0 <= id < t.len()) {
        Err(Malformed)
    } else if t[id].kind == "array_literal"@ {
        array_text(t, id, Seq::empty())
    } else if t[id].kind == "call_expression"@ {
        call_object(t, id)
    } else {
        Ok(t[id].text)
    }
}

impl<'a> ViewParser<'a> {
    fn statement(&self, c: usize) -> (r: Result<String, Malformed>)
        requires
            self.tree.wf(),
            c < self.tree@.len(),
        ensures
            match r {
                Ok(s) => statement_text(self.tree@, self.struct_info@.members, c as int) == Ok::<
                    Seq<char>,
                    Malformed,
                >(s@),
                Err(e) => statement_text(self.tree@, self.struct_info@.members, c as int) is Err,
            },
    {
        let tree = self.tree;
        let mut out = String::new();
        if tree.is_kind(c, "assignment") {
            let target = match tree.child(c, 0) {
                Some(t) => t,
                None => {
                    return Err(Malformed);
                },
            };
            proof {
                lemma_struct_view(self.struct_info);
                lemma_member_lookup(self.struct_info.members@, tree@[target as int].text);
            }
            let state = match self.struct_info.members.get(tree.text(target)) {
                Some(StructMember::Property { node: _, modifier }) => opt_str_eq(modifier, "State"),
                _ => false,
            };
            if state {
                let op = match tree.child(c, 1) {
                    Some(o) => o,
                    None => {
                        return Err(Malformed);
                    },
                };
                let v = match tree.child(c, 2) {
                    Some(v) => v,
                    None => {
                        return Err(Malformed);
                    },
                };
                out.append(tree.text(target));
                out.append(".value ");
                out.append(tree.text(op));
                out.append(" ");
                out.append(tree.text(v));
                out.append(";\n");
            } else {
                out.append(tree.text(c));
                out.append("\n");
            }
        } else {
            let text = tree.text(c);
            let rewritten = regex_replace_all("(\\w+)\\(([^()]+:[^)]+)\\)", text, "{ $2 }");
            out.append(rewritten_or_same(text, rewritten).as_str());
            out.append("\n");
        }
        Ok(out)
    }

    fn handle_fn(&self, node: usize) -> (r: Result<String, Malformed>)
        requires
            self.tree.wf(),
        ensures
            match r {
                Ok(s) => function_text(self.tree@, self.struct_info@.members, node as int) == Ok::<
                    Seq<char>,
                    Malformed,
                >(s@),
                Err(e) => function_text(self.tree@, self.struct_info@.members, node as int) is Err,
            },
    {
        let tree = self.tree;
        if !tree.is_kind(node, "statements") {
            return Err(Malformed);
        }
        let ghost members = self.struct_info@.members;
        let ghost goal = function_text_from(tree@, members, node as int, 0);
        let mut code = String::new();
        let n = tree.child_count(node);
        let mut j: usize = 0;
        proof {
            assert(goal == after(code@, goal)) by {
                match goal {
                    Ok(s) => {
                        assert(code@ + s =~= s);
                    },
                    Err(_) => {},
                }
            }
        }
        while j < n
            invariant
                tree.wf(),
                self.tree == tree,
                members == self.struct_info@.members,
                j <= n,
                n == child_count_of(tree@, node as int),
                goal == function_text_from(tree@, members, node as int, 0),
                goal == after(code@, function_text_from(tree@, members, node as int, j as int)),
            decreases n - j,
        {
            let c = match tree.child(node, j) {
                Some(c) => c,
                None => {
                    return Err(Malformed);
                },
            };
            let ghost sofar = code@;
            let line = self.statement(c)?;
            code.append(line.as_str());
            proof {
                match function_text_from(tree@, members, node as int, j as int + 1) {
                    Ok(rest) => {
                        assert(sofar + (line@ + rest) =~= (sofar + line@) + rest);
                    },
                    Err(_) => {},
                }
            }
            j = j + 1;
        }
        proof {
            assert(code@ + Seq::<char>::empty() =~= code@);
        }
        Ok(code)
    }

    fn handle_member_expression(&self, node: usize) -> (r: Result<String, Malformed>)
        requires
            self.tree.wf(),
        ensures
            match r {
                Ok(s) => member_expression_text(self.tree@, node as int) == Ok::<
                    Seq<char>,
                    Malformed,
                >(s@),
                Err(e) => member_expression_text(self.tree@, node as int) is Err,
            },
    {
        let tree = self.tree;
        if node >= tree.len() {
            return Err(Malformed);
        }
        if tree.is_kind(node, "array_literal") {
            let names = self.struct_info.sub_names();
            let r = array2js_call_with_obj_context(tree, node, "", &names);
            proof {
                reveal_strlit("");
                assert(""@ =~= Seq::<char>::empty());
            }
            return r;
        }
        if tree.is_kind(node, "call_expression") {
            let names = self.struct_info.sub_names();
            return callexp2object_with_context(tree, node, &names);
        }
        Ok(tree.text(node).to_owned())
    }
}

/// Why a component could not be generated.
#[derive(Debug)]
pub enum GenerateError {
    /// The declaration holds a construct that the builder recognises and does
    /// not support.
    Unsupported(ViewParseError),
    /// The syntax tree lacks a node that the builder calls for.
    Malformed,
}

/// A failure as the contracts see it.
pub enum GenerateErrorModel {
    Unsupported(ErrorModel),
    Malformed,
}

impl View for GenerateError {
    type V = GenerateErrorModel;

    open spec fn view(&self) -> GenerateErrorModel {
        match self {
            GenerateError::Unsupported(e) => GenerateErrorModel::Unsupported(e@),
            GenerateError::Malformed => GenerateErrorModel::Malformed,
        }
    }
}

/// The message for a property whose initializer is a call that starts with a
/// closure.
pub open spec fn closure_property_message() -> Seq<char> {
    "\u{76ee}\u{524d}\u{4e0d}\u{652f}\u{6301}\u{95ed}\u{5305}\u{5c5e}\u{6027}"@
}

/// A text read from the syntax tree, or the failure to read it.
pub open spec fn lifted(r: Result<Seq<char>, Malformed>) -> Result<Seq<char>, GenerateErrorModel> {
    match r {
        Ok(s) => Ok(s),
        Err(_) => Err(GenerateErrorModel::Malformed),
    }
}

/// Whether the first child of node `id` is a closure.
pub open spec fn closure_first(t: TreeModel, id: int) -> bool {
    match child_at(t, id, 0) {
        Some(f) => t[f].kind == "lambda_literal"@,
        None => false,
    }
}

/// The binding for the property `key`. A state property is a reference to its
/// initializer, or a reactive container where the initializer is an array; any
/// other property is a constant. A property that is no state and whose
/// initializer is a call that starts with a closure is not supported.
pub open spec fn property_code(
    t: TreeModel,
    key: Seq<char>,
    node: int,
    modifier: Option<Seq<char>>,
) -> Result<Seq<char>, GenerateErrorModel> {
    if modifier == Some("State"@) {
        if has_kind(t, node, "line_string_literal"@) || has_kind(t, node, "integer_literal"@) {
            Ok("const "@ + key + " = ref("@ + t[node].text + ");"@)
        } else {
            match member_expression_text(t, node) {
                Err(_) => Err(GenerateErrorModel::Malformed),
                Ok(code) => if t[node].kind == "array_literal"@ {
                    Ok("const "@ + key + " = reactive("@ + code + ");"@)
                } else {
                    Ok("const "@ + key + " = ref("@ + code + ");"@)
                },
            }
        }
    } else if has_kind(t, node, "call_expression"@) && closure_first(t, node) {
        match parent_of(t, node) {
            None => Err(GenerateErrorModel::Malformed),
            Some(p) => Err(
                GenerateErrorModel::Unsupported(error_at(closure_property_message(), t, p)),
            ),
        }
    } else {
        match member_expression_text(t, node) {
            Err(_) => Err(GenerateErrorModel::Malformed),
            Ok(code) => Ok("const "@ + key + " = "@ + code + ";"@),
        }
    }
}

/// The lines of a function's body as they stand in the script: each piece
/// without the white space around it, the empty ones left out, the others
/// indented.
pub open spec fn body_lines(pieces: Seq<Seq<char>>) -> Seq<Seq<char>>
    decreases pieces.len(),
{
    if pieces.len() == 0 {
        Seq::empty()
    } else if trimmed(pieces.last()).len() > 0 {
        body_lines(pieces.drop_last()).push("            "@ + trimmed(pieces.last()))
    } else {
        body_lines(pieces.drop_last())
    }
}

/// The binding for the function `key`: a closure without parameters around
/// the script lines of its body.
pub open spec fn function_code(
    t: TreeModel,
    members: Entries<MemberModel>,
    key: Seq<char>,
    node: int,
) -> Result<Seq<char>, GenerateErrorModel> {
    match function_text(t, members, node) {
        Err(_) => Err(GenerateErrorModel::Malformed),
        Ok(body) => Ok(
            "const "@ + key + " = () => {\n"@ + join(body_lines(split_on(body, '\n')), "\n"@)
                + "\n        };"@,
        ),
    }
}

/// The binding for one member.
pub open spec fn member_code(
    t: TreeModel,
    members: Entries<MemberModel>,
    key: Seq<char>,
    m: MemberModel,
) -> Result<Seq<char>, GenerateErrorModel> {
    match m {
        MemberModel::Property { node, modifier } => property_code(t, key, node, modifier),
        MemberModel::Function(node) => function_code(t, members, key, node),
    }
}

/// The bindings and the exported names once the members from the `i`-th on
/// are added to `code` and `exported`. The member `body` is the view's markup
/// and adds nothing.
pub open spec fn setup_from(
    t: TreeModel,
    members: Entries<MemberModel>,
    i: int,
    code: Seq<char>,
    exported: Seq<Seq<char>>,
) -> Result<(Seq<char>, Seq<Seq<char>>), GenerateErrorModel>
    decreases members.len() - i,
{
    if i < 0 || i >= members.len() {
        Ok((code, exported))
    } else if members[i].0 == "body"@ {
        setup_from(t, members, i + 1, code, exported)
    } else {
        match member_code(t, members, members[i].0, members[i].1) {
            Err(e) => Err(e),
            Ok(c) => setup_from(
                t,
                members,
                i + 1,
                code + "        "@ + c + "\n"@,
                exported.push(members[i].0),
            ),
        }
    }
}

/// Whether the declaration is a view.
pub open spec fn is_view(info: StructModel) -> bool {
    info.inheritance == Some("View"@)
}

/// The body of the setup function: one binding per member, then the
/// statement that returns every bound name and every name of `runtimes`.
pub open spec fn setup_code(t: TreeModel, info: StructModel, runtimes: Seq<Seq<char>>) -> Result<
    Seq<char>,
    GenerateErrorModel,
> {
    if !is_view(info) {
        Ok(Seq::empty())
    } else {
        match setup_from(t, info.members, 0, Seq::empty(), Seq::empty()) {
            Err(e) => Err(e),
            Ok((code, exported)) => Ok(
                trimmed_end(code) + "\n"@ + "        return { "@ + join(
                    exported + runtimes,
                    ", "@,
                ) + " };"@,
            ),
        }
    }
}

fn indent_lines(body: &str) -> (r: String)
    ensures
        r@ == join(body_lines(split_on(body@, '\n')), "\n"@),
{
    let pieces = split(body, '\n');
    let mut lines: Vec<String> = Vec::new();
    let mut i: usize = 0;
    while i < pieces.len()
        invariant
            i <= pieces.len(),
            views(lines@) == body_lines(views(pieces@).take(i as int)),
        decreases pieces.len() - i,
    {
        let ghost before = views(lines@);
        proof {
            let next = views(pieces@).take(i as int + 1);
            assert(next.drop_last() =~= views(pieces@).take(i as int));
            assert(next.last() == pieces@[i as int]@);
        }
        let line = trim(pieces[i].as_str());
        if line.unicode_len() > 0 {
            let mut out = String::new();
            out.append("            ");
            out.append(line);
            lines.push(out);
            proof {
                assert(views(lines@) =~= before.push("            "@ + line@));
            }
        }
        i = i + 1;
    }
    proof {
        assert(views(pieces@).take(pieces@.len() as int) =~= views(pieces@));
    }
    join_strs(&lines, "\n")
}

impl<'a> ViewParser<'a> {
    fn property(&self, key: &str, node: usize, modifier: &Option<String>) -> (r: Result<
        String,
        GenerateError,
    >)
        requires
            self.tree.wf(),
        ensures
            match r {
                Ok(s) => property_code(self.tree@, key@, node as int, opt_view(*modifier)) == Ok::<
                    Seq<char>,
                    GenerateErrorModel,
                >(s@),
                Err(e) => property_code(self.tree@, key@, node as int, opt_view(*modifier)) == Err::<
                    Seq<char>,
                    GenerateErrorModel,
                >(e@),
            },
    {
        let tree = self.tree;
        let mut out = String::new();
        out.append("const ");
        out.append(key);
        if opt_str_eq(modifier, "State") {
            if tree.is_kind(node, "line_string_literal") || tree.is_kind(node, "integer_literal") {
                out.append(" = ref(");
                out.append(tree.text(node));
                out.append(");");
                return Ok(out);
            }
            let code = match self.handle_member_expression(node) {
                Ok(c) => c,
                Err(_) => {
                    return Err(GenerateError::Malformed);
                },
            };
            if tree.is_kind(node, "array_literal") {
                out.append(" = reactive(");
            } else {
                out.append(" = ref(");
            }
            out.append(code.as_str());
            out.append(");");
            return Ok(out);
        }
        if tree.is_kind(node, "call_expression") {
            match tree.child(node, 0) {
                Some(first) => {
                    if tree.is_kind(first, "lambda_literal") {
                        return match tree.parent(node) {
                            None => Err(GenerateError::Malformed),
                            Some(p) => Err(
                                GenerateError::Unsupported(
                                    ViewParseError::new(
                                        "\u{76ee}\u{524d}\u{4e0d}\u{652f}\u{6301}\u{95ed}\u{5305}\u{5c5e}\u{6027}".to_owned(),
                                        tree,
                                        p,
                                    ),
                                ),
                            ),
                        };
                    }
                },
                None => {},
            }
        }
        let code = match self.handle_member_expression(node) {
            Ok(c) => c,
            Err(_) => {
                return Err(GenerateError::Malformed);
            },
        };
        out.append(" = ");
        out.append(code.as_str());
        out.append(";");
        Ok(out)
    }

    fn function(&self, key: &str, node: usize) -> (r: Result<String, GenerateError>)
        requires
            self.tree.wf(),
        ensures
            match r {
                Ok(s) => function_code(self.tree@, self.struct_info@.members, key@, node as int)
                    == Ok::<Seq<char>, GenerateErrorModel>(s@),
                Err(e) => function_code(self.tree@, self.struct_info@.members, key@, node as int)
                    == Err::<Seq<char>, GenerateErrorModel>(e@),
            },
    {
        let body = match self.handle_fn(node) {
            Ok(b) => b,
            Err(_) => {
                return Err(GenerateError::Malformed);
            },
        };
        let mut out = String::new();
        out.append("const ");
        out.append(key);
        out.append(" = () => {\n");
        out.append(indent_lines(body.as_str()).as_str());
        out.append("\n        };");
        Ok(out)
    }

    fn generate_setup_code(&self, runtimes: &Vec<String>) -> (r: Result<String, GenerateError>)
        requires
            self.tree.wf(),
        ensures
            match r {
                Ok(s) => setup_code(self.tree@, self.struct_info@, views(runtimes@)) == Ok::<
                    Seq<char>,
                    GenerateErrorModel,
                >(s@),
                Err(e) => setup_code(self.tree@, self.struct_info@, views(runtimes@)) == Err::<
                    Seq<char>,
                    GenerateErrorModel,
                >(e@),
            },
    {
        proof {
            lemma_struct_view(self.struct_info);
        }
        if !opt_str_eq(&self.struct_info.inheritance, "View") {
            return Ok(String::new());
        }
        let ghost members = self.struct_info@.members;
        let ghost goal = setup_from(self.tree@, members, 0, Seq::empty(), Seq::empty());
        let mut code = String::new();
        let mut exported: Vec<String> = Vec::new();
        proof {
            assert(views(exported@) =~= Seq::<Seq<char>>::empty());
        }
        let n = self.struct_info.members.len();
        let mut i: usize = 0;
        while i < n
            invariant
                self.tree.wf(),
                i <= n,
                n == self.struct_info.members@.len(),
                members == self.struct_info@.members,
                members == member_views(self.struct_info.members@),
                is_view(self.struct_info@),
                goal == setup_from(self.tree@, members, 0, Seq::empty(), Seq::empty()),
                goal == setup_from(self.tree@, members, i as int, code@, views(exported@)),
            decreases n - i,
        {
            let key = self.struct_info.members.key_at(i);
            let ghost before = views(exported@);
            let ghost sofar = code@;
            if !str_eq(key, "body") {
                let made = match self.struct_info.members.value_at(i) {
                    StructMember::Property { node, modifier } => self.property(
                        key,
                        *node,
                        modifier,
                    ),
                    StructMember::Function(node) => self.function(key, *node),
                };
                let line = match made {
                    Ok(line) => line,
                    Err(e) => {
                        return Err(e);
                    },
                };
                exported.push(key.to_owned());
                code.append("        ");
                code.append(line.as_str());
                code.append("\n");
                proof {
                    assert(views(exported@) =~= before.push(key@));
                    assert(code@ =~= sofar + "        "@ + line@ + "\n"@);
                }
            }
            i = i + 1;
        }
        let ghost own = views(exported@);
        let mut k: usize = 0;
        while k < runtimes.len()
            invariant
                k <= runtimes.len(),
                views(exported@) == own + views(runtimes@).take(k as int),
            decreases runtimes.len() - k,
        {
            let ghost before = views(exported@);
            exported.push(runtimes[k].clone());
            proof {
                assert(views(exported@) =~= before.push(runtimes@[k as int]@));
                assert(views(runtimes@).take(k as int + 1) =~= views(runtimes@).take(
                    k as int,
                ).push(runtimes@[k as int]@));
                assert(views(exported@) =~= own + views(runtimes@).take(k as int + 1));
            }
            k = k + 1;
        }
        proof {
            assert(views(runtimes@).take(runtimes@.len() as int) =~= views(runtimes@));
        }
        let mut out = String::new();
        out.append(trim_end(code.as_str()));
        out.append("\n");
        out.append("        return { ");
        out.append(join_strs(&exported, ", ").as_str());
        out.append(" };");
        Ok(out)
    }
}

/// The node of the view's markup: the initializer of the property `body`.
pub open spec fn body_node(info: StructModel) -> Option<int> {
    match lookup(info.members, "body"@) {
        Some(MemberModel::Property { node, modifier }) => Some(node),
        _ => None,
    }
}

/// The builder's state after reading the view's body, and the markup of the
/// elements it then holds. A declaration that is no view has no markup; a
/// view without any element is malformed.
pub open spec fn template_text(t: TreeModel, info: StructModel, st: BuildModel) -> Result<
    (BuildModel, Seq<char>),
    Malformed,
> {
    if !is_view(info) {
        Ok((st, Seq::empty()))
    } else {
        let built = match body_node(info) {
            Some(b) => build(t, b, st),
            None => Ok(st),
        };
        match built {
            Err(e) => Err(e),
            Ok(st2) => match tree_markup(st2.tree) {
                None => Err(Malformed),
                Some(m) => Ok((st2, m)),
            },
        }
    }
}

/// The factory functions of the nested declarations from the `i`-th on, each
/// followed by a line feed.
pub open spec fn sub_factories_from(t: TreeModel, subs: Seq<StructModel>, i: int) -> Result<
    Seq<char>,
    Malformed,
>
    decreases subs.len() - i,
{
    if i < 0 || i >= subs.len() {
        Ok(Seq::empty())
    } else {
        match model_factory(t, subs[i].node) {
            Err(e) => Err(e),
            Ok(code) => after(code + "\n"@, sub_factories_from(t, subs, i + 1)),
        }
    }
}

/// The factory functions of the nested declarations, without white space
/// around them.
pub open spec fn sub_struct_text(t: TreeModel, subs: Seq<StructModel>) -> Result<
    Seq<char>,
    Malformed,
> {
    match sub_factories_from(t, subs, 0) {
        Err(e) => Err(e),
        Ok(code) => Ok(trimmed(code)),
    }
}

/// The line that imports the module `name` from the file of the same name.
pub open spec fn import_line(name: Seq<char>) -> Seq<char> {
    "import "@ + name + " from './"@ + name + ".js'"@
}

/// One import line per name.
pub open spec fn import_lines(names: Seq<Seq<char>>) -> Seq<char> {
    join(names.map_values(|n: Seq<char>| import_line(n)), "\n"@)
}

/// The component that stands in for a view that could not be generated.
pub open spec fn empty_component_text() -> Seq<char> {
    "export default {\n    setup() {\n    },\n    template: `<div></div>`\n}"@
}

/// The module of a component before the white space around it is taken off:
/// the imports, the factory functions, and the exported component with its
/// child components, its setup function and its template.
pub open spec fn component_text(
    builtin: Seq<Seq<char>>,
    views: Seq<Seq<char>>,
    factories: Seq<char>,
    setup: Seq<char>,
    template: Seq<char>,
) -> Seq<char> {
    "\n"@ + import_lines(builtin) + "\n"@ + import_lines(views) + "\n\n"@ + factories
        + "\n\nexport default {\n    components: {\n        "@ + join(views, ", "@)
        + "\n    },\n    setup() {\n"@ + setup + "\n    },\n    template: `"@ + template
        + "`\n}\n        "@
}

/// The builder's state after generating the component of a view, and the
/// module text. A declaration that is no view has no module text.
pub open spec fn component_code(
    t: TreeModel,
    info: StructModel,
    st: BuildModel,
    builtin: Seq<Seq<char>>,
    views: Seq<Seq<char>>,
) -> Result<(BuildModel, Seq<char>), GenerateErrorModel> {
    if !is_view(info) {
        Ok((st, Seq::empty()))
    } else {
        match template_text(t, info, st) {
            Err(_) => Err(GenerateErrorModel::Malformed),
            Ok((st2, markup)) => match setup_code(t, info, builtin) {
                Err(e) => Err(e),
                Ok(setup) => match sub_struct_text(t, info.sub) {
                    Err(_) => Err(GenerateErrorModel::Malformed),
                    Ok(factories) => Ok(
                        (
                            st2,
                            trimmed(
                                component_text(
                                    builtin,
                                    views,
                                    factories,
                                    setup,
                                    without_char(markup, '\n'),
                                ),
                            ),
                        ),
                    ),
                },
            },
        }
    }
}

fn imports(names: &Vec<String>) -> (r: String)
    ensures
        r@ == import_lines(views(names@)),
{
    let mut lines: Vec<String> = Vec::new();
    let mut i: usize = 0;
    while i < names.len()
        invariant
            i <= names.len(),
            views(lines@) == views(names@).take(i as int).map_values(
                |n: Seq<char>| import_line(n),
            ),
        decreases names.len() - i,
    {
        let ghost before = views(lines@);
        let name = names[i].as_str();
        let mut line = String::new();
        line.append("import ");
        line.append(name);
        line.append(" from './");
        line.append(name);
        line.append(".js'");
        lines.push(line);
        proof {
            assert(views(lines@) =~= before.push(import_line(name@)));
            assert(views(lines@) =~= views(names@).take(i as int + 1).map_values(
                |n: Seq<char>| import_line(n),
            ));
        }
        i = i + 1;
    }
    proof {
        assert(views(names@).take(names@.len() as int) =~= views(names@));
    }
    join_strs(&lines, "\n")
}

impl<'a> ViewParser<'a> {
    /// Reads the view's body into elements and writes their markup.
    ///
    /// Fails where the body lacks a node that the builder calls for, or where
    /// the view has no element; the builder's state is then not stated.
    pub fn generate_template(&mut self) -> (r: Result<String, Malformed>)
        requires
            old(self).wf(),
        ensures
            final(self).wf(),
            final(self).syntax() == old(self).syntax(),
            final(self).info() == old(self).info(),
            match r {
                Ok(s) => template_text(old(self).syntax(), old(self).info(), old(self).state())
                    == Ok::<(BuildModel, Seq<char>), Malformed>((final(self).state(), s@)),
                Err(e) => template_text(old(self).syntax(), old(self).info(), old(self).state())
                    is Err,
            },
    {
        proof {
            lemma_struct_view(self.struct_info);
            lemma_member_lookup(self.struct_info.members@, "body"@);
        }
        if !opt_str_eq(&self.struct_info.inheritance, "View") {
            return Ok(String::new());
        }
        let body = match self.struct_info.members.get("body") {
            Some(StructMember::Property { node, modifier: _ }) => Some(*node),
            _ => None,
        };
        match body {
            Some(b) => {
                match self.handle_struct(b) {
                    Ok(_) => {},
                    Err(e) => {
                        self.in_call_expression = 0;
                        return Err(e);
                    },
                }
            },
            None => {},
        }
        match self.view_tree.render() {
            Some(markup) => Ok(markup),
            None => Err(Malformed),
        }
    }

    fn generate_sub_struct(&self) -> (r: Result<String, Malformed>)
        requires
            self.tree.wf(),
        ensures
            match r {
                Ok(s) => sub_struct_text(self.tree@, self.struct_info@.sub) == Ok::<
                    Seq<char>,
                    Malformed,
                >(s@),
                Err(e) => sub_struct_text(self.tree@, self.struct_info@.sub) is Err,
            },
    {
        proof {
            lemma_struct_view(self.struct_info);
        }
        let tree = self.tree;
        let ghost subs = self.struct_info@.sub;
        let ghost goal = sub_factories_from(tree@, subs, 0);
        let mut out = String::new();
        proof {
            assert(goal == after(out@, goal)) by {
                match goal {
                    Ok(s) => {
                        assert(out@ + s =~= s);
                    },
                    Err(_) => {},
                }
            }
        }
        let n = self.struct_info.sub.len();
        let mut i: usize = 0;
        while i < n
            invariant
                tree.wf(),
                self.tree == tree,
                i <= n,
                n == self.struct_info.sub@.len(),
                subs == self.struct_info@.sub,
                subs == crate::paser::struct_views(self.struct_info.sub@),
                goal == sub_factories_from(tree@, subs, 0),
                goal == after(out@, sub_factories_from(tree@, subs, i as int)),
            decreases n - i,
        {
            proof {
                lemma_struct_view(self.struct_info.sub@[i as int]);
            }
            let ghost sofar = out@;
            let code = date_model2js_fn(tree, self.struct_info.sub[i].node)?;
            out.append(code.as_str());
            out.append("\n");
            proof {
                match sub_factories_from(tree@, subs, i as int + 1) {
                    Ok(rest) => {
                        assert(sofar + ((code@ + "\n"@) + rest) =~= (sofar + code@ + "\n"@)
                            + rest);
                    },
                    Err(_) => {},
                }
            }
            i = i + 1;
        }
        proof {
            assert(out@ + Seq::<char>::empty() =~= out@);
        }
        Ok(trim(out.as_str()).to_owned())
    }

    /// The component that stands in for a view that could not be generated;
    /// nothing for a declaration that is no view.
    pub fn generate_empty_component(self) -> (r: String)
        ensures
            r@ == (if is_view(self.info()) {
                empty_component_text()
            } else {
                Seq::empty()
            }),
    {
        proof {
            lemma_struct_view(self.struct_info);
        }
        if !opt_str_eq(&self.struct_info.inheritance, "View") {
            return String::new();
        }
        "export default {\n    setup() {\n    },\n    template: `<div></div>`\n}".to_owned()
    }

    /// Generates the module of the view's component: import lines for the
    /// names of `builtin` and of `views`, the factory functions of the nested
    /// declarations, and the exported component, whose setup function also
    /// returns the names of `builtin` and whose child components are `views`.
    ///
    /// Fails with `Unsupported` where a property that is no state is
    /// initialized by a call that starts with a closure, and with `Malformed`
    /// where the syntax tree lacks a node that the builder calls for; the
    /// builder's state is then not stated.
    pub fn generate_component_code(&mut self, builtin: Vec<String>, views: Vec<String>) -> (r:
        Result<String, GenerateError>)
        requires
            old(self).wf(),
        ensures
            final(self).wf(),
            final(self).syntax() == old(self).syntax(),
            final(self).info() == old(self).info(),
            match r {
                Ok(s) => component_code(
                    old(self).syntax(),
                    old(self).info(),
                    old(self).state(),
                    crate::text::views(builtin@),
                    crate::text::views(views@),
                ) == Ok::<(BuildModel, Seq<char>), GenerateErrorModel>((final(self).state(), s@)),
                Err(e) => component_code(
                    old(self).syntax(),
                    old(self).info(),
                    old(self).state(),
                    crate::text::views(builtin@),
                    crate::text::views(views@),
                ) == Err::<(BuildModel, Seq<char>), GenerateErrorModel>(e@),
            },
    {
        proof {
            lemma_struct_view(self.struct_info);
        }
        if !opt_str_eq(&self.struct_info.inheritance, "View") {
            return Ok(String::new());
        }
        let markup = match self.generate_template() {
            Ok(m) => m,
            Err(_) => {
                return Err(GenerateError::Malformed);
            },
        };
        let template = remove_char(markup.as_str(), '\n');
        let setup = match self.generate_setup_code(&builtin) {
            Ok(s) => s,
            Err(e) => {
                return Err(e);
            },
        };
        let factories = match self.generate_sub_struct() {
            Ok(f) => f,
            Err(_) => {
                return Err(GenerateError::Malformed);
            },
        };
        let mut out = String::new();
        out.append("\n");
        out.append(imports(&builtin).as_str());
        out.append("\n");
        out.append(imports(&views).as_str());
        out.append("\n\n");
        out.append(factories.as_str());
        out.append("\n\nexport default {\n    components: {\n        ");
        out.append(join_strs(&views, ", ").as_str());
        out.append("\n    },\n    setup() {\n");
        out.append(setup.as_str());
        out.append("\n    },\n    template: `");
        out.append(template.as_str());
        out.append("`\n}\n        ");
        Ok(trim(out.as_str()).to_owned())
    }
}

} // verus!
