//! Constructor calls, rewritten as calls that take the positional arguments
//! first and then one object literal with the labeled ones.

use crate::syntax::{child_at, child_count_of, parent_of, Malformed, SyntaxTree, TreeModel};
use crate::text::{join, join_strs, views};
use vstd::prelude::*;

verus! {

/// One argument of a constructor call, classified.
#[derive(Debug)]
pub enum ArgType {
    /// `label: value`, the value kept as written.
    Label { label: String, value: String },
    /// A positional value, kept as written.
    Value { value: String },
    /// An enum case written with a leading dot.
    PrefixValue { value: String },
    /// A positional constructor call, already rewritten.
    Sub { code: String },
    /// `label: Call(..)`, the call already rewritten.
    LabelSub { label: String, code: String },
}

/// An argument as the contracts see it.
pub enum ArgModel {
    Label { label: Seq<char>, value: Seq<char> },
    Value { value: Seq<char> },
    PrefixValue { value: Seq<char> },
    Sub { code: Seq<char> },
    LabelSub { label: Seq<char>, code: Seq<char> },
}

impl ArgModel {
    /// Whether the argument carries a label.
    pub open spec fn is_label(self) -> bool {
        self is Label || self is LabelSub
    }
}

impl View for ArgType {
    type V = ArgModel;

    open spec fn view(&self) -> ArgModel {
        match self {
            ArgType::Label { label, value } => ArgModel::Label { label: label@, value: value@ },
            ArgType::Value { value } => ArgModel::Value { value: value@ },
            ArgType::PrefixValue { value } => ArgModel::PrefixValue { value: value@ },
            ArgType::Sub { code } => ArgModel::Sub { code: code@ },
            ArgType::LabelSub { label, code } => ArgModel::LabelSub { label: label@, code: code@ },
        }
    }
}

impl ArgType {
    /// Whether the argument carries a label.
    pub fn is_label(&self) -> (r: bool)
        ensures
            r == self@.is_label(),
    {
        match self {
            ArgType::Label { .. } => true,
            ArgType::LabelSub { .. } => true,
            _ => false,
        }
    }
}

/// What a walk over a constructor call has gathered: the callee's name and the
/// arguments in source order.
pub struct CallParts {
    pub name: Seq<char>,
    pub args: Seq<ArgModel>,
}

/// The arguments of a vector as the contracts see them.
pub open spec fn arg_views(v: Seq<ArgType>) -> Seq<ArgModel> {
    v.map_values(|a: ArgType| a@)
}

/// The prefix that every rewritten callee carries, so that it cannot collide
/// with a name of the script's own environment.
pub open spec fn callee_prefix() -> Seq<char> {
    "Swift"@
}

/// The argument that the `value_argument` node `id` stands for.
pub open spec fn value_arg(t: TreeModel, id: int) -> Result<ArgModel, Malformed>
    decreases t.len() - id, 0nat,
{
    match child_at(t, id, 0) {
        None => Err(Malformed),
        Some(first) => if t[first].kind == "prefix_expression"@ {
            match child_at(t, first, 1) {
                None => Err(Malformed),
                Some(name) => Ok(ArgModel::PrefixValue { value: t[name].text }),
            }
        } else if t[first].kind == "call_expression"@ {
            match call_object(t, first) {
                Err(e) => Err(e),
                Ok(code) => Ok(ArgModel::Sub { code }),
            }
        } else if t[first].kind == "value_argument_label"@ {
            match child_at(t, id, 2) {
                None => Err(Malformed),
                Some(value) => if t[value].kind == "call_expression"@ {
                    match call_object(t, value) {
                        Err(e) => Err(e),
                        Ok(code) => Ok(ArgModel::LabelSub { label: t[first].text, code }),
                    }
                } else {
                    Ok(ArgModel::Label { label: t[first].text, value: t[value].text })
                },
            }
        } else {
            Ok(ArgModel::Value { value: t[first].text })
        },
    }
}

/// What the walk gathers at node `id` and below, added to `st`. The callee is
/// the last identifier met directly under a call; a `value_argument` yields
/// one argument and is not entered.
pub open spec fn collect_call(t: TreeModel, id: int, st: CallParts) -> Result<CallParts, Malformed>
    decreases t.len() - id, child_count_of(t, id) + 1,
{
    if !(0 <= id < t.len()) {
        Err(Malformed)
    } else if t[id].kind == "value_argument"@ {
        match value_arg(t, id) {
            Err(e) => Err(e),
            Ok(a) => Ok(CallParts { name: st.name, args: st.args.push(a) }),
        }
    } else if t[id].kind == "simple_identifier"@ {
        match parent_of(t, id) {
            None => Err(Malformed),
            Some(p) => if t[p].kind == "call_expression"@ {
                collect_call_from(t, id, 0, CallParts { name: t[id].text, args: st.args })
            } else {
                collect_call_from(t, id, 0, st)
            },
        }
    } else {
        collect_call_from(t, id, 0, st)
    }
}

/// What the walk gathers under the children of `id` from the `j`-th on.
pub open spec fn collect_call_from(t: TreeModel, id: int, j: int, st: CallParts) -> Result<
    CallParts,
    Malformed,
>
    decreases t.len() - id, child_count_of(t, id) - j,
{
    match child_at(t, id, j) {
        None => Ok(st),
        Some(c) => match collect_call(t, c, st) {
            Err(e) => Err(e),
            Ok(next) => collect_call_from(t, id, j + 1, next),
        },
    }
}

/// The text of a positional argument inside a call of `name`.
pub open spec fn positional_text(name: Seq<char>, a: ArgModel) -> Seq<char> {
    match a {
        ArgModel::Value { value } => value,
        ArgModel::PrefixValue { value } => name + "."@ + value,
        ArgModel::Sub { code } => code,
        ArgModel::Label { label, value } => value,
        ArgModel::LabelSub { label, code } => code,
    }
}

/// The `key: value` text of a labeled argument.
pub open spec fn labeled_text(a: ArgModel) -> Seq<char> {
    match a {
        ArgModel::Label { label, value } => label + ": "@ + value,
        ArgModel::LabelSub { label, code } => label + ": "@ + code,
        ArgModel::Value { value } => value,
        ArgModel::PrefixValue { value } => value,
        ArgModel::Sub { code } => code,
    }
}

/// The texts of the arguments without a label, in their original order.
pub open spec fn positional_texts(name: Seq<char>, args: Seq<ArgModel>) -> Seq<Seq<char>>
    decreases args.len(),
{
    if args.len() == 0 {
        Seq::empty()
    } else if args.last().is_label() {
        positional_texts(name, args.drop_last())
    } else {
        positional_texts(name, args.drop_last()).push(positional_text(name, args.last()))
    }
}

/// The texts of the arguments with a label, in their original order.
pub open spec fn labeled_texts(args: Seq<ArgModel>) -> Seq<Seq<char>>
    decreases args.len(),
{
    if args.len() == 0 {
        Seq::empty()
    } else if args.last().is_label() {
        labeled_texts(args.drop_last()).push(labeled_text(args.last()))
    } else {
        labeled_texts(args.drop_last())
    }
}

/// What stands between the parentheses of the rewritten call: the texts of
/// the arguments without a label and then, where any argument has a label,
/// one object literal that holds them all.
pub open spec fn call_items(name: Seq<char>, args: Seq<ArgModel>) -> Seq<Seq<char>> {
    if labeled_texts(args).len() > 0 {
        positional_texts(name, args).push("{"@ + join(labeled_texts(args), ", "@) + "}"@)
    } else {
        positional_texts(name, args)
    }
}

/// The rewritten call: the prefixed callee and, in parentheses, the call's
/// items separated by `", "`.
pub open spec fn render_call(parts: CallParts) -> Seq<char> {
    let name = callee_prefix() + parts.name;
    name + "("@ + join(call_items(name, parts.args), ", "@) + ")"@
}

/// The script text for the constructor call at node `id`.
pub open spec fn call_object(t: TreeModel, id: int) -> Result<Seq<char>, Malformed>
    decreases t.len() - id, child_count_of(t, id) + 2,
{
    if 0 <= id < t.len() && t[id].kind == "call_expression"@ {
        match collect_call(t, id, CallParts { name: Seq::empty(), args: Seq::empty() }) {
            Err(e) => Err(e),
            Ok(parts) => Ok(render_call(parts)),
        }
    } else {
        Err(Malformed)
    }
}

/// The callee and the arguments gathered so far.
struct State {
    name: String,
    args: Vec<ArgType>,
}

impl View for State {
    type V = CallParts;

    closed spec fn view(&self) -> CallParts {
        CallParts { name: self.name@, args: arg_views(self.args@) }
    }
}

fn handle_value_arg(tree: &SyntaxTree, node: usize) -> (r: Result<ArgType, Malformed>)
    requires
        tree.wf(),
    ensures
        match r {
            Ok(a) => value_arg(tree@, node as int) == Ok::<ArgModel, Malformed>(a@),
            Err(e) => value_arg(tree@, node as int) is Err,
        },
    decreases tree@.len() - node, 0nat,
{
    let first = match tree.child(node, 0) {
        Some(c) => c,
        None => {
            return Err(Malformed);
        },
    };
    if tree.is_kind(first, "prefix_expression") {
        match tree.child(first, 1) {
            None => Err(Malformed),
            Some(name) => Ok(ArgType::PrefixValue { value: tree.text(name).to_owned() }),
        }
    } else if tree.is_kind(first, "call_expression") {
        let code = callexp2object(tree, first)?;
        Ok(ArgType::Sub { code })
    } else if tree.is_kind(first, "value_argument_label") {
        let value = match tree.child(node, 2) {
            Some(c) => c,
            None => {
                return Err(Malformed);
            },
        };
        if tree.is_kind(value, "call_expression") {
            let code = callexp2object(tree, value)?;
            Ok(ArgType::LabelSub { label: tree.text(first).to_owned(), code })
        } else {
            Ok(
                ArgType::Label {
                    label: tree.text(first).to_owned(),
                    value: tree.text(value).to_owned(),
                },
            )
        }
    } else {
        Ok(ArgType::Value { value: tree.text(first).to_owned() })
    }
}

impl State {
    fn collect(self, tree: &SyntaxTree, node: usize) -> (r: Result<State, Malformed>)
        requires
            tree.wf(),
        ensures
            match r {
                Ok(st) => collect_call(tree@, node as int, self@) == Ok::<CallParts, Malformed>(
                    st@,
                ),
                Err(e) => collect_call(tree@, node as int, self@) is Err,
            },
        decreases tree@.len() - node, child_count_of(tree@, node as int) + 1,
    {
        if node >= tree.len() {
            return Err(Malformed);
        }
        let mut st = self;
        if tree.is_kind(node, "value_argument") {
            let arg = handle_value_arg(tree, node)?;
            let ghost before = st@;
            st.args.push(arg);
            proof {
                assert(st@.args =~= before.args.push(arg@));
            }
            return Ok(st);
        }
        if tree.is_kind(node, "simple_identifier") {
            match tree.parent(node) {
                None => {
                    return Err(Malformed);
                },
                Some(p) => {
                    if tree.is_kind(p, "call_expression") {
                        st.name = tree.text(node).to_owned();
                    }
                },
            }
        }
        let ghost goal = collect_call(tree@, node as int, self@);
        let n = tree.child_count(node);
        let mut j: usize = 0;
        while j < n
            invariant
                tree.wf(),
                j <= n,
                node < tree@.len(),
                n == tree@[node as int].children.len(),
                goal == collect_call(tree@, node as int, self@),
                goal == collect_call_from(tree@, node as int, j as int, st@),
            decreases n - j,
        {
            match tree.child(node, j) {
                None => {
                    return Ok(st);
                },
                Some(c) => {
                    st = st.collect(tree, c)?;
                },
            }
            j = j + 1;
        }
        Ok(st)
    }

    fn generate(&self) -> (r: String)
        ensures
            r@ == render_call(self@),
    {
        let mut name = String::new();
        name.append("Swift");
        name.append(self.name.as_str());
        let mut plain: Vec<String> = Vec::new();
        let mut labeled: Vec<String> = Vec::new();
        let mut i: usize = 0;
        while i < self.args.len()
            invariant
                i <= self.args.len(),
                name@ == callee_prefix() + self.name@,
                views(plain@) == positional_texts(name@, arg_views(self.args@).take(i as int)),
                views(labeled@) == labeled_texts(arg_views(self.args@).take(i as int)),
            decreases self.args.len() - i,
        {
            let ghost upto = arg_views(self.args@).take(i as int);
            let ghost next = arg_views(self.args@).take(i as int + 1);
            let ghost plain_before = views(plain@);
            let ghost labeled_before = views(labeled@);
            proof {
                assert(next.drop_last() =~= upto);
                assert(next.last() == self.args@[i as int]@);
            }
            let mut piece = String::new();
            match &self.args[i] {
                ArgType::Value { value } => {
                    piece.append(value.as_str());
                    plain.push(piece);
                },
                ArgType::PrefixValue { value } => {
                    piece.append(name.as_str());
                    piece.append(".");
                    piece.append(value.as_str());
                    plain.push(piece);
                },
                ArgType::Sub { code } => {
                    piece.append(code.as_str());
                    plain.push(piece);
                },
                ArgType::Label { label, value } => {
                    piece.append(label.as_str());
                    piece.append(": ");
                    piece.append(value.as_str());
                    labeled.push(piece);
                },
                ArgType::LabelSub { label, code } => {
                    piece.append(label.as_str());
                    piece.append(": ");
                    piece.append(code.as_str());
                    labeled.push(piece);
                },
            }
            proof {
                if next.last().is_label() {
                    assert(views(plain@) =~= plain_before);
                    assert(views(labeled@) =~= labeled_before.push(labeled_text(next.last())));
                } else {
                    assert(views(labeled@) =~= labeled_before);
                    assert(views(plain@) =~= plain_before.push(
                        positional_text(name@, next.last()),
                    ));
                }
            }
            i = i + 1;
        }
        proof {
            assert(arg_views(self.args@).take(self.args@.len() as int) =~= arg_views(self.args@));
        }
        if labeled.len() > 0 {
            let ghost before = views(plain@);
            let mut literal = String::new();
            literal.append("{");
            literal.append(join_strs(&labeled, ", ").as_str());
            literal.append("}");
            plain.push(literal);
            proof {
                assert(views(plain@) =~= before.push(literal@));
            }
        }
        let mut out = String::new();
        out.append(name.as_str());
        out.append("(");
        out.append(join_strs(&plain, ", ").as_str());
        out.append(")");
        out
    }
}

/// Rewrites the constructor call at `node` as script text: the callee renamed
/// with the prefix, positional arguments first, labeled arguments merged into
/// one trailing object literal, all separated by `", "`, nested calls
/// rewritten the same way.
///
/// Fails where `node` is no `call_expression` or an argument lacks a child
/// that its kind calls for.
pub fn callexp2object(tree: &SyntaxTree, node: usize) -> (r: Result<String, Malformed>)
    requires
        tree.wf(),
    ensures
        match r {
            Ok(s) => call_object(tree@, node as int) == Ok::<Seq<char>, Malformed>(s@),
            Err(e) => call_object(tree@, node as int) is Err,
        },
    decreases tree@.len() - node, child_count_of(tree@, node as int) + 2,
{
    if !tree.is_kind(node, "call_expression") {
        return Err(Malformed);
    }
    let state = State { name: String::new(), args: Vec::new() };
    proof {
        assert(state@.args =~= Seq::<ArgModel>::empty());
    }
    let state = state.collect(tree, node)?;
    Ok(state.generate())
}

/// Rewrites the constructor call at `node` as `callexp2object` does. The
/// names of the model types declared beside the call are accepted and play no
/// part in the result.
pub fn callexp2object_with_context(tree: &SyntaxTree, node: usize, names: &Vec<String>) -> (r:
    Result<String, Malformed>)
    requires
        tree.wf(),
    ensures
        match r {
            Ok(s) => call_object(tree@, node as int) == Ok::<Seq<char>, Malformed>(s@),
            Err(e) => call_object(tree@, node as int) is Err,
        },
{
    callexp2object(tree, node)
}

} // verus!
