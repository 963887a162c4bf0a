//! Array literals, rewritten element by element.

use crate::common::object::{call_object, callexp2object_with_context};
use crate::syntax::{child_at, child_count_of, Malformed, SyntaxTree, TreeModel};
use crate::text::{ends_with, has_suffix, join, join_strs, views};
use vstd::prelude::*;

verus! {

/// One element of an array literal, classified.
#[derive(Debug)]
pub enum ItemType {
    /// A literal, kept as written.
    Literal { value: String },
    /// An enum case written with a leading dot.
    PrefixValue { value: String },
    /// A constructor call, already rewritten.
    Object { code: String },
    /// A nested array literal, already rewritten.
    Sub { code: String },
}

/// An element as the contracts see it.
pub enum ItemModel {
    Literal { value: Seq<char> },
    PrefixValue { value: Seq<char> },
    Object { code: Seq<char> },
    Sub { code: Seq<char> },
}

impl View for ItemType {
    type V = ItemModel;

    open spec fn view(&self) -> ItemModel {
        match self {
            ItemType::Literal { value } => ItemModel::Literal { value: value@ },
            ItemType::PrefixValue { value } => ItemModel::PrefixValue { value: value@ },
            ItemType::Object { code } => ItemModel::Object { code: code@ },
            ItemType::Sub { code } => ItemModel::Sub { code: code@ },
        }
    }
}

/// The elements of a vector as the contracts see them.
pub open spec fn item_views(v: Seq<ItemType>) -> Seq<ItemModel> {
    v.map_values(|a: ItemType| a@)
}

/// The text of one element inside an array whose enum cases belong to
/// `context`.
pub open spec fn item_text(context: Seq<char>, item: ItemModel) -> Seq<char> {
    match item {
        ItemModel::Literal { value } => value,
        ItemModel::PrefixValue { value } => context + "."@ + value,
        ItemModel::Object { code } => code,
        ItemModel::Sub { code } => code,
    }
}

/// The texts of the elements, in order.
pub open spec fn item_texts(context: Seq<char>, items: Seq<ItemModel>) -> Seq<Seq<char>> {
    items.map_values(|item: ItemModel| item_text(context, item))
}

/// The array literal that holds the elements.
pub open spec fn render_array(context: Seq<char>, items: Seq<ItemModel>) -> Seq<char> {
    "["@ + join(item_texts(context, items), ", "@) + "]"@
}

/// The elements gathered at node `id` and below, added to `items`. The
/// literal being rewritten itself (`root`) is only entered. Below it an enum
/// case, a constructor call and a nested array each yield one element and are
/// not entered, and neither is any other node whose kind ends in `_literal`,
/// which yields its text. Any other node is entered.
pub open spec fn collect_items(
    t: TreeModel,
    id: int,
    context: Seq<char>,
    root: bool,
    items: Seq<ItemModel>,
) -> Result<Seq<ItemModel>, Malformed>
    decreases t.len() - id, child_count_of(t, id) + (if root {
        1int
    } else {
        3int
    }),
{
    if !(0 <= id < t.len()) {
        Err(Malformed)
    } else if root {
        collect_items_from(t, id, 0, context, items)
    } else if t[id].kind == "prefix_expression"@ {
        match child_at(t, id, 1) {
            None => Err(Malformed),
            Some(name) => Ok(items.push(ItemModel::PrefixValue { value: t[name].text })),
        }
    } else if t[id].kind == "call_expression"@ {
        match call_object(t, id) {
            Err(e) => Err(e),
            Ok(code) => Ok(items.push(ItemModel::Object { code })),
        }
    } else if t[id].kind == "array_literal"@ {
        match array_text(t, id, context) {
            Err(e) => Err(e),
            Ok(code) => Ok(items.push(ItemModel::Sub { code })),
        }
    } else if ends_with(t[id].kind, "_literal"@) {
        Ok(items.push(ItemModel::Literal { value: t[id].text }))
    } else {
        collect_items_from(t, id, 0, context, items)
    }
}

/// The elements gathered under the children of `id` from the `j`-th on.
pub open spec fn collect_items_from(
    t: TreeModel,
    id: int,
    j: int,
    context: Seq<char>,
    items: Seq<ItemModel>,
) -> Result<Seq<ItemModel>, Malformed>
    decreases t.len() - id, child_count_of(t, id) - j,
{
    match child_at(t, id, j) {
        None => Ok(items),
        Some(c) => match collect_items(t, c, context, false, items) {
            Err(e) => Err(e),
            Ok(next) => collect_items_from(t, id, j + 1, context, next),
        },
    }
}

/// The script text for the array literal at node `id`.
pub open spec fn array_text(t: TreeModel, id: int, context: Seq<char>) -> Result<
    Seq<char>,
    Malformed,
>
    decreases t.len() - id, child_count_of(t, id) + 2,
{
    if 0 <= id < t.len() && t[id].kind == "array_literal"@ {
        match collect_items(t, id, context, true, Seq::empty()) {
            Err(e) => Err(e),
            Ok(items) => Ok(render_array(context, items)),
        }
    } else {
        Err(Malformed)
    }
}

fn collect(
    tree: &SyntaxTree,
    node: usize,
    context: &str,
    obj_ctx: &Vec<String>,
    root: bool,
    seed: Vec<ItemType>,
) -> (r: Result<Vec<ItemType>, Malformed>)
    requires
        tree.wf(),
    ensures
        match r {
            Ok(v) => collect_items(tree@, node as int, context@, root, item_views(seed@)) == Ok::<
                Seq<ItemModel>,
                Malformed,
            >(item_views(v@)),
            Err(e) => collect_items(tree@, node as int, context@, root, item_views(seed@)) is Err,
        },
    decreases tree@.len() - node, child_count_of(tree@, node as int) + (if root {
        1int
    } else {
        3int
    }),
{
    if node >= tree.len() {
        return Err(Malformed);
    }
    let ghost given = item_views(seed@);
    let mut items = seed;
    let ghost goal = collect_items(tree@, node as int, context@, root, given);
    if !root {
        if tree.is_kind(node, "prefix_expression") {
            return match tree.child(node, 1) {
                None => Err(Malformed),
                Some(name) => {
                    items.push(ItemType::PrefixValue { value: tree.text(name).to_owned() });
                    proof {
                        assert(item_views(items@) =~= given.push(
                            ItemModel::PrefixValue { value: tree@[name as int].text },
                        ));
                    }
                    Ok(items)
                },
            };
        }
        if tree.is_kind(node, "call_expression") {
            let code = callexp2object_with_context(tree, node, obj_ctx)?;
            items.push(ItemType::Object { code });
            proof {
                assert(item_views(items@) =~= given.push(ItemModel::Object { code: code@ }));
            }
            return Ok(items);
        }
        if tree.is_kind(node, "array_literal") {
            let code = array2js_call(tree, node, context)?;
            items.push(ItemType::Sub { code });
            proof {
                assert(item_views(items@) =~= given.push(ItemModel::Sub { code: code@ }));
            }
            return Ok(items);
        }
        if has_suffix(tree.kind(node), "_literal") {
            items.push(ItemType::Literal { value: tree.text(node).to_owned() });
            proof {
                assert(item_views(items@) =~= given.push(
                    ItemModel::Literal { value: tree@[node as int].text },
                ));
            }
            return Ok(items);
        }
    }
    let n = tree.child_count(node);
    let mut j: usize = 0;
    while j < n
        invariant
            tree.wf(),
            j <= n,
            node < tree@.len(),
            n == tree@[node as int].children.len(),
            given == item_views(seed@),
            goal == collect_items(tree@, node as int, context@, root, given),
            goal == collect_items_from(tree@, node as int, j as int, context@, item_views(items@)),
        decreases n - j,
    {
        match tree.child(node, j) {
            None => {
                return Ok(items);
            },
            Some(c) => {
                items = collect(tree, c, context, obj_ctx, false, items)?;
            },
        }
        j = j + 1;
    }
    Ok(items)
}

fn generate(context: &str, items: &Vec<ItemType>) -> (r: String)
    ensures
        r@ == render_array(context@, item_views(items@)),
{
    let mut pieces: Vec<String> = Vec::new();
    let mut i: usize = 0;
    while i < items.len()
        invariant
            i <= items.len(),
            views(pieces@) == item_texts(context@, item_views(items@).take(i as int)),
        decreases items.len() - i,
    {
        let ghost before = views(pieces@);
        let mut piece = String::new();
        match &items[i] {
            ItemType::Literal { value } => {
                piece.append(value.as_str());
            },
            ItemType::PrefixValue { value } => {
                piece.append(context);
                piece.append(".");
                piece.append(value.as_str());
            },
            ItemType::Object { code } => {
                piece.append(code.as_str());
            },
            ItemType::Sub { code } => {
                piece.append(code.as_str());
            },
        }
        pieces.push(piece);
        proof {
            assert(views(pieces@) =~= before.push(item_text(context@, items@[i as int]@)));
            assert(views(pieces@) =~= item_texts(
                context@,
                item_views(items@).take(i as int + 1),
            ));
        }
        i = i + 1;
    }
    proof {
        assert(item_views(items@).take(items@.len() as int) =~= item_views(items@));
    }
    let mut out = String::new();
    out.append("[");
    out.append(join_strs(&pieces, ", ").as_str());
    out.append("]");
    out
}

/// Rewrites the array literal at `node` as script text: the elements in
/// order, separated by `", "`, inside brackets. An enum case `.name` becomes
/// `context.name`; constructor calls and nested arrays are rewritten in turn.
///
/// Fails where `node` is no `array_literal` or an element lacks a child that
/// its kind calls for.
pub fn array2js_call(tree: &SyntaxTree, node: usize, context: &str) -> (r: Result<
    String,
    Malformed,
>)
    requires
        tree.wf(),
    ensures
        match r {
            Ok(s) => array_text(tree@, node as int, context@) == Ok::<Seq<char>, Malformed>(s@),
            Err(e) => array_text(tree@, node as int, context@) is Err,
        },
    decreases tree@.len() - node, child_count_of(tree@, node as int) + 2,
{
    if !tree.is_kind(node, "array_literal") {
        return Err(Malformed);
    }
    let none: Vec<String> = Vec::new();
    let start: Vec<ItemType> = Vec::new();
    proof {
        assert(item_views(start@) =~= Seq::<ItemModel>::empty());
    }
    let items = collect(tree, node, context, &none, true, start)?;
    Ok(generate(context, &items))
}

/// Rewrites the array literal at `node` as `array2js_call` does. The names of
/// the model types declared beside the literal are accepted and play no part
/// in the result.
pub fn array2js_call_with_obj_context(
    tree: &SyntaxTree,
    node: usize,
    context: &str,
    obj_ctx: &Vec<String>,
) -> (r: Result<String, Malformed>)
    requires
        tree.wf(),
    ensures
        match r {
            Ok(s) => array_text(tree@, node as int, context@) == Ok::<Seq<char>, Malformed>(s@),
            Err(e) => array_text(tree@, node as int, context@) is Err,
        },
{
    if !tree.is_kind(node, "array_literal") {
        return Err(Malformed);
    }
    let start: Vec<ItemType> = Vec::new();
    proof {
        assert(item_views(start@) =~= Seq::<ItemModel>::empty());
    }
    let items = collect(tree, node, context, obj_ctx, true, start)?;
    Ok(generate(context, &items))
}

} // verus!
