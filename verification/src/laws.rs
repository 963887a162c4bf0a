//! What holds of the converters and of the modifier resolver on every input.

use crate::common::array::{array_text, collect_items, collect_items_from, item_texts, ItemModel};
use crate::common::object::{labeled_text, labeled_texts, positional_text, positional_texts, ArgModel};
use crate::component::{modifier_of, tag_rule, PairModel};
use crate::syntax::{child_at, tree_wf, Malformed, TreeModel};
use crate::text::{ends_with, join, without_leading};
use crate::view::{enter_suffix, enter_view, leave_view, view_tag, BuildModel};
use vstd::prelude::*;

verus! {

/// The arguments of a call are split in two without being reordered: the
/// texts before the object literal are those of the arguments without a label,
/// in their original order, and the entries of the object literal are those of
/// the arguments with a label, in their original order.
pub proof fn lemma_stable_partition(name: Seq<char>, args: Seq<ArgModel>)
    ensures
        positional_texts(name, args) == args.filter(|a: ArgModel| !a.is_label()).map_values(
            |a: ArgModel| positional_text(name, a),
        ),
        labeled_texts(args) == args.filter(|a: ArgModel| a.is_label()).map_values(
            |a: ArgModel| labeled_text(a),
        ),
    decreases args.len(),
{
    reveal(Seq::filter);
    if args.len() > 0 {
        lemma_stable_partition(name, args.drop_last());
    }
    assert(positional_texts(name, args) =~= args.filter(|a: ArgModel| !a.is_label()).map_values(
        |a: ArgModel| positional_text(name, a),
    ));
    assert(labeled_texts(args) =~= args.filter(|a: ArgModel| a.is_label()).map_values(
        |a: ArgModel| labeled_text(a),
    ));
}

/// Node `c` is a literal, or a token with nothing below it; it is neither an
/// enum case, nor a call, nor an array.
pub open spec fn literal_or_token(t: TreeModel, c: int) -> bool {
    &&& ends_with(t[c].kind, "_literal"@) || t[c].children.len() == 0
    &&& t[c].kind != "prefix_expression"@
    &&& t[c].kind != "call_expression"@
    &&& t[c].kind != "array_literal"@
}

/// The source texts of the literals among `kids` from the `j`-th on.
pub open spec fn literal_texts_from(t: TreeModel, kids: Seq<int>, j: int) -> Seq<Seq<char>>
    decreases kids.len() - j,
{
    if j < 0 || j >= kids.len() {
        Seq::empty()
    } else if ends_with(t[kids[j]].kind, "_literal"@) {
        seq![t[kids[j]].text] + literal_texts_from(t, kids, j + 1)
    } else {
        literal_texts_from(t, kids, j + 1)
    }
}

/// The literals among `kids` from the `j`-th on, as elements.
pub open spec fn literal_items_from(t: TreeModel, kids: Seq<int>, j: int) -> Seq<ItemModel>
    decreases kids.len() - j,
{
    if j < 0 || j >= kids.len() {
        Seq::empty()
    } else if ends_with(t[kids[j]].kind, "_literal"@) {
        seq![ItemModel::Literal { value: t[kids[j]].text }] + literal_items_from(t, kids, j + 1)
    } else {
        literal_items_from(t, kids, j + 1)
    }
}

proof fn lemma_literal_item_texts(t: TreeModel, kids: Seq<int>, j: int, context: Seq<char>)
    ensures
        item_texts(context, literal_items_from(t, kids, j)) == literal_texts_from(t, kids, j),
    decreases kids.len() - j,
{
    if 0 <= j < kids.len() {
        lemma_literal_item_texts(t, kids, j + 1, context);
    }
    assert(item_texts(context, literal_items_from(t, kids, j)) =~= literal_texts_from(
        t,
        kids,
        j,
    ));
}

proof fn lemma_collect_literals(
    t: TreeModel,
    id: int,
    j: int,
    context: Seq<char>,
    items: Seq<ItemModel>,
)
    requires
        tree_wf(t),
        0 <= id < t.len(),
        0 <= j <= t[id].children.len(),
        forall|k: int| 0 <= k < t[id].children.len() ==> literal_or_token(t, #[trigger] t[id].children[k]),
    ensures
        collect_items_from(t, id, j, context, items) == Ok::<Seq<ItemModel>, Malformed>(
            items + literal_items_from(t, t[id].children, j),
        ),
    decreases t[id].children.len() - j,
{
    let kids = t[id].children;
    assert(crate::syntax::node_wf(t, id));
    if j < kids.len() {
        let c = kids[j];
        assert(literal_or_token(t, c));
        assert(child_at(t, id, j) == Some(c));
        if ends_with(t[c].kind, "_literal"@) {
            let next = items.push(ItemModel::Literal { value: t[c].text });
            assert(collect_items(t, c, context, false, items) == Ok::<Seq<ItemModel>, Malformed>(
                next,
            ));
            lemma_collect_literals(t, id, j + 1, context, next);
            assert(next + literal_items_from(t, kids, j + 1) =~= items + literal_items_from(
                t,
                kids,
                j,
            ));
        } else {
            assert(child_at(t, c, 0) is None);
            assert(collect_items(t, c, context, false, items) == Ok::<Seq<ItemModel>, Malformed>(
                items,
            ));
            lemma_collect_literals(t, id, j + 1, context, items);
        }
    } else {
        assert(child_at(t, id, j) is None);
        assert(items + literal_items_from(t, kids, j) =~= items);
    }
}

/// An array whose elements are all literals is rewritten as the source texts
/// of its elements, separated by `", "`, inside brackets, whatever stands
/// inside a literal.
pub proof fn lemma_literal_array(t: TreeModel, id: int, context: Seq<char>)
    requires
        tree_wf(t),
        0 <= id < t.len(),
        t[id].kind == "array_literal"@,
        forall|k: int| 0 <= k < t[id].children.len() ==> literal_or_token(t, #[trigger] t[id].children[k]),
    ensures
        array_text(t, id, context) == Ok::<Seq<char>, Malformed>(
            "["@ + join(literal_texts_from(t, t[id].children, 0), ", "@) + "]"@,
        ),
{
    lemma_collect_literals(t, id, 0, context, Seq::empty());
    lemma_literal_item_texts(t, t[id].children, 0, context);
    assert(Seq::<ItemModel>::empty() + literal_items_from(t, t[id].children, 0)
        =~= literal_items_from(t, t[id].children, 0));
}

/// Argument `id` is `label: value` with the label at node `label` and the
/// value at node `value`.
pub open spec fn labeled_argument(t: TreeModel, id: int, label: int, value: int) -> bool {
    &&& child_at(t, id, 0) == Some(label)
    &&& child_at(t, id, 2) == Some(value)
    &&& t[label].kind == "value_argument_label"@
}

/// Where the tag's own rule yields nothing, an argument labeled with the
/// literal `true` is a directive without a value.
pub proof fn lemma_true_is_bare_directive(
    tag: Seq<char>,
    t: TreeModel,
    id: int,
    label: int,
    value: int,
)
    requires
        labeled_argument(t, id, label, value),
        tag_rule(tag, t, id) == Ok::<Option<PairModel>, Malformed>(None),
        t[value].kind == "boolean_literal"@,
        t[value].text == "true"@,
    ensures
        modifier_of(tag, t, id) == Ok::<Option<PairModel>, Malformed>(
            Some((t[label].text, Seq::empty())),
        ),
{
}

/// Where the tag's own rule yields nothing, an argument labeled with the
/// literal `false` yields no pair.
pub proof fn lemma_false_is_dropped(tag: Seq<char>, t: TreeModel, id: int, label: int, value: int)
    requires
        labeled_argument(t, id, label, value),
        tag_rule(tag, t, id) == Ok::<Option<PairModel>, Malformed>(None),
        t[value].kind == "boolean_literal"@,
        t[value].text == "false"@,
    ensures
        modifier_of(tag, t, id) == Ok::<Option<PairModel>, Malformed>(None),
{
    reveal_strlit("true");
    reveal_strlit("false");
    assert("true"@.len() != "false"@.len());
}

/// Where the tag's own rule yields nothing, an argument labeled with a name
/// that starts with `$` is a two-way binding to the name without its `$`s.
pub proof fn lemma_dollar_is_two_way_binding(
    tag: Seq<char>,
    t: TreeModel,
    id: int,
    label: int,
    value: int,
)
    requires
        labeled_argument(t, id, label, value),
        tag_rule(tag, t, id) == Ok::<Option<PairModel>, Malformed>(None),
        t[value].kind == "simple_identifier"@,
        t[value].text.len() > 0,
        t[value].text[0] == '$',
    ensures
        modifier_of(tag, t, id) == Ok::<Option<PairModel>, Malformed>(
            Some(("v-model:"@ + t[label].text, without_leading(t[value].text, '$'))),
        ),
{
    reveal_strlit("simple_identifier");
    reveal_strlit("boolean_literal");
    reveal_strlit("_literal");
    let kind = "simple_identifier"@;
    assert(kind.len() == 17);
    assert("boolean_literal"@.len() == 15);
    assert(kind != "boolean_literal"@);
    assert(!ends_with(kind, "_literal"@)) by {
        let tail = kind.subrange(kind.len() - "_literal"@.len(), kind.len() as int);
        assert(tail[7] == 'r');
        assert("_literal"@[7] == 'l');
    }
}

/// The kinds of node that the builder tells apart are pairwise different.
proof fn lemma_builder_kinds()
    ensures
        "comment"@.len() == 7,
        "call_expression"@.len() == 15,
        "navigation_expression"@.len() == 21,
        "navigation_suffix"@.len() == 17,
        "call_suffix"@.len() == 11,
{
    reveal_strlit("comment");
    reveal_strlit("call_expression");
    reveal_strlit("navigation_expression");
    reveal_strlit("navigation_suffix");
    reveal_strlit("call_suffix");
}

/// Whether the call at node `id` constructs a view.
pub open spec fn constructs_view(t: TreeModel, id: int) -> bool {
    t[id].kind == "call_expression"@ && view_tag(t, id) matches Ok(Some(_))
}

/// Reaching a node opens one element where the node is a call that constructs
/// a view, and none otherwise: no modifier, and nothing else, ever becomes an
/// element. The elements that there were keep their places.
pub proof fn lemma_only_view_calls_open_elements(t: TreeModel, id: int, st: BuildModel)
    requires
        enter_view(t, id, st) is Ok,
    ensures
        ({
            let next = enter_view(t, id, st)->Ok_0.0;
            &&& next.tree.nodes.len() == st.tree.nodes.len() + (if constructs_view(t, id) {
                1int
            } else {
                0int
            })
            &&& !constructs_view(t, id) ==> next.tree.parents == st.tree.parents
                && next.tree.children == st.tree.children && next.tree.root == st.tree.root
                && next.tree.cursor == st.tree.cursor
        }),
{
    lemma_builder_kinds();
}

/// Leaving a node opens no element.
pub proof fn lemma_leaving_opens_no_element(t: TreeModel, id: int, st: BuildModel)
    requires
        leave_view(t, id, st) is Ok,
    ensures
        ({
            let next = leave_view(t, id, st)->Ok_0;
            next.tree.nodes == st.tree.nodes && next.tree.parents == st.tree.parents
                && next.tree.children == st.tree.children && next.tree.root == st.tree.root
        }),
{
}

/// The modifier of a chain consumes the call suffix that the chain kept for
/// it.
pub proof fn lemma_modifier_consumes_its_suffix(t: TreeModel, id: int, st: BuildModel)
    requires
        enter_suffix(t, id, st) is Ok,
        st.pending.len() > 0,
        enter_suffix(t, id, st)->Ok_0.pending != st.pending,
    ensures
        enter_suffix(t, id, st)->Ok_0.ignored.contains(st.pending.last()),
{
    let next = enter_suffix(t, id, st)->Ok_0;
    let taken = st.ignored.push(st.pending.last());
    assert(taken[taken.len() - 1] == st.pending.last());
    assert(next.ignored == taken);
}

/// A call suffix that a modifier consumed is not entered, so nothing inside
/// a modifier's arguments is ever reached.
pub proof fn lemma_consumed_suffix_is_not_entered(t: TreeModel, id: int, st: BuildModel)
    requires
        t[id].kind == "call_suffix"@,
        st.ignored.contains(id),
    ensures
        enter_view(t, id, st) == Ok::<(BuildModel, bool), Malformed>((st, false)),
{
    lemma_builder_kinds();
}

} // verus!
