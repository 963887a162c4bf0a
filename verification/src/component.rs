//! The modifier resolver: one argument of a view's constructor call, turned
//! into one attribute of the element, or into the element's text.
//!
//! A pair whose key is `content` carries the element's text instead of an
//! attribute.

use crate::syntax::{child_at, next_sibling_of, parent_of, Malformed, SyntaxTree, TreeModel};
use crate::text::{ends_with, has_suffix, starts_with_char, str_eq, strip_leading, without_leading};
use crate::utils::{find_first_simple_identifier, first_simple_identifier};
use vstd::prelude::*;

verus! {

/// An attribute's name and value, or the key `content` and the element's text.
pub type PairModel = (Seq<char>, Seq<char>);

/// The pair of strings as the contracts see it.
pub open spec fn pair_view(p: Option<(String, String)>) -> Option<PairModel> {
    match p {
        Some((k, v)) => Some((k@, v@)),
        None => None,
    }
}

/// What one child of a string literal adds to the element's text: the
/// delimiters of an interpolation become double braces, literal text and the
/// interpolated expression stay as written, the quotes add nothing.
pub open spec fn literal_piece(t: TreeModel, c: int) -> Seq<char> {
    if t[c].kind == "\\("@ {
        "{{"@
    } else if t[c].kind == ")"@ {
        "}}"@
    } else if t[c].kind == "interpolated_expression"@ || t[c].kind == "line_str_text"@ {
        t[c].text
    } else {
        Seq::empty()
    }
}

/// The text that the first `j` children of the string literal `id` add up to.
pub open spec fn literal_content_upto(t: TreeModel, id: int, j: int) -> Seq<char>
    decreases j,
{
    if j <= 0 {
        Seq::empty()
    } else {
        match child_at(t, id, j - 1) {
            Some(c) => literal_content_upto(t, id, j - 1) + literal_piece(t, c),
            None => literal_content_upto(t, id, j - 1),
        }
    }
}

/// The element text for the string literal `id`.
pub open spec fn literal_content(t: TreeModel, id: int) -> Seq<char> {
    literal_content_upto(t, id, crate::syntax::child_count_of(t, id))
}

/// The rule of a text-bearing tag: a string literal becomes the element's
/// text; a name or a member access becomes an interpolation of it.
pub open spec fn text_rule(t: TreeModel, id: int) -> Result<Option<PairModel>, Malformed> {
    match child_at(t, id, 0) {
        None => Err(Malformed),
        Some(arg) => if t[arg].kind == "line_string_literal"@ {
            Ok(Some(("content"@, literal_content(t, arg))))
        } else if t[arg].kind == "navigation_expression"@ || t[arg].kind == "simple_identifier"@ {
            Ok(Some(("content"@, "{{ "@ + t[arg].text + " }}"@)))
        } else {
            Ok(None)
        },
    }
}

/// The rule of a button-like tag: a string literal becomes the element's text.
pub open spec fn button_rule(t: TreeModel, id: int) -> Result<Option<PairModel>, Malformed> {
    match child_at(t, id, 0) {
        None => Err(Malformed),
        Some(arg) => if t[arg].kind == "line_string_literal"@ {
            Ok(Some(("content"@, literal_content(t, arg))))
        } else {
            Ok(None)
        },
    }
}

/// The rule of a repeating tag: a bare collection name, together with the
/// parameter of the closure that follows the argument list, becomes the
/// iteration directive `item in collection`.
pub open spec fn foreach_rule(t: TreeModel, id: int) -> Result<Option<PairModel>, Malformed> {
    match child_at(t, id, 0) {
        None => Err(Malformed),
        Some(arg) => if t[arg].kind == "simple_identifier"@ {
            match parent_of(t, id) {
                None => Err(Malformed),
                Some(list) => match next_sibling_of(t, list) {
                    None => Err(Malformed),
                    Some(lambda) => if t[lambda].kind != "lambda_literal"@ {
                        Err(Malformed)
                    } else {
                        match child_at(t, lambda, 1) {
                            None => Err(Malformed),
                            Some(params) => if t[params].kind != "lambda_function_type"@ {
                                Err(Malformed)
                            } else {
                                match first_simple_identifier(t, params) {
                                    None => Err(Malformed),
                                    Some(item) => Ok(
                                        Some(("v-for"@, item + " in "@ + t[arg].text)),
                                    ),
                                }
                            },
                        }
                    },
                },
            }
        } else {
            Ok(None)
        },
    }
}

/// The rule of a colour-picking tag: a string literal becomes the element's
/// text, and the argument labeled `supportsOpacity` becomes a bound attribute.
pub open spec fn color_picker_rule(t: TreeModel, id: int) -> Result<Option<PairModel>, Malformed> {
    match child_at(t, id, 0) {
        None => Err(Malformed),
        Some(arg) => if t[arg].kind == "line_string_literal"@ {
            Ok(Some(("content"@, literal_content(t, arg))))
        } else if t[arg].kind == "value_argument_label"@ {
            match child_at(t, id, 2) {
                None => Err(Malformed),
                Some(value) => if t[arg].text == "supportsOpacity"@ {
                    Ok(Some(("v-bind:"@ + t[arg].text, t[value].text)))
                } else {
                    Ok(None)
                },
            }
        } else {
            Ok(None)
        },
    }
}

/// The rule for every tag, used where the tag's own rule yields nothing. Only
/// a labeled argument yields a pair: `true` a directive without a value,
/// `false` nothing, another literal a plain attribute, a name that starts
/// with `$` a two-way binding to the name without its `$`s, and anything else
/// a bound attribute that carries the expression as written.
pub open spec fn common_rule(t: TreeModel, id: int) -> Result<Option<PairModel>, Malformed> {
    match child_at(t, id, 0) {
        None => Err(Malformed),
        Some(arg) => if t[arg].kind == "value_argument_label"@ {
            match child_at(t, id, 2) {
                None => Err(Malformed),
                Some(value) => {
                    let label = t[arg].text;
                    let text = t[value].text;
                    if t[value].kind == "boolean_literal"@ {
                        if text == "true"@ {
                            Ok(Some((label, Seq::empty())))
                        } else {
                            Ok(None)
                        }
                    } else if ends_with(t[value].kind, "_literal"@) {
                        Ok(Some((label, text)))
                    } else if t[value].kind == "simple_identifier"@ && text.len() > 0 && text[0]
                        == '$' {
                        Ok(Some(("v-model:"@ + label, without_leading(text, '$'))))
                    } else {
                        Ok(Some(("v-bind:"@ + label, text)))
                    }
                },
            }
        } else {
            Ok(None)
        },
    }
}

/// The rule that belongs to the tag itself.
pub open spec fn tag_rule(tag: Seq<char>, t: TreeModel, id: int) -> Result<
    Option<PairModel>,
    Malformed,
> {
    if tag == "Text"@ {
        text_rule(t, id)
    } else if tag == "Button"@ {
        button_rule(t, id)
    } else if tag == "ForEach"@ {
        foreach_rule(t, id)
    } else if tag == "ColorPicker"@ {
        color_picker_rule(t, id)
    } else {
        Ok(None)
    }
}

/// The pair for one argument of a view with tag `tag`: what the tag's own
/// rule yields, or else what the common rule yields.
pub open spec fn modifier_of(tag: Seq<char>, t: TreeModel, id: int) -> Result<
    Option<PairModel>,
    Malformed,
> {
    match tag_rule(tag, t, id) {
        Err(e) => Err(e),
        Ok(Some(p)) => Ok(Some(p)),
        Ok(None) => common_rule(t, id),
    }
}

fn compute_line_string_literal_for_str_child(tree: &SyntaxTree, node: usize) -> (r: String)
    requires
        tree.wf(),
    ensures
        r@ == literal_content(tree@, node as int),
{
    let mut out = String::new();
    let n = tree.child_count(node);
    let mut j: usize = 0;
    while j < n
        invariant
            tree.wf(),
            j <= n,
            n == crate::syntax::child_count_of(tree@, node as int),
            out@ == literal_content_upto(tree@, node as int, j as int),
        decreases n - j,
    {
        match tree.child(node, j) {
            Some(c) => {
                if tree.is_kind(c, "\\(") {
                    out.append("{{");
                } else if tree.is_kind(c, ")") {
                    out.append("}}");
                } else if tree.is_kind(c, "interpolated_expression") || tree.is_kind(
                    c,
                    "line_str_text",
                ) {
                    out.append(tree.text(c));
                } else {
                    proof {
                        assert(out@ + Seq::<char>::empty() =~= out@);
                    }
                }
            },
            None => {},
        }
        j = j + 1;
    }
    out
}

fn content_pair(text: String) -> (r: Option<(String, String)>)
    ensures
        pair_view(r) == Some(("content"@, text@)),
{
    Some(("content".to_owned(), text))
}

fn compute_text(tree: &SyntaxTree, node: usize) -> (r: Result<Option<(String, String)>, Malformed>)
    requires
        tree.wf(),
    ensures
        match r {
            Ok(p) => text_rule(tree@, node as int) == Ok::<Option<PairModel>, Malformed>(
                pair_view(p),
            ),
            Err(e) => text_rule(tree@, node as int) is Err,
        },
{
    let arg = match tree.child(node, 0) {
        Some(c) => c,
        None => {
            return Err(Malformed);
        },
    };
    if tree.is_kind(arg, "line_string_literal") {
        return Ok(content_pair(compute_line_string_literal_for_str_child(tree, arg)));
    }
    if tree.is_kind(arg, "navigation_expression") || tree.is_kind(arg, "simple_identifier") {
        let mut code = String::new();
        code.append("{{ ");
        code.append(tree.text(arg));
        code.append(" }}");
        proof {
            assert(code@ =~= "{{ "@ + tree@[arg as int].text + " }}"@);
        }
        return Ok(content_pair(code));
    }
    Ok(None)
}

fn compute_button(tree: &SyntaxTree, node: usize) -> (r: Result<
    Option<(String, String)>,
    Malformed,
>)
    requires
        tree.wf(),
    ensures
        match r {
            Ok(p) => button_rule(tree@, node as int) == Ok::<Option<PairModel>, Malformed>(
                pair_view(p),
            ),
            Err(e) => button_rule(tree@, node as int) is Err,
        },
{
    let arg = match tree.child(node, 0) {
        Some(c) => c,
        None => {
            return Err(Malformed);
        },
    };
    if tree.is_kind(arg, "line_string_literal") {
        return Ok(content_pair(compute_line_string_literal_for_str_child(tree, arg)));
    }
    Ok(None)
}

fn compute_foreach(tree: &SyntaxTree, node: usize) -> (r: Result<
    Option<(String, String)>,
    Malformed,
>)
    requires
        tree.wf(),
    ensures
        match r {
            Ok(p) => foreach_rule(tree@, node as int) == Ok::<Option<PairModel>, Malformed>(
                pair_view(p),
            ),
            Err(e) => foreach_rule(tree@, node as int) is Err,
        },
{
    let arg = match tree.child(node, 0) {
        Some(c) => c,
        None => {
            return Err(Malformed);
        },
    };
    if !tree.is_kind(arg, "simple_identifier") {
        return Ok(None);
    }
    let list = match tree.parent(node) {
        Some(p) => p,
        None => {
            return Err(Malformed);
        },
    };
    let lambda = match tree.next_sibling(list) {
        Some(l) => l,
        None => {
            return Err(Malformed);
        },
    };
    if !tree.is_kind(lambda, "lambda_literal") {
        return Err(Malformed);
    }
    let params = match tree.child(lambda, 1) {
        Some(p) => p,
        None => {
            return Err(Malformed);
        },
    };
    if !tree.is_kind(params, "lambda_function_type") {
        return Err(Malformed);
    }
    let item = match find_first_simple_identifier(tree, params) {
        Some(i) => i,
        None => {
            return Err(Malformed);
        },
    };
    let mut code = String::new();
    code.append(item.as_str());
    code.append(" in ");
    code.append(tree.text(arg));
    proof {
        assert(code@ =~= item@ + " in "@ + tree@[arg as int].text);
    }
    Ok(Some(("v-for".to_owned(), code)))
}

fn bound(label: &str) -> (r: String)
    ensures
        r@ == "v-bind:"@ + label@,
{
    let mut key = String::new();
    key.append("v-bind:");
    key.append(label);
    proof {
        assert(key@ =~= "v-bind:"@ + label@);
    }
    key
}

fn compute_color_picker(tree: &SyntaxTree, node: usize) -> (r: Result<
    Option<(String, String)>,
    Malformed,
>)
    requires
        tree.wf(),
    ensures
        match r {
            Ok(p) => color_picker_rule(tree@, node as int) == Ok::<Option<PairModel>, Malformed>(
                pair_view(p),
            ),
            Err(e) => color_picker_rule(tree@, node as int) is Err,
        },
{
    let arg = match tree.child(node, 0) {
        Some(c) => c,
        None => {
            return Err(Malformed);
        },
    };
    if tree.is_kind(arg, "line_string_literal") {
        return Ok(content_pair(compute_line_string_literal_for_str_child(tree, arg)));
    }
    if tree.is_kind(arg, "value_argument_label") {
        let value = match tree.child(node, 2) {
            Some(c) => c,
            None => {
                return Err(Malformed);
            },
        };
        if str_eq(tree.text(arg), "supportsOpacity") {
            return Ok(Some((bound(tree.text(arg)), tree.text(value).to_owned())));
        }
    }
    Ok(None)
}

fn common_compute(tree: &SyntaxTree, node: usize) -> (r: Result<
    Option<(String, String)>,
    Malformed,
>)
    requires
        tree.wf(),
    ensures
        match r {
            Ok(p) => common_rule(tree@, node as int) == Ok::<Option<PairModel>, Malformed>(
                pair_view(p),
            ),
            Err(e) => common_rule(tree@, node as int) is Err,
        },
{
    let arg = match tree.child(node, 0) {
        Some(c) => c,
        None => {
            return Err(Malformed);
        },
    };
    if !tree.is_kind(arg, "value_argument_label") {
        return Ok(None);
    }
    let value = match tree.child(node, 2) {
        Some(c) => c,
        None => {
            return Err(Malformed);
        },
    };
    let label = tree.text(arg);
    let text = tree.text(value);
    if tree.is_kind(value, "boolean_literal") {
        if str_eq(text, "true") {
            Ok(Some((label.to_owned(), String::new())))
        } else {
            Ok(None)
        }
    } else if has_suffix(tree.kind(value), "_literal") {
        Ok(Some((label.to_owned(), text.to_owned())))
    } else if tree.is_kind(value, "simple_identifier") && starts_with_char(text, '$') {
        let mut key = String::new();
        key.append("v-model:");
        key.append(label);
        proof {
            assert(key@ =~= "v-model:"@ + label@);
        }
        Ok(Some((key, strip_leading(text, '$').to_owned())))
    } else {
        Ok(Some((bound(label), text.to_owned())))
    }
}

/// Resolves one argument of the constructor call of a view with tag `tag`:
/// the attribute it stands for, the pair `("content", text)` where it gives
/// the element's text, or nothing.
///
/// `Text`, `Button`, `ForEach` and `ColorPicker` have rules of their own; the
/// common rule applies where the tag has none or its rule yields nothing.
/// Fails where the argument, or a closure that the rule reads, lacks a child
/// that the rule calls for.
pub fn compute_modifier(tag: &str, tree: &SyntaxTree, node: usize) -> (r: Result<
    Option<(String, String)>,
    Malformed,
>)
    requires
        tree.wf(),
    ensures
        match r {
            Ok(p) => modifier_of(tag@, tree@, node as int) == Ok::<Option<PairModel>, Malformed>(
                pair_view(p),
            ),
            Err(e) => modifier_of(tag@, tree@, node as int) is Err,
        },
{
    let res = if str_eq(tag, "Text") {
        compute_text(tree, node)?
    } else if str_eq(tag, "Button") {
        compute_button(tree, node)?
    } else if str_eq(tag, "ForEach") {
        compute_foreach(tree, node)?
    } else if str_eq(tag, "ColorPicker") {
        compute_color_picker(tree, node)?
    } else {
        None
    };
    match res {
        Some(p) => Ok(Some(p)),
        None => common_compute(tree, node),
    }
}

} // verus!
