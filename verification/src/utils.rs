//! Small helpers on text and on the syntax tree.

use crate::syntax::{child_at, SyntaxTree, TreeModel};
use crate::text::{after_first_line, drop_first_line, remove_char, without_char};
use vstd::prelude::*;

verus! {

/// The text on one line: `s` without its line feeds.
pub fn inline_str(s: &str) -> (r: String)
    ensures
        r@ == without_char(s@, '\n'),
{
    remove_char(s, '\n')
}

/// Whether `xml` can be read as markup with an element in it.
pub uninterp spec fn xml_parses(xml: Seq<char>) -> bool;

/// `Element::parse` and, on the element it hands back, `write_with_config`
/// with an `EmitterConfig` that indents: the document as written, where the
/// text can be read. The order in which an element's attributes are written
/// is not fixed, so nothing is claimed of the written text.
#[verifier::external_body]
pub(crate) fn xml_indent(xml: &str) -> (r: Option<String>)
    ensures
        r is Some <==> xml_parses(xml@),
{
    let mut config = xmltree::EmitterConfig::new();
    config.perform_indent = true;
    let mut out = Vec::new();
    match xmltree::Element::parse(xml.as_bytes()) {
        Ok(element) => {
            let _ = element.write_with_config(&mut out, config);
            Some(String::from_utf8_lossy(&out).into_owned())
        },
        Err(_) => None,
    }
}

/// A written document without its first line, which holds the document's
/// declaration.
pub fn without_declaration(written: &str) -> (r: String)
    ensures
        r@ == after_first_line(written@),
{
    drop_first_line(written)
}

/// Writes the markup `xml` indented, one element per line, without the
/// document's declaration; nothing where `xml` cannot be read as markup.
/// The result is some written document without its first line.
pub fn prettify_xml(xml: &str) -> (r: Option<String>)
    ensures
        r is Some <==> xml_parses(xml@),
        r matches Some(s) ==> exists|written: Seq<char>| s@ == after_first_line(written),
{
    match xml_indent(xml) {
        Some(written) => Some(without_declaration(written.as_str())),
        None => None,
    }
}

/// The first node of kind `kind` below node `id`, in the order in which a
/// reader meets the nodes: a node before the nodes under it, and those before
/// its later siblings.
pub open spec fn first_node_of_kind(t: TreeModel, id: int, kind: Seq<char>) -> Option<int>
    decreases t.len() - id, t[id].children.len() + 1,
{
    first_node_of_kind_from(t, id, 0, kind)
}

/// The first node of kind `kind` among the children of `id` from the `j`-th
/// on, and the nodes below them.
pub open spec fn first_node_of_kind_from(t: TreeModel, id: int, j: int, kind: Seq<char>) -> Option<
    int,
>
    decreases t.len() - id, t[id].children.len() - j,
{
    match child_at(t, id, j) {
        None => None,
        Some(c) => if t[c].kind == kind {
            Some(c)
        } else {
            match first_node_of_kind(t, c, kind) {
                Some(r) => Some(r),
                None => first_node_of_kind_from(t, id, j + 1, kind),
            }
        },
    }
}

/// The text of the first `simple_identifier` on the path that leads from node
/// `id` down through first children.
pub open spec fn first_simple_identifier(t: TreeModel, id: int) -> Option<Seq<char>>
    decreases t.len() - id,
{
    match child_at(t, id, 0) {
        None => None,
        Some(c) => if t[c].kind == "simple_identifier"@ {
            Some(t[c].text)
        } else {
            first_simple_identifier(t, c)
        },
    }
}

/// Finds the first node of kind `kind` below node `node`.
pub fn find_first_node(tree: &SyntaxTree, node: usize, kind: &str) -> (r: Option<usize>)
    requires
        tree.wf(),
    ensures
        r matches Some(c) ==> c < tree@.len(),
        match r {
            Some(c) => first_node_of_kind(tree@, node as int, kind@) == Some(c as int),
            None => first_node_of_kind(tree@, node as int, kind@) is None,
        },
    decreases tree@.len() - node,
{
    let n = tree.child_count(node);
    let mut j: usize = 0;
    while j < n
        invariant
            tree.wf(),
            j <= n,
            n == crate::syntax::child_count_of(tree@, node as int),
            first_node_of_kind(tree@, node as int, kind@) == first_node_of_kind_from(
                tree@,
                node as int,
                j as int,
                kind@,
            ),
        decreases n - j,
    {
        match tree.child(node, j) {
            None => {
                return None;
            },
            Some(c) => {
                if tree.is_kind(c, kind) {
                    return Some(c);
                }
                match find_first_node(tree, c, kind) {
                    Some(r) => {
                        return Some(r);
                    },
                    None => {},
                }
            },
        }
        j = j + 1;
    }
    None
}

/// Finds the text of the first `simple_identifier` on the path of first
/// children below node `node`.
pub fn find_first_simple_identifier(tree: &SyntaxTree, node: usize) -> (r: Option<String>)
    requires
        tree.wf(),
    ensures
        match r {
            Some(s) => first_simple_identifier(tree@, node as int) == Some(s@),
            None => first_simple_identifier(tree@, node as int) is None,
        },
    decreases tree@.len() - node,
{
    match tree.child(node, 0) {
        None => None,
        Some(c) => {
            if tree.is_kind(c, "simple_identifier") {
                Some(tree.text(c).to_owned())
            } else {
                find_first_simple_identifier(tree, c)
            }
        },
    }
}

} // verus!
