use swift2vue::name_map::NameMap;
use swift2vue::pattern::rewritten_or_same;
use swift2vue::shape::ViewTree;
use swift2vue::syntax::SyntaxTree;
use swift2vue::text::{
    char_is_space, drop_first_line, has_suffix, join_strs, join_strs_ended, opt_str_eq,
    remove_char, split, starts_with_char, str_eq, strip_leading, trim, trim_end, trim_start,
};
use swift2vue::utils::{
    find_first_node, find_first_simple_identifier, inline_str, prettify_xml, without_declaration,
};
use swift2vue::view::ViewNode;

fn sample() -> SyntaxTree {
    let mut tree = SyntaxTree::new();
    let root = tree.add_node(None, "source_file", "f(a) g", 0, 0).unwrap();
    let call = tree.add_node(Some(root), "call_expression", "f(a)", 0, 0).unwrap();
    tree.add_node(Some(call), "simple_identifier", "f", 0, 0).unwrap();
    let suffix = tree.add_node(Some(call), "call_suffix", "(a)", 0, 1).unwrap();
    tree.add_node(Some(suffix), "(", "(", 0, 1).unwrap();
    let arg = tree.add_node(Some(suffix), "value_argument", "a", 0, 2).unwrap();
    tree.add_node(Some(arg), "simple_identifier", "a", 0, 2).unwrap();
    tree.add_node(Some(suffix), ")", ")", 0, 3).unwrap();
    tree.add_node(Some(root), "simple_identifier", "g", 0, 5).unwrap();
    tree
}

#[test]
fn tree_links_its_nodes() {
    let tree = sample();
    assert_eq!(tree.len(), 9);
    assert_eq!(tree.kind(1), "call_expression");
    assert_eq!(tree.text(3), "(a)");
    assert_eq!(tree.row(8), 0);
    assert_eq!(tree.col(8), 5);
    assert!(tree.is_kind(5, "value_argument"));
    assert!(!tree.is_kind(5, "value_arguments"));
    assert!(!tree.is_kind(9, "value_argument"));
    assert_eq!(tree.child_count(3), 3);
    assert_eq!(tree.child_count(9), 0);
    assert_eq!(tree.child(3, 1), Some(5));
    assert_eq!(tree.child(3, 3), None);
    assert_eq!(tree.child(9, 0), None);
    assert_eq!(tree.parent(5), Some(3));
    assert_eq!(tree.parent(0), None);
    assert_eq!(tree.parent(9), None);
    assert_eq!(tree.next_sibling(4), Some(5));
    assert_eq!(tree.next_sibling(7), None);
    assert_eq!(tree.next_sibling(1), Some(8));
    assert_eq!(tree.next_sibling(0), None);
    assert_eq!(tree.prev_sibling(5), Some(4));
    assert_eq!(tree.prev_sibling(4), None);
    assert_eq!(tree.prev_sibling(8), Some(1));
}

#[test]
fn tree_refuses_a_node_it_cannot_link() {
    let mut tree = sample();
    assert_eq!(tree.add_node(Some(9), "x", "x", 0, 0), None);
    assert_eq!(tree.add_node(Some(0), "x", "x", usize::MAX, 0), None);
    assert_eq!(tree.len(), 9);
    assert_eq!(tree.add_node(Some(0), "x", "x", usize::MAX - 1, 7), Some(9));
    assert_eq!(tree.len(), 10);
    assert_eq!(tree.child(0, 2), Some(9));
}

#[test]
fn first_node_of_a_kind_is_found_in_reading_order() {
    let tree = sample();
    assert_eq!(find_first_node(&tree, 0, "simple_identifier"), Some(2));
    assert_eq!(find_first_node(&tree, 3, "simple_identifier"), Some(6));
    assert_eq!(find_first_node(&tree, 0, ")"), Some(7));
    assert_eq!(find_first_node(&tree, 1, "call_expression"), None);
    assert_eq!(find_first_node(&tree, 6, "simple_identifier"), None);
    assert_eq!(find_first_node(&tree, 9, "simple_identifier"), None);
}

#[test]
fn first_identifier_follows_first_children_only() {
    let tree = sample();
    assert_eq!(find_first_simple_identifier(&tree, 0), Some("f".to_string()));
    assert_eq!(find_first_simple_identifier(&tree, 5), Some("a".to_string()));
    assert_eq!(find_first_simple_identifier(&tree, 3), None);
    assert_eq!(find_first_simple_identifier(&tree, 8), None);
}

#[test]
fn text_on_one_line() {
    assert_eq!(inline_str("a\nb\n\nc"), "abc");
    assert_eq!(inline_str("\n"), "");
    assert_eq!(inline_str("abc"), "abc");
    assert_eq!(inline_str(""), "");
    assert_eq!(remove_char("a-b--c-", '-'), "abc");
}

#[test]
fn white_space_is_trimmed() {
    assert_eq!(trim("  a b \n\t"), "a b");
    assert_eq!(trim(" \n "), "");
    assert_eq!(trim(""), "");
    assert_eq!(trim("\u{3000}x\u{a0}"), "x");
    assert_eq!(trim_end("  a \r\n"), "  a");
    assert_eq!(trim_start("  a \r\n"), "a \r\n");
    assert!(char_is_space(' '));
    assert!(char_is_space('\n'));
    assert!(char_is_space('\u{2028}'));
    assert!(!char_is_space('a'));
    assert!(!char_is_space('\u{200b}'));
    for c in ['\u{9}', '\u{d}', '\u{e}', '\u{85}', '\u{1680}', '\u{2000}', '\u{200a}', '\u{202f}', '\u{205f}', '越'] {
        assert_eq!(char_is_space(c), c.is_whitespace());
    }
}

#[test]
fn white_space_is_what_the_standard_library_calls_so() {
    for n in 0..=0x10FFFFu32 {
        if let Some(c) = char::from_u32(n) {
            assert_eq!(char_is_space(c), c.is_whitespace(), "U+{:04X}", n);
        }
    }
}

#[test]
fn text_is_split_and_joined() {
    assert_eq!(split("a\nb\n", '\n'), vec!["a".to_string(), "b".to_string(), "".to_string()]);
    assert_eq!(split("", '\n'), vec!["".to_string()]);
    assert_eq!(split("\n", '\n'), vec!["".to_string(), "".to_string()]);
    let parts = vec!["a".to_string(), "b".to_string(), "c".to_string()];
    assert_eq!(join_strs(&parts, ", "), "a, b, c");
    assert_eq!(join_strs_ended(&parts, ", "), "a, b, c, ");
    assert_eq!(join_strs(&vec![], ", "), "");
    assert_eq!(join_strs(&vec!["a".to_string()], ", "), "a");
    assert_eq!(join_strs_ended(&vec![], ", "), "");
}

#[test]
fn texts_are_compared() {
    assert!(str_eq("abc", "abc"));
    assert!(!str_eq("abc", "abd"));
    assert!(!str_eq("abc", "ab"));
    assert!(opt_str_eq(&Some("View".to_string()), "View"));
    assert!(!opt_str_eq(&Some("View".to_string()), "Views"));
    assert!(!opt_str_eq(&None, "View"));
    assert!(has_suffix("integer_literal", "_literal"));
    assert!(has_suffix("_literal", "_literal"));
    assert!(!has_suffix("literal", "_literal"));
    assert!(!has_suffix("simple_identifier", "_literal"));
    assert!(starts_with_char("$x", '$'));
    assert!(!starts_with_char("x$", '$'));
    assert!(!starts_with_char("", '$'));
    assert_eq!(strip_leading("$$x$", '$'), "x$");
    assert_eq!(strip_leading("x", '$'), "x");
    assert_eq!(strip_leading("$$", '$'), "");
}

#[test]
fn first_line_is_dropped() {
    assert_eq!(drop_first_line("a\nb\nc"), "b\nc");
    assert_eq!(drop_first_line("a\r\nb\r\nc\r\n"), "b\nc");
    assert_eq!(drop_first_line("a\nb\n"), "b");
    assert_eq!(drop_first_line("a\n\nb"), "\nb");
    assert_eq!(drop_first_line("a\nb\r"), "b\r");
    assert_eq!(drop_first_line("a"), "");
    assert_eq!(drop_first_line("a\n"), "");
    assert_eq!(drop_first_line(""), "");
    for s in ["a\nb\nc", "a\r\nb\r\nc\r\n", "a\n\nb\n\n", "\n\n", "x\r\n\r\ny\r", ""] {
        let expected = s.lines().skip(1).collect::<Vec<&str>>().join("\n");
        assert_eq!(drop_first_line(s), expected);
    }
}

#[test]
fn markup_is_indented() {
    let pretty = prettify_xml("<a><b>x</b><c/></a>");
    assert_eq!(pretty, Some("<a>\n  <b>x</b>\n  <c />\n</a>".to_string()));
    assert_eq!(prettify_xml("not markup"), None);
    assert_eq!(prettify_xml(""), None);
    assert_eq!(without_declaration("<?xml?>\n<a />"), "<a />");
    assert_eq!(without_declaration("<?xml?>"), "");
}

#[test]
fn rewriting_falls_back_to_the_text() {
    assert_eq!(rewritten_or_same("abc", Some("x".to_string())), "x");
    assert_eq!(rewritten_or_same("abc", None), "abc");
}

#[test]
fn map_keeps_names_once_and_in_order() {
    let mut map: NameMap<String> = NameMap::new();
    assert_eq!(map.len(), 0);
    assert_eq!(map.get("a"), None);
    map.insert("a".to_string(), "1".to_string());
    map.insert("b".to_string(), "2".to_string());
    map.insert("c".to_string(), "3".to_string());
    map.insert("a".to_string(), "4".to_string());
    assert_eq!(map.len(), 3);
    assert_eq!(map.key_at(0), "a");
    assert_eq!(map.value_at(0), "4");
    assert_eq!(map.key_at(2), "c");
    assert_eq!(map.get("b"), Some(&"2".to_string()));
    assert_eq!(map.remove("b"), Some("2".to_string()));
    assert_eq!(map.remove("b"), None);
    assert_eq!(map.len(), 2);
    assert_eq!(map.key_at(1), "c");
    assert_eq!(map.get("b"), None);
}

fn element(tag: &str, content: Option<&str>) -> ViewNode {
    let mut node = ViewNode::new(tag.to_string());
    node.str_content = content.map(|c| c.to_string());
    node
}

#[test]
fn elements_open_under_the_cursor() {
    let mut tree = ViewTree::new();
    assert_eq!(tree.len(), 0);
    assert_eq!(tree.cursor(), None);
    assert_eq!(tree.render(), None);
    assert_eq!(tree.open(element("A", None)), Some(0));
    assert_eq!(tree.cursor(), Some(0));
    assert_eq!(tree.open(element("B", Some("b"))), Some(1));
    tree.close();
    assert_eq!(tree.cursor(), Some(0));
    assert_eq!(tree.open(element("C", None)), Some(2));
    assert_eq!(tree.open(element("D", None)), Some(3));
    tree.close();
    tree.close();
    assert_eq!(tree.open(element("E", None)), Some(4));
    tree.set_attr(0, "x".to_string(), "1".to_string());
    tree.set_attr(4, "bare".to_string(), "".to_string());
    tree.close();
    tree.close();
    assert_eq!(tree.cursor(), None);
    tree.close();
    assert_eq!(tree.cursor(), None);
    assert_eq!(tree.len(), 5);
    assert_eq!(tree.node(2).tag, "C");
    assert_eq!(
        tree.render(),
        Some("<A x=\"1\"><B>b</B>\n<C><D></D>\n</C>\n<E bare></E>\n</A>\n".to_string())
    );
}

#[test]
fn element_opened_beside_the_root_becomes_the_root() {
    let mut tree = ViewTree::new();
    tree.open(element("A", None));
    tree.open(element("B", None));
    tree.close();
    tree.close();
    assert_eq!(tree.open(element("C", None)), Some(2));
    assert_eq!(tree.cursor(), Some(2));
    tree.close();
    assert_eq!(tree.cursor(), None);
    assert_eq!(tree.render(), Some("<C><A><B></B>\n</A>\n</C>\n".to_string()));
}

#[test]
fn element_with_text_takes_no_children() {
    let mut tree = ViewTree::new();
    assert_eq!(tree.open(element("A", Some("text"))), Some(0));
    assert_eq!(tree.open(element("B", None)), None);
    assert_eq!(tree.len(), 1);
    assert_eq!(tree.cursor(), Some(0));
    tree.close();
    assert_eq!(tree.open(element("C", Some("c"))), None);
    assert_eq!(tree.len(), 1);
    assert_eq!(tree.cursor(), None);
    assert_eq!(tree.render(), Some("<A>text</A>\n".to_string()));
    assert_eq!(tree.open(element("D", None)), Some(1));
    assert_eq!(tree.render(), Some("<D><A>text</A>\n</D>\n".to_string()));
}
