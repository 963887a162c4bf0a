use swift2vue::common::array::{array2js_call, array2js_call_with_obj_context};
use swift2vue::common::model::date_model2js_fn;
use swift2vue::common::object::{callexp2object, callexp2object_with_context, ArgType};
use swift2vue::syntax::{Malformed, SyntaxTree};
use tree_sitter::{Node, Parser};

fn copy(tree: &mut SyntaxTree, node: Node, parent: Option<usize>, source: &str) -> usize {
    let text = node.utf8_text(source.as_bytes()).unwrap();
    let at = node.start_position();
    let id = tree
        .add_node(parent, node.kind(), text, at.row, at.column)
        .unwrap();
    for i in 0..node.child_count() {
        copy(tree, node.child(i).unwrap(), Some(id), source);
    }
    id
}

fn parse(source: &str) -> SyntaxTree {
    let mut parser = Parser::new();
    parser
        .set_language(&tree_sitter_swift::LANGUAGE.into())
        .expect("Error loading Swift grammar");
    let parsed = parser.parse(source, None).unwrap();
    let mut tree = SyntaxTree::new();
    copy(&mut tree, parsed.root_node(), None, source);
    tree
}

fn dump(tree: &SyntaxTree, id: usize, depth: usize, out: &mut String) {
    out.push_str(&format!(
        "{}{} [{}] {:?}\n",
        "  ".repeat(depth),
        tree.kind(id),
        id,
        tree.text(id)
    ));
    for j in 0..tree.child_count(id) {
        dump(tree, tree.child(id, j).unwrap(), depth + 1, out);
    }
}

const CALL: &str = r#"Color(red: 0.98, .sRGB, sub: Test(2, a: 123), Test(2, a: 123))"#;
const ARRAY: &str = r#"[.red, .blue, Color(red: 22)]"#;
const MODEL: &str = r#"
    struct ToggleStates {
      var oneIsOn: Bool = false
      var twoIsOn: Bool = true
    }
    "#;

#[test]
fn test_callexp2object() {
    let tree = parse(CALL);
    let node = tree.child(0, 0).unwrap();
    let mut shown = String::new();
    dump(&tree, 0, 0, &mut shown);
    println!("{}", shown);
    let result = callexp2object(&tree, node);
    assert_eq!(
        result,
        Ok("SwiftColor(SwiftColor.sRGB, SwiftTest(2, {a: 123}), {red: 0.98, sub: SwiftTest(2, {a: 123})})".to_string())
    );
}

#[test]
fn array_test_array2js_call() {
    let tree = parse(ARRAY);
    let node = tree.child(0, 0).unwrap();
    let result = array2js_call(&tree, node, "DatePicker");
    assert_eq!(
        result,
        Ok("[DatePicker.red, DatePicker.blue, SwiftColor({red: 22})]".to_string())
    );
}

#[test]
fn model_test_array2js_call() {
    let tree = parse(MODEL);
    let node = tree.child(0, 0).unwrap();
    let mut shown = String::new();
    dump(&tree, 0, 0, &mut shown);
    println!("{}", shown);
    let result = date_model2js_fn(&tree, node).unwrap();
    println!("result: {}", result);
}

#[test]
fn model_factory_returns_the_declared_defaults() {
    let tree = parse(MODEL);
    let node = tree.child(0, 0).unwrap();
    let result = date_model2js_fn(&tree, node);
    let expected = "function ToggleStates(arg) {\n    const { oneIsOn, twoIsOn, } = arg ?? {};\n    return {\n        oneIsOn: oneIsOn ?? false,\n        twoIsOn: twoIsOn ?? true,\n    };\n}\n";
    assert_eq!(result, Ok(expected.to_string()));
}

#[test]
fn model_property_without_initializer_defaults_to_false() {
    let tree = parse("struct Item {\n  var title: String\n}\n");
    let node = tree.child(0, 0).unwrap();
    let result = date_model2js_fn(&tree, node);
    let expected = "function Item(arg) {\n    const { title, } = arg ?? {};\n    return {\n        title: title ?? false,\n    };\n}\n";
    assert_eq!(result, Ok(expected.to_string()));
}

#[test]
fn call_without_labels_keeps_positional_values_only() {
    let tree = parse("Test(1, 2)");
    let node = tree.child(0, 0).unwrap();
    assert_eq!(callexp2object(&tree, node), Ok("SwiftTest(1, 2)".to_string()));
    let tree = parse("Test(.a)");
    let node = tree.child(0, 0).unwrap();
    assert_eq!(callexp2object(&tree, node), Ok("SwiftTest(SwiftTest.a)".to_string()));
}

#[test]
fn call_with_labels_only_is_one_object_literal() {
    let tree = parse("Color(red: 1, green: 2)");
    let node = tree.child(0, 0).unwrap();
    assert_eq!(
        callexp2object(&tree, node),
        Ok("SwiftColor({red: 1, green: 2})".to_string())
    );
}

#[test]
fn call_without_arguments() {
    let tree = parse("Test()");
    let node = tree.child(0, 0).unwrap();
    assert_eq!(callexp2object(&tree, node), Ok("SwiftTest()".to_string()));
}

#[test]
fn labeled_arguments_keep_their_order() {
    let tree = parse("Color(blue: 3, 7, red: 1, 9, green: 2)");
    let node = tree.child(0, 0).unwrap();
    assert_eq!(
        callexp2object(&tree, node),
        Ok("SwiftColor(7, 9, {blue: 3, red: 1, green: 2})".to_string())
    );
}

#[test]
fn call_context_plays_no_part() {
    let tree = parse(CALL);
    let node = tree.child(0, 0).unwrap();
    let names = vec!["Test".to_string()];
    assert_eq!(
        callexp2object_with_context(&tree, node, &names),
        callexp2object(&tree, node)
    );
}

#[test]
fn call_on_another_kind_of_node_is_malformed() {
    let tree = parse(ARRAY);
    let node = tree.child(0, 0).unwrap();
    assert_eq!(callexp2object(&tree, node), Err(Malformed));
    assert_eq!(callexp2object(&tree, tree.len()), Err(Malformed));
}

#[test]
fn array_of_literals_is_the_joined_source_texts() {
    let tree = parse(r#"[1, "two", 3]"#);
    let node = tree.child(0, 0).unwrap();
    assert_eq!(
        array2js_call(&tree, node, ""),
        Ok(r#"[1, "two", 3]"#.to_string())
    );
}

#[test]
fn literal_inside_a_literal_is_no_element_of_its_own() {
    let tree = parse("[\"a \\(1) b\", 2]");
    let node = tree.child(0, 0).unwrap();
    assert_eq!(
        array2js_call(&tree, node, "X"),
        Ok("[\"a \\(1) b\", 2]".to_string())
    );
}

#[test]
fn empty_array() {
    let tree = parse("[]");
    let node = tree.child(0, 0).unwrap();
    assert_eq!(array2js_call(&tree, node, "X"), Ok("[]".to_string()));
}

#[test]
fn nested_array() {
    let tree = parse("[[1, 2], [.a]]");
    let node = tree.child(0, 0).unwrap();
    assert_eq!(
        array2js_call(&tree, node, "K"),
        Ok("[[1, 2], [K.a]]".to_string())
    );
}

#[test]
fn array_context_of_objects_plays_no_part() {
    let tree = parse(ARRAY);
    let node = tree.child(0, 0).unwrap();
    let names = vec!["Color".to_string()];
    assert_eq!(
        array2js_call_with_obj_context(&tree, node, "DatePicker", &names),
        array2js_call(&tree, node, "DatePicker")
    );
}

#[test]
fn array_on_another_kind_of_node_is_malformed() {
    let tree = parse(CALL);
    let node = tree.child(0, 0).unwrap();
    assert_eq!(array2js_call(&tree, node, ""), Err(Malformed));
}

#[test]
fn model_on_another_kind_of_node_is_malformed() {
    let tree = parse(CALL);
    let node = tree.child(0, 0).unwrap();
    assert_eq!(date_model2js_fn(&tree, node), Err(Malformed));
}

#[test]
fn labels_are_told_from_positions() {
    let label = ArgType::Label { label: "a".to_string(), value: "1".to_string() };
    let label_sub = ArgType::LabelSub { label: "a".to_string(), code: "X()".to_string() };
    let value = ArgType::Value { value: "1".to_string() };
    let prefix = ArgType::PrefixValue { value: "red".to_string() };
    let sub = ArgType::Sub { code: "X()".to_string() };
    assert!(label.is_label());
    assert!(label_sub.is_label());
    assert!(!value.is_label());
    assert!(!prefix.is_label());
    assert!(!sub.is_label());
}
