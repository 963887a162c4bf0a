use swift2vue::component::compute_modifier;
use swift2vue::paser::{State, StructInfo, StructMember};
use swift2vue::pipeline::{generate_modules, transpile};
use swift2vue::syntax::{Malformed, SyntaxTree};
use swift2vue::view::{GenerateError, ViewNode, ViewParseError, ViewParser};
use tree_sitter::{Node, Parser};

fn copy(tree: &mut SyntaxTree, node: Node, parent: Option<usize>, source: &str) -> usize {
    let text = node.utf8_text(source.as_bytes()).unwrap();
    let at = node.start_position();
    let id = tree
        .add_node(parent, node.kind(), text, at.row, at.column)
        .unwrap();
    for i in 0..node.child_count() {
        copy(tree, node.child(i).unwrap(), Some(id), source);
    }
    id
}

fn parse(source: &str) -> SyntaxTree {
    let mut parser = Parser::new();
    parser
        .set_language(&tree_sitter_swift::LANGUAGE.into())
        .expect("Error loading Swift grammar");
    let parsed = parser.parse(source, None).unwrap();
    let mut tree = SyntaxTree::new();
    copy(&mut tree, parsed.root_node(), None, source);
    tree
}

fn find(tree: &SyntaxTree, kind: &str, text: &str) -> usize {
    for id in 0..tree.len() {
        if tree.kind(id) == kind && tree.text(id) == text {
            return id;
        }
    }
    panic!("no node of kind {} with text {}", kind, text);
}

fn declarations(tree: &SyntaxTree) -> Vec<StructInfo> {
    let mut state = State::new(false);
    state.handle_source(tree, 0).unwrap();
    state.into_structs()
}

fn view_of(body: &str) -> String {
    format!("struct V: View {{\n    var body: some View {{\n        {}\n    }}\n}}\n", body)
}

fn template_of(body: &str) -> Result<String, Malformed> {
    let source = view_of(body);
    let tree = parse(&source);
    let st = declarations(&tree).remove(0);
    let mut view = ViewParser::from_struct(st, &tree);
    view.generate_template()
}

fn modifier_of(tag: &str, call: &str, argument: &str) -> Result<Option<(String, String)>, Malformed> {
    let tree = parse(call);
    let node = find(&tree, "value_argument", argument);
    compute_modifier(tag, &tree, node)
}

fn pair(key: &str, value: &str) -> Result<Option<(String, String)>, Malformed> {
    Ok(Some((key.to_string(), value.to_string())))
}

#[test]
fn labeled_true_is_a_bare_directive() {
    assert_eq!(modifier_of("Toggle", "Toggle(isOn: true)", "isOn: true"), pair("isOn", ""));
}

#[test]
fn labeled_false_is_dropped() {
    assert_eq!(modifier_of("Toggle", "Toggle(isOn: false)", "isOn: false"), Ok(None));
}

#[test]
fn dollar_name_is_a_two_way_binding() {
    assert_eq!(modifier_of("Toggle", "Toggle(isOn: $x)", "isOn: $x"), pair("v-model:isOn", "x"));
}

#[test]
fn bare_name_is_a_bound_attribute() {
    assert_eq!(modifier_of("Toggle", "Toggle(isOn: x)", "isOn: x"), pair("v-bind:isOn", "x"));
}

#[test]
fn other_literal_is_a_plain_attribute() {
    assert_eq!(modifier_of("VStack", "VStack(spacing: 8)", "spacing: 8"), pair("spacing", "8"));
}

#[test]
fn other_expression_is_bound_as_written() {
    assert_eq!(
        modifier_of("VStack", "VStack(spacing: a + 1)", "spacing: a + 1"),
        pair("v-bind:spacing", "a + 1")
    );
}

#[test]
fn positional_argument_of_a_tag_without_rule_yields_nothing() {
    assert_eq!(modifier_of("VStack", "VStack(8)", "8"), Ok(None));
}

#[test]
fn text_literal_is_the_content() {
    assert_eq!(modifier_of("Text", r#"Text("hi")"#, r#""hi""#), pair("content", "hi"));
}

#[test]
fn text_interpolation_becomes_double_braces() {
    assert_eq!(
        modifier_of("Text", r#"Text("a \(n) b")"#, r#""a \(n) b""#),
        pair("content", "a {{n}} b")
    );
}

#[test]
fn text_of_a_name_is_an_interpolation() {
    assert_eq!(modifier_of("Text", "Text(name)", "name"), pair("content", "{{ name }}"));
    assert_eq!(modifier_of("Text", "Text(item.title)", "item.title"), pair("content", "{{ item.title }}"));
}

#[test]
fn button_literal_is_the_content() {
    assert_eq!(modifier_of("Button", r#"Button("Add")"#, r#""Add""#), pair("content", "Add"));
    assert_eq!(modifier_of("Button", "Button(name)", "name"), Ok(None));
}

#[test]
fn foreach_is_an_iteration_directive() {
    let tree = parse("ForEach(items) { item in\n Text(item.title)\n}");
    let node = find(&tree, "value_argument", "items");
    assert_eq!(compute_modifier("ForEach", &tree, node), pair("v-for", "item in items"));
}

#[test]
fn foreach_without_closure_is_malformed() {
    assert_eq!(modifier_of("ForEach", "ForEach(items)", "items"), Err(Malformed));
}

#[test]
fn color_picker_binds_its_opacity_flag() {
    assert_eq!(
        modifier_of("ColorPicker", "ColorPicker(supportsOpacity: flag)", "supportsOpacity: flag"),
        pair("v-bind:supportsOpacity", "flag")
    );
    assert_eq!(
        modifier_of("ColorPicker", r#"ColorPicker("Pick")"#, r#""Pick""#),
        pair("content", "Pick")
    );
    assert_eq!(
        modifier_of("ColorPicker", "ColorPicker(supportsOpacity: true)", "supportsOpacity: true"),
        pair("v-bind:supportsOpacity", "true")
    );
}

#[test]
fn modifier_of_a_node_without_children_is_malformed() {
    let tree = parse("Toggle(isOn: true)");
    let leaf = find(&tree, "simple_identifier", "Toggle");
    assert_eq!(compute_modifier("Toggle", &tree, leaf), Err(Malformed));
    assert_eq!(compute_modifier("Toggle", &tree, tree.len()), Err(Malformed));
}

#[test]
fn chained_modifier_sets_an_attribute_on_the_same_node() {
    let source = view_of(r#"Text("hi").padding()"#);
    let tree = parse(&source);
    let st = declarations(&tree).remove(0);
    let mut view = ViewParser::from_struct(st, &tree);
    let template = view.generate_template();
    assert_eq!(template, Ok("<Text padding>hi</Text>\n".to_string()));
    let built = view.view_tree();
    assert_eq!(built.len(), 1);
    let node = built.node(0);
    assert_eq!(node.tag, "Text");
    assert_eq!(node.str_content, Some("hi".to_string()));
    assert_eq!(node.modifier.len(), 1);
    assert_eq!(node.modifier.get("padding"), Some(&"".to_string()));
}

#[test]
fn chained_modifiers_keep_their_order_and_values() {
    assert_eq!(
        template_of(r#"Text("hi").padding(4).font(.title).bold()"#),
        Ok("<Text padding=\"4\" font=\"title\" bold>hi</Text>\n".to_string())
    );
}

#[test]
fn labeled_modifier_value_is_the_value_after_the_label() {
    assert_eq!(
        template_of(r#"Text("hi").frame(width: 10)"#),
        Ok("<Text frame=\"10\">hi</Text>\n".to_string())
    );
}

#[test]
fn tap_gesture_is_the_click_directive() {
    assert_eq!(
        template_of(r#"Text("hi").onTapGesture(perform: go)"#),
        Ok("<Text @click=\"go\">hi</Text>\n".to_string())
    );
}

#[test]
fn context_menu_sets_nothing() {
    assert_eq!(
        template_of(r#"Text("hi").contextMenu(menu)"#),
        Ok("<Text>hi</Text>\n".to_string())
    );
}

#[test]
fn trailing_closure_holds_the_children() {
    assert_eq!(
        template_of("VStack(spacing: 8) {\n Text(\"a\")\n Text(\"b\")\n }"),
        Ok("<VStack spacing=\"8\"><Text>a</Text>\n<Text>b</Text>\n</VStack>\n".to_string())
    );
    assert_eq!(
        template_of("VStack {\n HStack {\n Text(\"a\")\n }\n Text(\"b\")\n }"),
        Ok("<VStack><HStack><Text>a</Text>\n</HStack>\n<Text>b</Text>\n</VStack>\n".to_string())
    );
}

#[test]
fn later_value_of_an_attribute_replaces_the_earlier_one() {
    assert_eq!(
        template_of(r#"Text("hi").padding(1).bold().padding(2)"#),
        Ok("<Text padding=\"2\" bold>hi</Text>\n".to_string())
    );
}

#[test]
fn view_without_element_is_malformed() {
    let tree = parse("struct V: View {\n    var count = 0\n}\n");
    let st = declarations(&tree).remove(0);
    let mut view = ViewParser::from_struct(st, &tree);
    assert_eq!(view.generate_template(), Err(Malformed));
}

#[test]
fn declaration_that_is_no_view_has_no_template_and_no_component() {
    let tree = parse("struct M: Model {\n    var count = 0\n}\n");
    let st = declarations(&tree).remove(0);
    let mut view = ViewParser::from_struct(st, &tree);
    assert_eq!(view.generate_template(), Ok("".to_string()));
    let code = view.generate_component_code(vec![], vec![]);
    assert_eq!(code.unwrap(), "");
    assert_eq!(view.generate_empty_component(), "");
}

#[test]
fn empty_component_of_a_view() {
    let source = view_of(r#"Text("hi")"#);
    let tree = parse(&source);
    let st = declarations(&tree).remove(0);
    let view = ViewParser::from_struct(st, &tree);
    assert_eq!(
        view.generate_empty_component(),
        "export default {\n    setup() {\n    },\n    template: `<div></div>`\n}"
    );
}

const COUNTER: &str = r#"
struct ContentView: View {
    @State var count = 0
    @State var name = "x"
    @State var items = [Item(title: "A"), Item(title: "B")]
    @State var chosen = Item(title: "A")
    let fixed = Color(red: 1)
    let plain = 3
    struct Item {
        var title: String = "t"
    }
    var body: some View {
        VStack(spacing: 8, flag: true, off: false) {
            Text("hi \(name)!").padding().font(.title)
            Button("Add") { }.onTapGesture { inc() }
            ForEach(items) { item in
                Text(item.title)
            }
            TextField("n", text: $name)
        }
    }
    func inc() {
        count += 1
        plain = 4
        other = 5
        print(Item(title: "D"))
    }
}
struct P_Previews: PreviewProvider {
    static var previews: some View {
        ContentView()
    }
}
"#;

const COUNTER_MODULE: &str = r#"import ref from './ref.js'
import VStack from './VStack.js'

function Item(arg) {
    const { title, } = arg ?? {};
    return {
        title: title ?? "t",
    };
}

export default {
    components: {
        VStack
    },
    setup() {
        const count = ref(0);
        const name = ref("x");
        const items = reactive([SwiftItem({title: "A"}), SwiftItem({title: "B"})]);
        const chosen = ref(SwiftItem({title: "A"}));
        const fixed = SwiftColor({red: 1});
        const plain = 3;
        const inc = () => {
            count.value += 1;
            plain = 4
            other = 5
            print({ title: "D" })
        };
        return { count, name, items, chosen, fixed, plain, inc, ref };
    },
    template: `<VStack spacing="8" flag><Text padding font="title">hi {{name}}!</Text><Button @click>Add</Button><ForEach v-for="item in items"><Text>{{ item.title }}</Text></ForEach><TextField v-model:text="name"></TextField></VStack>`
}"#;

#[test]
fn component_of_a_view() {
    let tree = parse(COUNTER);
    let st = declarations(&tree).remove(0);
    let mut view = ViewParser::from_struct(st, &tree);
    let code = view
        .generate_component_code(vec!["ref".to_string()], vec!["VStack".to_string()])
        .unwrap();
    assert_eq!(code, COUNTER_MODULE);
}

#[test]
fn modules_of_a_source_file() {
    let tree = parse(COUNTER);
    let runtime = vec!["ref".to_string()];
    let builtin = vec!["VStack".to_string()];
    let generated = transpile(&tree, 0, &runtime, &builtin).unwrap();
    assert_eq!(generated.modules.len(), 1);
    assert_eq!(generated.modules[0].name, "ContentView");
    assert_eq!(generated.modules[0].code, COUNTER_MODULE);
    assert_eq!(generated.view_imports, vec!["ContentView".to_string()]);
    assert!(generated.errors.is_empty());
    let app = generated.app.unwrap();
    assert_eq!(app.imports, vec!["ContentView".to_string(), "VStack".to_string()]);
    assert_eq!(app.template, "<ContentView></ContentView>\n");
}

#[test]
fn generating_twice_gives_the_same_text() {
    let tree = parse(COUNTER);
    let runtime = vec!["ref".to_string(), "reactive".to_string()];
    let builtin = vec!["VStack".to_string(), "Text".to_string()];
    let first = transpile(&tree, 0, &runtime, &builtin).unwrap();
    let second = transpile(&tree, 0, &runtime, &builtin).unwrap();
    assert_eq!(first.modules.len(), second.modules.len());
    for (a, b) in first.modules.iter().zip(second.modules.iter()) {
        assert_eq!(a.name, b.name);
        assert_eq!(a.code, b.code);
    }
    assert_eq!(first.view_imports, second.view_imports);
    assert_eq!(first.app.unwrap().template, second.app.unwrap().template);
    let again = generate_modules(&tree, declarations(&tree), &runtime, &builtin).unwrap();
    assert_eq!(again.modules[0].code, first.modules[0].code);
}

#[test]
fn closure_property_is_not_supported() {
    let source = "struct V: View {\n    let make = { x in x }()\n    var body: some View {\n        Text(\"hi\")\n    }\n}\n";
    let tree = parse(source);
    let st = declarations(&tree).remove(0);
    let mut view = ViewParser::from_struct(st, &tree);
    match view.generate_component_code(vec![], vec![]) {
        Err(GenerateError::Unsupported(e)) => {
            assert_eq!(e.message, "目前不支持闭包属性");
            assert_eq!(e.node_code, "let make = { x in x }()");
            assert_eq!(e.row, 2);
            assert_eq!(e.col, 4);
        }
        other => panic!("unexpected outcome: {:?}", other),
    }
}

#[test]
fn unsupported_view_gets_the_stand_in_component() {
    let source = "struct A: View {\n    let make = { x in x }()\n    var body: some View {\n        Text(\"a\")\n    }\n}\nstruct B: View {\n    var body: some View {\n        Text(\"b\")\n    }\n}\n";
    let tree = parse(source);
    let generated = transpile(&tree, 0, &vec![], &vec![]).unwrap();
    assert_eq!(generated.modules.len(), 2);
    assert_eq!(
        generated.modules[0].code,
        "export default {\n    setup() {\n    },\n    template: `<div></div>`\n}"
    );
    assert_eq!(
        generated.modules[1].code,
        "export default {\n    components: {\n        \n    },\n    setup() {\n\n        return {  };\n    },\n    template: `<Text>b</Text>`\n}"
    );
    assert_eq!(generated.view_imports, vec!["A".to_string(), "B".to_string()]);
    assert_eq!(generated.errors.len(), 1);
    assert_eq!(generated.errors[0].name, "A");
    assert_eq!(generated.errors[0].error.row, 2);
    assert!(generated.app.is_none());
}

#[test]
fn root_provider_without_previews_is_malformed() {
    let tree = parse("struct P: PreviewProvider {\n    var other = 1\n}\n");
    assert!(matches!(transpile(&tree, 0, &vec![], &vec![]), Err(Malformed)));
}

#[test]
fn function_with_empty_body_is_malformed() {
    let source = "struct V: View {\n    var body: some View {\n        Text(\"hi\")\n    }\n    func go() {}\n}\n";
    let tree = parse(source);
    let st = declarations(&tree).remove(0);
    let mut view = ViewParser::from_struct(st, &tree);
    assert!(matches!(
        view.generate_component_code(vec![], vec![]),
        Err(GenerateError::Malformed)
    ));
}

#[test]
fn declarations_are_listed_with_members_and_nested_declarations() {
    let tree = parse(COUNTER);
    let list = declarations(&tree);
    assert_eq!(list.len(), 2);
    let view = &list[0];
    assert_eq!(view.name, "ContentView");
    assert_eq!(view.inheritance, Some("View".to_string()));
    assert_eq!(tree.kind(view.node), "class_declaration");
    assert_eq!(view.source, tree.text(view.node));
    let names: Vec<&str> = (0..view.members.len()).map(|i| view.members.key_at(i)).collect();
    assert_eq!(
        names,
        vec!["count", "name", "items", "chosen", "fixed", "plain", "body", "inc"]
    );
    match view.members.get("count") {
        Some(StructMember::Property { node, modifier }) => {
            assert_eq!(tree.text(*node), "0");
            assert_eq!(modifier, &Some("State".to_string()));
        }
        other => panic!("unexpected member: {:?}", other),
    }
    match view.members.get("plain") {
        Some(StructMember::Property { node, modifier }) => {
            assert_eq!(tree.text(*node), "3");
            assert_eq!(modifier, &None);
        }
        other => panic!("unexpected member: {:?}", other),
    }
    match view.members.get("body") {
        Some(StructMember::Property { node, modifier: _ }) => {
            assert_eq!(tree.kind(*node), "call_expression");
        }
        other => panic!("unexpected member: {:?}", other),
    }
    match view.members.get("inc") {
        Some(StructMember::Function(node)) => assert_eq!(tree.kind(*node), "statements"),
        other => panic!("unexpected member: {:?}", other),
    }
    assert_eq!(view.sub_names(), vec!["Item".to_string()]);
    assert_eq!(view.sub[0].members.len(), 1);
    assert!(view.sub[0].sub.is_empty());
    let preview = &list[1];
    assert_eq!(preview.name, "P_Previews");
    assert_eq!(preview.inheritance, Some("PreviewProvider".to_string()));
    assert!(preview.members.get("previews").is_some());
}

#[test]
fn later_member_of_the_same_name_replaces_the_earlier_one() {
    let tree = parse("struct S {\n    var a = 1\n    var b = 2\n    var a = 3\n}\n");
    let list = declarations(&tree);
    let s = &list[0];
    assert_eq!(s.members.len(), 2);
    assert_eq!(s.members.key_at(0), "a");
    match s.members.get("a") {
        Some(StructMember::Property { node, modifier: _ }) => assert_eq!(tree.text(*node), "3"),
        other => panic!("unexpected member: {:?}", other),
    }
}

#[test]
fn property_without_initializer_is_no_member() {
    let tree = parse("struct S {\n    var a: Int\n    var b = 2\n}\n");
    let list = declarations(&tree);
    assert_eq!(list[0].members.len(), 1);
    assert!(list[0].members.get("a").is_none());
}

#[test]
fn walk_outside_declarations_finds_nothing() {
    let tree = parse("let a = 1\n");
    let mut state = State::new(true);
    assert_eq!(state.handle_source(&tree, 0), Ok(()));
    assert!(state.verbose);
    assert!(state.struct_list.is_empty());
    assert_eq!(state.handle_source(&tree, tree.len()), Err(Malformed));
}

#[test]
fn element_attributes_in_markup() {
    let mut node = ViewNode::new("Text".to_string());
    assert_eq!(node.tag, "Text");
    assert_eq!(node.str_content, None);
    assert_eq!(node.modifier.len(), 0);
    assert_eq!(node.attr_str(), "");
    node.modifier.insert("padding".to_string(), "".to_string());
    assert_eq!(node.attr_str(), "padding");
    node.modifier.insert("font".to_string(), "title".to_string());
    node.modifier.insert("v-if".to_string(), "".to_string());
    assert_eq!(node.attr_str(), "padding font=\"title\" v-if");
}

#[test]
fn error_carries_the_place_of_the_construct() {
    let tree = parse("\n\n   Text(\"hi\")");
    let node = find(&tree, "call_expression", "Text(\"hi\")");
    let e = ViewParseError::new("not supported".to_string(), &tree, node);
    assert_eq!(e.message, "not supported");
    assert_eq!(e.node_code, "Text(\"hi\")");
    assert_eq!(e.row, 3);
    assert_eq!(e.col, 3);
}

#[test]
fn modifier_without_an_element_is_malformed() {
    assert_eq!(template_of("x.padding()"), Err(Malformed));
}

#[test]
fn comment_is_not_entered() {
    assert_eq!(
        template_of("VStack {\n // Text(\"no\")\n Text(\"yes\")\n }"),
        Ok("<VStack><Text>yes</Text>\n</VStack>\n".to_string())
    );
}

#[test]
fn modifier_after_a_closure_goes_to_the_element_of_its_own_chain() {
    assert_eq!(
        template_of("VStack {\n Text(\"a\").bold()\n }.padding()"),
        Ok("<VStack padding><Text bold>a</Text>\n</VStack>\n".to_string())
    );
    assert_eq!(
        template_of("VStack {\n Text(\"a\").bold()\n }.padding().frame(width: 3)"),
        Ok("<VStack padding frame=\"3\"><Text bold>a</Text>\n</VStack>\n".to_string())
    );
}

#[test]
fn modifier_of_a_chain_without_element_is_malformed() {
    assert_eq!(
        template_of("VStack {\n Text(\"a\").bold()\n x.padding()\n }"),
        Err(Malformed)
    );
}

#[test]
fn element_with_text_gets_no_children() {
    let source = view_of("Button(\"x\") {\n Text(\"y\")\n }");
    let tree = parse(&source);
    let st = declarations(&tree).remove(0);
    let mut view = ViewParser::from_struct(st, &tree);
    assert_eq!(view.generate_template(), Ok("<Button>x</Button>\n".to_string()));
    assert_eq!(view.view_tree().len(), 1);
    assert_eq!(view.view_tree().node(0).str_content, Some("x".to_string()));
}

#[test]
fn second_walk_cannot_put_an_element_with_text_above_the_root() {
    let source = view_of("Text(\"hi\")");
    let tree = parse(&source);
    let st = declarations(&tree).remove(0);
    let mut view = ViewParser::from_struct(st, &tree);
    assert_eq!(view.generate_template(), Ok("<Text>hi</Text>\n".to_string()));
    assert_eq!(view.generate_template(), Err(Malformed));
    assert_eq!(view.view_tree().len(), 1);
}
