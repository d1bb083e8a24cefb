use symbol_indexer::syntax::{
    find_enclosing_type_name, find_signature_node, qualify_signature, signature_text_from_node,
    SyntaxChild, SyntaxNode,
};

fn node(kind: &str, start_byte: usize, end_byte: usize) -> SyntaxNode {
    SyntaxNode { kind: kind.to_string(), start_byte, end_byte, start_row: 0, children: Vec::new() }
}

fn class(kind: &str, children: Vec<(&str, usize, usize)>) -> SyntaxNode {
    let mut class = node(kind, 0, 0);
    for (kind, start_byte, end_byte) in children {
        class.children.push(SyntaxChild { kind: kind.to_string(), start_byte, end_byte });
    }
    class
}

#[test]
fn the_innermost_template_is_the_signature_node() {
    let name = node("identifier", 5, 6);
    let ancestors = vec![
        node("function_definition", 4, 9),
        node("template_declaration", 3, 9),
        node("template_declaration", 2, 9),
        node("declaration", 1, 9),
    ];
    assert_eq!(find_signature_node(&name, &ancestors).start_byte, 3);
}

#[test]
fn the_outermost_declaration_is_the_signature_node() {
    let name = node("identifier", 5, 6);
    let ancestors = vec![
        node("function_declarator", 4, 9),
        node("field_declaration", 3, 9),
        node("class_specifier", 2, 9),
        node("declaration", 1, 9),
        node("translation_unit", 0, 9),
    ];
    assert_eq!(find_signature_node(&name, &ancestors).start_byte, 1);
}

#[test]
fn without_a_declaration_a_node_is_its_own_signature_node() {
    let name = node("type_identifier", 5, 6);
    let ancestors = vec![node("class_specifier", 2, 9), node("translation_unit", 0, 9)];
    assert_eq!(find_signature_node(&name, &ancestors).start_byte, 5);
    assert_eq!(find_signature_node(&name, &Vec::new()).start_byte, 5);
}

#[test]
fn a_signature_ends_before_the_first_brace() {
    let source = "  int f(int a) { return {a}; }  ";
    assert_eq!(
        signature_text_from_node(source, &node("x", 0, source.len())).as_deref(),
        Some("int f(int a)")
    );
    assert_eq!(signature_text_from_node("int f();", &node("x", 0, 8)).as_deref(), Some("int f();"));
}

#[test]
fn there_is_no_signature_without_text() {
    assert_eq!(signature_text_from_node(" { }", &node("x", 0, 4)), None);
    assert_eq!(signature_text_from_node("   ", &node("x", 0, 3)), None);
    assert_eq!(signature_text_from_node("abc", &node("x", 1, 1)), None);
    assert_eq!(signature_text_from_node("abc", &node("x", 1, 9)), None);
    assert_eq!(signature_text_from_node("abc", &node("x", 2, 1)), None);
    assert_eq!(signature_text_from_node("über", &node("x", 1, 4)), None);
}

#[test]
fn the_innermost_named_type_encloses() {
    let source = "Outer Inner";
    let ancestors = vec![
        node("function_declarator", 0, 0),
        class("class_specifier", vec![("class", 0, 1), ("field_declaration_list", 0, 1)]),
        class("struct_specifier", vec![("struct", 0, 1), ("type_identifier", 6, 11)]),
        class("class_specifier", vec![("type_identifier", 0, 5)]),
    ];
    assert_eq!(find_enclosing_type_name(&ancestors, source).as_deref(), Some("Inner"));
}

#[test]
fn outside_of_named_types_nothing_encloses() {
    let ancestors = vec![
        class("class_specifier", vec![("class", 0, 1)]),
        class("namespace_definition", vec![("type_identifier", 0, 1)]),
    ];
    assert_eq!(find_enclosing_type_name(&ancestors, "x"), None);
    assert_eq!(find_enclosing_type_name(&Vec::new(), "x"), None);
}

#[test]
fn a_type_name_outside_the_source_ends_the_search() {
    let ancestors = vec![
        class("class_specifier", vec![("type_identifier", 4, 9)]),
        class("class_specifier", vec![("type_identifier", 0, 1)]),
    ];
    assert_eq!(find_enclosing_type_name(&ancestors, "x"), None);
}

#[test]
fn the_first_mention_of_the_name_is_qualified() {
    let signature = Some("int size(int size)".to_string());
    assert_eq!(
        qualify_signature(signature, "size", "Box::size").as_deref(),
        Some("int Box::size(int size)")
    );
}

#[test]
fn a_qualified_signature_is_left_as_it_is() {
    let signature = Some("std::string name()".to_string());
    assert_eq!(
        qualify_signature(signature, "name", "Box::name").as_deref(),
        Some("std::string name()")
    );
    assert_eq!(qualify_signature(Some("int x".to_string()), "y", "B::y").as_deref(), Some("int x"));
    assert_eq!(qualify_signature(None, "y", "B::y"), None);
}

#[test]
fn qualifying_twice_is_qualifying_once() {
    for signature in ["int f()", "int g()", "a::b f()", "f f f"] {
        let once = qualify_signature(Some(signature.to_string()), "f", "C::f");
        let twice = qualify_signature(once.clone(), "f", "C::f");
        assert_eq!(twice, once);
    }
}
