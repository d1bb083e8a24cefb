use stack_graphs::graph::{Node, NodeID, StackGraph};
use symbol_indexer::errors::{in_context, IndexError};
use symbol_indexer::graph::{
    count_interned, define_symbol, definitions_fit, enter_file, file_fits,
};
use symbol_indexer::indexer::{
    captures_are_fit, index_file, list_needs, new_index, process_syntax_tree, record_captures,
    FileOutcome,
};
use symbol_indexer::languages::{Grammar, Language};
use symbol_indexer::parsing::{find_captures, parse_source, Capture};
use symbol_indexer::symbols::SymbolIndex;
use symbol_indexer::syntax::SyntaxNode;

fn indexed(extension: &str, file: &str, source: &str) -> (StackGraph, SymbolIndex) {
    let mut graph = StackGraph::new();
    let mut symbols = SymbolIndex::new();
    let outcome = index_file(&mut graph, &mut symbols, extension, file, source.as_bytes());
    assert_eq!(outcome.unwrap(), FileOutcome::Indexed);
    (graph, symbols)
}

fn entries(symbols: &SymbolIndex, file: &str) -> Vec<(String, String)> {
    match symbols.get(file) {
        None => Vec::new(),
        Some(entries) => {
            entries.iter().map(|entry| (entry.kind.clone(), entry.name.clone())).collect()
        }
    }
}

fn expected(pairs: &[(&str, &str)]) -> Vec<(String, String)> {
    pairs.iter().map(|(kind, name)| (kind.to_string(), name.to_string())).collect()
}

fn nodes(graph: &StackGraph, file: &str) -> Vec<String> {
    let file = graph.get_file(file).unwrap();
    let mut described: Vec<(u32, String)> = graph
        .nodes_for_file(file)
        .map(|handle| {
            let text = match &graph[handle] {
                Node::PopSymbol(node) => {
                    format!("pop {} {}", &graph[node.symbol], node.is_definition)
                }
                Node::PushSymbol(node) => {
                    format!("push {} {}", &graph[node.symbol], node.is_reference)
                }
                Node::Scope(node) => format!("scope {}", node.is_exported),
                _ => "other".to_string(),
            };
            (graph[handle].id().local_id(), text)
        })
        .collect();
    described.sort();
    described.into_iter().map(|(_, text)| text).collect()
}

fn edges(graph: &StackGraph) -> Vec<(u32, u32, i32)> {
    let mut found: Vec<(u32, u32, i32)> = Vec::new();
    for node in graph.iter_nodes() {
        for edge in graph.outgoing_edges(node) {
            found.push((
                graph[edge.source].id().local_id(),
                graph[edge.sink].id().local_id(),
                edge.precedence,
            ));
        }
    }
    found.sort();
    found
}

#[test]
fn rust_definitions_are_found() {
    let source = "fn a() {}\nstruct S;\nimpl S { fn b(&self) {} }\ntrait T {}\nmod m {}\nenum E {}\n";
    let (graph, symbols) = indexed("rs", "a.rs", source);
    assert_eq!(
        entries(&symbols, "a.rs"),
        expected(&[
            ("function_name", "a"),
            ("struct_name", "S"),
            ("impl_type", "S"),
            ("function_name", "b"),
            ("trait_name", "T"),
            ("mod_name", "m"),
            ("enum_name", "E"),
        ])
    );
    assert_eq!(symbols.get("a.rs").unwrap()[0].signature, None);
    assert_eq!(symbols.get("a.rs").unwrap()[0].doc, None);
    assert_eq!(nodes(&graph, "a.rs").len(), 14);
    assert_eq!(nodes(&graph, "a.rs")[2], "pop S true");
    assert_eq!(nodes(&graph, "a.rs")[3], "scope true");
}

#[test]
fn each_symbol_gets_a_definition_and_a_scope() {
    let (graph, symbols) = indexed("rs", "a.rs", "fn a() {}\nfn b() {}\n");
    assert_eq!(nodes(&graph, "a.rs"), vec!["pop a true", "scope true", "pop b true", "scope true"]);
    assert_eq!(edges(&graph), vec![(0, 1, 0), (2, 3, 0)]);
    assert_eq!(symbols.symbol_count(), 2);
}

#[test]
fn javascript_imports_get_a_reference() {
    let source =
        "import x from \"mod\";\nfunction f() {}\nclass C { m() {} }\nconst g = () => 1;\n";
    let (graph, symbols) = indexed("js", "a.js", source);
    assert_eq!(
        entries(&symbols, "a.js"),
        expected(&[
            ("import_source", "\"mod\""),
            ("function_name", "f"),
            ("class_name", "C"),
            ("method_name", "m"),
            ("const_name", "g"),
        ])
    );
    assert_eq!(
        nodes(&graph, "a.js")[..4],
        ["pop \"mod\" true", "scope true", "push \"mod\" true", "pop f true"]
    );
    assert_eq!(edges(&graph)[..3], [(0, 1, 0), (1, 2, 0), (3, 4, 0)]);
}

#[test]
fn python_definitions_are_found() {
    let source = "import os\nfrom a.b import c\ndef f():\n    pass\nclass C:\n    pass\n";
    let (graph, symbols) = indexed("py", "a.py", source);
    assert_eq!(
        entries(&symbols, "a.py"),
        expected(&[
            ("import_name", "os"),
            ("module_name", "a.b"),
            ("function_name", "f"),
            ("class_name", "C"),
        ])
    );
    assert_eq!(
        nodes(&graph, "a.py"),
        vec![
            "pop os true",
            "scope true",
            "push os true",
            "pop a.b true",
            "scope true",
            "push a.b true",
            "pop f true",
            "scope true",
            "pop C true",
            "scope true",
        ]
    );
}

#[test]
fn go_definitions_are_found() {
    let source =
        "package main\nimport \"fmt\"\nfunc F() {}\ntype T struct {}\nfunc (t T) M() {}\n";
    let (graph, symbols) = indexed("go", "a.go", source);
    assert_eq!(
        entries(&symbols, "a.go"),
        expected(&[
            ("import_path", "\"fmt\""),
            ("function_name", "F"),
            ("type_name", "T"),
            ("method_name", "M"),
        ])
    );
    assert_eq!(nodes(&graph, "a.go").len(), 9);
}

const CPP: &str = "// Adds two numbers.
// Once.
int add(int a, int b) {
    return a + b;
}

/**
 * A shape.
 */
class Shape {
public:
    /* The area. */
    double area() const;
};

template <typename T>
T largest(T a, T b) { return a; }

int Shape::sides() { return 3; }
enum Color { Red };
";

#[test]
fn cpp_symbols_have_signatures_and_comments() {
    let (_, symbols) = indexed("cpp", "a.cpp", CPP);
    let found: Vec<(&str, &str, Option<&str>, Option<&str>)> = symbols
        .get("a.cpp")
        .unwrap()
        .iter()
        .map(|entry| {
            (
                entry.kind.as_str(),
                entry.name.as_str(),
                entry.signature.as_deref(),
                entry.doc.as_deref(),
            )
        })
        .collect();
    assert_eq!(
        found,
        vec![
            (
                "function_name",
                "add",
                Some("int add(int a, int b)"),
                Some("Adds two numbers.\nOnce."),
            ),
            ("class_name", "Shape::Shape", Some("Shape::Shape"), Some("\nA shape.\n")),
            (
                "method_name",
                "Shape::area",
                Some("double Shape::area() const;"),
                Some("The area."),
            ),
            (
                "function_name",
                "largest",
                Some("template <typename T>\nT largest(T a, T b)"),
                None,
            ),
            ("method_name", "sides", Some("int Shape::sides()"), None),
            ("enum_name", "Color", Some("Color"), None),
        ]
    );
}

#[test]
fn cpp_definitions_are_named_as_in_the_source() {
    let (graph, _) = indexed("cpp", "a.cpp", CPP);
    assert_eq!(
        nodes(&graph, "a.cpp")[..6],
        ["pop add true", "scope true", "pop Shape true", "scope true", "pop area true", "scope true"]
    );
}

#[test]
fn a_query_that_does_not_fit_its_grammar_is_an_error() {
    let mut graph = StackGraph::new();
    let mut symbols = SymbolIndex::new();
    let answer =
        index_file(&mut graph, &mut symbols, "rb", "a.rb", b"def f\nend\n");
    match answer {
        Err(IndexError::InvalidQuery(messages)) => {
            assert_eq!(messages.len(), 1);
            assert!(messages[0].contains("require"), "{}", messages[0]);
        }
        other => panic!("{:?}", other),
    }
    assert!(graph.get_file("a.rb").is_some());
    assert!(nodes(&graph, "a.rb").is_empty());
    assert_eq!(symbols.symbol_count(), 0);
}

#[test]
fn files_of_unknown_languages_are_passed_over() {
    let mut graph = StackGraph::new();
    let mut symbols = SymbolIndex::new();
    let outcome = index_file(&mut graph, &mut symbols, "txt", "a.txt", b"fn a() {}");
    assert_eq!(outcome.unwrap(), FileOutcome::UnknownLanguage);
    for extension in ["ts", "java", "lua"] {
        let outcome = index_file(&mut graph, &mut symbols, extension, "a.x", b"fn a() {}");
        assert_eq!(outcome.unwrap(), FileOutcome::NoParser);
    }
    assert_eq!(graph.iter_files().count(), 0);
    assert_eq!(symbols.symbol_count(), 0);
}

#[test]
fn languages_without_rules_become_modules() {
    let tree = parse_source(Grammar::Rust, "").unwrap();
    for (language, builtin, name) in [
        (Language::TypeScript, Some("typescript"), "module"),
        (Language::Java, Some("java"), "java_module"),
        (Language::Java, None, "module"),
        (Language::JavaScript, None, "module"),
        (Language::Python, None, "module"),
        (Language::Other, None, "module"),
        (Language::Unknown, None, "module"),
    ] {
        let mut graph = StackGraph::new();
        let mut symbols = SymbolIndex::new();
        let answer =
            process_syntax_tree(&mut graph, &mut symbols, language, builtin, "a", &tree, "");
        assert!(answer.is_ok());
        assert_eq!(entries(&symbols, "a"), expected(&[("module", name)]));
        assert_eq!(nodes(&graph, "a"), vec![format!("pop {} true", name), "scope true".to_string()]);
        assert_eq!(edges(&graph), vec![(0, 1, 0)]);
    }
}

#[test]
fn a_builtin_name_decides_before_the_language() {
    let source = "fn a() {}";
    let tree = parse_source(Grammar::Rust, source).unwrap();
    for language in [Language::Rust, Language::Cpp, Language::Go, Language::Ruby] {
        for (builtin, name) in
            [("typescript", "module"), ("java", "java_module"), ("", "module"), ("rust", "module")]
        {
            let (mut graph, mut symbols) = new_index();
            let answer = process_syntax_tree(
                &mut graph,
                &mut symbols,
                language,
                Some(builtin),
                "a",
                &tree,
                source,
            );
            assert!(answer.is_ok());
            assert_eq!(entries(&symbols, "a"), expected(&[("module", name)]));
        }
    }
    let source = "def f():\n    pass\n";
    let tree = parse_source(Grammar::Python, source).unwrap();
    let (mut graph, mut symbols) = new_index();
    let language = Language::Rust;
    let builtin = Some("python");
    let answer =
        process_syntax_tree(&mut graph, &mut symbols, language, builtin, "a", &tree, source);
    assert!(answer.is_ok());
    assert_eq!(entries(&symbols, "a"), expected(&[("function_name", "f")]));
}

#[test]
fn bytes_that_are_no_text_are_tolerated() {
    let mut graph = StackGraph::new();
    let mut symbols = SymbolIndex::new();
    let bytes = b"// caf\xe9\nfn a() {}\n";
    let outcome = index_file(&mut graph, &mut symbols, "rs", "a.rs", bytes);
    assert_eq!(outcome.unwrap(), FileOutcome::Indexed);
    assert_eq!(entries(&symbols, "a.rs"), expected(&[("function_name", "a")]));
    let bytes = b"struct Caf\xc3\xa9;\n";
    let outcome = index_file(&mut graph, &mut symbols, "rs", "b.rs", bytes);
    assert_eq!(outcome.unwrap(), FileOutcome::Indexed);
    assert_eq!(entries(&symbols, "b.rs"), expected(&[("struct_name", "Café")]));
}

#[test]
fn indexing_a_file_leaves_the_others_alone() {
    let (mut graph, mut symbols) = indexed("rs", "a.rs", "fn a() {}\n");
    let before = (nodes(&graph, "a.rs"), entries(&symbols, "a.rs"));
    let outcome = index_file(&mut graph, &mut symbols, "rs", "b.rs", b"fn b() {}\n");
    assert_eq!(outcome.unwrap(), FileOutcome::Indexed);
    assert_eq!((nodes(&graph, "a.rs"), entries(&symbols, "a.rs")), before);
    assert_eq!(entries(&symbols, "b.rs"), expected(&[("function_name", "b")]));
    assert_eq!(graph.iter_files().count(), 2);
}

#[test]
fn indexing_a_file_again_adds_no_file() {
    let (mut graph, mut symbols) = indexed("rs", "a.rs", "fn a() {}\n");
    let outcome = index_file(&mut graph, &mut symbols, "rs", "a.rs", b"fn a() {}\n");
    assert_eq!(outcome.unwrap(), FileOutcome::Indexed);
    assert_eq!(graph.iter_files().count(), 1);
    assert_eq!(
        entries(&symbols, "a.rs"),
        expected(&[("function_name", "a"), ("function_name", "a")])
    );
    assert_eq!(nodes(&graph, "a.rs"), vec!["pop a true", "scope true", "pop a true", "scope true"]);
    assert_eq!(edges(&graph), vec![(0, 1, 0), (2, 3, 0)]);
    assert_eq!(graph.iter_symbols().count(), 1);
}

#[test]
fn an_empty_file_is_indexed_without_symbols() {
    let (graph, symbols) = indexed("py", "a.py", "");
    assert!(graph.get_file("a.py").is_some());
    assert!(symbols.get("a.py").is_none());
}

#[test]
fn captures_come_in_order_with_their_names() {
    let source = "fn a() {}";
    let tree = parse_source(Grammar::Rust, source).unwrap();
    let captures = find_captures(Grammar::Rust, &tree, source).unwrap();
    let found: Vec<(&str, &str, usize, usize)> = captures
        .iter()
        .map(|c| (c.name.as_str(), c.node.kind.as_str(), c.node.start_byte, c.node.end_byte))
        .collect();
    assert_eq!(
        found,
        vec![("function_def", "function_item", 0, 9), ("function_name", "identifier", 3, 4)]
    );
    assert!(captures[0].ancestors.is_empty());
}

#[test]
fn cpp_captures_know_what_stands_around_them() {
    let source = "class A {\n  void m();\n};";
    let tree = parse_source(Grammar::Cpp, source).unwrap();
    let captures = find_captures(Grammar::Cpp, &tree, source).unwrap();
    let method = captures.iter().find(|c| c.name == "method_name").unwrap();
    let kinds: Vec<&str> = method.ancestors.iter().map(|node| node.kind.as_str()).collect();
    assert_eq!(
        kinds,
        vec![
            "function_declarator",
            "field_declaration",
            "field_declaration_list",
            "class_specifier",
            "translation_unit",
        ]
    );
    assert_eq!(method.node.start_row, 1);
    assert_eq!(method.ancestors[3].start_row, 0);
    let children: Vec<(&str, usize, usize)> = method.ancestors[3]
        .children
        .iter()
        .map(|child| (child.kind.as_str(), child.start_byte, child.end_byte))
        .collect();
    assert_eq!(
        children,
        vec![("class", 0, 5), ("type_identifier", 6, 7), ("field_declaration_list", 8, 23)]
    );
    assert!(method.ancestors[0].children.is_empty());
}

fn capture(name: &str, start_byte: usize, end_byte: usize, start_row: usize) -> Capture {
    Capture {
        name: name.to_string(),
        node: SyntaxNode {
            kind: "identifier".to_string(),
            start_byte,
            end_byte,
            start_row,
            children: Vec::new(),
        },
        ancestors: Vec::new(),
    }
}

#[test]
fn captures_outside_the_source_do_not_fit() {
    let fit = |grammar, capture| captures_are_fit(grammar, "über\n", &vec![capture]);
    assert!(fit(Grammar::Rust, capture("function_name", 0, 5, 0)));
    assert!(fit(Grammar::Rust, capture("function_name", 0, 2, 9)));
    assert!(!fit(Grammar::Rust, capture("function_name", 1, 2, 0)));
    assert!(!fit(Grammar::Rust, capture("function_def", 0, 7, 0)));
    assert!(!fit(Grammar::Rust, capture("function_name", 3, 2, 0)));
    assert!(fit(Grammar::Cpp, capture("function_name", 0, 5, 1)));
    assert!(!fit(Grammar::Cpp, capture("function_name", 0, 5, 2)));
    assert!(fit(Grammar::Cpp, capture("other", 0, 5, 2)));
    assert!(captures_are_fit(Grammar::Cpp, "", &vec![capture("function_name", 0, 0, 2)]));
}

#[test]
fn a_tree_of_another_source_does_not_fit() {
    let tree = parse_source(Grammar::Rust, "fn long_name() {}").unwrap();
    let mut graph = StackGraph::new();
    let mut symbols = SymbolIndex::new();
    let language = Language::Rust;
    let answer =
        process_syntax_tree(&mut graph, &mut symbols, language, None, "a.rs", &tree, "fn f");
    assert!(matches!(answer, Err(IndexError::CaptureOutOfRange)));
    assert!(graph.get_file("a.rs").is_some());
    assert_eq!(symbols.symbol_count(), 0);
}

#[test]
fn captures_that_are_not_recorded_change_nothing() {
    let mut graph = StackGraph::new();
    let mut symbols = SymbolIndex::new();
    graph.get_or_create_file("a.go");
    let captures = vec![
        capture("function_def", 0, 3, 0),
        capture("import_path", 0, 3, 0),
        capture("type_name", 4, 5, 0),
    ];
    assert_eq!(list_needs(Grammar::Go, "fmt T", &captures), Some((vec!["fmt", "T"], 5)));
    assert_eq!(list_needs(Grammar::Rust, "fmt T", &captures), Some((Vec::new(), 0)));
    record_captures(&mut graph, &mut symbols, Grammar::Go, "a.go", "fmt T", &captures);
    assert_eq!(
        entries(&symbols, "a.go"),
        expected(&[("import_path", "fmt"), ("type_name", "T")])
    );
    assert_eq!(
        nodes(&graph, "a.go"),
        vec!["pop fmt true", "scope true", "push fmt true", "pop T true", "scope true"]
    );
    assert_eq!(edges(&graph), vec![(0, 1, 0), (1, 2, 0), (3, 4, 0)]);
}

#[test]
fn a_graph_has_room_up_to_its_numbers() {
    let mut graph = StackGraph::new();
    assert!(file_fits(&graph, "a"));
    graph.get_or_create_file("a");
    assert!(file_fits(&graph, "a"));
    let limit = u32::MAX as u64;
    let in_use = graph.iter_nodes().count() as u64;
    let none = Vec::new();
    assert!(definitions_fit(&mut graph, "a", &none, 0));
    assert!(definitions_fit(&mut graph, "a", &vec!["x", "y"], 4));
    assert!(definitions_fit(&mut graph, "a", &none, limit - in_use));
    assert!(!definitions_fit(&mut graph, "a", &none, limit - in_use + 1));
    define_symbol(&mut graph, "a", "x", false);
    assert!(!definitions_fit(&mut graph, "a", &none, limit - in_use));
    assert!(definitions_fit(&mut graph, "a", &none, limit - in_use - 2));
    assert!(!definitions_fit(&mut graph, "a", &none, u64::MAX));
}

#[test]
fn a_symbol_is_interned_once() {
    let mut graph = StackGraph::new();
    graph.get_or_create_file("a");
    define_symbol(&mut graph, "a", "x", false);
    assert_eq!(count_interned(&graph, &Vec::new()), 1);
    assert_eq!(count_interned(&graph, &vec!["x"]), 1);
    assert_eq!(count_interned(&graph, &vec!["y", "x", "y", "z", "X"]), 4);
    assert_eq!(graph.iter_symbols().count(), 1);
}

#[test]
fn nodes_that_are_there_are_left_alone() {
    let mut graph = StackGraph::new();
    let file = graph.get_or_create_file("a");
    assert!(graph.add_scope_node(NodeID::new_in_file(file, 3), false).is_some());
    define_symbol(&mut graph, "a", "x", true);
    assert_eq!(
        nodes(&graph, "a"),
        vec!["scope false", "pop x true", "scope true", "push x true"]
    );
    assert_eq!(edges(&graph), vec![(4, 5, 0), (5, 6, 0)]);
}

#[test]
fn nothing_is_indexed_at_first() {
    let (graph, symbols) = new_index();
    assert_eq!(graph.iter_files().count(), 0);
    assert_eq!(graph.iter_symbols().count(), 0);
    assert_eq!(graph.iter_nodes().count(), 2);
    assert!(edges(&graph).is_empty());
    assert_eq!(symbols.symbol_count(), 0);
}

#[test]
fn a_failed_cpp_query_names_the_file() {
    let failure = || IndexError::InvalidQuery(vec!["bad query".to_string()]);
    match in_context(failure(), Grammar::Cpp, "a.cpp") {
        IndexError::InvalidQuery(messages) => assert_eq!(
            messages,
            vec![
                "Failed to process C++ syntax for file: a.cpp",
                "Failed to build C++ tree-sitter query",
                "bad query",
            ]
        ),
        other => panic!("{:?}", other),
    }
    match in_context(failure(), Grammar::Ruby, "a.rb") {
        IndexError::InvalidQuery(messages) => assert_eq!(messages, vec!["bad query"]),
        other => panic!("{:?}", other),
    }
    let other = in_context(IndexError::GraphFull, Grammar::Cpp, "a.cpp");
    assert!(matches!(other, IndexError::GraphFull));
}

#[test]
fn bytes_that_are_no_text_are_indexed_like_their_replaced_text() {
    let bytes: &[u8] = b"/* caf\xe9 */\nint f\xff();\nint g();\n";
    let replaced = String::from_utf8_lossy(bytes).to_string();
    let (mut graph, mut symbols) = new_index();
    assert!(index_file(&mut graph, &mut symbols, "cpp", "a.cpp", bytes).is_ok());
    let (other_graph, other_symbols) = indexed("cpp", "a.cpp", &replaced);
    assert_eq!(entries(&symbols, "a.cpp"), entries(&other_symbols, "a.cpp"));
    assert_eq!(nodes(&graph, "a.cpp"), nodes(&other_graph, "a.cpp"));
    assert_eq!(edges(&graph), edges(&other_graph));
}

#[test]
fn definitions_are_numbered_file_by_file() {
    let mut graph = StackGraph::new();
    assert!(enter_file(&mut graph, "a"));
    assert!(enter_file(&mut graph, "b"));
    assert!(enter_file(&mut graph, "a"));
    assert_eq!(graph.iter_files().count(), 2);
    define_symbol(&mut graph, "a", "x", true);
    define_symbol(&mut graph, "b", "x", false);
    define_symbol(&mut graph, "a", "y", false);
    assert_eq!(
        nodes(&graph, "a"),
        vec!["pop x true", "scope true", "push x true", "pop y true", "scope true"]
    );
    assert_eq!(nodes(&graph, "b"), vec!["pop x true", "scope true"]);
    assert_eq!(edges(&graph), vec![(0, 1, 0), (0, 1, 0), (1, 2, 0), (3, 4, 0)]);
    assert_eq!(graph.iter_symbols().count(), 2);
}
