use stack_graphs::graph::StackGraph;
use symbol_indexer::indexer::index_file;
use symbol_indexer::output::{build_report, output_dot, output_json, render_dot};
use symbol_indexer::symbols::{record_symbol, record_symbol_with_details, SymbolIndex};

fn numbered(names: &[&str]) -> Vec<(u32, String)> {
    names.iter().enumerate().map(|(i, name)| (i as u32 + 1, name.to_string())).collect()
}

#[test]
fn a_report_on_nothing_is_empty() {
    let report = build_report(&numbered(&[]), &SymbolIndex::new());
    assert_eq!(report["summary"]["files"], 0);
    assert_eq!(report["summary"]["symbols"], 0);
    assert_eq!(
        report["summary"]["description"],
        "Tree-sitter Stack Graph representation of indexed code"
    );
    assert_eq!(report["files"].as_array().unwrap().len(), 0);
    assert_eq!(report.as_object().unwrap().len(), 2);
    assert_eq!(report["summary"].as_object().unwrap().len(), 3);
}

#[test]
fn a_report_lists_each_file_with_its_symbols() {
    let mut symbols = SymbolIndex::new();
    record_symbol(&mut symbols, "b.rs", "function_name", "f");
    record_symbol_with_details(
        &mut symbols,
        "b.rs",
        "method_name",
        "C::m",
        Some("int C::m()".to_string()),
        Some("Says \"m\".".to_string()),
    );
    record_symbol(&mut symbols, "elsewhere.rs", "function_name", "g");
    let report = build_report(&numbered(&["b.rs", "a.rs"]), &symbols);
    assert_eq!(report["summary"]["files"], 2);
    assert_eq!(report["summary"]["symbols"], 3);
    assert_eq!(report["files"].as_array().unwrap().len(), 2);
    let first = &report["files"][0];
    assert_eq!(first["name"], "b.rs");
    assert_eq!(first["symbols"].as_array().unwrap().len(), 2);
    assert_eq!(first["symbols"][0]["name"], "f");
    assert_eq!(first["symbols"][0]["kind"], "function_name");
    assert!(first["symbols"][0]["signature"].is_null());
    assert!(first["symbols"][0]["doc"].is_null());
    assert_eq!(first["symbols"][0].as_object().unwrap().len(), 4);
    assert_eq!(first["symbols"][1]["name"], "C::m");
    assert_eq!(first["symbols"][1]["signature"], "int C::m()");
    assert_eq!(first["symbols"][1]["doc"], "Says \"m\".");
    let second = &report["files"][1];
    assert_eq!(second["name"], "a.rs");
    assert_eq!(second["symbols"].as_array().unwrap().len(), 0);
}

#[test]
fn the_summary_counts_what_is_listed() {
    let mut graph = StackGraph::new();
    let mut symbols = SymbolIndex::new();
    for (name, source) in [("b.rs", "fn f() {}\nfn g() {}"), ("a.rs", ""), ("c.rs", "enum E {}")] {
        let outcome = index_file(&mut graph, &mut symbols, "rs", name, source.as_bytes());
        assert!(outcome.is_ok());
    }
    let text = output_json(&graph, &symbols);
    let report: serde_json::Value = serde_json::from_str(&text).unwrap();
    let files = report["files"].as_array().unwrap();
    let names: Vec<&str> = files.iter().map(|file| file["name"].as_str().unwrap()).collect();
    assert_eq!(names, vec!["b.rs", "a.rs", "c.rs"]);
    let listed: usize = files.iter().map(|file| file["symbols"].as_array().unwrap().len()).sum();
    assert_eq!(report["summary"]["symbols"], listed);
    assert_eq!(listed, 3);
    assert_eq!(report["summary"]["files"], 3);
}

#[test]
fn json_is_written_over_several_lines() {
    let mut graph = StackGraph::new();
    let mut symbols = SymbolIndex::new();
    graph.get_or_create_file("a\"b.rs");
    record_symbol(&mut symbols, "a\"b.rs", "function_name", "f");
    let text = output_json(&graph, &symbols);
    assert_eq!(
        text,
        "{
  \"files\": [
    {
      \"name\": \"a\\\"b.rs\",
      \"symbols\": [
        {
          \"doc\": null,
          \"kind\": \"function_name\",
          \"name\": \"f\",
          \"signature\": null
        }
      ]
    }
  ],
  \"summary\": {
    \"description\": \"Tree-sitter Stack Graph representation of indexed code\",
    \"files\": 1,
    \"symbols\": 1
  }
}"
    );
}

#[test]
fn a_dot_graph_has_a_node_for_each_file() {
    let mut graph = StackGraph::new();
    assert_eq!(output_dot(&graph), "digraph StackGraph {\n}\n");
    graph.get_or_create_file("b.rs");
    graph.get_or_create_file("a.rs");
    graph.get_or_create_file("b.rs");
    assert_eq!(
        output_dot(&graph),
        "digraph StackGraph {\n  file_1 [label=\"b.rs\"];\n  file_2 [label=\"a.rs\"];\n}\n"
    );
}

#[test]
fn a_dot_graph_shows_the_numbers_that_it_is_given() {
    let files = vec![(10, "x".to_string()), (4294967295, "".to_string())];
    assert_eq!(
        render_dot(&files),
        "digraph StackGraph {\n  file_10 [label=\"x\"];\n  file_4294967295 [label=\"\"];\n}\n"
    );
}

#[test]
fn files_keep_their_lines_when_another_is_added() {
    let mut graph = StackGraph::new();
    graph.get_or_create_file("a");
    let before = output_dot(&graph);
    graph.get_or_create_file("b");
    let after = output_dot(&graph);
    let kept = before.strip_suffix("}\n").unwrap();
    assert_eq!(after, format!("{}  file_2 [label=\"b\"];\n}}\n", kept));
}
