use symbol_indexer::symbols::{record_symbol, record_symbol_with_details, SymbolIndex};

fn names(index: &SymbolIndex) -> Vec<&str> {
    index.files().iter().map(|file| file.name.as_str()).collect()
}

#[test]
fn a_new_index_is_empty() {
    let index = SymbolIndex::new();
    assert_eq!(index.symbol_count(), 0);
    assert!(index.files().is_empty());
    assert!(index.get("a.rs").is_none());
}

#[test]
fn a_symbol_is_recorded_without_details() {
    let mut index = SymbolIndex::new();
    record_symbol(&mut index, "a.rs", "function_name", "main");
    let entries = index.get("a.rs").unwrap();
    assert_eq!(entries.len(), 1);
    assert_eq!(entries[0].name, "main");
    assert_eq!(entries[0].kind, "function_name");
    assert_eq!(entries[0].signature, None);
    assert_eq!(entries[0].doc, None);
}

#[test]
fn a_symbol_is_recorded_with_its_details() {
    let mut index = SymbolIndex::new();
    record_symbol_with_details(
        &mut index,
        "a.cpp",
        "method_name",
        "Box::size",
        Some("int Box::size()".to_string()),
        Some("How large.".to_string()),
    );
    record_symbol_with_details(&mut index, "a.cpp", "class_name", "Box", None, None);
    let entries = index.get("a.cpp").unwrap();
    assert_eq!(entries[0].name, "Box::size");
    assert_eq!(entries[0].kind, "method_name");
    assert_eq!(entries[0].signature.as_deref(), Some("int Box::size()"));
    assert_eq!(entries[0].doc.as_deref(), Some("How large."));
    assert_eq!(entries[1].name, "Box");
    assert_eq!(entries[1].signature, None);
    assert_eq!(entries[1].doc, None);
}

#[test]
fn symbols_stay_in_the_order_in_which_they_were_recorded() {
    let mut index = SymbolIndex::new();
    for name in ["z", "a", "m", "a"] {
        record_symbol(&mut index, "a.rs", "function_name", name);
    }
    let found: Vec<&str> =
        index.get("a.rs").unwrap().iter().map(|entry| entry.name.as_str()).collect();
    assert_eq!(found, vec!["z", "a", "m", "a"]);
}

#[test]
fn files_ascend_and_none_stands_twice() {
    let mut index = SymbolIndex::new();
    for file in ["b.rs", "a.rs", "größe.rs", "b.rs", "", "a.r", "ab.rs", "\u{10ffff}", "a.rs"] {
        record_symbol(&mut index, file, "module", "module");
    }
    let mut expected =
        vec!["b.rs", "a.rs", "größe.rs", "b.rs", "", "a.r", "ab.rs", "\u{10ffff}", "a.rs"];
    expected.sort();
    expected.dedup();
    assert_eq!(names(&index), expected);
    assert_eq!(index.get("a.rs").unwrap().len(), 2);
    assert_eq!(index.get("").unwrap().len(), 1);
    assert!(index.get("a").is_none());
    assert!(index.get("zz").is_none());
}

#[test]
fn recording_counts_once_and_leaves_other_files_alone() {
    let mut index = SymbolIndex::new();
    record_symbol(&mut index, "a.rs", "function_name", "f");
    record_symbol(&mut index, "b.rs", "function_name", "g");
    assert_eq!(index.symbol_count(), 2);
    record_symbol(&mut index, "b.rs", "function_name", "h");
    assert_eq!(index.symbol_count(), 3);
    assert_eq!(index.checked_symbol_count(), Some(3));
    assert_eq!(index.get("a.rs").unwrap().len(), 1);
    assert_eq!(index.get("a.rs").unwrap()[0].name, "f");
}
