use symbol_indexer::languages::{choose_treatment, Grammar, Language, Treatment};
use symbol_indexer::walk::{
    enters_directory, plan_entry, supports_extension, DirectoryEntry, EntryAction,
};

fn file(extension: &str) -> DirectoryEntry {
    DirectoryEntry::File { extension: Some(extension.to_string()) }
}

fn directory(name: &str) -> DirectoryEntry {
    DirectoryEntry::Directory { name: Some(name.to_string()) }
}

const SUPPORTED: [&str; 32] = [
    "rs", "py", "js", "jsx", "ts", "tsx", "java", "swift", "m", "mm", "css", "scala", "zig",
    "yaml", "yml", "go", "php", "xml", "sh", "bash", "json", "html", "htm", "cs", "rb", "md",
    "markdown", "lua", "dart", "c", "cpp", "h",
];

#[test]
fn files_with_supported_extensions_are_indexed() {
    for extension in SUPPORTED {
        assert!(supports_extension(extension));
        assert_eq!(plan_entry(&file(extension)), EntryAction::IndexFile);
        assert_eq!(plan_entry(&file(&extension.to_uppercase())), EntryAction::IndexFile);
    }
}

#[test]
fn supported_extensions_belong_to_known_languages() {
    for extension in SUPPORTED {
        assert_ne!(Language::from_extension(extension), Language::Unknown);
    }
    for extension in ["", "txt", "RS", "hpp", "rs "] {
        assert!(!supports_extension(extension));
        assert_eq!(Language::from_extension(extension), Language::Unknown);
    }
}

#[test]
fn other_files_are_skipped() {
    assert_eq!(plan_entry(&file("txt")), EntryAction::Skip);
    assert_eq!(plan_entry(&file("")), EntryAction::Skip);
    assert_eq!(plan_entry(&DirectoryEntry::File { extension: None }), EntryAction::Skip);
    assert_eq!(plan_entry(&DirectoryEntry::Other), EntryAction::Skip);
}

#[test]
fn lower_case_is_that_of_unicode() {
    assert_eq!(plan_entry(&file("Java")), EntryAction::IndexFile);
    assert_eq!(plan_entry(&file("MAR\u{212a}DOWN")), EntryAction::IndexFile);
    assert_eq!(plan_entry(&file("J\u{0130}")), EntryAction::Skip);
}

#[test]
fn source_directories_are_entered() {
    for name in ["src", "lib", "Target", "builds", "a.git"] {
        assert!(enters_directory(name));
        assert_eq!(plan_entry(&directory(name)), EntryAction::IndexDirectory);
    }
}

#[test]
fn hidden_and_build_directories_are_skipped() {
    for name in [
        "node_modules",
        "target",
        "build",
        "__pycache__",
        "dist",
        "venv",
        ".git",
        ".svn",
        ".hg",
        "bin",
        "obj",
        ".",
        ".hidden",
    ] {
        assert!(!enters_directory(name));
        assert_eq!(plan_entry(&directory(name)), EntryAction::Skip);
    }
    assert_eq!(plan_entry(&DirectoryEntry::Directory { name: None }), EntryAction::Skip);
}

#[test]
fn extensions_tell_the_language() {
    assert_eq!(Language::from_extension("rs"), Language::Rust);
    assert_eq!(Language::from_extension("c"), Language::Cpp);
    assert_eq!(Language::from_extension("cpp"), Language::Cpp);
    assert_eq!(Language::from_extension("h"), Language::Cpp);
    assert_eq!(Language::from_extension("go"), Language::Go);
    assert_eq!(Language::from_extension("rb"), Language::Ruby);
    assert_eq!(Language::from_extension("js"), Language::JavaScript);
    assert_eq!(Language::from_extension("jsx"), Language::JavaScript);
    assert_eq!(Language::from_extension("py"), Language::Python);
    assert_eq!(Language::from_extension("ts"), Language::TypeScript);
    assert_eq!(Language::from_extension("tsx"), Language::TypeScript);
    assert_eq!(Language::from_extension("java"), Language::Java);
    assert_eq!(Language::from_extension("lua"), Language::Other);
}

#[test]
fn six_languages_have_a_grammar() {
    assert_eq!(Language::Rust.grammar(), Some(Grammar::Rust));
    assert_eq!(Language::Cpp.grammar(), Some(Grammar::Cpp));
    assert_eq!(Language::Go.grammar(), Some(Grammar::Go));
    assert_eq!(Language::Ruby.grammar(), Some(Grammar::Ruby));
    assert_eq!(Language::JavaScript.grammar(), Some(Grammar::JavaScript));
    assert_eq!(Language::Python.grammar(), Some(Grammar::Python));
    assert_eq!(Language::TypeScript.grammar(), None);
    assert_eq!(Language::Java.grammar(), None);
    assert_eq!(Language::Other.grammar(), None);
    assert_eq!(Language::Unknown.grammar(), None);
}

#[test]
fn built_in_names_come_first() {
    let treatment = |language: Language| choose_treatment(language, language.builtin_name());
    assert_eq!(Language::JavaScript.builtin_name(), Some("javascript"));
    assert_eq!(Language::Python.builtin_name(), Some("python"));
    assert_eq!(Language::TypeScript.builtin_name(), Some("typescript"));
    assert_eq!(Language::Java.builtin_name(), Some("java"));
    assert_eq!(Language::Rust.builtin_name(), None);
    assert_eq!(treatment(Language::Rust), Treatment::Search(Grammar::Rust));
    assert_eq!(treatment(Language::Cpp), Treatment::Search(Grammar::Cpp));
    assert_eq!(treatment(Language::Go), Treatment::Search(Grammar::Go));
    assert_eq!(treatment(Language::Ruby), Treatment::Search(Grammar::Ruby));
    assert_eq!(treatment(Language::JavaScript), Treatment::Search(Grammar::JavaScript));
    assert_eq!(treatment(Language::Python), Treatment::Search(Grammar::Python));
    assert_eq!(treatment(Language::TypeScript), Treatment::Module);
    assert_eq!(treatment(Language::Java), Treatment::JavaModule);
    assert_eq!(treatment(Language::Other), Treatment::Module);
    assert_eq!(choose_treatment(Language::Rust, Some("x")), Treatment::Module);
    assert_eq!(choose_treatment(Language::Java, None), Treatment::Module);
}

#[test]
fn imports_are_recorded_too() {
    for (grammar, capture) in [
        (Grammar::Go, "import_path"),
        (Grammar::Ruby, "require_path"),
        (Grammar::JavaScript, "import_source"),
        (Grammar::Python, "import_name"),
        (Grammar::Python, "module_name"),
    ] {
        assert!(grammar.imports(capture));
        assert!(grammar.records(capture));
    }
    assert!(!Grammar::Ruby.imports("module_name"));
    assert!(Grammar::Ruby.records("module_name"));
    assert!(!Grammar::Rust.records("function_def"));
    assert!(!Grammar::Rust.records("method_name"));
    assert!(!Grammar::Cpp.records("mod_name"));
}
