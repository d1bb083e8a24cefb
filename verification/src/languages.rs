//! Source languages, and what is looked for in each of them.

use crate::text::same_text;
use vstd::prelude::*;

verus! {

/// A source language.
#[derive(Clone, Copy, Debug, PartialEq, Eq, Structural)]
pub enum Language {
    Rust,
    Cpp,
    Go,
    Ruby,
    JavaScript,
    Python,
    TypeScript,
    Java,
    /// A known language that has no rules of its own.
    Other,
    /// A language that is not known.
    Unknown,
}

/// A language whose syntax is searched for definitions.
#[derive(Clone, Copy, Debug, PartialEq, Eq, Structural)]
pub enum Grammar {
    Rust,
    Cpp,
    Go,
    Ruby,
    JavaScript,
    Python,
}

/// Whether an extension, in lower case, belongs to a language that has no rules of its own.
pub open spec fn is_other_extension(extension: Seq<char>) -> bool {
    ||| extension == "swift"@
    ||| extension == "m"@
    ||| extension == "mm"@
    ||| extension == "css"@
    ||| extension == "scala"@
    ||| extension == "zig"@
    ||| extension == "yaml"@
    ||| extension == "yml"@
    ||| extension == "php"@
    ||| extension == "xml"@
    ||| extension == "sh"@
    ||| extension == "bash"@
    ||| extension == "json"@
    ||| extension == "html"@
    ||| extension == "htm"@
    ||| extension == "cs"@
    ||| extension == "md"@
    ||| extension == "markdown"@
    ||| extension == "lua"@
    ||| extension == "dart"@
}

/// The language of the files with an extension. The table is this library's choice: it knows the
/// extensions of the files that a directory is searched for, in lower case.
pub open spec fn language_of(extension: Seq<char>) -> Language {
    if extension == "rs"@ {
        Language::Rust
    } else if extension == "c"@ || extension == "cpp"@ || extension == "h"@ {
        Language::Cpp
    } else if extension == "go"@ {
        Language::Go
    } else if extension == "rb"@ {
        Language::Ruby
    } else if extension == "js"@ || extension == "jsx"@ {
        Language::JavaScript
    } else if extension == "py"@ {
        Language::Python
    } else if extension == "ts"@ || extension == "tsx"@ {
        Language::TypeScript
    } else if extension == "java"@ {
        Language::Java
    } else if is_other_extension(extension) {
        Language::Other
    } else {
        Language::Unknown
    }
}

fn is_other(extension: &str) -> (other: bool)
    ensures
        other == is_other_extension(extension@),
{
    same_text(extension, "swift") || same_text(extension, "m") || same_text(extension, "mm")
        || same_text(extension, "css") || same_text(extension, "scala") || same_text(
        extension,
        "zig",
    ) || same_text(extension, "yaml") || same_text(extension, "yml") || same_text(extension, "php")
        || same_text(extension, "xml") || same_text(extension, "sh") || same_text(extension, "bash")
        || same_text(extension, "json") || same_text(extension, "html") || same_text(
        extension,
        "htm",
    ) || same_text(extension, "cs") || same_text(extension, "md") || same_text(
        extension,
        "markdown",
    ) || same_text(extension, "lua") || same_text(extension, "dart")
}

impl Language {
    /// The language of the files with an extension.
    pub fn from_extension(extension: &str) -> (language: Language)
        ensures
            language == language_of(extension@),
    {
        if same_text(extension, "rs") {
            Language::Rust
        } else if same_text(extension, "c") || same_text(extension, "cpp") || same_text(
            extension,
            "h",
        ) {
            Language::Cpp
        } else if same_text(extension, "go") {
            Language::Go
        } else if same_text(extension, "rb") {
            Language::Ruby
        } else if same_text(extension, "js") || same_text(extension, "jsx") {
            Language::JavaScript
        } else if same_text(extension, "py") {
            Language::Python
        } else if same_text(extension, "ts") || same_text(extension, "tsx") {
            Language::TypeScript
        } else if same_text(extension, "java") {
            Language::Java
        } else if is_other(extension) {
            Language::Other
        } else {
            Language::Unknown
        }
    }

    /// The grammar that files of the language are parsed with, where there is one. Which languages
    /// have one is this library's choice.
    pub open spec fn spec_grammar(self) -> Option<Grammar> {
        match self {
            Language::Rust => Some(Grammar::Rust),
            Language::Cpp => Some(Grammar::Cpp),
            Language::Go => Some(Grammar::Go),
            Language::Ruby => Some(Grammar::Ruby),
            Language::JavaScript => Some(Grammar::JavaScript),
            Language::Python => Some(Grammar::Python),
            _ => None,
        }
    }

    /// The grammar that files of the language are parsed with, where there is one.
    pub fn grammar(&self) -> (grammar: Option<Grammar>)
        ensures
            grammar == self.spec_grammar(),
    {
        match self {
            Language::Rust => Some(Grammar::Rust),
            Language::Cpp => Some(Grammar::Cpp),
            Language::Go => Some(Grammar::Go),
            Language::Ruby => Some(Grammar::Ruby),
            Language::JavaScript => Some(Grammar::JavaScript),
            Language::Python => Some(Grammar::Python),
            _ => None,
        }
    }
}

impl Language {
    /// The name under which stack graphs support the language, where they do. Which languages have
    /// one is this library's choice.
    pub open spec fn spec_builtin_name(self) -> Option<Seq<char>> {
        match self {
            Language::JavaScript => Some("javascript"@),
            Language::Python => Some("python"@),
            Language::TypeScript => Some("typescript"@),
            Language::Java => Some("java"@),
            _ => None,
        }
    }

    /// The name under which stack graphs support the language, where they do.
    pub fn builtin_name(&self) -> (name: Option<&'static str>)
        ensures
            optional_name(name) == self.spec_builtin_name(),
    {
        match self {
            Language::JavaScript => Some("javascript"),
            Language::Python => Some("python"),
            Language::TypeScript => Some("typescript"),
            Language::Java => Some("java"),
            _ => None,
        }
    }
}

/// The text of an optional name.
pub open spec fn optional_name(name: Option<&str>) -> Option<Seq<char>> {
    match name {
        Some(name) => Some(name@),
        None => None,
    }
}

/// What is done with the syntax tree of a file.
#[derive(Clone, Copy, Debug, PartialEq, Eq, Structural)]
pub enum Treatment {
    /// It is searched for the definitions of a language.
    Search(Grammar),
    /// The file is recorded as a module.
    Module,
    /// The file is recorded as a Java module.
    JavaModule,
}

/// What is done with the syntax tree of a file. A built-in name decides where there is one, and
/// the language only where there is none.
pub open spec fn treatment_of(language: Language, builtin: Option<Seq<char>>) -> Treatment {
    match builtin {
        Some(name) => if name == "javascript"@ {
            Treatment::Search(Grammar::JavaScript)
        } else if name == "python"@ {
            Treatment::Search(Grammar::Python)
        } else if name == "java"@ {
            Treatment::JavaModule
        } else {
            Treatment::Module
        },
        None => match language {
            Language::Rust => Treatment::Search(Grammar::Rust),
            Language::Cpp => Treatment::Search(Grammar::Cpp),
            Language::Go => Treatment::Search(Grammar::Go),
            Language::Ruby => Treatment::Search(Grammar::Ruby),
            _ => Treatment::Module,
        },
    }
}

/// Decides what is done with the syntax tree of a file.
pub fn choose_treatment(language: Language, builtin: Option<&str>) -> (treatment: Treatment)
    ensures
        treatment == treatment_of(language, optional_name(builtin)),
{
    match builtin {
        Some(name) => {
            if same_text(name, "javascript") {
                Treatment::Search(Grammar::JavaScript)
            } else if same_text(name, "python") {
                Treatment::Search(Grammar::Python)
            } else if same_text(name, "java") {
                Treatment::JavaModule
            } else {
                Treatment::Module
            }
        },
        None => match language {
            Language::Rust => Treatment::Search(Grammar::Rust),
            Language::Cpp => Treatment::Search(Grammar::Cpp),
            Language::Go => Treatment::Search(Grammar::Go),
            Language::Ruby => Treatment::Search(Grammar::Ruby),
            _ => Treatment::Module,
        },
    }
}

/// A language with a grammar is searched by that grammar.
pub proof fn lemma_grammar_is_searched(language: Language, grammar: Grammar)
    requires
        language.spec_grammar() == Some(grammar),
    ensures
        treatment_of(language, language.spec_builtin_name()) == Treatment::Search(grammar),
{
    reveal_strlit("javascript");
    reveal_strlit("python");
    assert("javascript"@.len() != "python"@.len());
}

/// What is looked for in Rust sources.
pub const RUST_QUERY: &'static str =
    "(function_item name: (identifier) @function_name) @function_def
         (struct_item name: (type_identifier) @struct_name) @struct_def
         (impl_item type: (type_identifier) @impl_type) @impl_def
         (trait_item name: (type_identifier) @trait_name) @trait_def
         (mod_item name: (identifier) @mod_name) @mod_def
         (enum_item name: (type_identifier) @enum_name) @enum_def";

/// What is looked for in C++ sources.
pub const CPP_QUERY: &'static str =
    "(function_declarator (identifier) @function_name)
         (function_declarator (field_identifier) @method_name)
         (function_declarator (qualified_identifier (identifier) @method_name))
         (class_specifier (type_identifier) @class_name)
         (struct_specifier (type_identifier) @struct_name)
         (enum_specifier (type_identifier) @enum_name)";

/// What is looked for in JavaScript sources.
pub const JAVASCRIPT_QUERY: &'static str =
    "(function_declaration name: (identifier) @function_name) @function_def
         (class_declaration name: (identifier) @class_name) @class_def
         (method_definition name: (property_identifier) @method_name) @method_def
         (lexical_declaration
           (variable_declarator name: (identifier) @const_name
             value: [(function_expression) (arrow_function)]) @const_fn_def)
         (import_statement source: (string) @import_source) @import_def";

/// What is looked for in Python sources.
pub const PYTHON_QUERY: &'static str =
    "(function_definition name: (identifier) @function_name) @function_def
         (class_definition name: (identifier) @class_name) @class_def
         (import_statement name: (dotted_name) @import_name) @import_def
         (import_from_statement module_name: (dotted_name) @module_name) @import_from";

/// What is looked for in Go sources.
pub const GO_QUERY: &'static str =
    "(function_declaration name: (identifier) @function_name) @function_def
         (method_declaration name: (field_identifier) @method_name) @method_def
         (type_declaration (type_spec name: (type_identifier) @type_name)) @type_def
         (import_declaration (import_spec path: (interpreted_string_literal) @import_path)) @import_def";

/// What is looked for in Ruby sources.
pub const RUBY_QUERY: &'static str =
    "(method name: (identifier) @method_name) @method_def
         (class name: (constant) @class_name) @class_def
         (module name: (constant) @module_name) @module_def
         (require call: (identifier) @require_call
           argument: (string (string_content) @require_path)) @require_def";

/// The query for the definitions of a language.
pub open spec fn query_text(grammar: Grammar) -> Seq<char> {
    match grammar {
        Grammar::Rust => RUST_QUERY@,
        Grammar::Cpp => CPP_QUERY@,
        Grammar::Go => GO_QUERY@,
        Grammar::Ruby => RUBY_QUERY@,
        Grammar::JavaScript => JAVASCRIPT_QUERY@,
        Grammar::Python => PYTHON_QUERY@,
    }
}

/// Whether what a query captured under that name is recorded as a symbol.
pub open spec fn is_recorded(grammar: Grammar, capture: Seq<char>) -> bool {
    match grammar {
        Grammar::Rust => {
            ||| capture == "function_name"@
            ||| capture == "struct_name"@
            ||| capture == "impl_type"@
            ||| capture == "trait_name"@
            ||| capture == "mod_name"@
            ||| capture == "enum_name"@
        },
        Grammar::Cpp => {
            ||| capture == "function_name"@
            ||| capture == "method_name"@
            ||| capture == "class_name"@
            ||| capture == "struct_name"@
            ||| capture == "enum_name"@
        },
        Grammar::Go => {
            ||| capture == "function_name"@
            ||| capture == "method_name"@
            ||| capture == "type_name"@
            ||| capture == "import_path"@
        },
        Grammar::Ruby => {
            ||| capture == "method_name"@
            ||| capture == "class_name"@
            ||| capture == "module_name"@
            ||| capture == "require_path"@
        },
        Grammar::JavaScript => {
            ||| capture == "function_name"@
            ||| capture == "class_name"@
            ||| capture == "method_name"@
            ||| capture == "const_name"@
            ||| capture == "import_source"@
        },
        Grammar::Python => {
            ||| capture == "function_name"@
            ||| capture == "class_name"@
            ||| capture == "import_name"@
            ||| capture == "module_name"@
        },
    }
}

/// Whether what a query captured under that name refers to an imported module.
pub open spec fn is_import(grammar: Grammar, capture: Seq<char>) -> bool {
    match grammar {
        Grammar::Rust => false,
        Grammar::Cpp => false,
        Grammar::Go => capture == "import_path"@,
        Grammar::Ruby => capture == "require_path"@,
        Grammar::JavaScript => capture == "import_source"@,
        Grammar::Python => capture == "import_name"@ || capture == "module_name"@,
    }
}

/// Whatever refers to an imported module is recorded as a symbol too.
pub proof fn lemma_imports_are_recorded(grammar: Grammar, capture: Seq<char>)
    requires
        is_import(grammar, capture),
    ensures
        is_recorded(grammar, capture),
{
}

impl Grammar {
    /// The query for the definitions of the language.
    pub fn query(&self) -> (text: &'static str)
        ensures
            text@ == query_text(*self),
    {
        match self {
            Grammar::Rust => RUST_QUERY,
            Grammar::Cpp => CPP_QUERY,
            Grammar::Go => GO_QUERY,
            Grammar::Ruby => RUBY_QUERY,
            Grammar::JavaScript => JAVASCRIPT_QUERY,
            Grammar::Python => PYTHON_QUERY,
        }
    }

    /// Whether what the query captured under that name is recorded as a symbol.
    pub fn records(&self, capture: &str) -> (recorded: bool)
        ensures
            recorded == is_recorded(*self, capture@),
    {
        match self {
            Grammar::Rust => same_text(capture, "function_name") || same_text(
                capture,
                "struct_name",
            ) || same_text(capture, "impl_type") || same_text(capture, "trait_name") || same_text(
                capture,
                "mod_name",
            ) || same_text(capture, "enum_name"),
            Grammar::Cpp => same_text(capture, "function_name") || same_text(capture, "method_name")
                || same_text(capture, "class_name") || same_text(capture, "struct_name")
                || same_text(capture, "enum_name"),
            Grammar::Go => same_text(capture, "function_name") || same_text(capture, "method_name")
                || same_text(capture, "type_name") || same_text(capture, "import_path"),
            Grammar::Ruby => same_text(capture, "method_name") || same_text(capture, "class_name")
                || same_text(capture, "module_name") || same_text(capture, "require_path"),
            Grammar::JavaScript => same_text(capture, "function_name") || same_text(
                capture,
                "class_name",
            ) || same_text(capture, "method_name") || same_text(capture, "const_name") || same_text(
                capture,
                "import_source",
            ),
            Grammar::Python => same_text(capture, "function_name") || same_text(
                capture,
                "class_name",
            ) || same_text(capture, "import_name") || same_text(capture, "module_name"),
        }
    }

    /// Whether what the query captured under that name refers to an imported module.
    pub fn imports(&self, capture: &str) -> (imported: bool)
        ensures
            imported == is_import(*self, capture@),
    {
        match self {
            Grammar::Rust => false,
            Grammar::Cpp => false,
            Grammar::Go => same_text(capture, "import_path"),
            Grammar::Ruby => same_text(capture, "require_path"),
            Grammar::JavaScript => same_text(capture, "import_source"),
            Grammar::Python => same_text(capture, "import_name") || same_text(
                capture,
                "module_name",
            ),
        }
    }
}

} // verus!
