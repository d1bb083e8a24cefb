//! Laws on languages: what belongs to each of them.

use crate::languages::{
    is_import, is_recorded, language_of, query_text, treatment_of, Grammar, Language, Treatment,
};
use vstd::prelude::*;

verus! {

/// The kinds under which the definitions of a language are recorded.
pub open spec fn recorded_kinds(grammar: Grammar) -> Seq<Seq<char>> {
    match grammar {
        Grammar::Rust => seq![
            "function_name"@,
            "struct_name"@,
            "impl_type"@,
            "trait_name"@,
            "mod_name"@,
            "enum_name"@,
        ],
        Grammar::Cpp => seq![
            "function_name"@,
            "method_name"@,
            "class_name"@,
            "struct_name"@,
            "enum_name"@,
        ],
        Grammar::Go => seq!["function_name"@, "method_name"@, "type_name"@, "import_path"@],
        Grammar::Ruby => seq!["method_name"@, "class_name"@, "module_name"@, "require_path"@],
        Grammar::JavaScript => seq![
            "function_name"@,
            "class_name"@,
            "method_name"@,
            "const_name"@,
            "import_source"@,
        ],
        Grammar::Python => seq!["function_name"@, "class_name"@, "import_name"@, "module_name"@],
    }
}

/// The kinds of these that import a module.
pub open spec fn imported_kinds(grammar: Grammar) -> Seq<Seq<char>> {
    match grammar {
        Grammar::Rust => seq![],
        Grammar::Cpp => seq![],
        Grammar::Go => seq!["import_path"@],
        Grammar::Ruby => seq!["require_path"@],
        Grammar::JavaScript => seq!["import_source"@],
        Grammar::Python => seq!["import_name"@, "module_name"@],
    }
}

/// A capture is recorded if and only if its name is one of the kinds of its language, and imports
/// if and only if it is one of those that do.
pub proof fn law_recorded_kinds(grammar: Grammar, capture: Seq<char>)
    ensures
        is_recorded(grammar, capture) <==> recorded_kinds(grammar).contains(capture),
        is_import(grammar, capture) <==> imported_kinds(grammar).contains(capture),
{
    let recorded = recorded_kinds(grammar);
    let imported = imported_kinds(grammar);
    if is_recorded(grammar, capture) {
        assert(capture == recorded[0] || capture == recorded[1] || capture == recorded[2] || capture
            == recorded[3] || (recorded.len() > 4 && capture == recorded[4]) || (recorded.len() > 5
            && capture == recorded[5]));
    }
    if is_import(grammar, capture) {
        assert(capture == imported[0] || (imported.len() > 1 && capture == imported[1]));
    }
}

/// What is looked for in each language.
pub proof fn law_queries()
    ensures
        query_text(Grammar::Rust)
            == "(function_item name: (identifier) @function_name) @function_def
         (struct_item name: (type_identifier) @struct_name) @struct_def
         (impl_item type: (type_identifier) @impl_type) @impl_def
         (trait_item name: (type_identifier) @trait_name) @trait_def
         (mod_item name: (identifier) @mod_name) @mod_def
         (enum_item name: (type_identifier) @enum_name) @enum_def"@,
        query_text(Grammar::Cpp)
            == "(function_declarator (identifier) @function_name)
         (function_declarator (field_identifier) @method_name)
         (function_declarator (qualified_identifier (identifier) @method_name))
         (class_specifier (type_identifier) @class_name)
         (struct_specifier (type_identifier) @struct_name)
         (enum_specifier (type_identifier) @enum_name)"@,
        query_text(Grammar::JavaScript)
            == "(function_declaration name: (identifier) @function_name) @function_def
         (class_declaration name: (identifier) @class_name) @class_def
         (method_definition name: (property_identifier) @method_name) @method_def
         (lexical_declaration
           (variable_declarator name: (identifier) @const_name
             value: [(function_expression) (arrow_function)]) @const_fn_def)
         (import_statement source: (string) @import_source) @import_def"@,
        query_text(Grammar::Python)
            == "(function_definition name: (identifier) @function_name) @function_def
         (class_definition name: (identifier) @class_name) @class_def
         (import_statement name: (dotted_name) @import_name) @import_def
         (import_from_statement module_name: (dotted_name) @module_name) @import_from"@,
        query_text(Grammar::Go)
            == "(function_declaration name: (identifier) @function_name) @function_def
         (method_declaration name: (field_identifier) @method_name) @method_def
         (type_declaration (type_spec name: (type_identifier) @type_name)) @type_def
         (import_declaration (import_spec path: (interpreted_string_literal) @import_path)) @import_def"@,
        query_text(Grammar::Ruby)
            == "(method name: (identifier) @method_name) @method_def
         (class name: (constant) @class_name) @class_def
         (module name: (constant) @module_name) @module_def
         (require call: (identifier) @require_call
           argument: (string (string_content) @require_path)) @require_def"@,
{
}

/// The extensions that belong to a language.
pub open spec fn extensions_of(language: Language) -> Seq<Seq<char>> {
    match language {
        Language::Rust => seq!["rs"@],
        Language::Cpp => seq!["c"@, "cpp"@, "h"@],
        Language::Go => seq!["go"@],
        Language::Ruby => seq!["rb"@],
        Language::JavaScript => seq!["js"@, "jsx"@],
        Language::Python => seq!["py"@],
        Language::TypeScript => seq!["ts"@, "tsx"@],
        Language::Java => seq!["java"@],
        Language::Other => seq![
            "swift"@,
            "m"@,
            "mm"@,
            "css"@,
            "scala"@,
            "zig"@,
            "yaml"@,
            "yml"@,
            "php"@,
            "xml"@,
            "sh"@,
            "bash"@,
            "json"@,
            "html"@,
            "htm"@,
            "cs"@,
            "md"@,
            "markdown"@,
            "lua"@,
            "dart"@,
        ],
        Language::Unknown => seq![],
    }
}

/// A language comes of an extension that belongs to it, and an extension that belongs to none
/// gives none.
pub proof fn law_extensions(extension: Seq<char>)
    ensures
        language_of(extension) != Language::Unknown ==> extensions_of(
            language_of(extension),
        ).contains(extension),
        language_of(extension) == Language::Unknown ==> forall|language: Language|
            !(#[trigger] extensions_of(language)).contains(extension),
{
    let listed = extensions_of(language_of(extension));
    if language_of(extension) == Language::Other {
        assert(extension == listed[0] || extension == listed[1] || extension == listed[2]
            || extension == listed[3] || extension == listed[4] || extension == listed[5]
            || extension == listed[6] || extension == listed[7] || extension == listed[8]
            || extension == listed[9] || extension == listed[10] || extension == listed[11]
            || extension == listed[12] || extension == listed[13] || extension == listed[14]
            || extension == listed[15] || extension == listed[16] || extension == listed[17]
            || extension == listed[18] || extension == listed[19]);
    } else if language_of(extension) != Language::Unknown {
        assert(extension == listed[0] || (listed.len() > 1 && extension == listed[1]) || (
        listed.len() > 2 && extension == listed[2]));
    }
}

/// A built-in name decides before the language: those of JavaScript and Python are searched, that
/// of Java is a Java module, and every other is a module. Without one, Rust, C++, Go and Ruby are
/// searched, and every other language is a module.
pub proof fn law_treatment(language: Language, builtin: Option<Seq<char>>)
    ensures
        builtin matches Some(name) && name == "javascript"@ ==> treatment_of(language, builtin)
            == Treatment::Search(Grammar::JavaScript),
        builtin matches Some(name) && name == "python"@ ==> treatment_of(language, builtin)
            == Treatment::Search(Grammar::Python),
        builtin matches Some(name) && name == "java"@ ==> treatment_of(language, builtin)
            == Treatment::JavaModule,
        builtin matches Some(name) && name != "javascript"@ && name != "python"@ && name
            != "java"@ ==> treatment_of(language, builtin) == Treatment::Module,
        builtin is None && language == Language::Rust ==> treatment_of(language, builtin)
            == Treatment::Search(Grammar::Rust),
        builtin is None && language == Language::Cpp ==> treatment_of(language, builtin)
            == Treatment::Search(Grammar::Cpp),
        builtin is None && language == Language::Go ==> treatment_of(language, builtin)
            == Treatment::Search(Grammar::Go),
        builtin is None && language == Language::Ruby ==> treatment_of(language, builtin)
            == Treatment::Search(Grammar::Ruby),
        builtin is None && language != Language::Rust && language != Language::Cpp && language
            != Language::Go && language != Language::Ruby ==> treatment_of(language, builtin)
            == Treatment::Module,
{
    reveal_strlit("javascript");
    reveal_strlit("python");
    reveal_strlit("java");
    assert("javascript"@.len() == 10 && "python"@.len() == 6 && "java"@.len() == 4);
}

/// Whether a file of that language is parsed, and by which grammar.
pub proof fn law_grammars(language: Language)
    ensures
        language.spec_grammar() == match language {
            Language::Rust => Some(Grammar::Rust),
            Language::Cpp => Some(Grammar::Cpp),
            Language::Go => Some(Grammar::Go),
            Language::Ruby => Some(Grammar::Ruby),
            Language::JavaScript => Some(Grammar::JavaScript),
            Language::Python => Some(Grammar::Python),
            _ => None,
        },
        language.spec_builtin_name() == match language {
            Language::JavaScript => Some("javascript"@),
            Language::Python => Some("python"@),
            Language::TypeScript => Some("typescript"@),
            Language::Java => Some("java"@),
            _ => None,
        },
{
}

} // verus!
