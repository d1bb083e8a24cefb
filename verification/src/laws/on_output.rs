//! Laws on what is written.

use crate::output::{
    dot_lines, dot_text, entry_json, file_json, numbered, report_json, summary_json, Json,
};
use crate::symbols::{total_entries, SymbolEntryView};
use crate::text::decimal;
use vstd::prelude::*;

verus! {

/// Whether a JSON value is that text, or null where there is no text.
pub open spec fn is_text_or_null(value: Json, text: Option<Seq<char>>) -> bool {
    match text {
        Some(text) => value == Json::Text(text),
        None => value == Json::Null,
    }
}

/// A symbol is written with its name, its kind, its signature and its comment, each in a field of
/// its own that depends on nothing else.
pub proof fn law_written_symbol(entry: SymbolEntryView)
    ensures
        entry_json(entry) is Object,
        ({
            let fields = entry_json(entry)->Object_0;
            &&& forall|field: Seq<char>| #[trigger]
                fields.contains_key(field) <==> field == "name"@ || field == "kind"@ || field
                    == "signature"@ || field == "doc"@
            &&& fields["name"@] == Json::Text(entry.name)
            &&& fields["kind"@] == Json::Text(entry.kind)
            &&& is_text_or_null(fields["signature"@], entry.signature)
            &&& is_text_or_null(fields["doc"@], entry.doc)
        }),
{
    lemma_field_names();
}

proof fn lemma_field_names()
    ensures
        "name"@ != "kind"@,
        "name"@ != "signature"@,
        "name"@ != "doc"@,
        "name"@ != "symbols"@,
        "kind"@ != "signature"@,
        "kind"@ != "doc"@,
        "signature"@ != "doc"@,
        "files"@ != "symbols"@,
        "files"@ != "description"@,
        "files"@ != "summary"@,
        "symbols"@ != "description"@,
{
    reveal_strlit("name");
    reveal_strlit("kind");
    reveal_strlit("signature");
    reveal_strlit("doc");
    reveal_strlit("files");
    reveal_strlit("symbols");
    reveal_strlit("description");
    reveal_strlit("summary");
    assert("name"@[0] != "kind"@[0]);
    assert("name"@.len() == 4 && "kind"@.len() == 4 && "signature"@.len() == 9 && "doc"@.len()
        == 3);
    assert("files"@.len() == 5 && "symbols"@.len() == 7 && "description"@.len() == 11
        && "summary"@.len() == 7);
}

/// Symbols that are written alike are alike.
pub proof fn law_written_symbols_differ(first: SymbolEntryView, second: SymbolEntryView)
    requires
        entry_json(first) == entry_json(second),
    ensures
        first == second,
{
    law_written_symbol(first);
    law_written_symbol(second);
}

/// A file is written with its name and with all its symbols, in order.
pub proof fn law_written_file(name: Seq<char>, entries: Seq<SymbolEntryView>)
    ensures
        file_json(name, entries) is Object,
        ({
            let fields = file_json(name, entries)->Object_0;
            &&& forall|field: Seq<char>| #[trigger]
                fields.contains_key(field) <==> field == "name"@ || field == "symbols"@
            &&& fields["name"@] == Json::Text(name)
            &&& fields["symbols"@] is List
            &&& fields["symbols"@]->List_0.len() == entries.len()
            &&& forall|i: int|
                0 <= i < entries.len() ==> #[trigger] fields["symbols"@]->List_0[i] == entry_json(
                    entries[i],
                )
        }),
{
    lemma_field_names();
}

/// A report says how many files and symbols there are and lists every file once, in order, with
/// the entries that the index holds for it.
pub proof fn law_written_report(
    files: Seq<Seq<char>>,
    index: Map<Seq<char>, Seq<SymbolEntryView>>,
)
    ensures
        report_json(files, index) is Object,
        ({
            let fields = report_json(files, index)->Object_0;
            &&& forall|field: Seq<char>| #[trigger]
                fields.contains_key(field) <==> field == "summary"@ || field == "files"@
            &&& fields["summary"@] is Object
            &&& fields["files"@] is List
        }),
        ({
            let summary = report_json(files, index)->Object_0["summary"@]->Object_0;
            &&& forall|field: Seq<char>| #[trigger]
                summary.contains_key(field) <==> field == "files"@ || field == "symbols"@ || field
                    == "description"@
            &&& summary["files"@] == Json::Number(files.len())
            &&& summary["symbols"@] == Json::Number(total_entries(index))
            &&& summary["description"@] == Json::Text(
                "Tree-sitter Stack Graph representation of indexed code"@,
            )
        }),
        ({
            let listed = report_json(files, index)->Object_0["files"@]->List_0;
            &&& listed.len() == files.len()
            &&& forall|i: int|
                0 <= i < files.len() ==> {
                    &&& index.contains_key(files[i]) ==> #[trigger] listed[i] == file_json(
                        files[i],
                        index[files[i]],
                    )
                    &&& !index.contains_key(files[i]) ==> listed[i] == file_json(
                        files[i],
                        seq![],
                    )
                }
        }),
{
    lemma_field_names();
    assert(report_json(files, index)->Object_0["summary"@] == summary_json(
        files.len(),
        total_entries(index),
    ));
}

/// A DOT graph without files has no lines, and each file adds a line of its own behind those of the
/// files before it, with its number and its name.
pub proof fn law_dot(files: Seq<(nat, Seq<char>)>, number: nat, name: Seq<char>)
    ensures
        dot_text(seq![]) == "digraph StackGraph {\n"@ + "}\n"@,
        exists|lines: Seq<char>|
            dot_text(files) == #[trigger] ("digraph StackGraph {\n"@ + lines + "}\n"@) && dot_text(
                files.push((number, name)),
            ) == "digraph StackGraph {\n"@ + lines + ("  file_"@ + decimal(number) + " [label=\""@
                + name + "\"];\n"@) + "}\n"@,
{
    let none = Seq::<(nat, Seq<char>)>::empty();
    assert(dot_lines(none) == Seq::<char>::empty());
    assert("digraph StackGraph {\n"@ + dot_lines(none) == "digraph StackGraph {\n"@);
    let more = files.push((number, name));
    let line = "  file_"@ + decimal(number) + " [label=\""@ + name + "\"];\n"@;
    assert(more.drop_last() == files);
    assert(dot_lines(more) == dot_lines(files) + line);
    assert("digraph StackGraph {\n"@ + (dot_lines(files) + line) == "digraph StackGraph {\n"@
        + dot_lines(files) + line);
    assert(dot_text(files) == "digraph StackGraph {\n"@ + dot_lines(files) + "}\n"@);
}

/// The files of a graph are numbered from one, in order.
pub proof fn law_numbers(names: Seq<Seq<char>>)
    ensures
        numbered(names).len() == names.len(),
        forall|i: int|
            0 <= i < names.len() ==> (#[trigger] numbered(names)[i]).0 == i + 1
                && numbered(names)[i].1 == names[i],
{
}

} // verus!
