//! What has been indexed, as JSON and as a DOT graph.

use crate::graph::{graph_files, numbered_files};
use crate::indexer::{consistent, IndexState};
use crate::symbols::{
    entries_of, entries_view, lemma_total_entries, optional_text, total_entries, SymbolEntry,
    SymbolEntryView, SymbolIndex,
};
use crate::text::{decimal, decimal_text};
use stack_graphs::graph::StackGraph;
use vstd::prelude::*;
use vstd::string::*;

verus! {

/// `serde_json::Value`: a JSON value.
#[verifier::external_type_specification]
#[verifier::external_body]
pub struct ExValue(serde_json::Value);

/// `serde_json::Error`: why a value could not be written.
#[verifier::external_type_specification]
#[verifier::external_body]
pub struct ExJsonError(serde_json::Error);

/// What a JSON value holds. An object is a map: without its feature `preserve_order`, which this
/// library does not ask for, the crate keeps the fields of an object sorted by their names, however
/// they were put in.
pub enum Json {
    Null,
    Number(nat),
    Text(Seq<char>),
    List(Seq<Json>),
    Object(Map<Seq<char>, Json>),
}

/// What a JSON value holds.
pub uninterp spec fn json_contents(value: serde_json::Value) -> Json;

/// How a JSON value reads when it is written over several lines.
pub uninterp spec fn pretty_json(value: Json) -> Seq<char>;

/// What the values of a list hold.
pub open spec fn list_contents(values: Seq<serde_json::Value>) -> Seq<Json> {
    values.map_values(|value: serde_json::Value| json_contents(value))
}

/// What fields hold, by their names.
pub open spec fn object_contents(fields: Seq<(String, serde_json::Value)>) -> Map<Seq<char>, Json>
    decreases fields.len(),
{
    if fields.len() == 0 {
        Map::empty()
    } else {
        object_contents(fields.drop_last()).insert(
            fields.last().0@,
            json_contents(fields.last().1),
        )
    }
}

/// `serde_json::Value::Null`.
#[verifier::external_body]
fn json_null() -> (value: serde_json::Value)
    ensures
        json_contents(value) == Json::Null,
{
    serde_json::Value::Null
}

/// `serde_json::Value::from` on a number: that number.
#[verifier::external_body]
fn json_number(number: usize) -> (value: serde_json::Value)
    ensures
        json_contents(value) == Json::Number(number as nat),
{
    serde_json::Value::from(number)
}

/// `serde_json::Value::String`: a text.
#[verifier::external_body]
fn json_text(text: &str) -> (value: serde_json::Value)
    ensures
        json_contents(value) == Json::Text(text@),
{
    serde_json::Value::String(text.to_string())
}

/// `serde_json::Value::Array`: the values, in order.
#[verifier::external_body]
fn json_list(values: Vec<serde_json::Value>) -> (value: serde_json::Value)
    ensures
        json_contents(value) == Json::List(list_contents(values@)),
{
    serde_json::Value::Array(values)
}

/// `serde_json::Value::Object`, with a `serde_json::Map` collected from the fields: each field
/// under its name. No two fields have the same name.
#[verifier::external_body]
fn json_object(fields: Vec<(String, serde_json::Value)>) -> (value: serde_json::Value)
    requires
        forall|i: int, j: int|
            0 <= i < j < fields@.len() ==> (#[trigger] fields@[i]).0@ != (#[trigger] fields@[j]).0@,
    ensures
        json_contents(value) == Json::Object(object_contents(fields@)),
{
    serde_json::Value::Object(fields.into_iter().collect())
}

/// `serde_json::to_string_pretty`, which fails on maps whose keys are no texts and where a type
/// refuses to be written. A JSON value is neither, so it is written, as a text that depends on
/// what the value holds and on nothing else.
#[verifier::external_body]
fn write_pretty(value: &serde_json::Value) -> (text: Result<String, serde_json::Error>)
    ensures
        text is Ok,
        text->Ok_0@ == pretty_json(json_contents(*value)),
{
    serde_json::to_string_pretty(value)
}

proof fn lemma_object_push(
    fields: Seq<(String, serde_json::Value)>,
    field: (String, serde_json::Value),
)
    ensures
        object_contents(fields.push(field)) == object_contents(fields).insert(
            field.0@,
            json_contents(field.1),
        ),
{
    assert(fields.push(field).drop_last() == fields);
}

/// An optional text in JSON.
pub open spec fn optional_json(text: Option<Seq<char>>) -> Json {
    match text {
        Some(text) => Json::Text(text),
        None => Json::Null,
    }
}

/// A symbol in JSON.
pub open spec fn entry_json(entry: SymbolEntryView) -> Json {
    Json::Object(
        map![
            "name"@ => Json::Text(entry.name),
            "kind"@ => Json::Text(entry.kind),
            "signature"@ => optional_json(entry.signature),
            "doc"@ => optional_json(entry.doc),
        ],
    )
}

/// A file with its symbols in JSON.
pub open spec fn file_json(name: Seq<char>, entries: Seq<SymbolEntryView>) -> Json {
    Json::Object(
        map![
            "name"@ => Json::Text(name),
            "symbols"@ => Json::List(
                entries.map_values(|entry: SymbolEntryView| entry_json(entry)),
            ),
        ],
    )
}

/// How many files and symbols there are, in JSON.
pub open spec fn summary_json(files: nat, symbols: nat) -> Json {
    Json::Object(
        map![
            "files"@ => Json::Number(files),
            "symbols"@ => Json::Number(symbols),
            "description"@ => Json::Text(
                "Tree-sitter Stack Graph representation of indexed code"@,
            ),
        ],
    )
}

/// The whole report in JSON: a summary, and then each file of the graph, in order, with its
/// symbols.
pub open spec fn report_json(
    files: Seq<Seq<char>>,
    index: Map<Seq<char>, Seq<SymbolEntryView>>,
) -> Json {
    Json::Object(
        map![
            "summary"@ => summary_json(files.len(), total_entries(index)),
            "files"@ => Json::List(
                files.map_values(|name: Seq<char>| file_json(name, entries_of(index, name))),
            ),
        ],
    )
}

/// How many symbols a report lists under its files.
pub open spec fn listed_symbols(
    files: Seq<Seq<char>>,
    index: Map<Seq<char>, Seq<SymbolEntryView>>,
) -> nat
    decreases files.len(),
{
    if files.len() == 0 {
        0
    } else {
        listed_symbols(files.drop_last(), index) + entries_of(index, files.last()).len()
    }
}

proof fn lemma_listed_without_file(
    files: Seq<Seq<char>>,
    index: Map<Seq<char>, Seq<SymbolEntryView>>,
    file: Seq<char>,
)
    requires
        !files.contains(file),
    ensures
        listed_symbols(files, index.remove(file)) == listed_symbols(files, index),
    decreases files.len(),
{
    if files.len() > 0 {
        assert(files[files.len() - 1] == files.last());
        assert forall|other: Seq<char>| files.drop_last().contains(other) implies files.contains(
            other,
        ) by {
            let at = choose|at: int|
                0 <= at < files.drop_last().len() && files.drop_last()[at] == other;
            assert(files[at] == other);
        }
        lemma_listed_without_file(files.drop_last(), index, file);
    }
}

/// The number of symbols in the summary is the number of symbols that are listed, where no file
/// stands twice and every file with symbols is among the files.
pub proof fn lemma_summary_counts_listed_symbols(
    files: Seq<Seq<char>>,
    index: Map<Seq<char>, Seq<SymbolEntryView>>,
)
    requires
        files.no_duplicates(),
        index.dom().finite(),
        forall|file: Seq<char>| #[trigger] index.contains_key(file) ==> files.contains(file),
    ensures
        listed_symbols(files, index) == total_entries(index),
    decreases files.len(),
{
    if files.len() == 0 {
        assert(index.dom() == Set::<Seq<char>>::empty());
    } else {
        let file = files.last();
        let rest = files.drop_last();
        let others = index.remove(file);
        assert forall|other: Seq<char>| #[trigger] others.contains_key(other) implies rest.contains(
            other,
        ) by {
            let at = choose|at: int| 0 <= at < files.len() && files[at] == other;
            assert(rest[at] == other);
        }
        lemma_summary_counts_listed_symbols(rest, others);
        lemma_listed_without_file(rest, index, file);
        if index.contains_key(file) {
            lemma_total_entries(index, file);
        } else {
            assert(others == index);
        }
    }
}

/// The report on what was indexed lists each file of the graph once, and as many symbols as its
/// summary says.
pub proof fn lemma_report_of_consistent_state(state: IndexState)
    requires
        consistent(state),
    ensures
        state.graph.files.no_duplicates(),
        listed_symbols(state.graph.files, state.symbols) == total_entries(state.symbols),
{
    lemma_summary_counts_listed_symbols(state.graph.files, state.symbols);
}

/// A file that the index does not know is listed without symbols.
pub proof fn lemma_unknown_file_has_no_symbols(
    name: Seq<char>,
    index: Map<Seq<char>, Seq<SymbolEntryView>>,
)
    requires
        !index.contains_key(name),
    ensures
        file_json(name, entries_of(index, name)) == file_json(name, seq![]),
{
}

fn optional_value(text: &Option<String>) -> (value: serde_json::Value)
    ensures
        json_contents(value) == optional_json(optional_text(*text)),
{
    match text {
        Some(text) => json_text(text.as_str()),
        None => json_null(),
    }
}

fn entry_value(entry: &SymbolEntry) -> (value: serde_json::Value)
    ensures
        json_contents(value) == entry_json(entry@),
{
    let mut fields: Vec<(String, serde_json::Value)> = Vec::new();
    let name = ("name".to_string(), json_text(entry.name.as_str()));
    proof {
        lemma_object_push(fields@, name);
    }
    fields.push(name);
    let kind = ("kind".to_string(), json_text(entry.kind.as_str()));
    proof {
        lemma_object_push(fields@, kind);
    }
    fields.push(kind);
    let signature = ("signature".to_string(), optional_value(&entry.signature));
    proof {
        lemma_object_push(fields@, signature);
    }
    fields.push(signature);
    let doc = ("doc".to_string(), optional_value(&entry.doc));
    proof {
        lemma_object_push(fields@, doc);
    }
    fields.push(doc);
    proof {
        reveal_strlit("name");
        reveal_strlit("kind");
        reveal_strlit("signature");
        reveal_strlit("doc");
        assert("name"@[0] != "kind"@[0]);
        assert(name.0@ != kind.0@ && name.0@.len() == 4 && kind.0@.len() == 4);
        assert(signature.0@.len() == 9 && doc.0@.len() == 3);
    }
    json_object(fields)
}

fn file_value(name: &str, entries: Option<&Vec<SymbolEntry>>) -> (value: serde_json::Value)
    ensures
        json_contents(value) == file_json(
            name@,
            match entries {
                Some(entries) => entries_view(entries@),
                None => seq![],
            },
        ),
{
    let ghost all = match entries {
        Some(entries) => entries_view(entries@),
        None => seq![],
    };
    let mut values: Vec<serde_json::Value> = Vec::new();
    match entries {
        Some(entries) => {
            for i in 0..entries.len()
                invariant
                    all == entries_view(entries@),
                    values@.len() == i,
                    forall|j: int|
                        0 <= j < i ==> json_contents(#[trigger] values@[j]) == entry_json(all[j]),
            {
                values.push(entry_value(&entries[i]));
            }
        },
        None => {},
    }
    assert(list_contents(values@) == all.map_values(
        |entry: SymbolEntryView| entry_json(entry),
    ));
    let mut fields: Vec<(String, serde_json::Value)> = Vec::new();
    let name = ("name".to_string(), json_text(name));
    proof {
        lemma_object_push(fields@, name);
    }
    fields.push(name);
    let symbols = ("symbols".to_string(), json_list(values));
    proof {
        lemma_object_push(fields@, symbols);
    }
    fields.push(symbols);
    proof {
        reveal_strlit("name");
        reveal_strlit("symbols");
        assert(name.0@.len() == 4 && symbols.0@.len() == 7);
    }
    json_object(fields)
}

fn summary_value(files: usize, symbols: usize) -> (value: serde_json::Value)
    ensures
        json_contents(value) == summary_json(files as nat, symbols as nat),
{
    let mut fields: Vec<(String, serde_json::Value)> = Vec::new();
    let files = ("files".to_string(), json_number(files));
    proof {
        lemma_object_push(fields@, files);
    }
    fields.push(files);
    let symbols = ("symbols".to_string(), json_number(symbols));
    proof {
        lemma_object_push(fields@, symbols);
    }
    fields.push(symbols);
    let description = (
        "description".to_string(),
        json_text("Tree-sitter Stack Graph representation of indexed code"),
    );
    proof {
        lemma_object_push(fields@, description);
    }
    fields.push(description);
    proof {
        reveal_strlit("files");
        reveal_strlit("symbols");
        reveal_strlit("description");
        assert(files.0@.len() == 5 && symbols.0@.len() == 7 && description.0@.len() == 11);
    }
    json_object(fields)
}

/// The names of numbered files.
pub open spec fn file_names(files: Seq<(u32, String)>) -> Seq<Seq<char>> {
    files.map_values(|file: (u32, String)| file.1@)
}

/// Puts together the report on files and their symbols.
pub fn build_report(files: &Vec<(u32, String)>, symbols: &SymbolIndex) -> (value:
    serde_json::Value)
    requires
        symbols.wf(),
        total_entries(symbols@) <= usize::MAX,
    ensures
        json_contents(value) == report_json(file_names(files@), symbols@),
{
    let ghost names = file_names(files@);
    let mut values: Vec<serde_json::Value> = Vec::new();
    for i in 0..files.len()
        invariant
            symbols.wf(),
            names == file_names(files@),
            values@.len() == i,
            forall|j: int|
                0 <= j < i ==> json_contents(#[trigger] values@[j]) == file_json(
                    names[j],
                    entries_of(symbols@, names[j]),
                ),
    {
        let name = files[i].1.as_str();
        values.push(file_value(name, symbols.get(name)));
    }
    let ghost index = symbols@;
    assert(list_contents(values@) == names.map_values(
        |name: Seq<char>| file_json(name, entries_of(index, name)),
    ));
    let mut fields: Vec<(String, serde_json::Value)> = Vec::new();
    let summary = ("summary".to_string(), summary_value(files.len(), symbols.symbol_count()));
    proof {
        lemma_object_push(fields@, summary);
    }
    fields.push(summary);
    let listing = ("files".to_string(), json_list(values));
    proof {
        lemma_object_push(fields@, listing);
    }
    fields.push(listing);
    proof {
        reveal_strlit("summary");
        reveal_strlit("files");
        assert(summary.0@.len() == 7 && listing.0@.len() == 5);
    }
    json_object(fields)
}

/// Writes what has been indexed as JSON.
pub fn output_json(graph: &StackGraph, symbols: &SymbolIndex) -> (text: String)
    requires
        symbols.wf(),
        total_entries(symbols@) <= usize::MAX,
    ensures
        text@ == pretty_json(report_json(graph_files(*graph), symbols@)),
{
    let files = numbered_files(graph);
    assert(file_names(files@) == graph_files(*graph));
    write_pretty(&build_report(&files, symbols)).unwrap()
}

/// The line of a DOT graph that stands for a file.
pub open spec fn dot_line(number: nat, name: Seq<char>) -> Seq<char> {
    "  file_"@ + decimal(number) + " [label=\""@ + name + "\"];\n"@
}

/// The lines of a DOT graph, one for each file.
pub open spec fn dot_lines(files: Seq<(nat, Seq<char>)>) -> Seq<char>
    decreases files.len(),
{
    if files.len() == 0 {
        seq![]
    } else {
        dot_lines(files.drop_last()) + dot_line(files.last().0, files.last().1)
    }
}

/// A DOT graph with a node for each file.
pub open spec fn dot_text(files: Seq<(nat, Seq<char>)>) -> Seq<char> {
    "digraph StackGraph {\n"@ + dot_lines(files) + "}\n"@
}

/// What numbered files say.
pub open spec fn numbered_view(files: Seq<(u32, String)>) -> Seq<(nat, Seq<char>)> {
    files.map_values(|file: (u32, String)| (file.0 as nat, file.1@))
}

/// Names, numbered from one.
pub open spec fn numbered(names: Seq<Seq<char>>) -> Seq<(nat, Seq<char>)> {
    Seq::new(names.len(), |i: int| ((i + 1) as nat, names[i]))
}

/// A file keeps its number and its line when another one is added behind it.
pub proof fn lemma_dot_text_grows(names: Seq<Seq<char>>, name: Seq<char>)
    ensures
        dot_text(numbered(names.push(name))) == "digraph StackGraph {\n"@ + dot_lines(
            numbered(names),
        ) + dot_line(names.len() + 1, name) + "}\n"@,
{
    let all = numbered(names.push(name));
    assert(all.drop_last() == numbered(names));
    assert(all.last() == (names.len() + 1, name));
    assert("digraph StackGraph {\n"@ + (dot_lines(numbered(names)) + dot_line(
        names.len() + 1,
        name,
    )) == "digraph StackGraph {\n"@ + dot_lines(numbered(names)) + dot_line(
        names.len() + 1,
        name,
    ));
}

/// Writes numbered files as a DOT graph.
pub fn render_dot(files: &Vec<(u32, String)>) -> (text: String)
    ensures
        text@ == dot_text(numbered_view(files@)),
{
    let ghost all = numbered_view(files@);
    let mut text = "digraph StackGraph {\n".to_string();
    for i in 0..files.len()
        invariant
            all == numbered_view(files@),
            text@ == "digraph StackGraph {\n"@ + dot_lines(all.take(i as int)),
    {
        let ghost before = text@;
        let number = decimal_text(files[i].0);
        text = text.concat("  file_").concat(number.as_str()).concat(" [label=\"");
        text = text.concat(files[i].1.as_str()).concat("\"];\n");
        proof {
            let next = all.take(i + 1);
            assert(next.drop_last() == all.take(i as int));
            assert(text@ == before + dot_line(all[i as int].0, all[i as int].1));
            assert(text@ == "digraph StackGraph {\n"@ + dot_lines(next));
        }
    }
    assert(all.take(all.len() as int) == all);
    text.concat("}\n")
}

/// Writes the files of a graph as a DOT graph, numbered in the order in which they were added.
pub fn output_dot(graph: &StackGraph) -> (text: String)
    ensures
        text@ == dot_text(numbered(graph_files(*graph))),
{
    let files = numbered_files(graph);
    assert(numbered_view(files@) == numbered(graph_files(*graph)));
    render_dot(&files)
}

} // verus!
