//! Laws on what the values of the library stand for.

use crate::errors::{IndexError, IndexErrorView};
use crate::graph::{
    graph_edges, graph_files, graph_model, graph_node_count, graph_slots, graph_symbols,
    texts_view,
};
use crate::indexer::{answer_view, state_of};
use crate::languages::optional_name;
use crate::output::{
    file_names, json_contents, list_contents, numbered_view, object_contents, Json,
};
use crate::parsing::{captures_view, matched_node, node_ancestors, node_view, Capture};
use crate::symbols::{entries_view, optional_text, SymbolEntry, SymbolIndex};
use crate::syntax::{nodes_view, SyntaxChild, SyntaxNode};
use crate::text::{rows, strings_view};
use stack_graphs::graph::StackGraph;
use tree_sitter as ts;
use vstd::prelude::*;

verus! {

/// An entry says all that its fields hold.
pub proof fn law_entry(entry: SymbolEntry, entries: Seq<SymbolEntry>)
    ensures
        entry@.name == entry.name@,
        entry@.kind == entry.kind@,
        entry.signature matches Some(text) ==> entry@.signature == Some(text@),
        entry.signature is None ==> entry@.signature is None,
        entry.doc matches Some(text) ==> entry@.doc == Some(text@),
        entry.doc is None ==> entry@.doc is None,
        entries_view(entries).len() == entries.len(),
        forall|i: int|
            0 <= i < entries.len() ==> #[trigger] entries_view(entries)[i] == entries[i]@,
{
}

/// A node says all that its fields hold, and so does each of its children.
pub proof fn law_node(node: SyntaxNode, child: SyntaxChild, nodes: Seq<SyntaxNode>)
    ensures
        child@.kind == child.kind@,
        child@.start_byte == child.start_byte,
        child@.end_byte == child.end_byte,
        node@.kind == node.kind@,
        node@.start_byte == node.start_byte,
        node@.end_byte == node.end_byte,
        node@.start_row == node.start_row,
        node@.children.len() == node.children@.len(),
        forall|i: int|
            0 <= i < node.children@.len() ==> #[trigger] node@.children[i] == node.children@[i]@,
        nodes_view(nodes).len() == nodes.len(),
        forall|i: int| 0 <= i < nodes.len() ==> #[trigger] nodes_view(nodes)[i] == nodes[i]@,
{
}

/// A capture says all that its fields hold.
pub proof fn law_capture(capture: Capture, captures: Seq<Capture>, found: (u32, ts::Node))
    ensures
        capture@.name == capture.name@,
        capture@.node == capture.node@,
        capture@.ancestors.len() == capture.ancestors@.len(),
        forall|i: int|
            0 <= i < capture.ancestors@.len() ==> #[trigger] capture@.ancestors[i]
                == capture.ancestors@[i]@,
        captures_view(captures).len() == captures.len(),
        forall|i: int|
            0 <= i < captures.len() ==> #[trigger] captures_view(captures)[i] == captures[i]@,
        matched_node(found).index == found.0,
        matched_node(found).node == node_view(found.1),
        matched_node(found).ancestors == node_ancestors(found.1),
{
}

/// What is indexed is what the index and the graph hold.
pub proof fn law_state(symbols: SymbolIndex, graph: StackGraph)
    ensures
        state_of(symbols, graph).symbols == symbols@,
        state_of(symbols, graph).graph == graph_model(graph),
        graph_model(graph).files == graph_files(graph),
        graph_model(graph).symbols == graph_symbols(graph),
        graph_model(graph).slots == graph_slots(graph),
        graph_model(graph).edges == graph_edges(graph),
        graph_model(graph).node_count == graph_node_count(graph),
{
}

/// An answer says whether it is one, and its error what it holds.
pub proof fn law_answer(answer: Result<(), IndexError>, messages: Vec<String>)
    ensures
        answer is Ok <==> answer_view(answer) is Ok,
        answer matches Err(error) ==> answer_view(answer) == Err::<(), IndexErrorView>(error@),
        IndexError::InvalidQuery(messages)@ == IndexErrorView::InvalidQuery(
            strings_view(messages@),
        ),
        IndexError::ParseFailed@ == IndexErrorView::ParseFailed,
        IndexError::CaptureOutOfRange@ == IndexErrorView::CaptureOutOfRange,
        IndexError::GraphFull@ == IndexErrorView::GraphFull,
{
}

/// Lists of texts say what each text says, in order.
pub proof fn law_texts(strings: Seq<String>, texts: Seq<&str>, lists: Seq<Vec<char>>)
    ensures
        strings_view(strings).len() == strings.len(),
        forall|i: int|
            0 <= i < strings.len() ==> #[trigger] strings_view(strings)[i] == strings[i]@,
        texts_view(texts).len() == texts.len(),
        forall|i: int| 0 <= i < texts.len() ==> #[trigger] texts_view(texts)[i] == texts[i]@,
        rows(lists).len() == lists.len(),
        forall|i: int| 0 <= i < lists.len() ==> #[trigger] rows(lists)[i] == lists[i]@,
{
}

/// An optional text is there where the value is, and says the same.
pub proof fn law_optional(text: Option<String>, name: Option<&str>)
    ensures
        text matches Some(value) ==> optional_text(text) == Some(value@),
        text is None ==> optional_text(text) is None,
        name matches Some(value) ==> optional_name(name) == Some(value@),
        name is None ==> optional_name(name) is None,
{
}

/// Numbered files say their numbers and their names, in order.
pub proof fn law_numbered_files(files: Seq<(u32, String)>)
    ensures
        file_names(files).len() == files.len(),
        forall|i: int| 0 <= i < files.len() ==> #[trigger] file_names(files)[i] == files[i].1@,
        numbered_view(files).len() == files.len(),
        forall|i: int|
            0 <= i < files.len() ==> #[trigger] numbered_view(files)[i] == (
                files[i].0 as nat,
                files[i].1@,
            ),
{
}

/// A list holds what each of its values holds, in order, and an object what each of its fields
/// holds, under the name of the field.
pub proof fn law_json(
    values: Seq<serde_json::Value>,
    fields: Seq<(String, serde_json::Value)>,
    field: (String, serde_json::Value),
)
    ensures
        list_contents(values).len() == values.len(),
        forall|i: int|
            0 <= i < values.len() ==> #[trigger] list_contents(values)[i] == json_contents(
                values[i],
            ),
        object_contents(fields.push(field)) == object_contents(fields).insert(
            field.0@,
            json_contents(field.1),
        ),
        fields.len() == 0 ==> object_contents(fields) == Map::<
            Seq<char>,
            Json,
        >::empty(),
{
    assert(fields.push(field).drop_last() == fields);
}

} // verus!
