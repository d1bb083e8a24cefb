//! Indexing: from the text of a file to its symbols and its part of the stack graph.

use crate::comments::{extract_leading_comment, leading_comment};
use crate::errors::{error_in_context, in_context, IndexError, IndexErrorView};
use crate::graph::{
    define_symbol, definition_count, definition_nodes, definitions_fit, empty_graph, enter_file,
    graph_files, graph_model, lemma_definition_counts_once, lemma_definition_uses_free_ids,
    lemma_with_definition, lemma_with_file, lemma_with_one_symbol, new_graph, texts_view, EdgeKey,
    GraphModel, GraphNode,
};
use crate::languages::{
    choose_treatment, is_import, is_recorded, language_of, optional_name, treatment_of, Grammar,
    Language, Treatment,
};
use crate::parsing::{
    captures_view, find_captures, found_captures, grammar_language, parse_source, parsed_tree,
    Capture, CaptureView,
};
use crate::symbols::{
    entries_of, lemma_with_entry, record_symbol, record_symbol_with_details, total_entries,
    with_entry, SymbolEntryView, SymbolIndex,
};
use crate::syntax::{
    enclosing_type_name, find_enclosing_type_name, find_signature_node,
    lemma_qualified_signature_twice, qualified_signature, qualify_signature, signature_node,
    signature_text, signature_text_from_node, SyntaxNodeView,
};
use crate::text::{
    byte_slice, chars_of, find, has_text, lines, occurs_at, slice_bytes, split_lines,
};
use stack_graphs::graph::StackGraph;
use tree_sitter as ts;
use vstd::prelude::*;
use vstd::string::*;
use vstd::utf8::*;

verus! {

/// What has been indexed: the symbols of each file, and the stack graph.
#[verifier::ext_equal]
pub struct IndexState {
    pub symbols: Map<Seq<char>, Seq<SymbolEntryView>>,
    pub graph: GraphModel,
}

/// What a symbol index and a stack graph hold together.
pub open spec fn state_of(symbols: SymbolIndex, graph: StackGraph) -> IndexState {
    IndexState { symbols: symbols@, graph: graph_model(graph) }
}

/// The text of a captured node.
pub open spec fn captured_text(source: Seq<char>, capture: CaptureView) -> Seq<char> {
    byte_slice(source, capture.node.start_byte as int, capture.node.end_byte as int)->0
}

/// The node whose text is the signature of what was captured.
pub open spec fn captured_signature_node(capture: CaptureView) -> SyntaxNodeView {
    signature_node(capture.node, capture.ancestors)
}

/// The entry for something captured in a C++ source. Where it stands in a class or a struct, its
/// name and its signature are qualified by the name of that.
pub open spec fn cpp_entry(source: Seq<char>, capture: CaptureView) -> SymbolEntryView {
    let text = captured_text(source, capture);
    let node = captured_signature_node(capture);
    let signature = signature_text(source, node.start_byte as int, node.end_byte as int);
    let doc = leading_comment(source, node.start_row as int);
    match enclosing_type_name(source, capture.ancestors) {
        None => SymbolEntryView { name: text, kind: capture.name, signature, doc },
        Some(enclosing) => {
            let name = if has_text(text, "::"@) {
                text
            } else {
                enclosing + "::"@ + text
            };
            SymbolEntryView {
                name,
                kind: capture.name,
                signature: qualified_signature(signature, text, name),
                doc,
            }
        },
    }
}

/// What stands in a class or a struct is recorded under a qualified name, and with a signature that
/// is left as it is when it is qualified again. What stands in none is recorded as it is named.
pub proof fn lemma_cpp_entry(source: Seq<char>, capture: CaptureView)
    ensures
        match enclosing_type_name(source, capture.ancestors) {
            Some(_) => {
                let entry = cpp_entry(source, capture);
                &&& has_text(entry.name, "::"@)
                &&& qualified_signature(
                    entry.signature,
                    captured_text(source, capture),
                    entry.name,
                ) == entry.signature
            },
            None => cpp_entry(source, capture).name == captured_text(source, capture),
        },
{
    if let Some(enclosing) = enclosing_type_name(source, capture.ancestors) {
        let text = captured_text(source, capture);
        let entry = cpp_entry(source, capture);
        let node = captured_signature_node(capture);
        if !has_text(text, "::"@) {
            let at = enclosing.len() as int;
            assert(entry.name.subrange(at, at + "::"@.len()) == "::"@);
            assert(occurs_at(entry.name, "::"@, at));
        }
        lemma_qualified_signature_twice(
            signature_text(source, node.start_byte as int, node.end_byte as int),
            text,
            entry.name,
        );
    }
}

/// The entry for something captured in a source.
pub open spec fn captured_entry(
    grammar: Grammar,
    source: Seq<char>,
    capture: CaptureView,
) -> SymbolEntryView {
    if grammar == Grammar::Cpp {
        cpp_entry(source, capture)
    } else {
        SymbolEntryView {
            name: captured_text(source, capture),
            kind: capture.name,
            signature: None,
            doc: None,
        }
    }
}

/// Whether what was captured lies within the source.
pub open spec fn capture_fits(grammar: Grammar, source: Seq<char>, capture: CaptureView) -> bool {
    &&& byte_slice(source, capture.node.start_byte as int, capture.node.end_byte as int) is Some
    &&& grammar == Grammar::Cpp && is_recorded(grammar, capture.name) ==> {
        ||| lines(source).len() == 0
        ||| captured_signature_node(capture).start_row <= lines(source).len()
    }
}

/// Whether everything that was captured lies within the source.
pub open spec fn captures_fit(
    grammar: Grammar,
    source: Seq<char>,
    captures: Seq<CaptureView>,
) -> bool {
    forall|i: int|
        0 <= i < captures.len() ==> capture_fits(grammar, source, #[trigger] captures[i])
}

/// How many of the captures are recorded as symbols.
pub open spec fn recorded_count(grammar: Grammar, captures: Seq<CaptureView>) -> nat
    decreases captures.len(),
{
    if captures.len() == 0 {
        0
    } else {
        recorded_count(grammar, captures.drop_last()) + if is_recorded(
            grammar,
            captures.last().name,
        ) {
            1nat
        } else {
            0
        }
    }
}

/// How many nodes the captures add to the graph: two for each that is recorded, and one more for
/// each of these that is imported.
pub open spec fn node_need(grammar: Grammar, captures: Seq<CaptureView>) -> nat
    decreases captures.len(),
{
    if captures.len() == 0 {
        0
    } else {
        node_need(grammar, captures.drop_last()) + if !is_recorded(grammar, captures.last().name) {
            0nat
        } else if is_import(grammar, captures.last().name) {
            3
        } else {
            2
        }
    }
}

/// What is indexed once a capture has been dealt with.
pub open spec fn with_capture(
    state: IndexState,
    grammar: Grammar,
    file: Seq<char>,
    source: Seq<char>,
    capture: CaptureView,
) -> IndexState {
    if is_recorded(grammar, capture.name) {
        IndexState {
            symbols: with_entry(
                state.symbols,
                file,
                captured_entry(grammar, source, capture),
            ),
            graph: state.graph.with_definition(
                file,
                captured_text(source, capture),
                is_import(grammar, capture.name),
            ),
        }
    } else {
        state
    }
}

/// What is indexed once all captures have been dealt with, one after the other.
pub open spec fn with_captures(
    state: IndexState,
    grammar: Grammar,
    file: Seq<char>,
    source: Seq<char>,
    captures: Seq<CaptureView>,
) -> IndexState
    decreases captures.len(),
{
    if captures.len() == 0 {
        state
    } else {
        with_capture(
            with_captures(state, grammar, file, source, captures.drop_last()),
            grammar,
            file,
            source,
            captures.last(),
        )
    }
}

/// What is indexed once a file has been recorded as a module of that name.
pub open spec fn with_module(state: IndexState, file: Seq<char>, name: Seq<char>) -> IndexState {
    IndexState {
        symbols: with_entry(
            state.symbols,
            file,
            SymbolEntryView { name, kind: "module"@, signature: None, doc: None },
        ),
        graph: state.graph.with_definition(file, name, false),
    }
}

/// The texts of the captures that are recorded, in order.
pub open spec fn recorded_texts(
    grammar: Grammar,
    source: Seq<char>,
    captures: Seq<CaptureView>,
) -> Seq<Seq<char>>
    decreases captures.len(),
{
    if captures.len() == 0 {
        seq![]
    } else {
        let before = recorded_texts(grammar, source, captures.drop_last());
        if is_recorded(grammar, captures.last().name) {
            before.push(captured_text(source, captures.last()))
        } else {
            before
        }
    }
}

/// Whether the graph has room for the captures that are recorded.
pub open spec fn captures_have_room(
    graph: GraphModel,
    grammar: Grammar,
    file: Seq<char>,
    source: Seq<char>,
    captures: Seq<CaptureView>,
) -> bool {
    graph.has_room(
        file,
        recorded_texts(grammar, source, captures),
        node_need(grammar, captures),
    )
}

/// What the graph grows by while captures are dealt with: each symbol is interned once, every node
/// gets a local id that is free, and the nodes that are there stay.
pub proof fn lemma_with_captures_growth(
    state: IndexState,
    grammar: Grammar,
    file: Seq<char>,
    source: Seq<char>,
    captures: Seq<CaptureView>,
)
    requires
        node_need(grammar, captures) <= state.graph.id_room(file),
    ensures
        ({
            let before = state.graph;
            let after = with_captures(state, grammar, file, source, captures).graph;
            &&& after.files == before.files
            &&& after.symbols == before.with_symbols(
                recorded_texts(grammar, source, captures),
            ).symbols
            &&& after.node_count == before.node_count + node_need(grammar, captures)
            &&& after.id_room(file) == before.id_room(file) - node_need(grammar, captures)
            &&& before.nodes_kept(after, file)
            &&& definition_count(after.slots[file]) == definition_count(before.slots[file])
                + recorded_count(grammar, captures)
        }),
    decreases captures.len(),
{
    if captures.len() > 0 {
        lemma_with_captures_growth(state, grammar, file, source, captures.drop_last());
        let before = with_captures(state, grammar, file, source, captures.drop_last()).graph;
        if is_recorded(grammar, captures.last().name) {
            let text = captured_text(source, captures.last());
            let imported = is_import(grammar, captures.last().name);
            let texts = recorded_texts(grammar, source, captures);
            lemma_definition_uses_free_ids(before, file, text, imported);
            lemma_definition_counts_once(before, file, text, imported);
            assert(texts.drop_last() == recorded_texts(grammar, source, captures.drop_last()));
        }
    }
}

/// The entries of the captures that are recorded, in order.
pub open spec fn recorded_entries(
    grammar: Grammar,
    source: Seq<char>,
    captures: Seq<CaptureView>,
) -> Seq<SymbolEntryView>
    decreases captures.len(),
{
    if captures.len() == 0 {
        seq![]
    } else {
        let before = recorded_entries(grammar, source, captures.drop_last());
        if is_recorded(grammar, captures.last().name) {
            before.push(captured_entry(grammar, source, captures.last()))
        } else {
            before
        }
    }
}

/// The nodes of the captures that are recorded, in order.
pub open spec fn recorded_nodes(
    grammar: Grammar,
    source: Seq<char>,
    captures: Seq<CaptureView>,
) -> Seq<Option<GraphNode>>
    decreases captures.len(),
{
    if captures.len() == 0 {
        seq![]
    } else {
        let before = recorded_nodes(grammar, source, captures.drop_last());
        if is_recorded(grammar, captures.last().name) {
            before + definition_nodes(
                captured_text(source, captures.last()),
                is_import(grammar, captures.last().name),
            )
        } else {
            before
        }
    }
}

/// Each capture that is recorded becomes one symbol, with one text and as many nodes as it needs.
pub proof fn lemma_recorded_lengths(
    grammar: Grammar,
    source: Seq<char>,
    captures: Seq<CaptureView>,
)
    ensures
        recorded_entries(grammar, source, captures).len() == recorded_count(grammar, captures),
        recorded_texts(grammar, source, captures).len() == recorded_count(grammar, captures),
        recorded_nodes(grammar, source, captures).len() == node_need(grammar, captures),
    decreases captures.len(),
{
    if captures.len() > 0 {
        lemma_recorded_lengths(grammar, source, captures.drop_last());
    }
}

/// Captures that are dealt with add their entries to the file, behind those that are there and in
/// order, and, while ids above those in use are left, their nodes as well. All other files, and the
/// edges that are there, stay as they are.
pub proof fn lemma_with_captures(
    state: IndexState,
    grammar: Grammar,
    file: Seq<char>,
    source: Seq<char>,
    captures: Seq<CaptureView>,
)
    ensures
        ({
            let after = with_captures(state, grammar, file, source, captures);
            &&& entries_of(after.symbols, file) == entries_of(state.symbols, file)
                + recorded_entries(grammar, source, captures)
            &&& state.graph.slots[file].len() + node_need(grammar, captures) <= u32::MAX + 1
                ==> after.graph.slots[file] == state.graph.slots[file] + recorded_nodes(
                grammar,
                source,
                captures,
            )
            &&& after.graph.files == state.graph.files
            &&& same_elsewhere(state, after, file)
            &&& edges_kept(state, after)
        }),
    decreases captures.len(),
{
    if captures.len() > 0 {
        let before = with_captures(state, grammar, file, source, captures.drop_last());
        let capture = captures.last();
        lemma_with_captures(state, grammar, file, source, captures.drop_last());
        lemma_recorded_lengths(grammar, source, captures.drop_last());
        lemma_with_entry(before.symbols, file, captured_entry(grammar, source, capture));
        lemma_with_definition(
            before.graph,
            file,
            captured_text(source, capture),
            is_import(grammar, capture.name),
        );
    }
}

/// Whether what is indexed of every file but `file` is the same in both.
pub open spec fn same_elsewhere(before: IndexState, after: IndexState, file: Seq<char>) -> bool {
    forall|other: Seq<char>|
        #![trigger after.symbols.contains_key(other)]
        #![trigger entries_of(after.symbols, other)]
        #![trigger after.graph.slots[other]]
        other != file ==> {
            &&& after.symbols.contains_key(other) == before.symbols.contains_key(other)
            &&& entries_of(after.symbols, other) == entries_of(before.symbols, other)
            &&& after.graph.slots[other] == before.graph.slots[other]
        }
}

/// Whether the edges of `before` are all there in `after`.
pub open spec fn edges_kept(before: IndexState, after: IndexState) -> bool {
    forall|key: EdgeKey| #[trigger]
        before.graph.edges.contains_key(key) ==> after.graph.edges.contains_key(key)
            && after.graph.edges[key] == before.graph.edges[key]
}

proof fn lemma_counts_monotonic(grammar: Grammar, captures: Seq<CaptureView>, upto: int)
    requires
        0 <= upto <= captures.len(),
    ensures
        recorded_count(grammar, captures.take(upto)) <= recorded_count(grammar, captures),
        node_need(grammar, captures.take(upto)) <= node_need(grammar, captures),
    decreases captures.len(),
{
    if upto == captures.len() {
        assert(captures.take(upto) == captures);
    } else {
        lemma_counts_monotonic(grammar, captures.drop_last(), upto);
        assert(captures.drop_last().take(upto) == captures.take(upto));
    }
}

proof fn lemma_symbols_monotonic(
    graph: GraphModel,
    grammar: Grammar,
    source: Seq<char>,
    captures: Seq<CaptureView>,
    upto: int,
)
    requires
        0 <= upto <= captures.len(),
    ensures
        graph.with_symbols(recorded_texts(grammar, source, captures.take(upto))).symbols.len()
            <= graph.with_symbols(recorded_texts(grammar, source, captures)).symbols.len(),
    decreases captures.len(),
{
    if upto == captures.len() {
        assert(captures.take(upto) == captures);
    } else {
        lemma_symbols_monotonic(graph, grammar, source, captures.drop_last(), upto);
        assert(captures.drop_last().take(upto) == captures.take(upto));
        let texts = recorded_texts(grammar, source, captures);
        if is_recorded(grammar, captures.last().name) {
            assert(texts.drop_last() == recorded_texts(grammar, source, captures.drop_last()));
        }
    }
}

/// Records a symbol captured in a C++ source.
fn record_cpp_capture(
    symbols: &mut SymbolIndex,
    file_name: &str,
    source: &str,
    capture: &Capture,
    text: &str,
)
    requires
        old(symbols).wf(),
        capture_fits(Grammar::Cpp, source@, capture@),
        is_recorded(Grammar::Cpp, capture.name@),
        text@ == captured_text(source@, capture@),
    ensures
        final(symbols).wf(),
        final(symbols)@ == with_entry(old(symbols)@, file_name@, cpp_entry(source@, capture@)),
{
    let node = find_signature_node(&capture.node, &capture.ancestors);
    let signature = signature_text_from_node(source, node);
    let doc = extract_leading_comment(source, node.start_row);
    match find_enclosing_type_name(&capture.ancestors, source) {
        None => {
            record_symbol_with_details(
                symbols,
                file_name,
                capture.name.as_str(),
                text,
                signature,
                doc,
            );
        },
        Some(enclosing) => {
            let name = if find(&chars_of(text), "::").is_some() {
                text.to_string()
            } else {
                enclosing.concat("::").concat(text)
            };
            let signature = qualify_signature(signature, text, name.as_str());
            record_symbol_with_details(
                symbols,
                file_name,
                capture.name.as_str(),
                name.as_str(),
                signature,
                doc,
            );
        },
    }
}

/// Deals with what was captured in a source: each capture whose name the language records becomes
/// a symbol of the file and a definition in its part of the graph.
pub fn record_captures(
    graph: &mut StackGraph,
    symbols: &mut SymbolIndex,
    grammar: Grammar,
    file_name: &str,
    source: &str,
    captures: &Vec<Capture>,
)
    requires
        old(symbols).wf(),
        graph_files(*old(graph)).contains(file_name@),
        captures_fit(grammar, source@, captures_view(captures@)),
        captures_have_room(
            graph_model(*old(graph)),
            grammar,
            file_name@,
            source@,
            captures_view(captures@),
        ),
    ensures
        final(symbols).wf(),
        state_of(*final(symbols), *final(graph)) == with_captures(
            state_of(*old(symbols), *old(graph)),
            grammar,
            file_name@,
            source@,
            captures_view(captures@),
        ),
{
    let ghost before = state_of(*symbols, *graph);
    let ghost all = captures_view(captures@);
    for i in 0..captures.len()
        invariant
            symbols.wf(),
            all == captures_view(captures@),
            before.graph.files.contains(file_name@),
            captures_fit(grammar, source@, all),
            captures_have_room(before.graph, grammar, file_name@, source@, all),
            state_of(*symbols, *graph) == with_captures(
                before,
                grammar,
                file_name@,
                source@,
                all.take(i as int),
            ),
    {
        let capture = &captures[i];
        proof {
            assert(all[i as int] == capture@);
            assert(all.take(i + 1).drop_last() == all.take(i as int));
            assert(all.take(i + 1).last() == capture@);
            lemma_counts_monotonic(grammar, all, i as int);
            lemma_counts_monotonic(grammar, all, i + 1);
            lemma_symbols_monotonic(before.graph, grammar, source@, all, i + 1);
            lemma_with_captures_growth(before, grammar, file_name@, source@, all.take(i as int));
        }
        let name = capture.name.as_str();
        let text = slice_bytes(source, capture.node.start_byte, capture.node.end_byte).unwrap();
        assert(text@ == captured_text(source@, capture@));
        if grammar.records(name) {
            match grammar {
                Grammar::Cpp => {
                    record_cpp_capture(symbols, file_name, source, capture, text);
                },
                _ => {
                    record_symbol(symbols, file_name, name, text);
                },
            }
            proof {
                let done = recorded_texts(grammar, source@, all.take(i as int));
                let next = recorded_texts(grammar, source@, all.take(i + 1));
                assert(next.drop_last() == done);
                lemma_with_one_symbol(graph_model(*graph), text@);
            }
            define_symbol(graph, file_name, text, grammar.imports(name));
        }
    }
    assert(all.take(all.len() as int) == all);
}

/// Tests whether everything that was captured lies within the source.
pub fn captures_are_fit(grammar: Grammar, source: &str, captures: &Vec<Capture>) -> (fit: bool)
    ensures
        fit == captures_fit(grammar, source@, captures_view(captures@)),
{
    let line_count = split_lines(&chars_of(source)).len();
    let ghost all = captures_view(captures@);
    for i in 0..captures.len()
        invariant
            all == captures_view(captures@),
            line_count == lines(source@).len(),
            forall|j: int| 0 <= j < i ==> capture_fits(grammar, source@, #[trigger] all[j]),
    {
        let capture = &captures[i];
        assert(all[i as int] == capture@);
        if slice_bytes(source, capture.node.start_byte, capture.node.end_byte).is_none() {
            return false;
        }
        let looks_above = match grammar {
            Grammar::Cpp => grammar.records(capture.name.as_str()),
            _ => false,
        };
        if looks_above && line_count > 0 {
            let node = find_signature_node(&capture.node, &capture.ancestors);
            if node.start_row > line_count {
                return false;
            }
        }
    }
    true
}

/// Lists the texts of the captures that are recorded and counts the nodes that they add to a graph,
/// or says that the nodes are more than any graph can hold.
pub fn list_needs<'a>(grammar: Grammar, source: &'a str, captures: &Vec<Capture>) -> (needs: Option<
    (Vec<&'a str>, u64),
>)
    requires
        captures_fit(grammar, source@, captures_view(captures@)),
    ensures
        match needs {
            Some((texts, nodes)) => texts_view(texts@) == recorded_texts(
                grammar,
                source@,
                captures_view(captures@),
            ) && nodes == node_need(grammar, captures_view(captures@)),
            None => node_need(grammar, captures_view(captures@)) > u32::MAX,
        },
{
    let ghost all = captures_view(captures@);
    let mut texts: Vec<&'a str> = Vec::new();
    let mut nodes: u64 = 0;
    for i in 0..captures.len()
        invariant
            all == captures_view(captures@),
            captures_fit(grammar, source@, all),
            texts_view(texts@) == recorded_texts(grammar, source@, all.take(i as int)),
            nodes == node_need(grammar, all.take(i as int)),
            nodes <= u32::MAX,
    {
        let capture = &captures[i];
        let name = capture.name.as_str();
        proof {
            assert(all[i as int] == capture@);
            assert(all.take(i + 1).drop_last() == all.take(i as int));
            assert(all.take(i + 1).last() == capture@);
            lemma_counts_monotonic(grammar, all, i + 1);
        }
        if grammar.records(name) {
            let text = slice_bytes(source, capture.node.start_byte, capture.node.end_byte).unwrap();
            let ghost before = texts@;
            texts.push(text);
            assert(texts_view(texts@) == texts_view(before).push(text@));
            nodes = nodes + if grammar.imports(name) {
                3
            } else {
                2
            };
            if nodes > u32::MAX as u64 {
                return None;
            }
        }
    }
    assert(all.take(all.len() as int) == all);
    Some((texts, nodes))
}

/// What is indexed, and what is answered, once the tree of a source has been searched for the
/// definitions of its language. A search that fails, or finds what does not fit the source or the
/// graph, leaves everything as it was.
pub open spec fn definitions_processed(
    state: IndexState,
    grammar: Grammar,
    file: Seq<char>,
    tree: ts::Tree,
    source: Seq<char>,
) -> (IndexState, Result<(), IndexErrorView>) {
    match found_captures(grammar, tree, source) {
        Err(error) => (state, Err(error_in_context(error, grammar, file))),
        Ok(captures) => {
            if !captures_fit(grammar, source, captures) {
                (state, Err(IndexErrorView::CaptureOutOfRange))
            } else if !captures_have_room(state.graph, grammar, file, source, captures) {
                (state, Err(IndexErrorView::GraphFull))
            } else {
                (with_captures(state, grammar, file, source, captures), Ok(()))
            }
        },
    }
}

/// What is indexed, and what is answered, once a file whose language is not searched for
/// definitions has been recorded as a module.
pub open spec fn module_processed(state: IndexState, file: Seq<char>, name: Seq<char>) -> (
    IndexState,
    Result<(), IndexErrorView>,
) {
    if state.graph.has_definition_room(file, name, false) {
        (with_module(state, file, name), Ok(()))
    } else {
        (state, Err(IndexErrorView::GraphFull))
    }
}

/// The name under which a file is recorded that is not searched.
pub open spec fn module_name_of(treatment: Treatment) -> Seq<char> {
    if treatment == Treatment::JavaModule {
        "java_module"@
    } else {
        "module"@
    }
}

/// What is indexed, and what is answered, once a syntax tree has been processed. A built-in name
/// decides before the language what is done with it. The file is in the graph even where the
/// search of its tree fails.
pub open spec fn tree_processed(
    state: IndexState,
    language: Language,
    builtin: Option<Seq<char>>,
    file: Seq<char>,
    tree: ts::Tree,
    source: Seq<char>,
) -> (IndexState, Result<(), IndexErrorView>) {
    if !state.graph.has_file_room(file) {
        (state, Err(IndexErrorView::GraphFull))
    } else {
        let entered = IndexState { graph: state.graph.with_file(file), ..state };
        match treatment_of(language, builtin) {
            Treatment::Search(grammar) => definitions_processed(
                entered,
                grammar,
                file,
                tree,
                source,
            ),
            treatment => module_processed(entered, file, module_name_of(treatment)),
        }
    }
}

/// What always holds of what is indexed: no file stands twice in the graph, edges connect nodes,
/// and every file that has symbols is a file of the graph.
pub open spec fn consistent(state: IndexState) -> bool {
    &&& state.graph.files.no_duplicates()
    &&& state.graph.edges_connect_nodes()
    &&& state.symbols.dom().finite()
    &&& forall|file: Seq<char>| #[trigger]
        state.symbols.contains_key(file) ==> state.graph.files.contains(file)
}

proof fn lemma_with_captures_consistent(
    state: IndexState,
    grammar: Grammar,
    file: Seq<char>,
    source: Seq<char>,
    captures: Seq<CaptureView>,
)
    requires
        consistent(state),
        state.graph.files.contains(file),
    ensures
        consistent(with_captures(state, grammar, file, source, captures)),
        total_entries(with_captures(state, grammar, file, source, captures).symbols)
            == total_entries(state.symbols) + recorded_count(grammar, captures),
    decreases captures.len(),
{
    if captures.len() > 0 {
        let before = with_captures(state, grammar, file, source, captures.drop_last());
        let capture = captures.last();
        lemma_with_captures_consistent(state, grammar, file, source, captures.drop_last());
        lemma_with_captures(state, grammar, file, source, captures.drop_last());
        lemma_with_entry(before.symbols, file, captured_entry(grammar, source, capture));
        lemma_with_definition(
            before.graph,
            file,
            captured_text(source, capture),
            is_import(grammar, capture.name),
        );
    }
}

/// Processing a syntax tree touches no file but the given one: what is indexed of all others stays
/// as it is, as do the edges and the files that are there.
pub proof fn lemma_tree_touches_one_file(
    state: IndexState,
    language: Language,
    builtin: Option<Seq<char>>,
    file: Seq<char>,
    tree: ts::Tree,
    source: Seq<char>,
)
    ensures
        ({
            let (after, _) = tree_processed(state, language, builtin, file, tree, source);
            &&& same_elsewhere(state, after, file)
            &&& edges_kept(state, after)
            &&& state.graph.files.is_prefix_of(after.graph.files)
            &&& entries_of(state.symbols, file).is_prefix_of(entries_of(after.symbols, file))
            &&& state.graph.files.contains(file) ==> state.graph.nodes_kept(after.graph, file)
        }),
{
    lemma_with_file(state.graph, file);
    let entered = IndexState { graph: state.graph.with_file(file), ..state };
    if state.graph.has_file_room(file) {
        match treatment_of(language, builtin) {
            Treatment::Search(grammar) => {
                if let Ok(captures) = found_captures(grammar, tree, source) {
                    lemma_with_captures(entered, grammar, file, source, captures);
                    if captures_have_room(entered.graph, grammar, file, source, captures) {
                        lemma_with_captures_growth(entered, grammar, file, source, captures);
                    }
                }
            },
            treatment => {
                let name = module_name_of(treatment);
                lemma_with_entry(
                    entered.symbols,
                    file,
                    SymbolEntryView { name, kind: "module"@, signature: None, doc: None },
                );
                lemma_with_definition(entered.graph, file, name, false);
                if entered.graph.has_definition_room(file, name, false) {
                    lemma_definition_uses_free_ids(entered.graph, file, name, false);
                }
            },
        }
    }
}

/// Processing a syntax tree puts its file into the graph, once: a second time adds no file. Where
/// it fails, no symbol is recorded and no node is added.
pub proof fn lemma_tree_enters_file_once(
    state: IndexState,
    language: Language,
    builtin: Option<Seq<char>>,
    file: Seq<char>,
    tree: ts::Tree,
    source: Seq<char>,
)
    ensures
        ({
            let (after, answer) = tree_processed(state, language, builtin, file, tree, source);
            &&& answer is Ok ==> after.graph.files.contains(file)
            &&& state.graph.files.contains(file) ==> after.graph.files == state.graph.files
            &&& answer is Err ==> {
                &&& after.symbols == state.symbols
                &&& after.graph == state.graph || after.graph == state.graph.with_file(file)
            }
        }),
{
    lemma_with_file(state.graph, file);
    let entered = IndexState { graph: state.graph.with_file(file), ..state };
    if let Treatment::Search(grammar) = treatment_of(language, builtin) {
        if let Ok(captures) = found_captures(grammar, tree, source) {
            lemma_with_captures(entered, grammar, file, source, captures);
        }
    }
}

/// Any built-in name but those of JavaScript, Python and Java makes a file a plain module, whatever
/// its language: one entry is recorded, if the graph has room.
pub proof fn lemma_other_builtin_name_gives_module(
    state: IndexState,
    language: Language,
    builtin: Seq<char>,
    file: Seq<char>,
    tree: ts::Tree,
    source: Seq<char>,
)
    requires
        builtin != "javascript"@,
        builtin != "python"@,
        builtin != "java"@,
        state.graph.has_file_room(file),
        state.graph.with_file(file).has_definition_room(file, "module"@, false),
    ensures
        ({
            let (after, answer) = tree_processed(
                state,
                language,
                Some(builtin),
                file,
                tree,
                source,
            );
            &&& answer is Ok
            &&& entries_of(after.symbols, file) == entries_of(state.symbols, file).push(
                (SymbolEntryView {
                    name: "module"@,
                    kind: "module"@,
                    signature: None,
                    doc: None,
                }),
            )
            &&& after.graph == state.graph.with_file(file).with_definition(file, "module"@, false)
        }),
{
}

/// Where the search of a C++ tree fails because of its query, the outermost message names the file.
pub proof fn lemma_cpp_failure_names_file(
    state: IndexState,
    file: Seq<char>,
    tree: ts::Tree,
    source: Seq<char>,
)
    ensures
        tree_processed(state, Language::Cpp, None, file, tree, source).1 matches Err(
            IndexErrorView::InvalidQuery(messages),
        ) ==> {
            &&& messages.len() == 3
            &&& messages[0] == "Failed to process C++ syntax for file: "@ + file
            &&& messages[1] == "Failed to build C++ tree-sitter query"@
        },
{
}

/// A file gains as many definitions in the graph as it gains symbols.
pub proof fn lemma_tree_defines_each_symbol(
    state: IndexState,
    language: Language,
    builtin: Option<Seq<char>>,
    file: Seq<char>,
    tree: ts::Tree,
    source: Seq<char>,
)
    requires
        state.graph.has_file_room(file),
    ensures
        ({
            let (after, _) = tree_processed(state, language, builtin, file, tree, source);
            let nodes = state.graph.with_file(file).slots[file];
            definition_count(after.graph.slots[file]) - definition_count(nodes) == entries_of(
                after.symbols,
                file,
            ).len() - entries_of(state.symbols, file).len()
        }),
{
    let entered = IndexState { graph: state.graph.with_file(file), ..state };
    match treatment_of(language, builtin) {
        Treatment::Search(grammar) => {
            if let Ok(captures) = found_captures(grammar, tree, source) {
                lemma_with_captures(entered, grammar, file, source, captures);
                lemma_recorded_lengths(grammar, source, captures);
                if captures_have_room(entered.graph, grammar, file, source, captures) {
                    lemma_with_captures_growth(entered, grammar, file, source, captures);
                }
            }
        },
        treatment => {
            let name = module_name_of(treatment);
            lemma_with_entry(
                entered.symbols,
                file,
                SymbolEntryView { name, kind: "module"@, signature: None, doc: None },
            );
            if entered.graph.has_definition_room(file, name, false) {
                lemma_definition_counts_once(entered.graph, file, name, false);
            }
        },
    }
}

/// A graph and an index in which nothing is indexed yet.
pub fn new_index() -> (index: (StackGraph, SymbolIndex))
    ensures
        index.1.wf(),
        state_of(index.1, index.0) == (IndexState {
            symbols: Map::<Seq<char>, Seq<SymbolEntryView>>::empty(),
            graph: empty_graph(),
        }),
        consistent(state_of(index.1, index.0)),
{
    (new_graph(), SymbolIndex::new())
}

/// Where nothing is indexed, everything holds that always holds.
pub proof fn lemma_nothing_indexed_is_consistent(state: IndexState)
    requires
        state.symbols == Map::<Seq<char>, Seq<SymbolEntryView>>::empty(),
        state.graph.files.len() == 0,
        state.graph.edges == Map::<EdgeKey, i32>::empty(),
    ensures
        consistent(state),
{
}

/// What always holds of what is indexed still holds after a syntax tree has been processed.
pub proof fn lemma_tree_keeps_consistency(
    state: IndexState,
    language: Language,
    builtin: Option<Seq<char>>,
    file: Seq<char>,
    tree: ts::Tree,
    source: Seq<char>,
)
    requires
        consistent(state),
    ensures
        consistent(tree_processed(state, language, builtin, file, tree, source).0),
{
    lemma_with_file(state.graph, file);
    let entered = IndexState { graph: state.graph.with_file(file), ..state };
    assert(consistent(entered));
    if state.graph.has_file_room(file) {
        match treatment_of(language, builtin) {
            Treatment::Search(grammar) => {
                if let Ok(captures) = found_captures(grammar, tree, source) {
                    lemma_with_captures_consistent(entered, grammar, file, source, captures);
                }
            },
            treatment => {
                let name = module_name_of(treatment);
                lemma_with_entry(
                    entered.symbols,
                    file,
                    SymbolEntryView { name, kind: "module"@, signature: None, doc: None },
                );
                lemma_with_definition(entered.graph, file, name, false);
            },
        }
    }
}

/// What an answer says.
pub open spec fn answer_view<T>(answer: Result<T, IndexError>) -> Result<T, IndexErrorView> {
    match answer {
        Ok(value) => Ok(value),
        Err(error) => Err(error@),
    }
}

/// Searches the tree of a source for the definitions of its language and records them.
fn process_definitions(
    graph: &mut StackGraph,
    symbols: &mut SymbolIndex,
    grammar: Grammar,
    file_name: &str,
    tree: &ts::Tree,
    source: &str,
) -> (answer: Result<(), IndexError>)
    requires
        old(symbols).wf(),
        graph_files(*old(graph)).contains(file_name@),
    ensures
        final(symbols).wf(),
        (state_of(*final(symbols), *final(graph)), answer_view(answer)) == definitions_processed(
            state_of(*old(symbols), *old(graph)),
            grammar,
            file_name@,
            *tree,
            source@,
        ),
{
    match find_captures(grammar, tree, source) {
        Err(error) => Err(in_context(error, grammar, file_name)),
        Ok(captures) => {
            if !captures_are_fit(grammar, source, &captures) {
                return Err(IndexError::CaptureOutOfRange);
            }
            let fits = match list_needs(grammar, source, &captures) {
                None => false,
                Some((texts, nodes)) => definitions_fit(graph, file_name, &texts, nodes),
            };
            if !fits {
                return Err(IndexError::GraphFull);
            }
            record_captures(graph, symbols, grammar, file_name, source, &captures);
            Ok(())
        },
    }
}

/// Records a file as a module.
fn process_module(
    graph: &mut StackGraph,
    symbols: &mut SymbolIndex,
    file_name: &str,
    name: &str,
) -> (answer: Result<(), IndexError>)
    requires
        old(symbols).wf(),
        graph_files(*old(graph)).contains(file_name@),
    ensures
        final(symbols).wf(),
        (state_of(*final(symbols), *final(graph)), answer_view(answer)) == module_processed(
            state_of(*old(symbols), *old(graph)),
            file_name@,
            name@,
        ),
{
    let mut names: Vec<&str> = Vec::new();
    names.push(name);
    assert(texts_view(names@) == seq![name@]);
    if !definitions_fit(graph, file_name, &names, 2) {
        return Err(IndexError::GraphFull);
    }
    record_symbol(symbols, file_name, "module", name);
    define_symbol(graph, file_name, name, false);
    Ok(())
}

/// Processes a syntax tree: adds the file to the graph, and its symbols to the graph and to the
/// index. Where stack graphs support the language, `builtin` is the name under which they do.
pub fn process_syntax_tree(
    graph: &mut StackGraph,
    symbols: &mut SymbolIndex,
    language: Language,
    builtin: Option<&str>,
    file_name: &str,
    tree: &ts::Tree,
    source: &str,
) -> (answer: Result<(), IndexError>)
    requires
        old(symbols).wf(),
    ensures
        final(symbols).wf(),
        (state_of(*final(symbols), *final(graph)), answer_view(answer)) == tree_processed(
            state_of(*old(symbols), *old(graph)),
            language,
            optional_name(builtin),
            file_name@,
            *tree,
            source@,
        ),
{
    if !enter_file(graph, file_name) {
        return Err(IndexError::GraphFull);
    }
    match choose_treatment(language, builtin) {
        Treatment::Search(grammar) => process_definitions(
            graph,
            symbols,
            grammar,
            file_name,
            tree,
            source,
        ),
        Treatment::Module => process_module(graph, symbols, file_name, "module"),
        Treatment::JavaModule => process_module(graph, symbols, file_name, "java_module"),
    }
}

/// The text that bytes are read as, whatever is not UTF-8 in them replaced.
pub uninterp spec fn lossy_text(bytes: Seq<u8>) -> Seq<char>;

/// `String::from_utf8_lossy`: bytes that are UTF-8 are read as what they encode, and so is the text
/// that came out once it is encoded.
#[verifier::external_body]
fn decode_lossy(bytes: &[u8]) -> (text: String)
    ensures
        text@ == lossy_text(bytes@),
        valid_utf8(bytes@) ==> text@ == decode_utf8(bytes@),
        lossy_text(encode_utf8(text@)) == text@,
{
    String::from_utf8_lossy(bytes).to_string()
}

/// What became of a file that is no failure.
#[derive(Clone, Copy, Debug, PartialEq, Eq, Structural)]
pub enum FileOutcome {
    /// The file was indexed.
    Indexed,
    /// The file was passed over: its language is not known.
    UnknownLanguage,
    /// The file was passed over: this library has no parser for its language.
    NoParser,
}

/// What is indexed, and what is answered, once the text of a file has been dealt with.
pub open spec fn text_indexed(
    state: IndexState,
    language: Language,
    file: Seq<char>,
    source: Seq<char>,
) -> (IndexState, Result<FileOutcome, IndexErrorView>) {
    if language == Language::Unknown {
        (state, Ok(FileOutcome::UnknownLanguage))
    } else {
        match language.spec_grammar() {
            None => (state, Ok(FileOutcome::NoParser)),
            Some(grammar) => match parsed_tree(grammar_language(grammar), source) {
                None => (state, Err(IndexErrorView::ParseFailed)),
                Some(tree) => {
                    let (after, answer) = tree_processed(
                        state,
                        language,
                        language.spec_builtin_name(),
                        file,
                        tree,
                        source,
                    );
                    (
                        after,
                        match answer {
                            Ok(_) => Ok(FileOutcome::Indexed),
                            Err(error) => Err(error),
                        },
                    )
                },
            },
        }
    }
}

/// Indexing a file leaves what is indexed of all others as it is and keeps what always holds. A
/// file that is indexed is a file of the graph; one that is passed over changes nothing; one that
/// fails leaves the symbols as they are.
pub proof fn lemma_text_indexed(
    state: IndexState,
    language: Language,
    file: Seq<char>,
    source: Seq<char>,
)
    ensures
        ({
            let (after, answer) = text_indexed(state, language, file, source);
            &&& same_elsewhere(state, after, file)
            &&& edges_kept(state, after)
            &&& state.graph.files.is_prefix_of(after.graph.files)
            &&& state.graph.files.contains(file) ==> after.graph.files == state.graph.files
            &&& consistent(state) ==> consistent(after)
            &&& match answer {
                Ok(FileOutcome::Indexed) => after.graph.files.contains(file),
                Ok(_) => after == state,
                Err(_) => after.symbols == state.symbols,
            }
        }),
{
    if let Some(grammar) = language.spec_grammar() {
        if let Some(tree) = parsed_tree(grammar_language(grammar), source) {
            let builtin = language.spec_builtin_name();
            lemma_tree_touches_one_file(state, language, builtin, file, tree, source);
            lemma_tree_enters_file_once(state, language, builtin, file, tree, source);
            if consistent(state) {
                lemma_tree_keeps_consistency(state, language, builtin, file, tree, source);
            }
        }
    }
}

/// Indexes a single file, given the extension of its name, its name and the bytes that it holds.
/// Which extensions, parsers and built-in names there are is this library's choice; a tree that was
/// parsed otherwise is processed by `process_syntax_tree`.
pub fn index_file(
    graph: &mut StackGraph,
    symbols: &mut SymbolIndex,
    extension: &str,
    file_name: &str,
    bytes: &[u8],
) -> (answer: Result<FileOutcome, IndexError>)
    requires
        old(symbols).wf(),
    ensures
        final(symbols).wf(),
        (state_of(*final(symbols), *final(graph)), answer_view(answer)) == text_indexed(
            state_of(*old(symbols), *old(graph)),
            language_of(extension@),
            file_name@,
            lossy_text(bytes@),
        ),
        // Bytes that are UTF-8 are read as what they encode.
        valid_utf8(bytes@) && language_of(extension@) != Language::Unknown ==> lossy_text(bytes@)
            == decode_utf8(bytes@),
        // Bytes that are not are indexed like the text that they are replaced by.
        (state_of(*final(symbols), *final(graph)), answer_view(answer)) == text_indexed(
            state_of(*old(symbols), *old(graph)),
            language_of(extension@),
            file_name@,
            lossy_text(encode_utf8(lossy_text(bytes@))),
        ),
{
    let language = Language::from_extension(extension);
    match language {
        Language::Unknown => {
            return Ok(FileOutcome::UnknownLanguage);
        },
        _ => {},
    }
    let source = decode_lossy(bytes);
    let grammar = match language.grammar() {
        None => {
            return Ok(FileOutcome::NoParser);
        },
        Some(grammar) => grammar,
    };
    match parse_source(grammar, source.as_str()) {
        None => Err(IndexError::ParseFailed),
        Some(tree) => {
            match process_syntax_tree(
                graph,
                symbols,
                language,
                language.builtin_name(),
                file_name,
                &tree,
                source.as_str(),
            ) {
                Ok(_) => Ok(FileOutcome::Indexed),
                Err(error) => Err(error),
            }
        },
    }
}

} // verus!
