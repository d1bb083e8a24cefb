//! Laws on indexing a file.

use crate::comments::leading_comment;
use crate::errors::IndexErrorView;
use crate::indexer::{
    capture_fits, captures_fit, cpp_entry, node_need, recorded_texts, text_indexed, tree_processed,
    with_capture, with_captures, FileOutcome, IndexState,
};
use crate::languages::{treatment_of, Grammar, Language, Treatment};
use crate::laws::holds;
use crate::laws::on_graph::law_room;
use crate::laws::on_languages::{imported_kinds, law_recorded_kinds, recorded_kinds};
use crate::laws::on_parsing::{
    law_kept_node, lemma_kept_nameless, lemma_kept_type_name, names_no_type,
};
use crate::laws::on_symbols::law_recorded_entry;
use crate::laws::on_syntax::{is_nameless, is_type_node, law_enclosing_type};
use crate::laws::on_text::law_parts;
use crate::parsing::{
    found_captures, grammar_language, node_children, node_facts, node_view, parsed_tree,
    present_children, CaptureView,
};
use crate::symbols::SymbolEntryView;
use crate::syntax::{
    enclosing_type_name, qualified_signature, signature_node, signature_text, SyntaxChildView,
};
use crate::text::{byte_slice, lines};
use tree_sitter as ts;
use vstd::prelude::*;

verus! {

/// Captures are dealt with one after the other, and none of them gets lost.
pub proof fn law_captures_in_turn(
    state: IndexState,
    grammar: Grammar,
    file: Seq<char>,
    source: Seq<char>,
    first: Seq<CaptureView>,
    second: Seq<CaptureView>,
)
    ensures
        with_captures(state, grammar, file, source, seq![]) == state,
        with_captures(state, grammar, file, source, first + second) == with_captures(
            with_captures(state, grammar, file, source, first),
            grammar,
            file,
            source,
            second,
        ),
    decreases second.len(),
{
    if second.len() == 0 {
        assert(first + second == first);
    } else {
        assert((first + second).drop_last() == first + second.drop_last());
        assert((first + second).last() == second.last());
        law_captures_in_turn(state, grammar, file, source, first, second.drop_last());
    }
}

/// Whether `after` holds one entry more than `before`: the entry, behind the others of the file.
pub open spec fn one_entry_more(
    before: Map<Seq<char>, Seq<SymbolEntryView>>,
    after: Map<Seq<char>, Seq<SymbolEntryView>>,
    file: Seq<char>,
    entry: SymbolEntryView,
) -> bool {
    let count: int = if before.contains_key(file) {
        before[file].len() as int
    } else {
        0
    };
    &&& after.contains_key(file)
    &&& after[file].len() == count + 1
    &&& after[file][count] == entry
    &&& forall|i: int| 0 <= i < count ==> #[trigger] after[file][i] == before[file][i]
    &&& forall|other: Seq<char>|
        #![trigger after.contains_key(other)]
        other != file ==> after.contains_key(other) == before.contains_key(other)
    &&& forall|other: Seq<char>|
        #![trigger after[other]]
        other != file && before.contains_key(other) ==> after[other] == before[other]
}

proof fn lemma_one_capture(
    state: IndexState,
    grammar: Grammar,
    file: Seq<char>,
    source: Seq<char>,
    capture: CaptureView,
)
    ensures
        with_captures(state, grammar, file, source, seq![capture])
            == with_capture(state, grammar, file, source, capture),
{
    let one = seq![capture];
    assert(one.drop_last() == Seq::<CaptureView>::empty());
    assert(with_captures(state, grammar, file, source, one.drop_last()) == state);
}

/// What is captured under any other name than the kinds of its language changes nothing.
pub proof fn law_other_capture(
    state: IndexState,
    grammar: Grammar,
    file: Seq<char>,
    source: Seq<char>,
    capture: CaptureView,
)
    requires
        !recorded_kinds(grammar).contains(capture.name),
    ensures
        with_captures(state, grammar, file, source, seq![capture]) == state,
{
    lemma_one_capture(state, grammar, file, source, capture);
    law_recorded_kinds(grammar, capture.name);
}

/// What is captured under one of the kinds of its language adds one definition of its text to the
/// graph, an import where the kind imports.
pub proof fn law_captured_definition(
    state: IndexState,
    grammar: Grammar,
    file: Seq<char>,
    source: Seq<char>,
    capture: CaptureView,
    text: Seq<char>,
)
    requires
        recorded_kinds(grammar).contains(capture.name),
        byte_slice(source, capture.node.start_byte as int, capture.node.end_byte as int) == Some(
            text,
        ),
    ensures
        with_captures(state, grammar, file, source, seq![capture]).graph
            == state.graph.with_definition(
            file,
            text,
            imported_kinds(grammar).contains(capture.name),
        ),
{
    lemma_one_capture(state, grammar, file, source, capture);
    law_recorded_kinds(grammar, capture.name);
}

/// What is captured under one of the kinds of a language other than C++ adds one symbol of that
/// kind, named by its text.
pub proof fn law_captured_symbol(
    state: IndexState,
    grammar: Grammar,
    file: Seq<char>,
    source: Seq<char>,
    capture: CaptureView,
    text: Seq<char>,
)
    requires
        grammar != Grammar::Cpp,
        recorded_kinds(grammar).contains(capture.name),
        byte_slice(source, capture.node.start_byte as int, capture.node.end_byte as int) == Some(
            text,
        ),
    ensures
        one_entry_more(
            state.symbols,
            with_captures(state, grammar, file, source, seq![capture]).symbols,
            file,
            (SymbolEntryView { name: text, kind: capture.name, signature: None, doc: None }),
        ),
{
    lemma_one_capture(state, grammar, file, source, capture);
    law_recorded_kinds(grammar, capture.name);
    law_recorded_entry(
        state.symbols,
        file,
        SymbolEntryView { name: text, kind: capture.name, signature: None, doc: None },
    );
}

/// What is captured in C++ as a function, a method, a class, a struct or an enum adds one symbol of
/// that kind. Its comment is the one above the node that its signature stands on. Where a class or
/// a struct encloses it, its name is qualified unless it is already, and its signature with it.
pub proof fn law_captured_cpp_symbol(
    state: IndexState,
    file: Seq<char>,
    source: Seq<char>,
    capture: CaptureView,
    text: Seq<char>,
)
    requires
        ({
            ||| capture.name == "function_name"@
            ||| capture.name == "method_name"@
            ||| capture.name == "class_name"@
            ||| capture.name == "struct_name"@
            ||| capture.name == "enum_name"@
        }),
        byte_slice(source, capture.node.start_byte as int, capture.node.end_byte as int) == Some(
            text,
        ),
    ensures
        ({
            let node = signature_node(capture.node, capture.ancestors);
            let signature = signature_text(source, node.start_byte as int, node.end_byte as int);
            let doc = leading_comment(source, node.start_row as int);
            let name = match enclosing_type_name(source, capture.ancestors) {
                Some(enclosing) if !holds(text, "::"@) => enclosing + "::"@ + text,
                _ => text,
            };
            let qualified = if enclosing_type_name(source, capture.ancestors) is Some {
                qualified_signature(signature, text, name)
            } else {
                signature
            };
            one_entry_more(
                state.symbols,
                with_captures(state, Grammar::Cpp, file, source, seq![capture]).symbols,
                file,
                (SymbolEntryView { name, kind: capture.name, signature: qualified, doc }),
            )
        }),
{
    let kinds = recorded_kinds(Grammar::Cpp);
    assert(kinds[0] == "function_name"@ && kinds[1] == "method_name"@ && kinds[2] == "class_name"@
        && kinds[3] == "struct_name"@ && kinds[4] == "enum_name"@);
    assert(kinds.contains(capture.name));
    lemma_one_capture(state, Grammar::Cpp, file, source, capture);
    law_recorded_kinds(Grammar::Cpp, capture.name);
    law_parts(text, "::"@);
    law_recorded_entry(
        state.symbols,
        file,
        cpp_entry(source, capture),
    );
}

/// Whether a node of a tree is a class or a struct.
pub open spec fn is_type_in_tree(node: ts::Node) -> bool {
    node_facts(node).kind == "class_specifier"@ || node_facts(node).kind == "struct_specifier"@
}

/// What stands in a class or a struct, with no other named one in between, is enclosed by the text
/// of the first child of that which names a type.
pub proof fn law_enclosed_in_tree(
    source: Seq<char>,
    parents: Seq<ts::Node>,
    at: int,
    before: Seq<Option<SyntaxChildView>>,
    name: SyntaxChildView,
    after: Seq<Option<SyntaxChildView>>,
)
    requires
        0 <= at < parents.len(),
        is_type_in_tree(parents[at]),
        node_children(parents[at]) == before + seq![Some(name)] + after,
        names_no_type(before),
        name.kind == "type_identifier"@,
        forall|i: int|
            0 <= i < at ==> !is_type_in_tree(#[trigger] parents[i]) || names_no_type(
                node_children(parents[i]),
            ),
    ensures
        enclosing_type_name(
            source,
            parents.map_values(|parent: ts::Node| node_view(parent)),
        ) == byte_slice(source, name.start_byte as int, name.end_byte as int),
{
    let ancestors = parents.map_values(|parent: ts::Node| node_view(parent));
    law_kept_node(parents[at]);
    lemma_kept_type_name(before, name, after);
    assert forall|i: int| 0 <= i < at implies !is_type_node(#[trigger] ancestors[i]) || is_nameless(
        ancestors[i].children,
    ) by {
        law_kept_node(parents[i]);
        assert(ancestors[i] == node_view(parents[i]));
        if is_type_in_tree(parents[i]) {
            lemma_kept_nameless(node_children(parents[i]));
        }
    }
    law_enclosing_type(source, ancestors, at, present_children(before).len() as int);
}

/// The members of a class or a struct are recorded under its name, a qualifier and their own.
pub proof fn law_member_is_qualified(
    state: IndexState,
    file: Seq<char>,
    source: Seq<char>,
    capture: CaptureView,
    text: Seq<char>,
    parents: Seq<ts::Node>,
    at: int,
    before: Seq<Option<SyntaxChildView>>,
    name: SyntaxChildView,
    after: Seq<Option<SyntaxChildView>>,
    enclosing: Seq<char>,
)
    requires
        recorded_kinds(Grammar::Cpp).contains(capture.name),
        byte_slice(source, capture.node.start_byte as int, capture.node.end_byte as int) == Some(
            text,
        ),
        !holds(text, "::"@),
        capture.ancestors == parents.map_values(|parent: ts::Node| node_view(parent)),
        0 <= at < parents.len(),
        is_type_in_tree(parents[at]),
        node_children(parents[at]) == before + seq![Some(name)] + after,
        names_no_type(before),
        name.kind == "type_identifier"@,
        forall|i: int|
            0 <= i < at ==> !is_type_in_tree(#[trigger] parents[i]) || names_no_type(
                node_children(parents[i]),
            ),
        byte_slice(source, name.start_byte as int, name.end_byte as int) == Some(enclosing),
    ensures
        ({
            let entries = with_captures(
                state,
                Grammar::Cpp,
                file,
                source,
                seq![capture],
            ).symbols[file];
            &&& entries.last().name == enclosing + "::"@ + text
            &&& entries.last().kind == capture.name
        }),
{
    law_enclosed_in_tree(source, parents, at, before, name, after);
    law_captured_cpp_symbol(state, file, source, capture, text);
}

/// Whether everything that was captured lies within the source.
pub open spec fn all_in_source(
    grammar: Grammar,
    source: Seq<char>,
    captures: Seq<CaptureView>,
) -> bool {
    forall|i: int|
        0 <= i < captures.len() ==> {
            let node = (#[trigger] captures[i]).node;
            &&& byte_slice(source, node.start_byte as int, node.end_byte as int) is Some
            &&& grammar == Grammar::Cpp && recorded_kinds(grammar).contains(captures[i].name)
                ==> lines(source).len() == 0 || signature_node(
                node,
                captures[i].ancestors,
            ).start_row <= lines(source).len()
        }
}

proof fn lemma_in_source(grammar: Grammar, source: Seq<char>, captures: Seq<CaptureView>)
    ensures
        captures_fit(grammar, source, captures) <==> all_in_source(grammar, source, captures),
{
    assert forall|i: int| 0 <= i < captures.len() implies (capture_fits(
        grammar,
        source,
        #[trigger] captures[i],
    ) <==> {
        let node = captures[i].node;
        &&& byte_slice(source, node.start_byte as int, node.end_byte as int) is Some
        &&& grammar == Grammar::Cpp && recorded_kinds(grammar).contains(captures[i].name)
            ==> lines(source).len() == 0 || signature_node(
            node,
            captures[i].ancestors,
        ).start_row <= lines(source).len()
    }) by {
        law_recorded_kinds(grammar, captures[i].name);
    }
}

proof fn lemma_needs(grammar: Grammar, source: Seq<char>, captures: Seq<CaptureView>)
    ensures
        node_need(grammar, captures) <= 3 * captures.len(),
        recorded_texts(grammar, source, captures).len() <= captures.len(),
    decreases captures.len(),
{
    if captures.len() > 0 {
        lemma_needs(grammar, source, captures.drop_last());
    }
}

/// A tree that is searched gives all its captures to the file, which is in the graph then, as long
/// as they lie within the source and the numbers of the graph do not run out.
pub proof fn law_search(
    state: IndexState,
    language: Language,
    builtin: Option<Seq<char>>,
    file: Seq<char>,
    tree: ts::Tree,
    source: Seq<char>,
    grammar: Grammar,
    captures: Seq<CaptureView>,
)
    requires
        treatment_of(language, builtin) == Treatment::Search(grammar),
        found_captures(grammar, tree, source) == Ok::<Seq<CaptureView>, IndexErrorView>(captures),
        all_in_source(grammar, source, captures),
        state.graph.files.len() < u32::MAX,
        state.graph.symbols.len() + captures.len() <= u32::MAX,
        state.graph.node_count + 3 * captures.len() <= u32::MAX,
        state.graph.with_file(file).slots[file].len() + 3 * captures.len() <= u32::MAX,
    ensures
        tree_processed(state, language, builtin, file, tree, source) == (
            with_captures(
                (IndexState { symbols: state.symbols, graph: state.graph.with_file(file) }),
                grammar,
                file,
                source,
                captures,
            ),
            Ok::<(), IndexErrorView>(()),
        ),
{
    let entered = state.graph.with_file(file);
    lemma_in_source(grammar, source, captures);
    lemma_needs(grammar, source, captures);
    law_room(state.graph, file, seq![], 0);
    law_room(
        entered,
        file,
        recorded_texts(grammar, source, captures),
        node_need(grammar, captures),
    );
}

/// A search that fails is answered by its error, and only the file is added to the graph.
pub proof fn law_failed_search(
    state: IndexState,
    language: Language,
    builtin: Option<Seq<char>>,
    file: Seq<char>,
    tree: ts::Tree,
    source: Seq<char>,
    grammar: Grammar,
    messages: Seq<Seq<char>>,
)
    requires
        treatment_of(language, builtin) == Treatment::Search(grammar),
        found_captures(grammar, tree, source) == Err::<Seq<CaptureView>, IndexErrorView>(
            IndexErrorView::InvalidQuery(messages),
        ),
        state.graph.files.len() < u32::MAX,
    ensures
        ({
            let (after, answer) = tree_processed(state, language, builtin, file, tree, source);
            &&& after.symbols == state.symbols
            &&& after.graph == state.graph.with_file(file)
            &&& grammar != Grammar::Cpp ==> answer == Err::<(), IndexErrorView>(
                IndexErrorView::InvalidQuery(messages),
            )
            &&& grammar == Grammar::Cpp ==> answer == Err::<(), IndexErrorView>(
                IndexErrorView::InvalidQuery(
                    seq![
                        "Failed to process C++ syntax for file: "@ + file,
                        "Failed to build C++ tree-sitter query"@,
                    ] + messages,
                ),
            )
        }),
{
    law_room(state.graph, file, seq![], 0);
    assert(Seq::<Seq<char>>::empty() + messages == messages);
}

/// A search that finds a capture without a name is answered so, and only the file is added to the
/// graph.
pub proof fn law_unnamed_search(
    state: IndexState,
    language: Language,
    builtin: Option<Seq<char>>,
    file: Seq<char>,
    tree: ts::Tree,
    source: Seq<char>,
    grammar: Grammar,
)
    requires
        treatment_of(language, builtin) == Treatment::Search(grammar),
        found_captures(grammar, tree, source) == Err::<Seq<CaptureView>, IndexErrorView>(
            IndexErrorView::CaptureOutOfRange,
        ),
        state.graph.files.len() < u32::MAX,
    ensures
        tree_processed(state, language, builtin, file, tree, source) == (
            (IndexState { symbols: state.symbols, graph: state.graph.with_file(file) }),
            Err::<(), IndexErrorView>(IndexErrorView::CaptureOutOfRange),
        ),
{
    law_room(state.graph, file, seq![], 0);
}

/// Where a graph has no number left for a file, the file is refused and nothing changes; where it
/// has none for the nodes of what was captured, only the file is added.
pub proof fn law_full_graph(
    state: IndexState,
    language: Language,
    builtin: Option<Seq<char>>,
    file: Seq<char>,
    tree: ts::Tree,
    source: Seq<char>,
    grammar: Grammar,
    captures: Seq<CaptureView>,
)
    ensures
        state.graph.files.len() >= u32::MAX && !state.graph.files.contains(file) ==> tree_processed(
            state,
            language,
            builtin,
            file,
            tree,
            source,
        ) == (state, Err::<(), IndexErrorView>(IndexErrorView::GraphFull)),
        treatment_of(language, builtin) == Treatment::Search(grammar) && found_captures(
            grammar,
            tree,
            source,
        ) == Ok::<Seq<CaptureView>, IndexErrorView>(captures) && all_in_source(
            grammar,
            source,
            captures,
        ) && state.graph.files.len() < u32::MAX && captures.len() > 0 && (forall|i: int|
            0 <= i < captures.len() ==> recorded_kinds(grammar).contains(
                (#[trigger] captures[i]).name,
            )) && state.graph.node_count + 2 * captures.len() > u32::MAX ==> tree_processed(
            state,
            language,
            builtin,
            file,
            tree,
            source,
        ) == (
            (IndexState { symbols: state.symbols, graph: state.graph.with_file(file) }),
            Err::<(), IndexErrorView>(IndexErrorView::GraphFull),
        ),
{
    let entered = state.graph.with_file(file);
    law_room(state.graph, file, seq![], 0);
    lemma_in_source(grammar, source, captures);
    if forall|i: int|
        0 <= i < captures.len() ==> recorded_kinds(grammar).contains(
            (#[trigger] captures[i]).name,
        ) {
        lemma_least_need(grammar, captures);
        law_room(
            entered,
            file,
            recorded_texts(grammar, source, captures),
            node_need(grammar, captures),
        );
    }
}

proof fn lemma_least_need(grammar: Grammar, captures: Seq<CaptureView>)
    requires
        forall|i: int|
            0 <= i < captures.len() ==> recorded_kinds(grammar).contains(
                (#[trigger] captures[i]).name,
            ),
    ensures
        node_need(grammar, captures) >= 2 * captures.len(),
    decreases captures.len(),
{
    if captures.len() > 0 {
        let rest = captures.drop_last();
        assert forall|i: int| 0 <= i < rest.len() implies recorded_kinds(grammar).contains(
            (#[trigger] rest[i]).name,
        ) by {
            assert(rest[i] == captures[i]);
        }
        lemma_least_need(grammar, rest);
        assert(captures[captures.len() - 1] == captures.last());
        law_recorded_kinds(grammar, captures.last().name);
    }
}

/// A tree of another source is an error where something captured lies outside of this one, and
/// only the file is added to the graph.
pub proof fn law_capture_outside(
    state: IndexState,
    language: Language,
    builtin: Option<Seq<char>>,
    file: Seq<char>,
    tree: ts::Tree,
    source: Seq<char>,
    grammar: Grammar,
    captures: Seq<CaptureView>,
)
    requires
        treatment_of(language, builtin) == Treatment::Search(grammar),
        found_captures(grammar, tree, source) == Ok::<Seq<CaptureView>, IndexErrorView>(captures),
        !all_in_source(grammar, source, captures),
        state.graph.files.len() < u32::MAX,
    ensures
        tree_processed(state, language, builtin, file, tree, source) == (
            (IndexState { symbols: state.symbols, graph: state.graph.with_file(file) }),
            Err::<(), IndexErrorView>(IndexErrorView::CaptureOutOfRange),
        ),
{
    lemma_in_source(grammar, source, captures);
    law_room(state.graph, file, seq![], 0);
}

/// A tree that is not searched makes its file a module: one symbol, and one definition of its name.
pub proof fn law_module(
    state: IndexState,
    language: Language,
    builtin: Option<Seq<char>>,
    file: Seq<char>,
    tree: ts::Tree,
    source: Seq<char>,
    name: Seq<char>,
)
    requires
        ({
            ||| treatment_of(language, builtin) == Treatment::Module && name == "module"@
            ||| treatment_of(language, builtin) == Treatment::JavaModule && name == "java_module"@
        }),
        state.graph.files.len() < u32::MAX,
        state.graph.symbols.len() < u32::MAX,
        state.graph.node_count + 2 <= u32::MAX,
        state.graph.with_file(file).slots[file].len() + 2 <= u32::MAX,
    ensures
        ({
            let (after, answer) = tree_processed(state, language, builtin, file, tree, source);
            &&& answer is Ok
            &&& one_entry_more(
                state.symbols,
                after.symbols,
                file,
                (SymbolEntryView { name, kind: "module"@, signature: None, doc: None }),
            )
            &&& after.graph == state.graph.with_file(file).with_definition(file, name, false)
        }),
{
    let entered = state.graph.with_file(file);
    law_room(state.graph, file, seq![], 0);
    law_room(entered, file, seq![name], 2);
    law_recorded_entry(
        state.symbols,
        file,
        SymbolEntryView { name, kind: "module"@, signature: None, doc: None },
    );
}

/// A file of a language that is not known, or that has no grammar, is passed over; one that cannot
/// be parsed fails and changes nothing; any other is answered as the tree it is parsed into.
pub proof fn law_file(state: IndexState, language: Language, file: Seq<char>, source: Seq<char>)
    ensures
        language == Language::Unknown ==> text_indexed(state, language, file, source) == (
            state,
            Ok::<FileOutcome, IndexErrorView>(FileOutcome::UnknownLanguage),
        ),
        language != Language::Unknown && language.spec_grammar() is None ==> text_indexed(
            state,
            language,
            file,
            source,
        ) == (state, Ok::<FileOutcome, IndexErrorView>(FileOutcome::NoParser)),
        language.spec_grammar() matches Some(grammar) ==> match parsed_tree(
            grammar_language(grammar),
            source,
        ) {
            None => text_indexed(state, language, file, source) == (
                state,
                Err::<FileOutcome, IndexErrorView>(IndexErrorView::ParseFailed),
            ),
            Some(tree) => {
                let (after, answer) = tree_processed(
                    state,
                    language,
                    language.spec_builtin_name(),
                    file,
                    tree,
                    source,
                );
                &&& text_indexed(state, language, file, source).0 == after
                &&& answer is Ok ==> text_indexed(state, language, file, source).1 == Ok::<
                    FileOutcome,
                    IndexErrorView,
                >(FileOutcome::Indexed)
                &&& answer matches Err(error) ==> text_indexed(state, language, file, source).1
                    == Err::<FileOutcome, IndexErrorView>(error)
            },
        },
{
}

} // verus!
