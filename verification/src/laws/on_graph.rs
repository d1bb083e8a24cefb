//! Laws on the stack graph.

use crate::graph::{lemma_with_symbols, EdgeKey, GraphModel, GraphNode};
use vstd::prelude::*;

verus! {

/// A definition adds to its file, behind the nodes that are there, a definition of the symbol, an
/// exported scope and, for an import, a reference to the symbol, and an edge of precedence zero
/// from each of them to the next. The symbol is interned once, and nothing else changes.
pub proof fn law_definition(
    graph: GraphModel,
    file: Seq<char>,
    symbol: Seq<char>,
    imported: bool,
)
    requires
        graph.slots[file].len() + 3 <= u32::MAX,
        forall|key: EdgeKey| #[trigger]
            graph.edges.contains_key(key) ==> key.source < graph.slots[key.file].len(),
    ensures
        ({
            let after = graph.with_definition(file, symbol, imported);
            let id = graph.slots[file].len();
            let nodes = after.slots[file];
            let first = EdgeKey { file, source: id, sink: id + 1 };
            let second = EdgeKey { file, source: id + 1, sink: id + 2 };
            &&& after.files == graph.files
            &&& after.symbols == if graph.symbols.contains(symbol) {
                graph.symbols
            } else {
                graph.symbols.push(symbol)
            }
            &&& nodes.len() == id + if imported {
                3nat
            } else {
                2
            }
            &&& forall|i: int| 0 <= i < id ==> #[trigger] nodes[i] == graph.slots[file][i]
            &&& nodes[id as int] == Some(GraphNode::PopSymbol { symbol, is_definition: true })
            &&& nodes[id as int + 1] == Some(GraphNode::Scope { is_exported: true })
            &&& imported ==> nodes[id as int + 2] == Some(
                GraphNode::PushSymbol { symbol, is_reference: true },
            )
            &&& after.slots == graph.slots.insert(file, nodes)
            &&& after.node_count == graph.node_count + if imported {
                3nat
            } else {
                2
            }
            &&& after.edges == if imported {
                graph.edges.insert(first, 0).insert(second, 0)
            } else {
                graph.edges.insert(first, 0)
            }
        }),
{
    let after = graph.with_definition(file, symbol, imported);
    let id = graph.slots[file].len();
    assert(!graph.edges.contains_key((EdgeKey { file, source: id, sink: id + 1 })));
    assert(!graph.edges.contains_key((EdgeKey { file, source: id + 1, sink: id + 2 })));
    assert(after.slots == graph.slots.insert(file, after.slots[file]));
}

/// A file that is new is added behind the others, without nodes; one that is there changes nothing.
pub proof fn law_file(graph: GraphModel, name: Seq<char>)
    ensures
        graph.files.contains(name) ==> graph.with_file(name) == graph,
        !graph.files.contains(name) ==> {
            &&& graph.with_file(name).files == graph.files.push(name)
            &&& graph.with_file(name).slots == graph.slots.insert(name, seq![])
            &&& graph.with_file(name).symbols == graph.symbols
            &&& graph.with_file(name).edges == graph.edges
            &&& graph.with_file(name).node_count == graph.node_count
        },
{
}

/// There is room as long as the symbols, the nodes and the ids of a file fit into 32 bits, and no
/// room for more nodes than that.
pub proof fn law_room(
    graph: GraphModel,
    file: Seq<char>,
    symbols: Seq<Seq<char>>,
    nodes: nat,
)
    ensures
        graph.symbols.len() + symbols.len() <= u32::MAX && graph.node_count + nodes <= u32::MAX
            && graph.slots[file].len() + nodes <= u32::MAX + 1 ==> graph.has_room(
            file,
            symbols,
            nodes,
        ),
        graph.symbols.len() <= u32::MAX && (forall|i: int|
            0 <= i < symbols.len() ==> graph.symbols.contains(#[trigger] symbols[i]))
            && graph.node_count + nodes <= u32::MAX && graph.slots[file].len() + nodes
            <= u32::MAX + 1 ==> graph.has_room(file, symbols, nodes),
        graph.node_count + nodes > u32::MAX ==> !graph.has_room(file, symbols, nodes),
        graph.files.contains(file) || graph.files.len() < u32::MAX ==> graph.has_file_room(file),
{
    lemma_with_symbols(graph, symbols);
    if forall|i: int| 0 <= i < symbols.len() ==> graph.symbols.contains(#[trigger] symbols[i]) {
        lemma_known_symbols(graph, symbols);
    }
}

/// Where the ids of a file run out, the id zero is left if no node has it, and no other.
pub proof fn law_last_id(
    graph: GraphModel,
    file: Seq<char>,
    symbols: Seq<Seq<char>>,
    nodes: nat,
)
    requires
        0 < graph.slots[file].len() <= u32::MAX + 1,
        graph.symbols.len() + symbols.len() <= u32::MAX,
        graph.node_count + nodes <= u32::MAX,
    ensures
        graph.slots[file].len() + nodes == u32::MAX + 2 ==> (graph.has_room(file, symbols, nodes)
            <==> graph.slots[file][0] is None),
        graph.slots[file].len() + nodes > u32::MAX + 2 ==> !graph.has_room(file, symbols, nodes),
{
    lemma_with_symbols(graph, symbols);
}

/// There is no room for more new symbols than there are numbers left.
pub proof fn law_no_symbol_room(
    graph: GraphModel,
    file: Seq<char>,
    symbols: Seq<Seq<char>>,
    nodes: nat,
)
    requires
        symbols.no_duplicates(),
        forall|i: int| 0 <= i < symbols.len() ==> !graph.symbols.contains(#[trigger] symbols[i]),
        graph.symbols.len() + symbols.len() > u32::MAX,
    ensures
        !graph.has_room(file, symbols, nodes),
{
    lemma_new_symbols(graph, symbols);
}

proof fn lemma_new_symbols(graph: GraphModel, symbols: Seq<Seq<char>>)
    requires
        symbols.no_duplicates(),
        forall|i: int| 0 <= i < symbols.len() ==> !graph.symbols.contains(#[trigger] symbols[i]),
    ensures
        graph.with_symbols(symbols).symbols.len() == graph.symbols.len() + symbols.len(),
    decreases symbols.len(),
{
    if symbols.len() > 0 {
        let rest = symbols.drop_last();
        assert forall|i: int| 0 <= i < rest.len() implies !graph.symbols.contains(
            #[trigger] rest[i],
        ) by {
            assert(rest[i] == symbols[i]);
        }
        lemma_new_symbols(graph, rest);
        lemma_with_symbols(graph, rest);
        let last = symbols.last();
        assert(!graph.symbols.contains(symbols[symbols.len() - 1]));
        if rest.contains(last) {
            let at = choose|at: int| 0 <= at < rest.len() && rest[at] == last;
            assert(symbols[at] == symbols[symbols.len() - 1]);
        }
    }
}

proof fn lemma_known_symbols(graph: GraphModel, symbols: Seq<Seq<char>>)
    requires
        forall|i: int| 0 <= i < symbols.len() ==> graph.symbols.contains(#[trigger] symbols[i]),
    ensures
        graph.with_symbols(symbols) == graph,
    decreases symbols.len(),
{
    if symbols.len() > 0 {
        let rest = symbols.drop_last();
        assert forall|i: int| 0 <= i < rest.len() implies graph.symbols.contains(
            #[trigger] rest[i],
        ) by {
            assert(rest[i] == symbols[i]);
        }
        lemma_known_symbols(graph, rest);
        assert(graph.symbols.contains(symbols[symbols.len() - 1]));
    }
}

} // verus!
