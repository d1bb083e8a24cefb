//! The stack graph, and the definitions that are added to it.

use crate::text::{same_text, strings_view};
use stack_graphs::graph::{NodeID, StackGraph};
use vstd::prelude::*;

verus! {

/// `stack_graphs::graph::StackGraph`: files, the nodes of each file, and edges between nodes. As
/// the crate asks, the handles of one graph are used with that graph alone.
#[verifier::external_type_specification]
#[verifier::external_body]
pub struct ExStackGraph(StackGraph);

/// What kind of node stands in a graph.
pub enum GraphNode {
    /// Pops a symbol off the symbol stack.
    PopSymbol { symbol: Seq<char>, is_definition: bool },
    /// Pushes a symbol onto the symbol stack.
    PushSymbol { symbol: Seq<char>, is_reference: bool },
    /// Adds structure to the graph.
    Scope { is_exported: bool },
    /// A node of any other kind.
    Other,
}

/// Two nodes of one file, by their local ids.
pub struct EdgeKey {
    pub file: Seq<char>,
    pub source: nat,
    pub sink: nat,
}

/// The names of the files of a graph, in the order in which they were added.
pub uninterp spec fn graph_files(graph: StackGraph) -> Seq<Seq<char>>;

/// The symbols that a graph has interned, in the order in which they were added.
pub uninterp spec fn graph_symbols(graph: StackGraph) -> Seq<Seq<char>>;

/// For each file of a graph, by its name, the node behind each local id. The last local id that
/// is listed has a node.
pub uninterp spec fn graph_slots(graph: StackGraph) -> Map<Seq<char>, Seq<Option<GraphNode>>>;

/// The precedences of the edges that connect two nodes of one file.
pub uninterp spec fn graph_edges(graph: StackGraph) -> Map<EdgeKey, i32>;

/// The number of all nodes of a graph, the root and the jump-to node among them.
pub uninterp spec fn graph_node_count(graph: StackGraph) -> nat;

/// The contents of a graph.
#[verifier::ext_equal]
pub struct GraphModel {
    pub files: Seq<Seq<char>>,
    pub symbols: Seq<Seq<char>>,
    pub slots: Map<Seq<char>, Seq<Option<GraphNode>>>,
    pub edges: Map<EdgeKey, i32>,
    pub node_count: nat,
}

/// The contents of `graph`.
pub open spec fn graph_model(graph: StackGraph) -> GraphModel {
    GraphModel {
        files: graph_files(graph),
        symbols: graph_symbols(graph),
        slots: graph_slots(graph),
        edges: graph_edges(graph),
        node_count: graph_node_count(graph),
    }
}

/// The nodes of a definition.
pub open spec fn definition_nodes(symbol: Seq<char>, imported: bool) -> Seq<Option<GraphNode>> {
    let definition = GraphNode::PopSymbol { symbol, is_definition: true };
    let scope = GraphNode::Scope { is_exported: true };
    if imported {
        seq![
            Some(definition),
            Some(scope),
            Some(GraphNode::PushSymbol { symbol, is_reference: true }),
        ]
    } else {
        seq![Some(definition), Some(scope)]
    }
}

impl GraphModel {
    /// Whether a node of `file` has the local id `id`.
    pub open spec fn occupied(self, file: Seq<char>, id: nat) -> bool {
        id < self.slots[file].len() && self.slots[file][id as int] is Some
    }

    /// The graph with a file of that name: a file without nodes if the name is new.
    pub open spec fn with_file(self, name: Seq<char>) -> GraphModel {
        if self.files.contains(name) {
            self
        } else {
            GraphModel {
                files: self.files.push(name),
                slots: self.slots.insert(name, seq![]),
                ..self
            }
        }
    }

    /// The graph with that symbol interned.
    pub open spec fn with_symbol(self, symbol: Seq<char>) -> GraphModel {
        if self.symbols.contains(symbol) {
            self
        } else {
            GraphModel { symbols: self.symbols.push(symbol), ..self }
        }
    }

    /// The graph with `node` in `file`, under a local id that is free and at most one above the
    /// ids in use.
    pub open spec fn with_node(self, file: Seq<char>, id: nat, node: GraphNode) -> GraphModel {
        let slots = self.slots[file];
        GraphModel {
            slots: self.slots.insert(
                file,
                if id < slots.len() {
                    slots.update(id as int, Some(node))
                } else {
                    slots.push(Some(node))
                },
            ),
            node_count: self.node_count + 1,
            ..self
        }
    }

    /// The graph with an edge from `source` to `sink`. An edge that is there already keeps its
    /// precedence.
    pub open spec fn with_edge(
        self,
        file: Seq<char>,
        source: nat,
        sink: nat,
        precedence: i32,
    ) -> GraphModel {
        let key = EdgeKey { file, source, sink };
        if self.edges.contains_key(key) {
            self
        } else {
            GraphModel { edges: self.edges.insert(key, precedence), ..self }
        }
    }

    /// The graph with those symbols interned, one after the other.
    pub open spec fn with_symbols(self, symbols: Seq<Seq<char>>) -> GraphModel
        decreases symbols.len(),
    {
        if symbols.len() == 0 {
            self
        } else {
            self.with_symbols(symbols.drop_last()).with_symbol(symbols.last())
        }
    }

    /// The local id that a node of `file` gets once `nodes` others have been added: the one above
    /// all that are in use or, where the ids of 32 bits have run out, zero.
    pub open spec fn id_after(self, file: Seq<char>, nodes: nat) -> nat {
        if self.slots[file].len() + nodes <= u32::MAX {
            self.slots[file].len() + nodes
        } else {
            0
        }
    }

    /// How many more nodes of `file` get a local id that is free. Where the ids have run out, zero
    /// is left if no node has it.
    pub open spec fn id_room(self, file: Seq<char>) -> int {
        let slots = self.slots[file];
        let zero: int = if slots.len() > 0 && slots[0] is None {
            1
        } else {
            0
        };
        if slots.len() <= u32::MAX {
            u32::MAX + 1 - slots.len() + zero
        } else {
            zero
        }
    }

    /// The graph with a definition of `symbol` in `file`: a definition node and, behind it, an
    /// exported scope. Where the symbol is imported, a reference to it follows the scope.
    pub open spec fn with_definition(
        self,
        file: Seq<char>,
        symbol: Seq<char>,
        imported: bool,
    ) -> GraphModel {
        let definition = self.id_after(file, 0);
        let scope = self.id_after(file, 1);
        let defined = self.with_symbol(symbol).with_node(
            file,
            definition,
            GraphNode::PopSymbol { symbol, is_definition: true },
        ).with_node(file, scope, GraphNode::Scope { is_exported: true }).with_edge(
            file,
            definition,
            scope,
            0,
        );
        if imported {
            let reference = self.id_after(file, 2);
            defined.with_node(
                file,
                reference,
                GraphNode::PushSymbol { symbol, is_reference: true },
            ).with_edge(file, scope, reference, 0)
        } else {
            defined
        }
    }

    /// Whether every edge leads from a node to a node of a file of the graph.
    pub open spec fn edges_connect_nodes(self) -> bool {
        forall|key: EdgeKey| #[trigger]
            self.edges.contains_key(key) ==> {
                &&& self.files.contains(key.file)
                &&& self.occupied(key.file, key.source)
                &&& self.occupied(key.file, key.sink)
            }
    }

    /// Whether a graph, whose parts are numbered in 32 bits, has room for those symbols, of which
    /// it interns each once, and for that many more nodes in `file`.
    pub open spec fn has_room(self, file: Seq<char>, symbols: Seq<Seq<char>>, nodes: nat) -> bool {
        &&& self.with_symbols(symbols).symbols.len() <= u32::MAX
        &&& self.node_count + nodes <= u32::MAX
        &&& nodes <= self.id_room(file)
    }

    /// Whether a graph has room for the definition of `symbol` in `file`.
    pub open spec fn has_definition_room(
        self,
        file: Seq<char>,
        symbol: Seq<char>,
        imported: bool,
    ) -> bool {
        self.has_room(file, seq![symbol], definition_nodes(symbol, imported).len())
    }

    /// Whether every node of `file` stands in `after` as well, under its id.
    pub open spec fn nodes_kept(self, after: GraphModel, file: Seq<char>) -> bool {
        forall|id: nat| #[trigger]
            self.occupied(file, id) ==> after.occupied(file, id) && after.slots[file][id as int]
                == self.slots[file][id as int]
    }

    /// Whether a graph knows a file of that name or has room for one more.
    pub open spec fn has_file_room(self, name: Seq<char>) -> bool {
        self.files.contains(name) || self.files.len() < u32::MAX
    }
}

/// A graph with a file knows it, and asking for the file again changes nothing. The other files and
/// what they hold stay as they are, and no file stands twice if none did before.
pub proof fn lemma_with_file(graph: GraphModel, name: Seq<char>)
    ensures
        graph.with_file(name).files.contains(name),
        graph.with_file(name).with_file(name) == graph.with_file(name),
        graph.files.is_prefix_of(graph.with_file(name).files),
        forall|other: Seq<char>|
            graph.with_file(name).files.contains(other) <==> other == name
                || graph.files.contains(other),
        forall|other: Seq<char>|
            other != name ==> #[trigger] graph.with_file(name).slots[other] == graph.slots[other],
        graph.files.no_duplicates() ==> graph.with_file(name).files.no_duplicates(),
        graph.edges_connect_nodes() ==> graph.with_file(name).edges_connect_nodes(),
{
    let after = graph.with_file(name).files;
    if !graph.files.contains(name) {
        assert(after.last() == name);
        assert forall|other: Seq<char>| graph.files.contains(other) implies after.contains(
            other,
        ) by {
            let at = choose|at: int| 0 <= at < graph.files.len() && graph.files[at] == other;
            assert(after[at] == other);
        }
    }
}

/// Interning symbols changes nothing but the symbols of a graph, which are then those that were
/// there and those that were interned.
pub proof fn lemma_with_symbols(graph: GraphModel, symbols: Seq<Seq<char>>)
    ensures
        graph.with_symbols(symbols) == (GraphModel {
            symbols: graph.with_symbols(symbols).symbols,
            ..graph
        }),
        graph.symbols.len() <= graph.with_symbols(symbols).symbols.len() <= graph.symbols.len()
            + symbols.len(),
        forall|symbol: Seq<char>| #[trigger]
            graph.with_symbols(symbols).symbols.contains(symbol) <==> graph.symbols.contains(symbol)
                || symbols.contains(symbol),
    decreases symbols.len(),
{
    if symbols.len() > 0 {
        let before = graph.with_symbols(symbols.drop_last());
        let last = symbols.last();
        lemma_with_symbols(graph, symbols.drop_last());
        lemma_with_symbol_contains(before, last);
        assert forall|symbol: Seq<char>| #[trigger]
            graph.with_symbols(symbols).symbols.contains(symbol) <==> graph.symbols.contains(symbol)
                || symbols.contains(symbol) by {
            if symbols.contains(symbol) && symbol != last {
                let at = choose|at: int| 0 <= at < symbols.len() && symbols[at] == symbol;
                assert(symbols.drop_last()[at] == symbol);
            }
            if symbols.drop_last().contains(symbol) {
                let at = choose|at: int|
                    0 <= at < symbols.drop_last().len() && symbols.drop_last()[at] == symbol;
                assert(symbols[at] == symbol);
            }
            assert(symbols[symbols.len() - 1] == last);
        }
    }
}

proof fn lemma_with_symbol_contains(graph: GraphModel, symbol: Seq<char>)
    ensures
        forall|other: Seq<char>| #[trigger]
            graph.with_symbol(symbol).symbols.contains(other) <==> other == symbol
                || graph.symbols.contains(other),
{
    let after = graph.with_symbol(symbol).symbols;
    if !graph.symbols.contains(symbol) {
        assert(after.last() == symbol);
        assert forall|other: Seq<char>| graph.symbols.contains(other) implies #[trigger]
            after.contains(other) by {
            let at = choose|at: int| 0 <= at < graph.symbols.len() && graph.symbols[at] == other;
            assert(after[at] == other);
        }
    }
}

/// Interning one symbol is interning a list of one.
pub proof fn lemma_with_one_symbol(graph: GraphModel, symbol: Seq<char>)
    ensures
        graph.with_symbols(seq![symbol]) == graph.with_symbol(symbol),
{
    let symbols = seq![symbol];
    assert(symbols.drop_last() == Seq::<Seq<char>>::empty());
    assert(graph.with_symbols(symbols.drop_last()) == graph);
}

proof fn lemma_with_next_node(graph: GraphModel, file: Seq<char>, node: GraphNode)
    requires
        graph.id_room(file) > 0,
    ensures
        ({
            let id = graph.id_after(file, 0);
            let after = graph.with_node(file, id, node);
            &&& !graph.occupied(file, id)
            &&& after.occupied(file, id)
            &&& after.id_room(file) == graph.id_room(file) - 1
            &&& graph.nodes_kept(after, file)
        }),
{
}

/// A definition uses up as many ids as it has nodes, every one of them free, and leaves the nodes
/// that are there as they are.
pub proof fn lemma_definition_uses_free_ids(
    graph: GraphModel,
    file: Seq<char>,
    symbol: Seq<char>,
    imported: bool,
)
    requires
        graph.id_room(file) >= definition_nodes(symbol, imported).len(),
    ensures
        ({
            let after = graph.with_definition(file, symbol, imported);
            let nodes = definition_nodes(symbol, imported);
            &&& graph.nodes_kept(after, file)
            &&& after.id_room(file) == graph.id_room(file) - nodes.len()
            &&& after.node_count == graph.node_count + nodes.len()
            &&& after.symbols == graph.with_symbol(symbol).symbols
            &&& forall|i: int|
                0 <= i < nodes.len() ==> {
                    let id = #[trigger] graph.id_after(file, i as nat);
                    &&& !graph.occupied(file, id)
                    &&& after.occupied(file, id)
                    &&& after.slots[file][id as int] == nodes[i]
                }
        }),
{
    let nodes = definition_nodes(symbol, imported);
    let start = graph.with_symbol(symbol);
    lemma_with_next_node(start, file, nodes[0]->0);
    let first = start.with_node(file, graph.id_after(file, 0), nodes[0]->0);
    assert(first.id_after(file, 0) == graph.id_after(file, 1));
    lemma_with_next_node(first, file, nodes[1]->0);
    let second = first.with_node(file, graph.id_after(file, 1), nodes[1]->0);
    if imported {
        assert(second.id_after(file, 0) == graph.id_after(file, 2));
        lemma_with_next_node(second, file, nodes[2]->0);
    }
}

/// Whether a slot holds a definition, as a number.
pub open spec fn definitions_in(slot: Option<GraphNode>) -> nat {
    match slot {
        Some(GraphNode::PopSymbol { is_definition: true, .. }) => 1,
        _ => 0,
    }
}

/// How many of the nodes are definitions.
pub open spec fn definition_count(nodes: Seq<Option<GraphNode>>) -> nat
    decreases nodes.len(),
{
    if nodes.len() == 0 {
        0
    } else {
        definition_count(nodes.drop_last()) + definitions_in(nodes.last())
    }
}

proof fn lemma_definition_count_of_update(
    nodes: Seq<Option<GraphNode>>,
    at: int,
    node: GraphNode,
)
    requires
        0 <= at < nodes.len(),
        nodes[at] is None,
    ensures
        definition_count(nodes.update(at, Some(node))) == definition_count(nodes) + definitions_in(
            Some(node),
        ),
    decreases nodes.len(),
{
    let after = nodes.update(at, Some(node));
    if at == nodes.len() - 1 {
        assert(after.drop_last() == nodes.drop_last());
    } else {
        assert(after.drop_last() == nodes.drop_last().update(at, Some(node)));
        lemma_definition_count_of_update(nodes.drop_last(), at, node);
    }
}

proof fn lemma_definition_count_of_next_node(graph: GraphModel, file: Seq<char>, node: GraphNode)
    requires
        graph.id_room(file) > 0,
    ensures
        definition_count(graph.with_node(file, graph.id_after(file, 0), node).slots[file])
            == definition_count(graph.slots[file]) + definitions_in(Some(node)),
{
    let nodes = graph.slots[file];
    if nodes.len() <= u32::MAX {
        assert(nodes.push(Some(node)).drop_last() == nodes);
    } else {
        lemma_definition_count_of_update(nodes, 0, node);
    }
}

/// A definition adds one definition to its file.
pub proof fn lemma_definition_counts_once(
    graph: GraphModel,
    file: Seq<char>,
    symbol: Seq<char>,
    imported: bool,
)
    requires
        graph.id_room(file) >= definition_nodes(symbol, imported).len(),
    ensures
        definition_count(graph.with_definition(file, symbol, imported).slots[file])
            == definition_count(graph.slots[file]) + 1,
{
    let nodes = definition_nodes(symbol, imported);
    let start = graph.with_symbol(symbol);
    lemma_with_next_node(start, file, nodes[0]->0);
    lemma_definition_count_of_next_node(start, file, nodes[0]->0);
    let first = start.with_node(file, graph.id_after(file, 0), nodes[0]->0);
    assert(first.id_after(file, 0) == graph.id_after(file, 1));
    lemma_with_next_node(first, file, nodes[1]->0);
    lemma_definition_count_of_next_node(first, file, nodes[1]->0);
    let second = first.with_node(file, graph.id_after(file, 1), nodes[1]->0);
    if imported {
        assert(second.id_after(file, 0) == graph.id_after(file, 2));
        lemma_definition_count_of_next_node(second, file, nodes[2]->0);
    }
}

/// While ids above those in use are left, a definition stands behind the nodes that are there: a
/// definition node, an exported scope and, for an import, a reference. An edge leads from each to
/// the next. Files, the nodes of other files and the edges that are there stay as they are.
pub proof fn lemma_with_definition(
    graph: GraphModel,
    file: Seq<char>,
    symbol: Seq<char>,
    imported: bool,
)
    ensures
        ({
            let after = graph.with_definition(file, symbol, imported);
            let definition = graph.id_after(file, 0);
            let scope = graph.id_after(file, 1);
            let reference = graph.id_after(file, 2);
            let nodes = definition_nodes(symbol, imported);
            &&& graph.slots[file].len() + nodes.len() <= u32::MAX + 1 ==> after.slots[file]
                == graph.slots[file] + nodes
            &&& after.symbols.contains(symbol)
            &&& after.edges.contains_key((EdgeKey { file, source: definition, sink: scope }))
            &&& imported ==> after.edges.contains_key(
                (EdgeKey { file, source: scope, sink: reference }),
            )
            &&& after.files == graph.files
            &&& forall|other: Seq<char>|
                other != file ==> #[trigger] after.slots[other] == graph.slots[other]
            &&& forall|key: EdgeKey| #[trigger]
                graph.edges.contains_key(key) ==> after.edges.contains_key(key)
                    && after.edges[key] == graph.edges[key]
            &&& graph.edges_connect_nodes() && graph.files.contains(file)
                ==> after.edges_connect_nodes()
        }),
{
    let after = graph.with_definition(file, symbol, imported);
    let nodes = definition_nodes(symbol, imported);
    if graph.slots[file].len() + nodes.len() <= u32::MAX + 1 {
        assert(after.slots[file] == graph.slots[file] + nodes);
    }
    lemma_with_symbol_contains(graph, symbol);
    assert forall|id: nat| #[trigger] graph.occupied(file, id) implies after.occupied(file, id) by {
    }
    assert(after.occupied(file, graph.id_after(file, 0)));
    assert(after.occupied(file, graph.id_after(file, 1)));
    assert(imported ==> after.occupied(file, graph.id_after(file, 2)));
}

/// Where edges connect nodes, the edges of a new definition come with precedence zero.
pub proof fn lemma_definition_edges_have_no_precedence(
    graph: GraphModel,
    file: Seq<char>,
    symbol: Seq<char>,
    imported: bool,
)
    requires
        graph.edges_connect_nodes(),
        graph.id_room(file) >= definition_nodes(symbol, imported).len(),
    ensures
        ({
            let after = graph.with_definition(file, symbol, imported);
            let definition = graph.id_after(file, 0);
            let scope = graph.id_after(file, 1);
            let reference = graph.id_after(file, 2);
            &&& after.edges[(EdgeKey { file, source: definition, sink: scope })] == 0
            &&& imported ==> after.edges[(EdgeKey { file, source: scope, sink: reference })] == 0
        }),
{
    let definition = graph.id_after(file, 0);
    let scope = graph.id_after(file, 1);
    let reference = graph.id_after(file, 2);
    assert(!graph.edges.contains_key((EdgeKey { file, source: definition, sink: scope })));
    if imported {
        assert(!graph.edges.contains_key((EdgeKey { file, source: scope, sink: reference })));
    }
}

/// A graph without files, symbols and edges, and with no nodes but the root and the jump-to node.
pub open spec fn empty_graph() -> GraphModel {
    GraphModel {
        files: seq![],
        symbols: seq![],
        slots: Map::empty(),
        edges: Map::empty(),
        node_count: 2,
    }
}

/// `StackGraph::new`: a graph that holds the root and the jump-to node and nothing else.
#[verifier::external_body]
pub(crate) fn new_graph() -> (graph: StackGraph)
    ensures
        graph_model(graph) == empty_graph(),
{
    StackGraph::new()
}

/// `StackGraph::get_or_create_file`: finds the file of that name, or adds it without any node.
#[verifier::external_body]
fn get_or_create_file(graph: &mut StackGraph, name: &str)
    requires
        graph_model(*old(graph)).has_file_room(name@),
    ensures
        graph_model(*final(graph)) == graph_model(*old(graph)).with_file(name@),
{
    graph.get_or_create_file(name);
}

/// `StackGraph::add_symbol`: interns a symbol, once.
#[verifier::external_body]
fn add_symbol(graph: &mut StackGraph, symbol: &str)
    requires
        graph_symbols(*old(graph)).contains(symbol@) || graph_symbols(*old(graph)).len() < u32::MAX,
    ensures
        graph_model(*final(graph)) == graph_model(*old(graph)).with_symbol(symbol@),
{
    graph.add_symbol(symbol);
}

/// `StackGraph::new_node_id`: the local id above all that are in use in the file or, where the ids
/// have run out, zero. It changes nothing. The file is there; `get_file` only tells its handle.
#[verifier::external_body]
fn new_node_id(graph: &mut StackGraph, file: &str) -> (id: u32)
    requires
        graph_files(*old(graph)).contains(file@),
    ensures
        graph_model(*final(graph)) == graph_model(*old(graph)),
        if graph_slots(*old(graph))[file@].len() <= u32::MAX {
            id == graph_slots(*old(graph))[file@].len()
        } else {
            id == 0 && graph_slots(*old(graph))[file@][u32::MAX as int] is Some
        },
{
    let handle = graph.get_file(file).unwrap();
    graph.new_node_id(handle).local_id()
}

/// `StackGraph::node_for_id`: whether a node of the file has that local id.
#[verifier::external_body]
fn has_node(graph: &StackGraph, file: &str, id: u32) -> (found: bool)
    requires
        graph_files(*graph).contains(file@),
    ensures
        found == (id < graph_slots(*graph)[file@].len()
            && graph_slots(*graph)[file@][id as int] is Some),
{
    let handle = graph.get_file(file).unwrap();
    graph.node_for_id(NodeID::new_in_file(handle, id)).is_some()
}

/// `StackGraph::add_pop_symbol_node`: adds the node and says so, unless the id is taken. The file
/// and the symbol are there; `get_file` and `add_symbol` only tell their handles.
#[verifier::external_body]
fn add_pop_symbol_node(
    graph: &mut StackGraph,
    file: &str,
    id: u32,
    symbol: &str,
    is_definition: bool,
) -> (added: bool)
    requires
        graph_files(*old(graph)).contains(file@),
        graph_symbols(*old(graph)).contains(symbol@),
        graph_node_count(*old(graph)) < u32::MAX,
        id <= graph_slots(*old(graph))[file@].len(),
    ensures
        added == !graph_model(*old(graph)).occupied(file@, id as nat),
        graph_model(*final(graph)) == if added {
            graph_model(*old(graph)).with_node(
                file@,
                id as nat,
                (GraphNode::PopSymbol { symbol: symbol@, is_definition }),
            )
        } else {
            graph_model(*old(graph))
        },
{
    let handle = graph.get_file(file).unwrap();
    let symbol = graph.add_symbol(symbol);
    graph.add_pop_symbol_node(NodeID::new_in_file(handle, id), symbol, is_definition).is_some()
}

/// `StackGraph::add_push_symbol_node`: adds the node and says so, unless the id is taken. The file
/// and the symbol are there; `get_file` and `add_symbol` only tell their handles.
#[verifier::external_body]
fn add_push_symbol_node(
    graph: &mut StackGraph,
    file: &str,
    id: u32,
    symbol: &str,
    is_reference: bool,
) -> (added: bool)
    requires
        graph_files(*old(graph)).contains(file@),
        graph_symbols(*old(graph)).contains(symbol@),
        graph_node_count(*old(graph)) < u32::MAX,
        id <= graph_slots(*old(graph))[file@].len(),
    ensures
        added == !graph_model(*old(graph)).occupied(file@, id as nat),
        graph_model(*final(graph)) == if added {
            graph_model(*old(graph)).with_node(
                file@,
                id as nat,
                (GraphNode::PushSymbol { symbol: symbol@, is_reference }),
            )
        } else {
            graph_model(*old(graph))
        },
{
    let handle = graph.get_file(file).unwrap();
    let symbol = graph.add_symbol(symbol);
    graph.add_push_symbol_node(NodeID::new_in_file(handle, id), symbol, is_reference).is_some()
}

/// `StackGraph::add_scope_node`: adds the node and says so, unless the id is taken. The file is
/// there; `get_file` only tells its handle.
#[verifier::external_body]
fn add_scope_node(graph: &mut StackGraph, file: &str, id: u32, is_exported: bool) -> (added: bool)
    requires
        graph_files(*old(graph)).contains(file@),
        graph_node_count(*old(graph)) < u32::MAX,
        id <= graph_slots(*old(graph))[file@].len(),
    ensures
        added == !graph_model(*old(graph)).occupied(file@, id as nat),
        graph_model(*final(graph)) == if added {
            graph_model(*old(graph)).with_node(
                file@,
                id as nat,
                (GraphNode::Scope { is_exported }),
            )
        } else {
            graph_model(*old(graph))
        },
{
    let handle = graph.get_file(file).unwrap();
    graph.add_scope_node(NodeID::new_in_file(handle, id), is_exported).is_some()
}

/// `StackGraph::add_edge`: connects two nodes of a file, unless they are connected already. The
/// file and the nodes are there; `get_file` and `node_for_id` only tell their handles.
#[verifier::external_body]
fn add_edge(graph: &mut StackGraph, file: &str, source: u32, sink: u32, precedence: i32)
    requires
        graph_files(*old(graph)).contains(file@),
        graph_model(*old(graph)).occupied(file@, source as nat),
        graph_model(*old(graph)).occupied(file@, sink as nat),
    ensures
        graph_model(*final(graph)) == graph_model(*old(graph)).with_edge(
            file@,
            source as nat,
            sink as nat,
            precedence,
        ),
        graph_edges(*final(graph)).contains_key(
            (EdgeKey { file: file@, source: source as nat, sink: sink as nat }),
        ),
{
    let handle = graph.get_file(file).unwrap();
    let source = graph.node_for_id(NodeID::new_in_file(handle, source)).unwrap();
    let sink = graph.node_for_id(NodeID::new_in_file(handle, sink)).unwrap();
    graph.add_edge(source, sink, precedence);
}

/// `StackGraph::iter_files`: the number of files.
#[verifier::external_body]
fn file_count(graph: &StackGraph) -> (count: usize)
    ensures
        count == graph_files(*graph).len(),
{
    graph.iter_files().count()
}

/// `StackGraph::get_file`: whether the graph has a file of that name.
#[verifier::external_body]
fn has_file(graph: &StackGraph, name: &str) -> (found: bool)
    ensures
        found == graph_files(*graph).contains(name@),
{
    graph.get_file(name).is_some()
}

/// `StackGraph::iter_symbols`: the number of interned symbols.
#[verifier::external_body]
fn symbol_count(graph: &StackGraph) -> (count: usize)
    ensures
        count == graph_symbols(*graph).len(),
{
    graph.iter_symbols().count()
}

/// `StackGraph::iter_symbols`, with the text that each handle stands for: the interned symbols.
#[verifier::external_body]
fn interned_symbols(graph: &StackGraph) -> (symbols: Vec<String>)
    ensures
        symbols@.len() == graph_symbols(*graph).len(),
        forall|i: int|
            0 <= i < symbols@.len() ==> (#[trigger] symbols@[i])@ == graph_symbols(*graph)[i],
{
    graph.iter_symbols().map(|handle| graph[handle].to_string()).collect()
}

/// `StackGraph::iter_nodes`: the number of nodes.
#[verifier::external_body]
fn node_count(graph: &StackGraph) -> (count: usize)
    ensures
        count == graph_node_count(*graph),
{
    graph.iter_nodes().count()
}

/// `StackGraph::iter_files` with `Handle::as_u32` and the file that each handle stands for: the
/// files in order, numbered from one. A handle is a number of 32 bits that is not zero, so there
/// are no more files than that many.
#[verifier::external_body]
pub(crate) fn numbered_files(graph: &StackGraph) -> (files: Vec<(u32, String)>)
    ensures
        files@.len() == graph_files(*graph).len(),
        forall|i: int|
            0 <= i < files@.len() ==> (#[trigger] files@[i]).1@ == graph_files(*graph)[i],
        forall|i: int| 0 <= i < files@.len() ==> (#[trigger] files@[i]).0 == i + 1,
{
    graph.iter_files().map(|handle| (handle.as_u32(), graph[handle].to_string())).collect()
}

/// Whether the graph knows the file or has room for it.
pub fn file_fits(graph: &StackGraph, name: &str) -> (fits: bool)
    ensures
        fits == graph_model(*graph).has_file_room(name@),
{
    has_file(graph, name) || file_count(graph) < u32::MAX as usize
}

/// Adds a file to the graph, unless it is there, and says whether there is room for it.
pub fn enter_file(graph: &mut StackGraph, name: &str) -> (entered: bool)
    ensures
        entered == graph_model(*old(graph)).has_file_room(name@),
        graph_model(*final(graph)) == if entered {
            graph_model(*old(graph)).with_file(name@)
        } else {
            graph_model(*old(graph))
        },
        entered ==> graph_files(*final(graph)).contains(name@),
{
    if !file_fits(graph, name) {
        return false;
    }
    proof {
        lemma_with_file(graph_model(*graph), name@);
    }
    get_or_create_file(graph, name);
    true
}

/// What a list of texts says.
pub open spec fn texts_view(texts: Seq<&str>) -> Seq<Seq<char>> {
    texts.map_values(|text: &str| text@)
}

/// Whether one of the strings is that text.
fn holds_text(strings: &Vec<String>, text: &str) -> (found: bool)
    ensures
        found == exists|i: int| 0 <= i < strings@.len() && (#[trigger] strings@[i])@ == text@,
{
    for i in 0..strings.len()
        invariant
            forall|j: int| 0 <= j < i ==> (#[trigger] strings@[j])@ != text@,
    {
        if same_text(strings[i].as_str(), text) {
            return true;
        }
    }
    false
}

/// Counts the symbols that the graph has once those are interned.
pub fn count_interned(graph: &StackGraph, symbols: &Vec<&str>) -> (count: usize)
    ensures
        count == graph_model(*graph).with_symbols(texts_view(symbols@)).symbols.len(),
{
    let ghost before = graph_model(*graph);
    let ghost all = texts_view(symbols@);
    let mut interned = interned_symbols(graph);
    assert(strings_view(interned@) == before.symbols);
    for i in 0..symbols.len()
        invariant
            before == graph_model(*graph),
            all == texts_view(symbols@),
            strings_view(interned@) == before.with_symbols(all.take(i as int)).symbols,
    {
        let text = symbols[i];
        let ghost done = before.with_symbols(all.take(i as int)).symbols;
        let ghost listed = interned@;
        let known = holds_text(&interned, text);
        proof {
            assert(all.take(i + 1).drop_last() == all.take(i as int));
            assert(all.take(i + 1).last() == text@);
            if known {
                let at = choose|at: int|
                    0 <= at < listed.len() && (#[trigger] listed[at])@ == text@;
                assert(done[at] == text@);
            } else {
                assert forall|at: int| 0 <= at < done.len() implies done[at] != text@ by {
                    assert(done[at] == listed[at]@);
                }
            }
        }
        if !known {
            interned.push(text.to_string());
            assert(strings_view(interned@) == strings_view(listed).push(text@));
        }
    }
    assert(all.take(all.len() as int) == all);
    interned.len()
}

/// Whether the graph has room for those symbols. They are looked up only where there would be no
/// room for as many new ones.
fn symbols_fit(graph: &StackGraph, symbols: &Vec<&str>) -> (fits: bool)
    ensures
        fits == (graph_model(*graph).with_symbols(texts_view(symbols@)).symbols.len() <= u32::MAX),
{
    proof {
        lemma_with_symbols(graph_model(*graph), texts_view(symbols@));
    }
    let limit = u32::MAX as usize;
    let count = symbol_count(graph);
    if count <= limit && symbols.len() <= limit - count {
        return true;
    }
    count_interned(graph, symbols) <= limit
}

/// Whether the graph has room for those symbols, and for that many more nodes of a file.
pub fn definitions_fit(
    graph: &mut StackGraph,
    file: &str,
    symbols: &Vec<&str>,
    nodes: u64,
) -> (fits: bool)
    requires
        graph_files(*old(graph)).contains(file@),
    ensures
        graph_model(*final(graph)) == graph_model(*old(graph)),
        fits == graph_model(*old(graph)).has_room(file@, texts_view(symbols@), nodes as nat),
{
    if !symbols_fit(graph, symbols) {
        return false;
    }
    let limit = u32::MAX as u64;
    if nodes > limit || node_count(graph) as u64 > limit - nodes {
        return false;
    }
    let id = new_node_id(graph, file);
    let zero_is_taken = has_node(graph, file, 0);
    if id == 0 {
        if has_node(graph, file, u32::MAX) {
            return nodes == 0 || (nodes == 1 && !zero_is_taken);
        }
        return true;
    }
    let above = limit + 1 - id as u64;
    nodes <= above || (nodes == above + 1 && !zero_is_taken)
}

/// Adds the definition of a symbol to a file of the graph.
pub fn define_symbol(graph: &mut StackGraph, file: &str, symbol: &str, imported: bool)
    requires
        graph_files(*old(graph)).contains(file@),
        graph_model(*old(graph)).has_definition_room(file@, symbol@, imported),
    ensures
        graph_model(*final(graph)) == graph_model(*old(graph)).with_definition(
            file@,
            symbol@,
            imported,
        ),
{
    let ghost before = graph_model(*graph);
    proof {
        lemma_with_one_symbol(before, symbol@);
        lemma_with_symbol_contains(before, symbol@);
        lemma_definition_uses_free_ids(before, file@, symbol@, imported);
    }
    add_symbol(graph, symbol);
    let definition = new_node_id(graph, file);
    let added = add_pop_symbol_node(graph, file, definition, symbol, true);
    assert(added);
    let scope = new_node_id(graph, file);
    assert(scope == before.id_after(file@, 1));
    let added = add_scope_node(graph, file, scope, true);
    assert(added);
    add_edge(graph, file, definition, scope, 0);
    if imported {
        let reference = new_node_id(graph, file);
        assert(reference == before.id_after(file@, 2));
        let added = add_push_symbol_node(graph, file, reference, symbol, true);
        assert(added);
        add_edge(graph, file, scope, reference, 0);
    }
}

} // verus!
