//! Parsing, and the search of a syntax tree for definitions.

use crate::errors::{IndexError, IndexErrorView};
use crate::languages::{query_text, Grammar};
use crate::syntax::{
    is_type_specifier, nodes_view, SyntaxChild, SyntaxChildView, SyntaxNode, SyntaxNodeView,
};
use crate::text::{same_text, strings_view};
use streaming_iterator::StreamingIterator;
use tree_sitter as ts;
use tree_sitter::Language as GrammarTables;
use vstd::prelude::*;

verus! {

/// `tree_sitter::Language`: the tables of a grammar.
#[verifier::external_type_specification]
#[verifier::external_body]
pub struct ExGrammarTables(GrammarTables);

/// `tree_sitter::Tree`: the syntax tree of a source.
#[verifier::external_type_specification]
#[verifier::external_body]
pub struct ExTree(ts::Tree);

/// `tree_sitter::Node`: a node of a syntax tree.
#[verifier::external_type_specification]
#[verifier::external_body]
pub struct ExNode<'tree>(ts::Node<'tree>);

/// `tree_sitter::Query`: patterns of syntax nodes.
#[verifier::external_type_specification]
#[verifier::external_body]
pub struct ExQuery(ts::Query);

/// `tree_sitter::QueryError`: what is wrong with the text of a query.
#[verifier::external_type_specification]
#[verifier::external_body]
pub struct ExQueryError(ts::QueryError);

/// What a node says of itself: its kind, the bytes of the source that it spans, and the row on
/// which it starts.
pub struct NodeFacts {
    pub kind: Seq<char>,
    pub start_byte: nat,
    pub end_byte: nat,
    pub start_row: nat,
}

/// One capture of a query match: the number of its name, the node, and the node's ancestors from
/// the innermost to the outermost.
pub struct MatchedNode {
    pub index: u32,
    pub node: SyntaxNodeView,
    pub ancestors: Seq<SyntaxNodeView>,
}

/// The tables of the grammar of a language.
pub uninterp spec fn grammar_language(grammar: Grammar) -> GrammarTables;

/// The syntax tree that a source is parsed into.
pub uninterp spec fn parsed_tree(language: GrammarTables, source: Seq<char>) -> Option<ts::Tree>;

/// The query that a text is compiled into.
pub uninterp spec fn compiled_query(language: GrammarTables, text: Seq<char>) -> Result<
    ts::Query,
    ts::QueryError,
>;

/// How a query error reads.
pub uninterp spec fn query_error_text(error: ts::QueryError) -> Seq<char>;

/// The names of the captures of a query, by their numbers.
pub uninterp spec fn query_capture_names(query: ts::Query) -> Seq<Seq<char>>;

/// The matches of a query in a tree, in the order in which they are found, each with its captures.
pub uninterp spec fn query_matches(query: ts::Query, tree: ts::Tree, source: Seq<char>) -> Seq<
    Seq<MatchedNode>,
>;

/// What a node says of itself.
pub uninterp spec fn node_facts(node: ts::Node) -> NodeFacts;

/// The children of a node, at each index below their number.
pub uninterp spec fn node_children(node: ts::Node) -> Seq<Option<SyntaxChildView>>;

/// The nodes around a node, from the innermost to the outermost.
pub uninterp spec fn node_ancestors(node: ts::Node) -> Seq<SyntaxNodeView>;

/// The children that are there.
pub open spec fn present_children(children: Seq<Option<SyntaxChildView>>) -> Seq<SyntaxChildView>
    decreases children.len(),
{
    if children.len() == 0 {
        seq![]
    } else {
        match children.last() {
            Some(child) => present_children(children.drop_last()).push(child),
            None => present_children(children.drop_last()),
        }
    }
}

/// What is kept of a node.
pub open spec fn node_view(node: ts::Node) -> SyntaxNodeView {
    let facts = node_facts(node);
    SyntaxNodeView {
        kind: facts.kind,
        start_byte: facts.start_byte,
        end_byte: facts.end_byte,
        start_row: facts.start_row,
        children: if is_type_specifier(facts.kind) {
            present_children(node_children(node))
        } else {
            seq![]
        },
    }
}

/// `tree_sitter_rust::LANGUAGE`.
#[verifier::external_body]
fn rust_language() -> (language: GrammarTables)
    ensures
        language == grammar_language(Grammar::Rust),
{
    tree_sitter_rust::LANGUAGE.into()
}

/// `tree_sitter_cpp::LANGUAGE`.
#[verifier::external_body]
fn cpp_language() -> (language: GrammarTables)
    ensures
        language == grammar_language(Grammar::Cpp),
{
    tree_sitter_cpp::LANGUAGE.into()
}

/// `tree_sitter_go::LANGUAGE`.
#[verifier::external_body]
fn go_language() -> (language: GrammarTables)
    ensures
        language == grammar_language(Grammar::Go),
{
    tree_sitter_go::LANGUAGE.into()
}

/// `tree_sitter_ruby::LANGUAGE`.
#[verifier::external_body]
fn ruby_language() -> (language: GrammarTables)
    ensures
        language == grammar_language(Grammar::Ruby),
{
    tree_sitter_ruby::LANGUAGE.into()
}

/// `tree_sitter_javascript::LANGUAGE`.
#[verifier::external_body]
fn javascript_language() -> (language: GrammarTables)
    ensures
        language == grammar_language(Grammar::JavaScript),
{
    tree_sitter_javascript::LANGUAGE.into()
}

/// `tree_sitter_python::LANGUAGE`.
#[verifier::external_body]
fn python_language() -> (language: GrammarTables)
    ensures
        language == grammar_language(Grammar::Python),
{
    tree_sitter_python::LANGUAGE.into()
}

/// `tree_sitter::Parser::parse`, with a new parser for the language: the tree is a function of
/// the language and the source, as neither an older tree nor a limit is given.
#[verifier::external_body]
fn parse_text(language: &GrammarTables, source: &str) -> (tree: Option<ts::Tree>)
    ensures
        tree == parsed_tree(*language, source@),
{
    let mut parser = ts::Parser::new();
    parser.set_language(language).ok()?;
    parser.parse(source, None)
}

/// `tree_sitter::Query::new`, on a query of this library.
#[verifier::external_body]
fn compile_query(language: &GrammarTables, text: &str) -> (query: Result<ts::Query, ts::QueryError>)
    requires
        exists|grammar: Grammar| text@ == query_text(grammar),
    ensures
        query == compiled_query(*language, text@),
{
    ts::Query::new(language, text)
}

/// How a `tree_sitter::QueryError` is displayed.
#[verifier::external_body]
fn describe_query_error(error: &ts::QueryError) -> (text: String)
    ensures
        text@ == query_error_text(*error),
{
    error.to_string()
}

/// `tree_sitter::Query::capture_names`.
#[verifier::external_body]
fn capture_names(query: &ts::Query) -> (names: Vec<String>)
    ensures
        names@.len() == query_capture_names(*query).len(),
        forall|i: int|
            0 <= i < names@.len() ==> (#[trigger] names@[i])@ == query_capture_names(*query)[i],
{
    query.capture_names().iter().map(|name| name.to_string()).collect()
}

/// Whether a query was compiled from one of the library's own texts.
pub open spec fn is_own_query(query: ts::Query) -> bool {
    exists|language: GrammarTables, grammar: Grammar| #[trigger]
        compiled_query(language, query_text(grammar)) == Ok::<ts::Query, ts::QueryError>(query)
}

/// `tree_sitter::QueryCursor::matches` from the root of a tree: for each match the number and the
/// node of each capture. Only the predicates of a query read the source, and the library's own
/// queries hold none, so that the source may be shorter than the one the tree was parsed from.
#[verifier::external_body]
fn find_matches<'t>(query: &ts::Query, tree: &'t ts::Tree, source: &str) -> (found: Vec<
    Vec<(u32, ts::Node<'t>)>,
>)
    requires
        is_own_query(*query),
    ensures
        found@.len() == query_matches(*query, *tree, source@).len(),
        forall|i: int|
            0 <= i < found@.len() ==> (#[trigger] found@[i])@.len() == query_matches(
                *query,
                *tree,
                source@,
            )[i].len(),
        forall|i: int, j: int|
            0 <= i < found@.len() && 0 <= j < found@[i]@.len() ==> matched_node(
                #[trigger] found@[i]@[j],
            ) == query_matches(*query, *tree, source@)[i][j],
{
    let mut cursor = ts::QueryCursor::new();
    let matches = cursor.matches(query, tree.root_node(), source.as_bytes());
    matches.map_deref(|m| m.captures.iter().map(|c| (c.index, c.node)).collect()).collect()
}

/// What is known of a capture.
pub open spec fn matched_node(capture: (u32, ts::Node)) -> MatchedNode {
    MatchedNode {
        index: capture.0,
        node: node_view(capture.1),
        ancestors: node_ancestors(capture.1),
    }
}

/// `tree_sitter::Node::kind`, `start_byte`, `end_byte` and `start_position`.
#[verifier::external_body]
fn describe_node(node: ts::Node) -> (described: SyntaxNode)
    ensures
        described.kind@ == node_facts(node).kind,
        described.start_byte == node_facts(node).start_byte,
        described.end_byte == node_facts(node).end_byte,
        described.start_row == node_facts(node).start_row,
        described.children@.len() == 0,
{
    SyntaxNode {
        kind: node.kind().to_string(),
        start_byte: node.start_byte(),
        end_byte: node.end_byte(),
        start_row: node.start_position().row,
        children: Vec::new(),
    }
}

/// `tree_sitter::Node::parent`: the innermost node around a node. Above the root there is none.
#[verifier::external_body]
fn node_parent<'t>(node: ts::Node<'t>) -> (parent: Option<ts::Node<'t>>)
    ensures
        match parent {
            Some(parent) => node_ancestors(node) == seq![node_view(parent)] + node_ancestors(
                parent,
            ),
            None => node_ancestors(node).len() == 0,
        },
{
    node.parent()
}

/// `tree_sitter::Node::child_count`.
#[verifier::external_body]
fn child_count(node: ts::Node) -> (count: usize)
    ensures
        count == node_children(node).len(),
{
    node.child_count()
}

/// `tree_sitter::Node::child`.
#[verifier::external_body]
fn node_child<'t>(node: ts::Node<'t>, i: usize) -> (child: Option<ts::Node<'t>>)
    requires
        i < node_children(node).len(),
    ensures
        node_children(node)[i as int] == match child {
            Some(child) => Some(
                SyntaxChildView {
                    kind: node_facts(child).kind,
                    start_byte: node_facts(child).start_byte,
                    end_byte: node_facts(child).end_byte,
                },
            ),
            None => None,
        },
{
    node.child(i)
}

/// The tables of the grammar of a language.
fn load_grammar(grammar: Grammar) -> (language: GrammarTables)
    ensures
        language == grammar_language(grammar),
{
    match grammar {
        Grammar::Rust => rust_language(),
        Grammar::Cpp => cpp_language(),
        Grammar::Go => go_language(),
        Grammar::Ruby => ruby_language(),
        Grammar::JavaScript => javascript_language(),
        Grammar::Python => python_language(),
    }
}

/// Parses a source.
pub fn parse_source(grammar: Grammar, source: &str) -> (tree: Option<ts::Tree>)
    ensures
        tree == parsed_tree(grammar_language(grammar), source@),
{
    parse_text(&load_grammar(grammar), source)
}

/// Reads off a node what is kept of it.
fn read_node(node: ts::Node) -> (read: SyntaxNode)
    ensures
        read@ == node_view(node),
{
    let described = describe_node(node);
    let kind = described.kind.as_str();
    let mut children: Vec<SyntaxChild> = Vec::new();
    let ghost all = node_children(node);
    if same_text(kind, "class_specifier") || same_text(kind, "struct_specifier") {
        let count = child_count(node);
        for i in 0..count
            invariant
                all == node_children(node),
                count == all.len(),
                children@.map_values(|child: SyntaxChild| child@) == present_children(
                    all.take(i as int),
                ),
        {
            let ghost before = children@;
            proof {
                assert(all.take(i + 1).drop_last() == all.take(i as int));
                assert(all.take(i + 1).last() == all[i as int]);
            }
            match node_child(node, i) {
                Some(child) => {
                    let child = describe_node(child);
                    let child = SyntaxChild {
                        kind: child.kind,
                        start_byte: child.start_byte,
                        end_byte: child.end_byte,
                    };
                    children.push(child);
                    assert(children@.map_values(|child: SyntaxChild| child@)
                        == before.map_values(|child: SyntaxChild| child@).push(child@));
                },
                None => {},
            }
        }
        assert(all.take(count as int) == all);
    }
    let read = SyntaxNode {
        kind: described.kind,
        start_byte: described.start_byte,
        end_byte: described.end_byte,
        start_row: described.start_row,
        children,
    };
    assert(read@ =~= node_view(node));
    read
}

/// Reads off the nodes around a node what is kept of them, from the innermost to the outermost.
fn read_ancestors(node: ts::Node) -> (read: Vec<SyntaxNode>)
    ensures
        nodes_view(read@) == node_ancestors(node),
{
    let mut read: Vec<SyntaxNode> = Vec::new();
    let mut current = node;
    assert(nodes_view(read@) + node_ancestors(node) == node_ancestors(node));
    loop
        invariant
            nodes_view(read@) + node_ancestors(current) == node_ancestors(node),
        ensures
            nodes_view(read@) == node_ancestors(node),
        decreases node_ancestors(current).len(),
    {
        match node_parent(current) {
            Some(parent) => {
                let ghost before = read@;
                read.push(read_node(parent));
                proof {
                    assert(nodes_view(read@) == nodes_view(before).push(node_view(parent)));
                    assert(nodes_view(before) + node_ancestors(current) == nodes_view(read@)
                        + node_ancestors(parent));
                }
                current = parent;
            },
            None => {
                assert(nodes_view(read@) + node_ancestors(current) == nodes_view(read@));
                break;
            },
        }
    }
    read
}

/// Something that a query captured: under which name, which node, and the nodes around it from
/// the innermost to the outermost, where they are wanted.
#[derive(Debug)]
pub struct Capture {
    pub name: String,
    pub node: SyntaxNode,
    pub ancestors: Vec<SyntaxNode>,
}

/// What is known of something that a query captured.
#[verifier::ext_equal]
pub struct CaptureView {
    pub name: Seq<char>,
    pub node: SyntaxNodeView,
    pub ancestors: Seq<SyntaxNodeView>,
}

impl View for Capture {
    type V = CaptureView;

    open spec fn view(&self) -> CaptureView {
        CaptureView {
            name: self.name@,
            node: self.node@,
            ancestors: nodes_view(self.ancestors@),
        }
    }
}

/// What is known of a list of captures.
pub open spec fn captures_view(captures: Seq<Capture>) -> Seq<CaptureView> {
    captures.map_values(|capture: Capture| capture@)
}

/// The captures of all matches, one match after the other.
pub open spec fn all_matched(matches: Seq<Seq<MatchedNode>>) -> Seq<MatchedNode>
    decreases matches.len(),
{
    if matches.len() == 0 {
        seq![]
    } else {
        all_matched(matches.drop_last()) + matches.last()
    }
}

/// Whether every capture has a name.
pub open spec fn all_named(names: Seq<Seq<char>>, matched: Seq<MatchedNode>) -> bool {
    forall|i: int| 0 <= i < matched.len() ==> (#[trigger] matched[i]).index < names.len()
}

/// The captures under their names.
pub open spec fn named_captures(
    names: Seq<Seq<char>>,
    matched: Seq<MatchedNode>,
    with_ancestors: bool,
) -> Seq<CaptureView> {
    matched.map_values(
        |m: MatchedNode|
            CaptureView {
                name: names[m.index as int],
                node: m.node,
                ancestors: if with_ancestors {
                    m.ancestors
                } else {
                    seq![]
                },
            },
    )
}

/// Whether the rules of a language look at the nodes around a name.
pub open spec fn looks_around(grammar: Grammar) -> bool {
    grammar == Grammar::Cpp
}

/// What the search of a tree for the definitions of a language comes to.
pub open spec fn found_captures(grammar: Grammar, tree: ts::Tree, source: Seq<char>) -> Result<
    Seq<CaptureView>,
    IndexErrorView,
> {
    match compiled_query(grammar_language(grammar), query_text(grammar)) {
        Err(error) => Err(IndexErrorView::InvalidQuery(seq![query_error_text(error)])),
        Ok(query) => {
            let names = query_capture_names(query);
            let matched = all_matched(query_matches(query, tree, source));
            if all_named(names, matched) {
                Ok(named_captures(names, matched, looks_around(grammar)))
            } else {
                Err(IndexErrorView::CaptureOutOfRange)
            }
        },
    }
}

/// Runs a query and puts what it finds under the names of its captures.
fn run_query(query: &ts::Query, tree: &ts::Tree, source: &str, with_ancestors: bool) -> (captures:
    Option<Vec<Capture>>)
    requires
        is_own_query(*query),
    ensures
        ({
            let names = query_capture_names(*query);
            let matched = all_matched(query_matches(*query, *tree, source@));
            match captures {
                Some(captures) => all_named(names, matched) && captures_view(captures@)
                    == named_captures(names, matched, with_ancestors),
                None => !all_named(names, matched),
            }
        }),
{
    let names = capture_names(query);
    let found = find_matches(query, tree, source);
    let ghost all_names = query_capture_names(*query);
    let ghost wanted = query_matches(*query, *tree, source@);
    let mut captures: Vec<Capture> = Vec::new();
    for i in 0..found.len()
        invariant
            all_names == query_capture_names(*query),
            wanted == query_matches(*query, *tree, source@),
            found@.len() == wanted.len(),
            forall|i: int|
                0 <= i < found@.len() ==> (#[trigger] found@[i])@.len() == wanted[i].len(),
            forall|i: int, j: int|
                0 <= i < found@.len() && 0 <= j < found@[i]@.len() ==> matched_node(
                    #[trigger] found@[i]@[j],
                ) == wanted[i][j],
            names@.len() == all_names.len(),
            forall|i: int| 0 <= i < names@.len() ==> (#[trigger] names@[i])@ == all_names[i],
            all_named(all_names, all_matched(wanted.take(i as int))),
            captures_view(captures@) == named_captures(
                all_names,
                all_matched(wanted.take(i as int)),
                with_ancestors,
            ),
    {
        let ghost done = all_matched(wanted.take(i as int));
        let ghost current = wanted[i as int];
        proof {
            assert(wanted.take(i + 1).drop_last() == wanted.take(i as int));
            assert(wanted.take(i + 1).last() == current);
            assert(done + current.take(0) == done);
            lemma_matched_prefix(wanted, i as int);
        }
        let row = &found[i];
        for j in 0..row.len()
            invariant
                all_names == query_capture_names(*query),
                wanted == query_matches(*query, *tree, source@),
                i < wanted.len(),
                row@.len() == current.len(),
                forall|j: int|
                    0 <= j < row@.len() ==> matched_node(#[trigger] row@[j]) == current[j],
                names@.len() == all_names.len(),
                forall|i: int| 0 <= i < names@.len() ==> (#[trigger] names@[i])@ == all_names[i],
                done == all_matched(wanted.take(i as int)),
                forall|k: int|
                    0 <= k < current.len() ==> #[trigger] all_matched(wanted)[done.len() + k]
                        == current[k],
                done.len() + current.len() <= all_matched(wanted).len(),
                all_named(all_names, done + current.take(j as int)),
                captures_view(captures@) == named_captures(
                    all_names,
                    done + current.take(j as int),
                    with_ancestors,
                ),
        {
            let (index, node) = row[j];
            proof {
                assert(matched_node(row@[j as int]) == current[j as int]);
                assert(done + current.take(j + 1) == (done + current.take(j as int)).push(
                    current[j as int],
                ));
            }
            if index as usize >= names.len() {
                proof {
                    assert(all_matched(wanted)[done.len() + j] == current[j as int]);
                }
                return None;
            }
            let ghost before = captures@;
            let capture = Capture {
                name: names[index as usize].clone(),
                node: read_node(node),
                ancestors: if with_ancestors {
                    read_ancestors(node)
                } else {
                    Vec::new()
                },
            };
            captures.push(capture);
            proof {
                assert(captures_view(captures@) == captures_view(before).push(capture@));
                assert(capture@ =~= named_captures(
                    all_names,
                    seq![current[j as int]],
                    with_ancestors,
                )[0]);
                assert(named_captures(
                    all_names,
                    done + current.take(j + 1),
                    with_ancestors,
                ) == named_captures(all_names, done + current.take(j as int), with_ancestors).push(
                    capture@,
                ));
            }
        }
        assert(current.take(current.len() as int) == current);
    }
    assert(wanted.take(wanted.len() as int) == wanted);
    Some(captures)
}

/// The captures of one match stand in a row among those of all matches.
proof fn lemma_matched_prefix(matches: Seq<Seq<MatchedNode>>, at: int)
    requires
        0 <= at < matches.len(),
    ensures
        all_matched(matches.take(at)).len() + matches[at].len() <= all_matched(matches).len(),
        forall|k: int|
            0 <= k < matches[at].len() ==> #[trigger] all_matched(matches)[all_matched(
                matches.take(at),
            ).len() + k] == matches[at][k],
    decreases matches.len(),
{
    let rest = matches.drop_last();
    if at == matches.len() - 1 {
        assert(matches.take(at) == rest);
    } else {
        lemma_matched_prefix(rest, at);
        assert(rest.take(at) == matches.take(at));
    }
}

/// Searches a tree for the definitions of a language.
pub fn find_captures(grammar: Grammar, tree: &ts::Tree, source: &str) -> (found: Result<
    Vec<Capture>,
    IndexError,
>)
    ensures
        match found {
            Ok(captures) => found_captures(grammar, *tree, source@) == Ok::<
                Seq<CaptureView>,
                IndexErrorView,
            >(captures_view(captures@)),
            Err(error) => found_captures(grammar, *tree, source@) == Err::<
                Seq<CaptureView>,
                IndexErrorView,
            >(error@),
        },
{
    let language = load_grammar(grammar);
    match compile_query(&language, grammar.query()) {
        Err(error) => {
            let mut messages: Vec<String> = Vec::new();
            messages.push(describe_query_error(&error));
            assert(strings_view(messages@) == seq![query_error_text(error)]);
            Err(IndexError::InvalidQuery(messages))
        },
        Ok(query) => {
            let around = match grammar {
                Grammar::Cpp => true,
                _ => false,
            };
            match run_query(&query, tree, source, around) {
                Some(captures) => Ok(captures),
                None => Err(IndexError::CaptureOutOfRange),
            }
        },
    }
}

} // verus!
