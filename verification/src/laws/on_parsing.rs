//! Laws on what is kept of a syntax tree and on the search of it.

use crate::errors::IndexErrorView;
use crate::languages::{query_text, Grammar};
use crate::laws::on_syntax::{is_nameless, is_type_name};
use crate::parsing::{
    all_matched, compiled_query, found_captures, grammar_language, node_children, node_facts,
    node_view, present_children, query_capture_names, query_error_text, query_matches,
    CaptureView, MatchedNode,
};
use crate::syntax::SyntaxChildView;
use tree_sitter as ts;
use vstd::prelude::*;

verus! {

/// The children that are there are all of them, in order, and no others.
pub proof fn law_present_children(
    first: Seq<Option<SyntaxChildView>>,
    second: Seq<Option<SyntaxChildView>>,
)
    ensures
        present_children(first + second) == present_children(first) + present_children(second),
        first.len() == 0 ==> present_children(first).len() == 0,
        first.len() == 1 ==> present_children(first) == match first[0] {
            Some(child) => seq![child],
            None => seq![],
        },
    decreases second.len(),
{
    if second.len() == 0 {
        assert(first + second == first);
        assert(present_children(first) + present_children(second) == present_children(first));
    } else {
        assert((first + second).drop_last() == first + second.drop_last());
        assert((first + second).last() == second.last());
        law_present_children(first, second.drop_last());
        assert(present_children(first + second) == present_children(first) + present_children(
            second,
        ));
    }
    if first.len() == 1 {
        assert(first.drop_last().len() == 0);
        assert(present_children(first.drop_last()) == Seq::<SyntaxChildView>::empty());
    }
}

/// A node is kept with its kind and its place and, where it is a class or a struct, with all its
/// children that are there.
pub proof fn law_kept_node(node: ts::Node)
    ensures
        node_view(node).kind == node_facts(node).kind,
        node_view(node).start_byte == node_facts(node).start_byte,
        node_view(node).end_byte == node_facts(node).end_byte,
        node_view(node).start_row == node_facts(node).start_row,
        node_facts(node).kind == "class_specifier"@ ==> node_view(node).children
            == present_children(node_children(node)),
        node_facts(node).kind == "struct_specifier"@ ==> node_view(node).children
            == present_children(node_children(node)),
{
}

/// Whether none of the children that are there names a type.
pub open spec fn names_no_type(children: Seq<Option<SyntaxChildView>>) -> bool {
    forall|i: int|
        0 <= i < children.len() ==> match #[trigger] children[i] {
            Some(child) => child.kind != "type_identifier"@,
            None => true,
        }
}

proof fn lemma_names_no_type(children: Seq<Option<SyntaxChildView>>)
    requires
        names_no_type(children),
    ensures
        is_nameless(present_children(children)),
    decreases children.len(),
{
    if children.len() > 0 {
        let rest = children.drop_last();
        assert forall|i: int| 0 <= i < rest.len() implies match #[trigger] rest[i] {
            Some(child) => child.kind != "type_identifier"@,
            None => true,
        } by {
            assert(rest[i] == children[i]);
        }
        lemma_names_no_type(rest);
        assert(children[children.len() - 1] == children.last());
    }
}

/// The first of a node's children that names a type is the first one that is kept.
pub proof fn lemma_kept_type_name(
    before: Seq<Option<SyntaxChildView>>,
    name: SyntaxChildView,
    after: Seq<Option<SyntaxChildView>>,
)
    requires
        names_no_type(before),
        name.kind == "type_identifier"@,
    ensures
        ({
            let kept = present_children(before + seq![Some(name)] + after);
            let at = present_children(before).len() as int;
            is_type_name(kept, at) && kept[at] == name
        }),
{
    law_present_children(before, seq![Some(name)]);
    law_present_children(before + seq![Some(name)], after);
    law_present_children(seq![Some(name)], after);
    lemma_names_no_type(before);
    let kept = present_children(before + seq![Some(name)] + after);
    let front = present_children(before);
    assert(kept == front + seq![name] + present_children(after));
    assert forall|i: int| 0 <= i < front.len() implies (#[trigger] kept[i]).kind
        != "type_identifier"@ by {
        assert(kept[i] == front[i]);
    }
}

/// A class or a struct whose children name no type is kept without such a child.
pub proof fn lemma_kept_nameless(children: Seq<Option<SyntaxChildView>>)
    requires
        names_no_type(children),
    ensures
        is_nameless(present_children(children)),
{
    lemma_names_no_type(children);
}

/// The captures of all matches are those of each match, one match after the other.
pub proof fn law_all_matched(first: Seq<Seq<MatchedNode>>, second: Seq<Seq<MatchedNode>>)
    ensures
        all_matched(first + second) == all_matched(first) + all_matched(second),
        first.len() == 0 ==> all_matched(first).len() == 0,
        first.len() == 1 ==> all_matched(first) == first[0],
    decreases second.len(),
{
    if second.len() == 0 {
        assert(first + second == first);
        assert(all_matched(first) + all_matched(second) == all_matched(first));
    } else {
        assert((first + second).drop_last() == first + second.drop_last());
        law_all_matched(first, second.drop_last());
        assert(all_matched(first + second) == all_matched(first) + all_matched(second));
    }
    if first.len() == 1 {
        assert(first.drop_last().len() == 0);
        assert(all_matched(first.drop_last()) == Seq::<MatchedNode>::empty());
        assert(first.last() == first[0]);
        assert(all_matched(first) == first[0]);
    }
}

/// A search finds every capture of every match, under the name that its number stands for, with
/// its node and, in C++, with the nodes around it.
pub proof fn law_search_finds_all(
    grammar: Grammar,
    tree: ts::Tree,
    source: Seq<char>,
    query: ts::Query,
)
    requires
        compiled_query(grammar_language(grammar), query_text(grammar)) == Ok::<
            ts::Query,
            ts::QueryError,
        >(query),
        forall|i: int|
            0 <= i < all_matched(query_matches(query, tree, source)).len() ==> (
            #[trigger] all_matched(query_matches(query, tree, source))[i]).index
                < query_capture_names(query).len(),
    ensures
        ({
            let matched = all_matched(query_matches(query, tree, source));
            let names = query_capture_names(query);
            let found = found_captures(grammar, tree, source);
            &&& found is Ok
            &&& found->Ok_0.len() == matched.len()
            &&& forall|i: int|
                0 <= i < matched.len() ==> {
                    let capture = #[trigger] found->Ok_0[i];
                    &&& capture.name == names[matched[i].index as int]
                    &&& capture.node == matched[i].node
                    &&& grammar == Grammar::Cpp ==> capture.ancestors == matched[i].ancestors
                }
        }),
{
}

/// A capture whose number stands for no name is an error.
pub proof fn law_unnamed_capture(
    grammar: Grammar,
    tree: ts::Tree,
    source: Seq<char>,
    query: ts::Query,
    at: int,
)
    requires
        compiled_query(grammar_language(grammar), query_text(grammar)) == Ok::<
            ts::Query,
            ts::QueryError,
        >(query),
        0 <= at < all_matched(query_matches(query, tree, source)).len(),
        all_matched(query_matches(query, tree, source))[at].index >= query_capture_names(
            query,
        ).len(),
    ensures
        found_captures(grammar, tree, source) == Err::<Seq<CaptureView>, IndexErrorView>(
            IndexErrorView::CaptureOutOfRange,
        ),
{
}

/// A query that does not fit its grammar is an error, with what is wrong with it.
pub proof fn law_search_fails(
    grammar: Grammar,
    tree: ts::Tree,
    source: Seq<char>,
    error: ts::QueryError,
)
    requires
        compiled_query(grammar_language(grammar), query_text(grammar)) == Err::<
            ts::Query,
            ts::QueryError,
        >(error),
    ensures
        found_captures(grammar, tree, source) == Err::<Seq<CaptureView>, IndexErrorView>(
            IndexErrorView::InvalidQuery(seq![query_error_text(error)]),
        ),
{
}

} // verus!
