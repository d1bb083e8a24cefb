//! Laws on what is read off the syntax around a name.

use crate::laws::on_text::{
    law_first_at, law_parts, law_replaced_first, law_replaced_nothing, law_trimmed,
};
use crate::laws::{all_white, holds, is_bare, stands_at};
use crate::syntax::{
    enclosing_type_name, is_type_specifier,
    lemma_enclosing_type_is_innermost, lemma_no_enclosing_type,
    lemma_signature_node_is_innermost_template, lemma_signature_node_is_outermost_declaration,
    lemma_signature_node_is_own_node, qualified_signature, signature_node, signature_text,
    type_identifier, SyntaxChildView, SyntaxNodeView,
};
use crate::text::{byte_slice, first_at};
use vstd::prelude::*;

verus! {

/// A signature is all that the text of a node holds before its first brace, without the white
/// space around it.
pub proof fn law_signature(
    source: Seq<char>,
    start: int,
    end: int,
    before: Seq<char>,
    signature: Seq<char>,
    after: Seq<char>,
    body: Seq<char>,
)
    requires
        all_white(before),
        is_bare(signature),
        all_white(after),
        !(before + signature + after).contains('{'),
        body.len() > 0 ==> body[0] == '{',
        byte_slice(source, start, end) == Some(before + signature + after + body),
    ensures
        signature_text(source, start, end) == if signature.len() > 0 {
            Some(signature)
        } else {
            None
        },
{
    let head = before + signature + after;
    let text = head + body;
    law_trimmed(before, signature, after);
    law_first_at(text, "{"@);
    reveal_strlit("{");
    assert forall|i: int| 0 <= i < head.len() implies !#[trigger] stands_at(text, "{"@, i) by {
        assert(head.contains(head[i]));
        assert(text[i] == head[i]);
        assert(text.subrange(i, i + 1)[0] == text[i]);
    }
    if body.len() > 0 {
        let at = head.len() as int;
        assert(text.subrange(at, at + 1) == "{"@);
        assert(stands_at(text, "{"@, at));
        assert(first_at(text, "{"@, 0) == Some(at));
        assert(text.take(at) == head);
    } else {
        assert(text == head);
        assert(!holds(text, "{"@));
        assert(first_at(text, "{"@, 0) is None);
    }
}

/// There is no signature where a node has no text in the source.
pub proof fn law_no_signature(source: Seq<char>, start: int, end: int)
    requires
        byte_slice(source, start, end) is None,
    ensures
        signature_text(source, start, end) is None,
{
}

/// Whether nodes of that kind declare or define what is named in them.
pub open spec fn declares(kind: Seq<char>) -> bool {
    kind == "function_definition"@ || kind == "declaration"@ || kind == "field_declaration"@
}

/// The signature of a name stands on the innermost template around it; without one, on the
/// outermost definition or declaration around it; without one, on the name itself.
pub proof fn law_signature_node(node: SyntaxNodeView, ancestors: Seq<SyntaxNodeView>, at: int)
    ensures
        0 <= at < ancestors.len() && ancestors[at].kind == "template_declaration"@ && (forall|
            i: int,
        |
            0 <= i < at ==> (#[trigger] ancestors[i]).kind != "template_declaration"@)
            ==> signature_node(node, ancestors) == ancestors[at],
        0 <= at < ancestors.len() && declares(ancestors[at].kind) && (forall|i: int|
            0 <= i < ancestors.len() ==> (#[trigger] ancestors[i]).kind
                != "template_declaration"@) && (forall|i: int|
            at < i < ancestors.len() ==> !declares((#[trigger] ancestors[i]).kind))
            ==> signature_node(node, ancestors) == ancestors[at],
        (forall|i: int|
            0 <= i < ancestors.len() ==> (#[trigger] ancestors[i]).kind
                != "template_declaration"@ && !declares(ancestors[i].kind)) ==> signature_node(
            node,
            ancestors,
        ) == node,
{
    if 0 <= at < ancestors.len() && ancestors[at].kind == "template_declaration"@ && (forall|i: int|
        0 <= i < at ==> (#[trigger] ancestors[i]).kind != "template_declaration"@) {
        lemma_signature_node_is_innermost_template(node, ancestors, at);
    }
    if 0 <= at < ancestors.len() && declares(ancestors[at].kind) && (forall|i: int|
        0 <= i < ancestors.len() ==> (#[trigger] ancestors[i]).kind != "template_declaration"@) && (
    forall|i: int| at < i < ancestors.len() ==> !declares((#[trigger] ancestors[i]).kind)) {
        lemma_signature_node_is_outermost_declaration(node, ancestors, at);
    }
    if forall|i: int|
        0 <= i < ancestors.len() ==> (#[trigger] ancestors[i]).kind != "template_declaration"@
            && !declares(ancestors[i].kind) {
        lemma_signature_node_is_own_node(node, ancestors);
    }
}

/// Whether a node is a class or a struct.
pub open spec fn is_type_node(node: SyntaxNodeView) -> bool {
    node.kind == "class_specifier"@ || node.kind == "struct_specifier"@
}

/// Whether `at` is the first child that names a type.
pub open spec fn is_type_name(children: Seq<SyntaxChildView>, at: int) -> bool {
    &&& 0 <= at < children.len()
    &&& children[at].kind == "type_identifier"@
    &&& forall|i: int| 0 <= i < at ==> (#[trigger] children[i]).kind != "type_identifier"@
}

/// Whether none of the children names a type.
pub open spec fn is_nameless(children: Seq<SyntaxChildView>) -> bool {
    forall|i: int| 0 <= i < children.len() ==> (#[trigger] children[i]).kind != "type_identifier"@
}

proof fn lemma_type_name(children: Seq<SyntaxChildView>, at: int)
    requires
        is_type_name(children, at),
    ensures
        type_identifier(children) == Some(children[at]),
    decreases at,
{
    if at > 0 {
        let rest = children.skip(1);
        assert(rest[at - 1] == children[at]);
        assert forall|i: int| 0 <= i < at - 1 implies (#[trigger] rest[i]).kind
            != "type_identifier"@ by {
            assert(rest[i] == children[i + 1]);
        }
        lemma_type_name(rest, at - 1);
    }
}

proof fn lemma_nameless(children: Seq<SyntaxChildView>)
    requires
        is_nameless(children),
    ensures
        type_identifier(children) is None,
    decreases children.len(),
{
    if children.len() > 0 {
        let rest = children.skip(1);
        assert forall|i: int| 0 <= i < rest.len() implies (#[trigger] rest[i]).kind
            != "type_identifier"@ by {
            assert(rest[i] == children[i + 1]);
        }
        lemma_nameless(rest);
    }
}

/// The innermost class or struct with a name encloses, and its name is the text of its first child
/// that names a type.
pub proof fn law_enclosing_type(
    source: Seq<char>,
    ancestors: Seq<SyntaxNodeView>,
    at: int,
    name: int,
)
    requires
        0 <= at < ancestors.len(),
        is_type_node(ancestors[at]),
        is_type_name(ancestors[at].children, name),
        forall|i: int|
            0 <= i < at ==> !is_type_node(#[trigger] ancestors[i]) || is_nameless(
                ancestors[i].children,
            ),
    ensures
        enclosing_type_name(source, ancestors) == byte_slice(
            source,
            ancestors[at].children[name].start_byte as int,
            ancestors[at].children[name].end_byte as int,
        ),
{
    lemma_type_name(ancestors[at].children, name);
    assert forall|i: int| 0 <= i < at implies !is_type_specifier((#[trigger] ancestors[i]).kind)
        || type_identifier(ancestors[i].children) is None by {
        if is_type_node(ancestors[i]) {
            lemma_nameless(ancestors[i].children);
        }
    }
    lemma_enclosing_type_is_innermost(source, ancestors, at);
}

/// Where no class or struct around has a name, nothing encloses.
pub proof fn law_no_enclosing_type(source: Seq<char>, ancestors: Seq<SyntaxNodeView>)
    requires
        forall|i: int|
            0 <= i < ancestors.len() ==> !is_type_node(#[trigger] ancestors[i]) || is_nameless(
                ancestors[i].children,
            ),
    ensures
        enclosing_type_name(source, ancestors) is None,
{
    assert forall|i: int| 0 <= i < ancestors.len() implies !is_type_specifier(
        (#[trigger] ancestors[i]).kind,
    ) || type_identifier(ancestors[i].children) is None by {
        if is_type_node(ancestors[i]) {
            lemma_nameless(ancestors[i].children);
        }
    }
    lemma_no_enclosing_type(source, ancestors);
}

/// In a signature without a qualifier the leftmost mention of the name becomes the qualified name,
/// and all around it stays.
pub proof fn law_qualified_signature(
    before: Seq<char>,
    name: Seq<char>,
    after: Seq<char>,
    qualified_name: Seq<char>,
)
    requires
        !holds(before + name + after, "::"@),
        forall|i: int|
            0 <= i < before.len() ==> !#[trigger] stands_at(before + name + after, name, i),
    ensures
        qualified_signature(Some(before + name + after), name, qualified_name) == Some(
            before + qualified_name + after,
        ),
{
    law_parts(before + name + after, "::"@);
    law_replaced_first(before, name, after, qualified_name);
}

/// A signature that has a qualifier, or does not mention the name, stays as it is, and where there
/// is no signature none comes up.
pub proof fn law_signature_stays(
    signature: Option<Seq<char>>,
    name: Seq<char>,
    qualified_name: Seq<char>,
)
    requires
        signature matches Some(text) ==> holds(text, "::"@) || !holds(text, name),
    ensures
        qualified_signature(signature, name, qualified_name) == signature,
{
    if let Some(text) = signature {
        law_parts(text, "::"@);
        if !holds(text, name) {
            law_replaced_nothing(text, name, qualified_name);
        }
    }
}

} // verus!
