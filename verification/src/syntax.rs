//! What is read off the syntax around a name.

use crate::symbols::optional_text;
use crate::text::{
    byte_slice, chars_of, copy_range, find, first_at, has_text, lemma_first_at,
    lemma_part_has_text, lemma_trimmed, occurs_at, replace_first, replaced_first, same_text,
    slice_bytes, string_of, trim, trimmed,
};
use vstd::prelude::*;

verus! {

/// A child of a syntax node.
#[derive(Debug)]
pub struct SyntaxChild {
    pub kind: String,
    pub start_byte: usize,
    pub end_byte: usize,
}

/// What is known of a child of a syntax node.
pub struct SyntaxChildView {
    pub kind: Seq<char>,
    pub start_byte: nat,
    pub end_byte: nat,
}

impl View for SyntaxChild {
    type V = SyntaxChildView;

    open spec fn view(&self) -> SyntaxChildView {
        SyntaxChildView {
            kind: self.kind@,
            start_byte: self.start_byte as nat,
            end_byte: self.end_byte as nat,
        }
    }
}

/// A syntax node: its kind, where its text lies in the source, the row on which it starts, and,
/// where it is a class or a struct, its children.
#[derive(Debug)]
pub struct SyntaxNode {
    pub kind: String,
    pub start_byte: usize,
    pub end_byte: usize,
    pub start_row: usize,
    pub children: Vec<SyntaxChild>,
}

/// What is known of a syntax node.
#[verifier::ext_equal]
pub struct SyntaxNodeView {
    pub kind: Seq<char>,
    pub start_byte: nat,
    pub end_byte: nat,
    pub start_row: nat,
    pub children: Seq<SyntaxChildView>,
}

impl View for SyntaxNode {
    type V = SyntaxNodeView;

    open spec fn view(&self) -> SyntaxNodeView {
        SyntaxNodeView {
            kind: self.kind@,
            start_byte: self.start_byte as nat,
            end_byte: self.end_byte as nat,
            start_row: self.start_row as nat,
            children: self.children@.map_values(|child: SyntaxChild| child@),
        }
    }
}

/// What is known of a list of syntax nodes.
pub open spec fn nodes_view(nodes: Seq<SyntaxNode>) -> Seq<SyntaxNodeView> {
    nodes.map_values(|node: SyntaxNode| node@)
}

/// Whether nodes of that kind declare a class or a struct.
pub open spec fn is_type_specifier(kind: Seq<char>) -> bool {
    kind == "class_specifier"@ || kind == "struct_specifier"@
}

/// Whether nodes of that kind hold the signature of what is named in them.
pub open spec fn is_signature_kind(kind: Seq<char>) -> bool {
    kind == "function_definition"@ || kind == "declaration"@ || kind == "field_declaration"@
}

/// Whether nodes of that kind declare a template.
pub open spec fn is_template(kind: Seq<char>) -> bool {
    kind == "template_declaration"@
}

/// The node whose text is the signature of `node`, whose ancestors are given from the innermost
/// to the outermost: the innermost template around it; where there is none, the outermost
/// definition or declaration around it; where there is none either, the node itself.
pub open spec fn signature_node(
    node: SyntaxNodeView,
    ancestors: Seq<SyntaxNodeView>,
) -> SyntaxNodeView
    decreases ancestors.len(),
{
    if ancestors.len() == 0 {
        node
    } else if is_template(ancestors[0].kind) {
        ancestors[0]
    } else if is_signature_kind(ancestors[0].kind) {
        signature_node(ancestors[0], ancestors.skip(1))
    } else {
        signature_node(node, ancestors.skip(1))
    }
}

/// The innermost template among the ancestors is the signature node.
pub proof fn lemma_signature_node_is_innermost_template(
    node: SyntaxNodeView,
    ancestors: Seq<SyntaxNodeView>,
    at: int,
)
    requires
        0 <= at < ancestors.len(),
        is_template(ancestors[at].kind),
        forall|i: int| 0 <= i < at ==> !is_template((#[trigger] ancestors[i]).kind),
    ensures
        signature_node(node, ancestors) == ancestors[at],
    decreases at,
{
    if at > 0 {
        let rest = ancestors.skip(1);
        assert(rest[at - 1] == ancestors[at]);
        assert forall|i: int| 0 <= i < at - 1 implies !is_template((#[trigger] rest[i]).kind) by {
            assert(rest[i] == ancestors[i + 1]);
        }
        let next = if is_signature_kind(ancestors[0].kind) {
            ancestors[0]
        } else {
            node
        };
        lemma_signature_node_is_innermost_template(next, rest, at - 1);
    }
}

/// Without a template among the ancestors, the outermost definition or declaration is the
/// signature node.
pub proof fn lemma_signature_node_is_outermost_declaration(
    node: SyntaxNodeView,
    ancestors: Seq<SyntaxNodeView>,
    at: int,
)
    requires
        0 <= at < ancestors.len(),
        is_signature_kind(ancestors[at].kind),
        forall|i: int| 0 <= i < ancestors.len() ==> !is_template((#[trigger] ancestors[i]).kind),
        forall|i: int|
            at < i < ancestors.len() ==> !is_signature_kind((#[trigger] ancestors[i]).kind),
    ensures
        signature_node(node, ancestors) == ancestors[at],
    decreases ancestors.len(),
{
    let rest = ancestors.skip(1);
    assert forall|i: int| 0 <= i < rest.len() implies !is_template((#[trigger] rest[i]).kind) by {
        assert(rest[i] == ancestors[i + 1]);
    }
    assert forall|i: int| at - 1 < i < rest.len() && 0 <= i implies !is_signature_kind(
        (#[trigger] rest[i]).kind,
    ) by {
        assert(rest[i] == ancestors[i + 1]);
    }
    if at > 0 {
        assert(rest[at - 1] == ancestors[at]);
        let next = if is_signature_kind(ancestors[0].kind) {
            ancestors[0]
        } else {
            node
        };
        lemma_signature_node_is_outermost_declaration(next, rest, at - 1);
    } else {
        lemma_signature_node_is_own_node(ancestors[0], rest);
    }
}

/// Without a template, a definition or a declaration among the ancestors, the node is its own
/// signature node.
pub proof fn lemma_signature_node_is_own_node(
    node: SyntaxNodeView,
    ancestors: Seq<SyntaxNodeView>,
)
    requires
        forall|i: int|
            0 <= i < ancestors.len() ==> !is_template((#[trigger] ancestors[i]).kind)
                && !is_signature_kind(ancestors[i].kind),
    ensures
        signature_node(node, ancestors) == node,
    decreases ancestors.len(),
{
    if ancestors.len() > 0 {
        let rest = ancestors.skip(1);
        assert forall|i: int| 0 <= i < rest.len() implies !is_template((#[trigger] rest[i]).kind)
            && !is_signature_kind(rest[i].kind) by {
            assert(rest[i] == ancestors[i + 1]);
        }
        lemma_signature_node_is_own_node(node, rest);
    }
}

/// Finds the node whose text is the signature of `node`.
pub fn find_signature_node<'a>(
    node: &'a SyntaxNode,
    ancestors: &'a Vec<SyntaxNode>,
) -> (found: &'a SyntaxNode)
    ensures
        found@ == signature_node(node@, nodes_view(ancestors@)),
{
    let ghost all = nodes_view(ancestors@);
    let mut candidate = node;
    let mut i: usize = 0;
    assert(all.skip(0) == all);
    while i < ancestors.len()
        invariant
            all == nodes_view(ancestors@),
            i <= ancestors@.len(),
            signature_node(node@, all) == signature_node(candidate@, all.skip(i as int)),
        decreases ancestors@.len() - i,
    {
        let parent = &ancestors[i];
        let kind = parent.kind.as_str();
        proof {
            assert(all.skip(i as int)[0] == parent@);
            assert(all.skip(i as int).skip(1) == all.skip(i + 1));
        }
        if same_text(kind, "template_declaration") {
            return parent;
        }
        if same_text(kind, "function_definition") || same_text(kind, "declaration") || same_text(
            kind,
            "field_declaration",
        ) {
            candidate = parent;
        }
        i = i + 1;
    }
    candidate
}

/// A signature's text: what stands before the first brace, without the white space around it.
/// There is none where the byte offsets cut no text out of the source, or nothing is left.
pub open spec fn signature_text(source: Seq<char>, start: int, end: int) -> Option<Seq<char>> {
    match byte_slice(source, start, end) {
        None => None,
        Some(text) => {
            let signature = match first_at(text, "{"@, 0) {
                Some(at) => trimmed(text.take(at)),
                None => trimmed(text),
            };
            if signature.len() == 0 {
                None
            } else {
                Some(signature)
            }
        },
    }
}

/// A signature is not empty, has no white space around it, and holds no brace.
pub proof fn lemma_signature_text(source: Seq<char>, start: int, end: int)
    ensures
        signature_text(source, start, end) matches Some(signature) ==> {
            &&& signature.len() > 0
            &&& trimmed(signature) == signature
            &&& !has_text(signature, "{"@)
        },
{
    if let Some(text) = byte_slice(source, start, end) {
        lemma_first_at(text, "{"@, 0);
        let part = match first_at(text, "{"@, 0) {
            Some(at) => text.take(at),
            None => text,
        };
        let signature = trimmed(part);
        lemma_trimmed(part);
        if has_text(signature, "{"@) {
            let (from, to) = choose|from: int, to: int|
                0 <= from <= to <= part.len() && signature == #[trigger] part.subrange(from, to);
            lemma_part_has_text(part, from, to, "{"@);
            let at = choose|at: int| occurs_at(part, "{"@, at);
            reveal_strlit("{");
            assert(text.subrange(at, at + 1) == part.subrange(at, at + 1));
            assert(occurs_at(text, "{"@, at));
        }
    }
}

/// Reads the signature off the text of a node.
pub fn signature_text_from_node(source: &str, node: &SyntaxNode) -> (signature: Option<String>)
    ensures
        optional_text(signature) == signature_text(
            source@,
            node.start_byte as int,
            node.end_byte as int,
        ),
{
    match slice_bytes(source, node.start_byte, node.end_byte) {
        None => None,
        Some(text) => {
            let chars = chars_of(text);
            let signature = match find(&chars, "{") {
                Some(at) => {
                    proof {
                        lemma_first_at(chars@, "{"@, 0);
                        assert(chars@.subrange(0, at as int) == chars@.take(at as int));
                    }
                    trim(&copy_range(&chars, 0, at))
                },
                None => trim(&chars),
            };
            if signature.len() == 0 {
                None
            } else {
                Some(string_of(&signature))
            }
        },
    }
}

/// The first child that names a type.
pub open spec fn type_identifier(children: Seq<SyntaxChildView>) -> Option<SyntaxChildView>
    decreases children.len(),
{
    if children.len() == 0 {
        None
    } else if children[0].kind == "type_identifier"@ {
        Some(children[0])
    } else {
        type_identifier(children.skip(1))
    }
}

/// The name of the innermost class or struct around a node that has a name. There is none where
/// that name cannot be cut out of the source.
pub open spec fn enclosing_type_name(
    source: Seq<char>,
    ancestors: Seq<SyntaxNodeView>,
) -> Option<Seq<char>>
    decreases ancestors.len(),
{
    if ancestors.len() == 0 {
        None
    } else if is_type_specifier(ancestors[0].kind) && type_identifier(
        ancestors[0].children,
    ) is Some {
        let name = type_identifier(ancestors[0].children)->0;
        byte_slice(source, name.start_byte as int, name.end_byte as int)
    } else {
        enclosing_type_name(source, ancestors.skip(1))
    }
}

/// The innermost class or struct that has a name gives the name of the enclosing type.
pub proof fn lemma_enclosing_type_is_innermost(
    source: Seq<char>,
    ancestors: Seq<SyntaxNodeView>,
    at: int,
)
    requires
        0 <= at < ancestors.len(),
        is_type_specifier(ancestors[at].kind),
        type_identifier(ancestors[at].children) is Some,
        forall|i: int|
            0 <= i < at ==> !is_type_specifier((#[trigger] ancestors[i]).kind) || type_identifier(
                ancestors[i].children,
            ) is None,
    ensures
        enclosing_type_name(source, ancestors) == byte_slice(
            source,
            type_identifier(ancestors[at].children)->0.start_byte as int,
            type_identifier(ancestors[at].children)->0.end_byte as int,
        ),
    decreases at,
{
    if at > 0 {
        let rest = ancestors.skip(1);
        assert(rest[at - 1] == ancestors[at]);
        assert forall|i: int| 0 <= i < at - 1 implies !is_type_specifier((#[trigger] rest[i]).kind)
            || type_identifier(rest[i].children) is None by {
            assert(rest[i] == ancestors[i + 1]);
        }
        lemma_enclosing_type_is_innermost(source, rest, at - 1);
    }
}

/// Outside of every class and struct that has a name there is no enclosing type.
pub proof fn lemma_no_enclosing_type(source: Seq<char>, ancestors: Seq<SyntaxNodeView>)
    requires
        forall|i: int|
            0 <= i < ancestors.len() ==> !is_type_specifier((#[trigger] ancestors[i]).kind)
                || type_identifier(ancestors[i].children) is None,
    ensures
        enclosing_type_name(source, ancestors) is None,
    decreases ancestors.len(),
{
    if ancestors.len() > 0 {
        let rest = ancestors.skip(1);
        assert forall|i: int| 0 <= i < rest.len() implies !is_type_specifier(
            (#[trigger] rest[i]).kind,
        ) || type_identifier(rest[i].children) is None by {
            assert(rest[i] == ancestors[i + 1]);
        }
        lemma_no_enclosing_type(source, rest);
    }
}

/// Finds the first child that names a type.
fn find_type_identifier(children: &Vec<SyntaxChild>) -> (found: Option<usize>)
    ensures
        match found {
            Some(at) => at < children@.len() && type_identifier(
                children@.map_values(|child: SyntaxChild| child@),
            ) == Some(children@[at as int]@),
            None => type_identifier(children@.map_values(|child: SyntaxChild| child@)) is None,
        },
{
    let ghost all = children@.map_values(|child: SyntaxChild| child@);
    let mut i: usize = 0;
    assert(all.skip(0) == all);
    while i < children.len()
        invariant
            all == children@.map_values(|child: SyntaxChild| child@),
            i <= children@.len(),
            type_identifier(all) == type_identifier(all.skip(i as int)),
        decreases children@.len() - i,
    {
        proof {
            assert(all.skip(i as int)[0] == children@[i as int]@);
            assert(all.skip(i as int).skip(1) == all.skip(i + 1));
        }
        if same_text(children[i].kind.as_str(), "type_identifier") {
            return Some(i);
        }
        i = i + 1;
    }
    None
}

/// Finds the name of the class or struct around a node, whose ancestors are given from the
/// innermost to the outermost.
pub fn find_enclosing_type_name(ancestors: &Vec<SyntaxNode>, source: &str) -> (name: Option<String>)
    ensures
        optional_text(name) == enclosing_type_name(source@, nodes_view(ancestors@)),
{
    let ghost all = nodes_view(ancestors@);
    let mut i: usize = 0;
    assert(all.skip(0) == all);
    while i < ancestors.len()
        invariant
            all == nodes_view(ancestors@),
            i <= ancestors@.len(),
            enclosing_type_name(source@, all) == enclosing_type_name(source@, all.skip(i as int)),
        decreases ancestors@.len() - i,
    {
        let parent = &ancestors[i];
        proof {
            assert(all.skip(i as int)[0] == parent@);
            assert(all.skip(i as int).skip(1) == all.skip(i + 1));
        }
        if same_text(parent.kind.as_str(), "class_specifier") || same_text(
            parent.kind.as_str(),
            "struct_specifier",
        ) {
            match find_type_identifier(&parent.children) {
                Some(at) => {
                    let child = &parent.children[at];
                    return match slice_bytes(source, child.start_byte, child.end_byte) {
                        Some(text) => Some(text.to_string()),
                        None => None,
                    };
                },
                None => {},
            }
        }
        i = i + 1;
    }
    None
}

/// A signature with its first mention of `name` replaced by the qualified name, unless it is
/// qualified already.
pub open spec fn qualified_signature(
    signature: Option<Seq<char>>,
    name: Seq<char>,
    qualified_name: Seq<char>,
) -> Option<Seq<char>> {
    match signature {
        None => None,
        Some(text) => if has_text(text, "::"@) {
            Some(text)
        } else {
            Some(replaced_first(text, name, qualified_name))
        },
    }
}

/// A signature that is qualified already is left as it is, and so is one that does not mention the
/// name.
pub proof fn lemma_qualified_signature_keeps(
    signature: Seq<char>,
    name: Seq<char>,
    qualified_name: Seq<char>,
)
    requires
        has_text(signature, "::"@) || !has_text(signature, name),
    ensures
        qualified_signature(Some(signature), name, qualified_name) == Some(signature),
{
    lemma_first_at(signature, name, 0);
}

/// Once a signature has been qualified by a name with a qualifier, it is left as it is when it is
/// qualified again.
pub proof fn lemma_qualified_signature_twice(
    signature: Option<Seq<char>>,
    name: Seq<char>,
    qualified_name: Seq<char>,
)
    requires
        has_text(qualified_name, "::"@),
    ensures
        qualified_signature(
            qualified_signature(signature, name, qualified_name),
            name,
            qualified_name,
        ) == qualified_signature(signature, name, qualified_name),
{
    if let Some(text) = signature {
        if !has_text(text, "::"@) {
            lemma_first_at(text, name, 0);
            if let Some(at) = first_at(text, name, 0) {
                let result = replaced_first(text, name, qualified_name);
                assert(result.subrange(at, at + qualified_name.len()) == qualified_name);
                lemma_part_has_text(result, at, at + qualified_name.len(), "::"@);
            }
        }
    }
}

/// Replaces the first mention of a name in a signature by the qualified name.
pub fn qualify_signature(signature: Option<String>, name: &str, qualified_name: &str) -> (result:
    Option<String>)
    ensures
        optional_text(result) == qualified_signature(
            optional_text(signature),
            name@,
            qualified_name@,
        ),
{
    match signature {
        None => None,
        Some(text) => {
            if find(&chars_of(text.as_str()), "::").is_some() {
                Some(text)
            } else {
                Some(replace_first(text.as_str(), name, qualified_name))
            }
        },
    }
}

} // verus!
