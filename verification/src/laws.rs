//! What the operations of the library are for, as laws.
//!
//! Each law says of an operation what its result must be in terms of characters, rows, nodes and
//! entries alone. The words below are all that the laws share.

use vstd::prelude::*;

pub mod on_comments;
pub mod on_graph;
pub mod on_indexing;
pub mod on_languages;
pub mod on_output;
pub mod on_parsing;
pub mod on_symbols;
pub mod on_syntax;
pub mod on_text;
pub mod on_views;
pub mod on_walk;

verus! {

/// Whether `c` is white space.
pub open spec fn is_white(c: char) -> bool {
    let code = c as int;
    ||| 9 <= code <= 13
    ||| code == 32
    ||| code == 0x85
    ||| code == 0xa0
    ||| code == 0x1680
    ||| 0x2000 <= code <= 0x200a
    ||| 0x2028 <= code <= 0x2029
    ||| code == 0x202f
    ||| code == 0x205f
    ||| code == 0x3000
}

/// Whether `text` is made of white space alone.
pub open spec fn all_white(text: Seq<char>) -> bool {
    forall|i: int| 0 <= i < text.len() ==> is_white(#[trigger] text[i])
}

/// Whether `text` neither starts nor ends with white space.
pub open spec fn is_bare(text: Seq<char>) -> bool {
    text.len() > 0 ==> !is_white(text[0]) && !is_white(text[text.len() - 1])
}

/// Whether `text` begins with `start`.
pub open spec fn begins(text: Seq<char>, start: Seq<char>) -> bool {
    start.len() <= text.len() && text.subrange(0, start.len() as int) == start
}

/// Whether `text` ends with `end`.
pub open spec fn ends(text: Seq<char>, end: Seq<char>) -> bool {
    end.len() <= text.len() && text.subrange(text.len() - end.len(), text.len() as int) == end
}

/// Whether `part` stands in `text` at index `at`.
pub open spec fn stands_at(text: Seq<char>, part: Seq<char>, at: int) -> bool {
    0 <= at <= text.len() - part.len() && text.subrange(at, at + part.len()) == part
}

/// Whether `part` stands anywhere in `text`.
pub open spec fn holds(text: Seq<char>, part: Seq<char>) -> bool {
    exists|at: int| stands_at(text, part, at)
}

/// `part`, as often as that.
pub open spec fn repeated(part: Seq<char>, times: nat) -> Seq<char>
    decreases times,
{
    if times == 0 {
        seq![]
    } else {
        part + repeated(part, (times - 1) as nat)
    }
}

} // verus!
