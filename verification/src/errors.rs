//! What can keep a file from being indexed.

use crate::languages::Grammar;
use crate::text::strings_view;
use vstd::prelude::*;

verus! {

/// Why a file was not indexed.
#[derive(Debug)]
pub enum IndexError {
    /// The query for the definitions of the language does not fit its grammar. The messages lead
    /// from what was attempted, the outermost first, to what is wrong with the query.
    InvalidQuery(Vec<String>),
    /// The source could not be parsed.
    ParseFailed,
    /// The query captured something that does not lie within the source.
    CaptureOutOfRange,
    /// The graph, whose parts are numbered in 32 bits, has no room for the file.
    GraphFull,
}

/// What an error says.
pub enum IndexErrorView {
    InvalidQuery(Seq<Seq<char>>),
    ParseFailed,
    CaptureOutOfRange,
    GraphFull,
}

impl View for IndexError {
    type V = IndexErrorView;

    open spec fn view(&self) -> IndexErrorView {
        match self {
            IndexError::InvalidQuery(messages) => IndexErrorView::InvalidQuery(
                strings_view(messages@),
            ),
            IndexError::ParseFailed => IndexErrorView::ParseFailed,
            IndexError::CaptureOutOfRange => IndexErrorView::CaptureOutOfRange,
            IndexError::GraphFull => IndexErrorView::GraphFull,
        }
    }
}

/// What is attempted while the definitions of a language are searched for, the outermost first,
/// where the language has messages on that.
pub open spec fn search_contexts(grammar: Grammar, file: Seq<char>) -> Seq<Seq<char>> {
    if grammar == Grammar::Cpp {
        seq![
            "Failed to process C++ syntax for file: "@ + file,
            "Failed to build C++ tree-sitter query"@,
        ]
    } else {
        seq![]
    }
}

/// An error with what was attempted put before its messages.
pub open spec fn error_in_context(
    error: IndexErrorView,
    grammar: Grammar,
    file: Seq<char>,
) -> IndexErrorView {
    match error {
        IndexErrorView::InvalidQuery(messages) => IndexErrorView::InvalidQuery(
            search_contexts(grammar, file) + messages,
        ),
        _ => error,
    }
}

/// Puts what was attempted before the messages of an error.
pub fn in_context(error: IndexError, grammar: Grammar, file_name: &str) -> (result: IndexError)
    ensures
        result@ == error_in_context(error@, grammar, file_name@),
{
    let mut messages = match error {
        IndexError::InvalidQuery(messages) => messages,
        _ => {
            return error;
        },
    };
    let ghost before = messages@;
    match grammar {
        Grammar::Cpp => {
            let outer = "Failed to process C++ syntax for file: ".to_string().concat(file_name);
            let inner = "Failed to build C++ tree-sitter query".to_string();
            messages.insert(0, inner);
            messages.insert(0, outer);
            proof {
                assert(messages@ == seq![outer, inner] + before);
                assert(strings_view(messages@) == seq![outer@, inner@] + strings_view(before));
            }
        },
        _ => {
            assert(search_contexts(grammar, file_name@) + strings_view(before) == strings_view(
                before,
            ));
        },
    }
    IndexError::InvalidQuery(messages)
}

} // verus!
