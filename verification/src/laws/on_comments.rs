//! Laws on the comment above a declaration.

use crate::comments::{
    block_comment_text, block_start, comment_rows, is_block_comment, is_blank, is_line_comment,
    leading_comment, line_comment_text, line_run_start, opens_block, without_blank_tail,
};
use crate::laws::on_text::{law_parts, law_without_prefixes, law_without_suffixes};
use crate::laws::{begins, ends, holds, repeated};
use crate::text::{joined, lines, trimmed};
use vstd::prelude::*;

verus! {

/// Whether a row is a line comment.
pub open spec fn is_line_row(row: Seq<char>) -> bool {
    begins(trimmed(row), "//"@)
}

/// Whether a row that is no line comment looks like a row of a block comment.
pub open spec fn is_block_row(row: Seq<char>) -> bool {
    ||| ends(trimmed(row), "*/"@)
    ||| begins(trimmed(row), "/*"@)
    ||| begins(trimmed(row), "*"@)
}

/// Whether `last` is the nearest row above row `start_row` that is not blank.
pub open spec fn is_row_above(rows: Seq<Seq<char>>, last: int, start_row: int) -> bool {
    &&& 0 <= last < start_row <= rows.len()
    &&& trimmed(rows[last]).len() > 0
    &&& forall|i: int| last < i < start_row ==> trimmed(#[trigger] rows[i]).len() == 0
}

/// Cleaned rows as one comment: none where all of them are empty.
pub open spec fn as_comment(cleaned: Seq<Seq<char>>) -> Option<Seq<char>> {
    if exists|i: int| 0 <= i < cleaned.len() && (#[trigger] cleaned[i]).len() > 0 {
        Some(joined(cleaned, "\n"@))
    } else {
        None
    }
}

proof fn lemma_row_kinds(row: Seq<char>)
    ensures
        is_blank(row) <==> trimmed(row).len() == 0,
        is_line_comment(row) <==> is_line_row(row),
        is_block_comment(row) <==> is_block_row(row),
        opens_block(row) <==> holds(trimmed(row), "/*"@),
{
    law_parts(trimmed(row), "//"@);
    law_parts(trimmed(row), "*/"@);
    law_parts(trimmed(row), "/*"@);
    law_parts(trimmed(row), "*"@);
}

proof fn lemma_row_above(rows: Seq<Seq<char>>, last: int, start_row: int)
    requires
        is_row_above(rows, last, start_row),
    ensures
        without_blank_tail(rows, start_row) == last + 1,
    decreases start_row,
{
    lemma_row_kinds(rows[start_row - 1]);
    if start_row > last + 1 {
        lemma_row_above(rows, last, start_row - 1);
    }
}

proof fn lemma_line_run(rows: Seq<Seq<char>>, first: int, last: int)
    requires
        0 <= first <= last < rows.len(),
        forall|i: int| first <= i <= last ==> is_line_row(#[trigger] rows[i]),
        first > 0 ==> !is_line_row(rows[first - 1]),
    ensures
        line_run_start(rows, last) == first,
    decreases last,
{
    if last > 0 {
        lemma_row_kinds(rows[last - 1]);
        if last > first {
            lemma_line_run(rows, first, last - 1);
        }
    }
}

proof fn lemma_block_run(rows: Seq<Seq<char>>, first: int, last: int)
    requires
        0 <= first <= last < rows.len(),
        first > 0 ==> holds(trimmed(rows[first]), "/*"@),
        forall|i: int| first < i <= last ==> !holds(trimmed(#[trigger] rows[i]), "/*"@),
    ensures
        block_start(rows, last) == first,
    decreases last,
{
    lemma_row_kinds(rows[last]);
    if last > first {
        lemma_block_run(rows, first, last - 1);
    }
}

proof fn lemma_as_comment(cleaned: Seq<Seq<char>>)
    ensures
        as_comment(cleaned) == if forall|i: int|
            0 <= i < cleaned.len() ==> (#[trigger] cleaned[i]).len() == 0 {
            None
        } else {
            Some(joined(cleaned, "\n"@))
        },
{
    if exists|i: int| 0 <= i < cleaned.len() && (#[trigger] cleaned[i]).len() > 0 {
        let i = choose|i: int| 0 <= i < cleaned.len() && (#[trigger] cleaned[i]).len() > 0;
        assert(cleaned[i].len() != 0);
    }
}

/// Where the nearest row above a declaration that is not blank is a line comment, the comment holds
/// a row for every row of the unbroken run of line comments that ends there, in order.
pub proof fn law_line_comments(
    source: Seq<char>,
    start_row: int,
    first: int,
    last: int,
    cleaned: Seq<Seq<char>>,
)
    requires
        is_row_above(lines(source), last, start_row),
        0 <= first <= last,
        forall|i: int| first <= i <= last ==> is_line_row(#[trigger] lines(source)[i]),
        first > 0 ==> !is_line_row(lines(source)[first - 1]),
        cleaned.len() == last - first + 1,
        forall|i: int|
            0 <= i < cleaned.len() ==> #[trigger] cleaned[i] == line_comment_text(
                lines(source)[first + i],
            ),
    ensures
        leading_comment(source, start_row) == as_comment(cleaned),
{
    let rows = lines(source);
    lemma_row_above(rows, last, start_row);
    lemma_line_run(rows, first, last);
    lemma_row_kinds(rows[last]);
    assert(comment_rows(rows, without_blank_tail(rows, start_row) - 1) == cleaned);
    lemma_as_comment(cleaned);
}

/// Where the nearest row above a declaration that is not blank is no line comment but a row of a
/// block comment, the comment holds a row for every row from the nearest one on which a block
/// comment opens, or else from the first row of the source, in order.
pub proof fn law_block_comment(
    source: Seq<char>,
    start_row: int,
    first: int,
    last: int,
    cleaned: Seq<Seq<char>>,
)
    requires
        is_row_above(lines(source), last, start_row),
        0 <= first <= last,
        !is_line_row(lines(source)[last]),
        is_block_row(lines(source)[last]),
        first > 0 ==> holds(trimmed(lines(source)[first]), "/*"@),
        forall|i: int|
            first < i <= last ==> !holds(trimmed(#[trigger] lines(source)[i]), "/*"@),
        cleaned.len() == last - first + 1,
        forall|i: int|
            0 <= i < cleaned.len() ==> #[trigger] cleaned[i] == block_comment_text(
                lines(source)[first + i],
            ),
    ensures
        leading_comment(source, start_row) == as_comment(cleaned),
{
    let rows = lines(source);
    lemma_row_above(rows, last, start_row);
    lemma_block_run(rows, first, last);
    lemma_row_kinds(rows[last]);
    assert(comment_rows(rows, without_blank_tail(rows, start_row) - 1) == cleaned);
    lemma_as_comment(cleaned);
}

/// There is no comment where the nearest row above a declaration that is not blank is none.
pub proof fn law_no_comment(source: Seq<char>, start_row: int, last: int)
    requires
        is_row_above(lines(source), last, start_row),
        !is_line_row(lines(source)[last]),
        !is_block_row(lines(source)[last]),
    ensures
        leading_comment(source, start_row) is None,
{
    lemma_row_above(lines(source), last, start_row);
    lemma_row_kinds(lines(source)[last]);
}

/// There is no comment where all rows above a declaration are blank.
pub proof fn law_nothing_above(source: Seq<char>, start_row: int)
    requires
        0 <= start_row <= lines(source).len(),
        forall|i: int| 0 <= i < start_row ==> trimmed(#[trigger] lines(source)[i]).len() == 0,
    ensures
        leading_comment(source, start_row) is None,
    decreases start_row,
{
    if start_row > 0 {
        lemma_row_kinds(lines(source)[start_row - 1]);
        law_nothing_above(source, start_row - 1);
    }
}

/// A source without lines has no comments.
pub proof fn law_no_lines(source: Seq<char>, start_row: int)
    requires
        lines(source).len() == 0,
    ensures
        leading_comment(source, start_row) is None,
{
}

/// Of a line comment the marker it starts with comes off, as often as it stands there, and the
/// white space around the rest; nothing else.
pub proof fn law_line_comment_text(
    row: Seq<char>,
    marker: Seq<char>,
    times: nat,
    rest: Seq<char>,
)
    requires
        trimmed(row) == repeated(marker, times) + rest,
        times > 0,
        !begins(rest, marker),
        ({
            ||| marker == "///"@
            ||| marker == "//!"@ && !begins(trimmed(row), "///"@)
            ||| marker == "//"@ && !begins(trimmed(row), "///"@) && !begins(trimmed(row), "//!"@)
        }),
    ensures
        line_comment_text(row) == trimmed(rest),
{
    let line = trimmed(row);
    reveal_strlit("///");
    reveal_strlit("//!");
    reveal_strlit("//");
    law_parts(line, "///"@);
    law_parts(line, "//!"@);
    law_without_prefixes(marker, times, rest);
    let fewer = repeated(marker, (times - 1) as nat) + rest;
    assert(line == marker + fewer);
    assert(line.subrange(0, marker.len() as int) == marker);
    if marker == "//!"@ {
        assert("//!"@[2] != "///"@[2]);
    }
}

/// Of a row of a block comment its opening markers come off, its closing marker and the asterisks
/// it then starts with, each as often as it stands there, and the white space around the rest;
/// nothing else.
pub proof fn law_block_comment_text(
    row: Seq<char>,
    times: (nat, nat, nat, nat, nat),
    second: Seq<char>,
    third: Seq<char>,
    open: Seq<char>,
    inner: Seq<char>,
    rest: Seq<char>,
)
    requires
        trimmed(row) == repeated("/**"@, times.0) + second,
        !begins(second, "/**"@),
        second == repeated("/*!"@, times.1) + third,
        !begins(third, "/*!"@),
        third == repeated("/*"@, times.2) + open,
        !begins(open, "/*"@),
        open == inner + repeated("*/"@, times.3),
        !ends(inner, "*/"@),
        inner == repeated("*"@, times.4) + rest,
        !begins(rest, "*"@),
    ensures
        block_comment_text(row) == trimmed(rest),
{
    reveal_strlit("/**");
    reveal_strlit("/*!");
    reveal_strlit("/*");
    reveal_strlit("*/");
    reveal_strlit("*");
    law_without_prefixes("/**"@, times.0, second);
    law_without_prefixes("/*!"@, times.1, third);
    law_without_prefixes("/*"@, times.2, open);
    law_without_suffixes(inner, "*/"@, times.3);
    law_without_prefixes("*"@, times.4, rest);
}

} // verus!
