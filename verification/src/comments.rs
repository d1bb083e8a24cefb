//! Comments that stand directly above a declaration.

use crate::text::{
    chars_of, ends_with, find, has_prefix, has_suffix, has_text, join, joined,
    lemma_joined_is_not_empty, lines, rows, split_lines, starts_with, strip_prefixes,
    strip_suffixes, trim, trimmed, without_prefixes, without_suffixes,
};
use vstd::prelude::*;

verus! {

/// Whether a row holds nothing but white space.
pub open spec fn is_blank(row: Seq<char>) -> bool {
    trimmed(row).len() == 0
}

/// Whether a row is a line comment.
pub open spec fn is_line_comment(row: Seq<char>) -> bool {
    has_prefix(trimmed(row), "//"@)
}

/// Whether a row looks like the first, an inner or the last row of a block comment.
pub open spec fn is_block_comment(row: Seq<char>) -> bool {
    ||| has_suffix(trimmed(row), "*/"@)
    ||| has_prefix(trimmed(row), "/*"@)
    ||| has_prefix(trimmed(row), "*"@)
}

/// Whether a block comment opens on a row.
pub open spec fn opens_block(row: Seq<char>) -> bool {
    has_text(trimmed(row), "/*"@)
}

/// How many of the first `end` rows are left when the blank ones at their end are dropped.
pub open spec fn without_blank_tail(source: Seq<Seq<char>>, end: int) -> int
    decreases end,
{
    if end > 0 && is_blank(source[end - 1]) {
        without_blank_tail(source, end - 1)
    } else {
        end
    }
}

/// The first row of the unbroken run of line comments that ends on row `last`.
pub open spec fn line_run_start(source: Seq<Seq<char>>, last: int) -> int
    decreases last,
{
    if last > 0 && is_line_comment(source[last - 1]) {
        line_run_start(source, last - 1)
    } else {
        last
    }
}

/// The nearest row at or above `last` on which a block comment opens, or the first row.
pub open spec fn block_start(source: Seq<Seq<char>>, last: int) -> int
    decreases last,
{
    if last > 0 && !opens_block(source[last]) {
        block_start(source, last - 1)
    } else {
        last
    }
}

/// A line comment's text.
pub open spec fn line_comment_text(row: Seq<char>) -> Seq<char> {
    let line = trimmed(row);
    if has_prefix(line, "///"@) {
        trimmed(without_prefixes(line, "///"@))
    } else if has_prefix(line, "//!"@) {
        trimmed(without_prefixes(line, "//!"@))
    } else {
        trimmed(without_prefixes(line, "//"@))
    }
}

/// The text of one row of a block comment.
pub open spec fn block_comment_text(row: Seq<char>) -> Seq<char> {
    let opened = without_prefixes(
        without_prefixes(without_prefixes(trimmed(row), "/**"@), "/*!"@),
        "/*"@,
    );
    trimmed(without_prefixes(without_suffixes(opened, "*/"@), "*"@))
}

/// The cleaned rows of the comment that ends on row `last`, none where that row is no comment.
pub open spec fn comment_rows(source: Seq<Seq<char>>, last: int) -> Seq<Seq<char>> {
    if is_line_comment(source[last]) {
        let start = line_run_start(source, last);
        source.subrange(start, last + 1).map_values(|row: Seq<char>| line_comment_text(row))
    } else if is_block_comment(source[last]) {
        let start = block_start(source, last);
        source.subrange(start, last + 1).map_values(|row: Seq<char>| block_comment_text(row))
    } else {
        seq![]
    }
}

/// The comment above row `start_row` of `source`: the comment that ends on the nearest row above
/// it that is not blank. There is none where that row is no comment, or where nothing is left of
/// the comment once its markers are taken off.
pub open spec fn leading_comment(source: Seq<char>, start_row: int) -> Option<Seq<char>> {
    let source = lines(source);
    let end = without_blank_tail(source, start_row);
    if source.len() == 0 || end <= 0 {
        None
    } else {
        let found = comment_rows(source, end - 1);
        if forall|i: int| 0 <= i < found.len() ==> (#[trigger] found[i]).len() == 0 {
            None
        } else {
            Some(joined(found, "\n"@))
        }
    }
}

/// The rows that are left end on a row that is not blank, and only blank rows were dropped.
pub proof fn lemma_without_blank_tail(source: Seq<Seq<char>>, end: int)
    requires
        0 <= end,
    ensures
        0 <= without_blank_tail(source, end) <= end,
        without_blank_tail(source, end) > 0 ==> !is_blank(
            source[without_blank_tail(source, end) - 1],
        ),
        forall|i: int|
            without_blank_tail(source, end) <= i < end ==> is_blank(#[trigger] source[i]),
    decreases end,
{
    if end > 0 && is_blank(source[end - 1]) {
        lemma_without_blank_tail(source, end - 1);
    }
}

/// A run of line comments is unbroken, and no line comment stands directly above it.
pub proof fn lemma_line_run_start(source: Seq<Seq<char>>, last: int)
    requires
        0 <= last,
    ensures
        0 <= line_run_start(source, last) <= last,
        forall|i: int|
            line_run_start(source, last) <= i < last ==> is_line_comment(#[trigger] source[i]),
        line_run_start(source, last) > 0 ==> !is_line_comment(
            source[line_run_start(source, last) - 1],
        ),
    decreases last,
{
    if last > 0 && is_line_comment(source[last - 1]) {
        lemma_line_run_start(source, last - 1);
    }
}

/// A block comment starts where one opens, unless it starts on the first row, and none opens on
/// the rows that follow.
pub proof fn lemma_block_start(source: Seq<Seq<char>>, last: int)
    requires
        0 <= last,
    ensures
        0 <= block_start(source, last) <= last,
        block_start(source, last) > 0 ==> opens_block(source[block_start(source, last)]),
        forall|i: int|
            block_start(source, last) < i <= last ==> !opens_block(#[trigger] source[i]),
    decreases last,
{
    if last > 0 && !opens_block(source[last]) {
        lemma_block_start(source, last - 1);
    }
}

/// A comment above a declaration is never empty, and a declaration on the first row has none.
pub proof fn lemma_leading_comment(source: Seq<char>, start_row: int)
    requires
        0 <= start_row,
    ensures
        leading_comment(source, start_row) matches Some(text) ==> text.len() > 0,
        start_row == 0 ==> leading_comment(source, start_row) is None,
{
    let all = lines(source);
    let end = without_blank_tail(all, start_row);
    if all.len() > 0 && end > 0 {
        let found = comment_rows(all, end - 1);
        if !(forall|i: int| 0 <= i < found.len() ==> (#[trigger] found[i]).len() == 0) {
            let at = choose|i: int| 0 <= i < found.len() && (#[trigger] found[i]).len() != 0;
            lemma_joined_is_not_empty(found, "\n"@, at);
        }
    }
}

/// Blank rows between a comment and a declaration make no difference.
pub proof fn lemma_leading_comment_over_blank_rows(source: Seq<char>, start_row: int, lower: int)
    requires
        0 <= start_row <= lower <= lines(source).len(),
        forall|i: int| start_row <= i < lower ==> is_blank(#[trigger] lines(source)[i]),
    ensures
        leading_comment(source, lower) == leading_comment(source, start_row),
    decreases lower - start_row,
{
    if start_row < lower {
        assert(is_blank(lines(source)[lower - 1]));
        lemma_leading_comment_over_blank_rows(source, start_row, lower - 1);
    }
}

/// There is no comment where the nearest row above that is not blank is none.
pub proof fn lemma_no_comment_above(source: Seq<char>, start_row: int)
    requires
        0 < start_row <= lines(source).len(),
        !is_blank(lines(source)[start_row - 1]),
        !is_line_comment(lines(source)[start_row - 1]),
        !is_block_comment(lines(source)[start_row - 1]),
    ensures
        leading_comment(source, start_row) is None,
{
}

/// Cleans one row of a run of line comments.
fn clean_line_comment(row: &Vec<char>) -> (text: Vec<char>)
    ensures
        text@ == line_comment_text(row@),
{
    let line = trim(row);
    if starts_with(&line, "///") {
        trim(&strip_prefixes(&line, "///"))
    } else if starts_with(&line, "//!") {
        trim(&strip_prefixes(&line, "//!"))
    } else {
        trim(&strip_prefixes(&line, "//"))
    }
}

/// Cleans one row of a block comment.
fn clean_block_comment(row: &Vec<char>) -> (text: Vec<char>)
    ensures
        text@ == block_comment_text(row@),
{
    let line = trim(row);
    let line = strip_prefixes(&line, "/**");
    let line = strip_prefixes(&line, "/*!");
    let line = strip_prefixes(&line, "/*");
    let line = strip_suffixes(&line, "*/");
    let line = strip_prefixes(&line, "*");
    trim(&line)
}

/// Whether every row is empty.
fn all_empty(parts: &Vec<Vec<char>>) -> (empty: bool)
    ensures
        empty == forall|i: int|
            0 <= i < rows(parts@).len() ==> (#[trigger] rows(parts@)[i]).len() == 0,
{
    for i in 0..parts.len()
        invariant
            forall|j: int| 0 <= j < i ==> (#[trigger] rows(parts@)[j]).len() == 0,
    {
        if parts[i].len() > 0 {
            assert(rows(parts@)[i as int].len() > 0);
            return false;
        }
    }
    true
}

/// Extracts the comment that stands above row `start_row` of `source`.
pub fn extract_leading_comment(source: &str, start_row: usize) -> (comment: Option<String>)
    requires
        lines(source@).len() == 0 || start_row <= lines(source@).len(),
    ensures
        match comment {
            Some(text) => leading_comment(source@, start_row as int) == Some(text@),
            None => leading_comment(source@, start_row as int) is None,
        },
{
    let source_rows = split_lines(&chars_of(source));
    let ghost all = lines(source@);
    if source_rows.len() == 0 {
        return None;
    }
    let mut row = start_row;
    while row > 0 && trim(&source_rows[row - 1]).len() == 0
        invariant
            rows(source_rows@) == all,
            row <= source_rows@.len(),
            without_blank_tail(all, start_row as int) == without_blank_tail(all, row as int),
        decreases row,
    {
        assert(all[row - 1] == source_rows@[row - 1]@);
        row = row - 1;
    }
    if row == 0 {
        return None;
    }
    let last = row - 1;
    let ghost end = without_blank_tail(all, start_row as int);
    assert(all[last as int] == source_rows@[last as int]@);
    assert(end == row);
    let line = trim(&source_rows[last]);
    let mut collected: Vec<Vec<char>> = Vec::new();
    if starts_with(&line, "//") {
        let mut start = last;
        while start > 0 && starts_with(&trim(&source_rows[start - 1]), "//")
            invariant
                rows(source_rows@) == all,
                start <= last < source_rows@.len(),
                line_run_start(all, last as int) == line_run_start(all, start as int),
            decreases start,
        {
            assert(all[start - 1] == source_rows@[start - 1]@);
            start = start - 1;
        }
        proof {
            if start > 0 {
                assert(all[start - 1] == source_rows@[start - 1]@);
            }
        }
        let ghost wanted = comment_rows(all, last as int);
        for i in start..row
            invariant
                rows(source_rows@) == all,
                row == last + 1,
                start <= last < source_rows@.len(),
                wanted == all.subrange(start as int, row as int).map_values(
                    |r: Seq<char>| line_comment_text(r),
                ),
                rows(collected@) == wanted.take(i - start),
        {
            let text = clean_line_comment(&source_rows[i]);
            proof {
                assert(all[i as int] == source_rows@[i as int]@);
                assert(wanted.take(i + 1 - start) == wanted.take(i - start).push(text@));
                assert(rows(collected@.push(text)) == rows(collected@).push(text@));
            }
            collected.push(text);
        }
        assert(wanted.take(row - start) == wanted);
    } else if ends_with(&line, "*/") || starts_with(&line, "/*") || starts_with(&line, "*") {
        let mut start = last;
        while start > 0 && find(&trim(&source_rows[start]), "/*").is_none()
            invariant
                rows(source_rows@) == all,
                start <= last < source_rows@.len(),
                block_start(all, last as int) == block_start(all, start as int),
            decreases start,
        {
            assert(all[start as int] == source_rows@[start as int]@);
            start = start - 1;
        }
        assert(all[start as int] == source_rows@[start as int]@);
        let ghost wanted = comment_rows(all, last as int);
        for i in start..row
            invariant
                rows(source_rows@) == all,
                row == last + 1,
                start <= last < source_rows@.len(),
                wanted == all.subrange(start as int, row as int).map_values(
                    |r: Seq<char>| block_comment_text(r),
                ),
                rows(collected@) == wanted.take(i - start),
        {
            let text = clean_block_comment(&source_rows[i]);
            proof {
                assert(all[i as int] == source_rows@[i as int]@);
                assert(wanted.take(i + 1 - start) == wanted.take(i - start).push(text@));
                assert(rows(collected@.push(text)) == rows(collected@).push(text@));
            }
            collected.push(text);
        }
        assert(wanted.take(row - start) == wanted);
    }
    assert(rows(collected@) == comment_rows(all, last as int));
    if all_empty(&collected) {
        None
    } else {
        Some(join(&collected, "\n"))
    }
}

} // verus!
