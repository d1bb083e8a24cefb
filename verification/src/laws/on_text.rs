//! Laws on text.

use crate::laws::{
    all_white, begins, ends, holds, is_bare, is_white, repeated, stands_at,
};
use crate::text::{
    byte_slice, decimal, first_at, has_prefix, has_suffix, has_text, is_space, joined,
    lemma_first_at, line_end, lines, occurs_at, replaced_first, trimmed, trimmed_end,
    trimmed_start, without_prefixes, without_suffixes,
};
use vstd::prelude::*;
use vstd::utf8::*;

verus! {

/// White space is what Unicode counts as such.
pub proof fn law_white_space(c: char)
    ensures
        is_space(c) <==> is_white(c),
{
}

proof fn lemma_trimmed_start_of(white: Seq<char>, rest: Seq<char>)
    requires
        all_white(white),
        rest.len() > 0 ==> !is_white(rest[0]),
    ensures
        trimmed_start(white + rest) == rest,
    decreases white.len(),
{
    if white.len() == 0 {
        assert(white + rest == rest);
    } else {
        assert((white + rest)[0] == white[0]);
        assert((white + rest).skip(1) == white.skip(1) + rest);
        assert forall|i: int| 0 <= i < white.skip(1).len() implies is_white(
            #[trigger] white.skip(1)[i],
        ) by {
            assert(white.skip(1)[i] == white[i + 1]);
        }
        lemma_trimmed_start_of(white.skip(1), rest);
    }
}

proof fn lemma_trimmed_end_of(rest: Seq<char>, white: Seq<char>)
    requires
        all_white(white),
        rest.len() > 0 ==> !is_white(rest[rest.len() - 1]),
    ensures
        trimmed_end(rest + white) == rest,
    decreases white.len(),
{
    if white.len() == 0 {
        assert(rest + white == rest);
    } else {
        assert((rest + white).last() == white.last());
        assert((rest + white).drop_last() == rest + white.drop_last());
        lemma_trimmed_end_of(rest, white.drop_last());
    }
}

proof fn lemma_trimmed_of_white(white: Seq<char>)
    requires
        all_white(white),
    ensures
        trimmed(white).len() == 0,
{
    assert(white + Seq::<char>::empty() == white);
    lemma_trimmed_start_of(white, seq![]);
}

/// Trimming takes the white space off both ends of a text, all of it, and nothing else.
pub proof fn law_trimmed(before: Seq<char>, text: Seq<char>, after: Seq<char>)
    requires
        all_white(before),
        is_bare(text),
        all_white(after),
    ensures
        trimmed(before + text + after) == text,
{
    if text.len() == 0 {
        let white = before + text + after;
        assert(forall|i: int| 0 <= i < white.len() ==> is_white(#[trigger] white[i]));
        lemma_trimmed_of_white(white);
        assert(trimmed(white) == text);
    } else {
        assert(before + text + after == before + (text + after));
        lemma_trimmed_start_of(before, text + after);
        lemma_trimmed_end_of(text, after);
    }
}

/// Every text is some text without white space around it, between white space.
pub proof fn law_trimmed_exists(text: Seq<char>) -> (parts: (Seq<char>, Seq<char>))
    ensures
        all_white(parts.0),
        is_bare(trimmed(text)),
        all_white(parts.1),
        text == parts.0 + trimmed(text) + parts.1,
    decreases text.len(),
{
    if text.len() == 0 {
        assert(text == text + trimmed(text) + text);
        (text, text)
    } else if is_white(text[0]) {
        let (before, after) = law_trimmed_exists(text.skip(1));
        let first = seq![text[0]];
        assert(text == first + text.skip(1));
        assert(text == first + before + trimmed(text.skip(1)) + after);
        (first + before, after)
    } else if is_white(text.last()) {
        let rest = text.drop_last();
        let (before, after) = law_trimmed_exists(rest);
        let last = seq![text.last()];
        assert(rest.len() > 0);
        assert(rest[0] == text[0]);
        assert(trimmed_start(rest) == rest);
        assert(trimmed_start(text) == text);
        assert(text == rest + last);
        assert(text == before + trimmed(rest) + (after + last));
        (before, after + last)
    } else {
        let none = Seq::<char>::empty();
        assert(text == none + text + none);
        (none, none)
    }
}

/// A text has a prefix, a suffix or a part if and only if it stands there.
pub proof fn law_parts(text: Seq<char>, part: Seq<char>)
    ensures
        has_prefix(text, part) <==> begins(text, part),
        has_suffix(text, part) <==> ends(text, part),
        has_text(text, part) <==> holds(text, part),
        forall|at: int|
            #![trigger occurs_at(text, part, at)]
            #![trigger stands_at(text, part, at)]
            occurs_at(text, part, at) <==> stands_at(text, part, at),
{
    if has_text(text, part) {
        let at = choose|at: int| occurs_at(text, part, at);
        assert(stands_at(text, part, at));
    }
    if holds(text, part) {
        let at = choose|at: int| stands_at(text, part, at);
        assert(occurs_at(text, part, at));
    }
}

/// The first occurrence is the leftmost one.
pub proof fn law_first_at(text: Seq<char>, part: Seq<char>)
    ensures
        match first_at(text, part, 0) {
            Some(at) => stands_at(text, part, at) && forall|i: int|
                0 <= i < at ==> !#[trigger] stands_at(text, part, i),
            None => !holds(text, part),
        },
{
    lemma_first_at(text, part, 0);
    law_parts(text, part);
}

/// Every prefix of that kind comes off, and nothing else.
pub proof fn law_without_prefixes(prefix: Seq<char>, times: nat, rest: Seq<char>)
    requires
        prefix.len() > 0,
        !begins(rest, prefix),
    ensures
        without_prefixes(repeated(prefix, times) + rest, prefix) == rest,
    decreases times,
{
    let text = repeated(prefix, times) + rest;
    law_parts(text, prefix);
    if times == 0 {
        assert(text == rest);
    } else {
        let fewer = repeated(prefix, (times - 1) as nat) + rest;
        assert(text == prefix + fewer);
        assert(text.subrange(0, prefix.len() as int) == prefix);
        assert(text.skip(prefix.len() as int) == fewer);
        law_without_prefixes(prefix, (times - 1) as nat, rest);
    }
}

proof fn lemma_repeated_from_behind(part: Seq<char>, times: nat)
    requires
        times > 0,
    ensures
        repeated(part, times) == repeated(part, (times - 1) as nat) + part,
    decreases times,
{
    let fewer = (times - 1) as nat;
    if fewer == 0 {
        assert(repeated(part, fewer) == Seq::<char>::empty());
        assert(part + repeated(part, fewer) == repeated(part, fewer) + part);
    } else {
        lemma_repeated_from_behind(part, fewer);
        let least = repeated(part, (fewer - 1) as nat);
        assert(part + (least + part) == part + least + part);
    }
}

/// Every suffix of that kind comes off, and nothing else.
pub proof fn law_without_suffixes(rest: Seq<char>, suffix: Seq<char>, times: nat)
    requires
        suffix.len() > 0,
        !ends(rest, suffix),
    ensures
        without_suffixes(rest + repeated(suffix, times), suffix) == rest,
    decreases times,
{
    let text = rest + repeated(suffix, times);
    law_parts(text, suffix);
    if times == 0 {
        assert(text == rest);
    } else {
        let fewer = rest + repeated(suffix, (times - 1) as nat);
        lemma_repeated_from_behind(suffix, times);
        assert(text == fewer + suffix);
        assert(text.subrange(text.len() - suffix.len(), text.len() as int) == suffix);
        assert(text.take(text.len() - suffix.len()) == fewer);
        law_without_suffixes(rest, suffix, (times - 1) as nat);
    }
}

/// Only the leftmost occurrence is replaced, and all around it stays.
pub proof fn law_replaced_first(
    before: Seq<char>,
    part: Seq<char>,
    after: Seq<char>,
    with: Seq<char>,
)
    requires
        forall|i: int|
            0 <= i < before.len() ==> !#[trigger] stands_at(before + part + after, part, i),
    ensures
        replaced_first(before + part + after, part, with) == before + with + after,
{
    let text = before + part + after;
    let at = before.len() as int;
    law_first_at(text, part);
    assert(text.subrange(at, at + part.len()) == part);
    assert(stands_at(text, part, at));
    assert(first_at(text, part, 0) == Some(at));
    assert(text.take(at) == before);
    assert(text.skip(at + part.len()) == after);
}

/// A text without the part stays.
pub proof fn law_replaced_nothing(text: Seq<char>, part: Seq<char>, with: Seq<char>)
    requires
        !holds(text, part),
    ensures
        replaced_first(text, part, with) == text,
{
    law_first_at(text, part);
}

proof fn lemma_line_end_of(line: Seq<char>, rest: Seq<char>, from: int)
    requires
        0 <= from <= line.len(),
        !line.contains('\n'),
        rest.len() > 0 ==> rest[0] == '\n',
    ensures
        line_end(line + rest, from) == line.len(),
    decreases line.len() - from,
{
    if from < line.len() {
        assert((line + rest)[from] == line[from]);
        assert(line.contains(line[from]));
        lemma_line_end_of(line, rest, from + 1);
    }
}

/// A text has no lines where it is empty; a line ends at a line feed, which belongs to it together
/// with one carriage return before it; and what no line feed ends is a line as it is.
pub proof fn law_lines(line: Seq<char>, rest: Seq<char>)
    requires
        !line.contains('\n'),
    ensures
        lines(seq![]) == Seq::<Seq<char>>::empty(),
        lines(line + seq!['\n'] + rest) == seq![
            if line.len() > 0 && line.last() == '\r' {
                line.drop_last()
            } else {
                line
            },
        ] + lines(rest),
        line.len() > 0 ==> lines(line) == seq![line],
{
    let text = line + seq!['\n'] + rest;
    assert(text == line + (seq!['\n'] + rest));
    lemma_line_end_of(line, seq!['\n'] + rest, 0);
    assert(text.take(line.len() as int) == line);
    assert(text.skip(line.len() as int + 1) == rest);
    assert(line + Seq::<char>::empty() == line);
    lemma_line_end_of(line, seq![], 0);
}

/// Joined rows are all rows in order with the separator between each two.
pub proof fn law_joined(first: Seq<Seq<char>>, second: Seq<Seq<char>>, separator: Seq<char>)
    ensures
        joined(seq![], separator) == Seq::<char>::empty(),
        first.len() == 1 ==> joined(first, separator) == first[0],
        first.len() > 0 && second.len() > 0 ==> joined(first + second, separator) == joined(
            first,
            separator,
        ) + separator + joined(second, separator),
    decreases second.len(),
{
    if first.len() > 0 && second.len() > 0 {
        let all = first + second;
        assert(all.drop_last() == first + second.drop_last());
        assert(all.last() == second.last());
        if second.len() == 1 {
            assert(all.drop_last() == first);
        } else {
            law_joined(first, second.drop_last(), separator);
            assert(joined(first, separator) + separator + joined(second.drop_last(), separator)
                + separator + second.last() == joined(first, separator) + separator + (joined(
                second.drop_last(),
                separator,
            ) + separator + second.last()));
        }
    }
}

/// The number that decimal digits stand for.
pub open spec fn decimal_value(digits: Seq<char>) -> int
    decreases digits.len(),
{
    if digits.len() == 0 {
        0
    } else {
        decimal_value(digits.drop_last()) * 10 + (digits.last() as int - '0' as int)
    }
}

/// A number is written in digits that stand for it, and without a zero before others.
pub proof fn law_decimal(n: nat)
    ensures
        decimal_value(decimal(n)) == n,
        forall|i: int| 0 <= i < decimal(n).len() ==> '0' <= #[trigger] decimal(n)[i] <= '9',
        decimal(n).len() > 0,
        decimal(n).len() > 1 ==> decimal(n)[0] != '0',
    decreases n,
{
    if n < 10 {
        assert(decimal(n).drop_last() == Seq::<char>::empty());
        assert(decimal_value(decimal(n).drop_last()) == 0);
        assert(decimal(n).last() as int - '0' as int == n);
    } else {
        law_decimal(n / 10);
        let shorter = decimal(n / 10);
        assert(decimal(n).drop_last() == shorter);
        assert(decimal(n).last() as int - '0' as int == n % 10);
        assert(decimal(n)[0] == shorter[0]);
        if shorter.len() == 1 {
            assert(shorter.drop_last() == Seq::<char>::empty());
            assert(decimal_value(shorter.drop_last()) == 0);
            assert(shorter.last() == shorter[0]);
        }
    }
}

proof fn lemma_encode_both(a: Seq<char>, b: Seq<char>)
    ensures
        encode_utf8(a + b) == encode_utf8(a) + encode_utf8(b),
    decreases a.len(),
{
    if a.len() == 0 {
        assert(a + b == b);
        assert(encode_utf8(a) + encode_utf8(b) == encode_utf8(b));
    } else {
        assert((a + b).drop_first() == a.drop_first() + b);
        lemma_encode_both(a.drop_first(), b);
        assert(encode_utf8(a + b) == encode_utf8(a) + encode_utf8(b));
    }
}

/// Cutting a text out of a source by the number of bytes before it and up to its end gives that
/// text.
pub proof fn law_byte_slice(before: Seq<char>, text: Seq<char>, after: Seq<char>)
    ensures
        byte_slice(
            before + text + after,
            encode_utf8(before).len() as int,
            encode_utf8(before + text).len() as int,
        ) == Some(text),
{
    let a = encode_utf8(before);
    let b = encode_utf8(text);
    let c = encode_utf8(after);
    lemma_encode_both(before, text);
    lemma_encode_both(before + text, after);
    lemma_encode_both(text, after);
    let bytes = a + b + c;
    assert(encode_utf8(before + text + after) == bytes);
    lemma_boundary(before, text + after);
    assert(before + (text + after) == before + text + after);
    lemma_boundary(before + text, after);
    assert(bytes.subrange(a.len() as int, (a + b).len() as int) == b);
    encode_utf8_decode_utf8(text);
}

proof fn lemma_boundary(before: Seq<char>, after: Seq<char>)
    ensures
        is_char_boundary(encode_utf8(before + after), encode_utf8(before).len() as int),
    decreases before.len(),
{
    let bytes = encode_utf8(before + after);
    encode_utf8_valid_utf8(before + after);
    if before.len() > 0 {
        assert((before + after).drop_first() == before.drop_first() + after);
        lemma_boundary(before.drop_first(), after);
        lemma_encode_both(before, after);
        encode_utf8_first_scalar(before + after);
        assert((before + after)[0] == before[0]);
        assert(pop_first_scalar(bytes) == encode_utf8((before + after).drop_first()));
    }
}

/// What is cut out of a source stands in it, between the bytes that were asked for.
pub proof fn law_byte_slice_stands(source: Seq<char>, start: int, end: int) -> (parts: (
    Seq<char>,
    Seq<char>,
))
    requires
        byte_slice(source, start, end) is Some,
    ensures
        source == parts.0 + byte_slice(source, start, end)->0 + parts.1,
        encode_utf8(parts.0).len() == start,
        encode_utf8(parts.0 + byte_slice(source, start, end)->0).len() == end,
{
    let bytes = encode_utf8(source);
    encode_utf8_valid_utf8(source);
    encode_utf8_decode_utf8(source);
    let head = bytes.subrange(0, end);
    let tail = bytes.subrange(end, bytes.len() as int);
    valid_utf8_split(bytes, end);
    decode_utf8_split(bytes, end);
    valid_utf8_split(bytes, start);
    let front = bytes.subrange(0, start);
    let text = bytes.subrange(start, end);
    if start < end {
        is_char_boundary_iff_not_is_continuation_byte(bytes, start);
        is_char_boundary_iff_not_is_continuation_byte(head, start);
    } else {
        is_char_boundary_start_end_of_seq(head);
    }
    assert(head.subrange(0, start) == front);
    assert(head.subrange(start, end) == text);
    valid_utf8_split(head, start);
    decode_utf8_split(head, start);
    decode_utf8_encode_utf8(front);
    decode_utf8_encode_utf8(head);
    assert(decode_utf8(head) == decode_utf8(front) + decode_utf8(text));
    (decode_utf8(bytes.subrange(0, start)), decode_utf8(tail))
}

} // verus!
