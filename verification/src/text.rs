//! Text as a sequence of characters.

use vstd::prelude::*;
use vstd::string::*;
use vstd::utf8::*;

verus! {

/// `String::push` appends one character to the text.
pub assume_specification[ String::push ](text: &mut String, c: char)
    ensures
        final(text)@ == old(text)@.push(c),
;

/// The characters of `text`, in order.
pub fn chars_of(text: &str) -> (chars: Vec<char>)
    ensures
        chars@ == text@,
{
    let mut chars: Vec<char> = Vec::new();
    for c in it: text.chars()
        invariant
            it.seq() == text@,
            chars@ == text@.take(it.index() as int),
    {
        chars.push(c);
    }
    assert(text@.take(text@.len() as int) == text@);
    chars
}

/// A string of the given characters.
pub fn string_of(chars: &Vec<char>) -> (text: String)
    ensures
        text@ == chars@,
{
    let mut text = String::new();
    for i in 0..chars.len()
        invariant
            text@ == chars@.take(i as int),
    {
        text.push(chars[i]);
        assert(chars@.take(i + 1) == chars@.take(i as int).push(chars@[i as int]));
    }
    assert(chars@.take(chars@.len() as int) == chars@);
    text
}

/// Whether two texts are equal.
pub fn same_text(a: &str, b: &str) -> (same: bool)
    ensures
        same == (a@ == b@),
{
    broadcast use encode_utf8_decode_utf8;

    let left = a.as_bytes();
    let right = b.as_bytes();
    if left.len() != right.len() {
        return false;
    }
    for i in 0..left.len()
        invariant
            left@ == encode_utf8(a@),
            right@ == encode_utf8(b@),
            left@.len() == right@.len(),
            forall|j: int| 0 <= j < i ==> left@[j] == right@[j],
    {
        if left[i] != right[i] {
            return false;
        }
    }
    assert(left@ == right@);
    assert(decode_utf8(encode_utf8(a@)) == a@);
    assert(decode_utf8(encode_utf8(b@)) == b@);
    true
}

/// The text that the bytes from `start` up to `end` of the encoded `source` spell, if they lie
/// within it and cut no character apart.
pub open spec fn byte_slice(source: Seq<char>, start: int, end: int) -> Option<Seq<char>> {
    let bytes = encode_utf8(source);
    if 0 <= start <= end <= bytes.len() && is_char_boundary(bytes, start) && is_char_boundary(
        bytes,
        end,
    ) {
        Some(decode_utf8(bytes.subrange(start, end)))
    } else {
        None
    }
}

/// The part of `source` between two byte offsets.
pub fn slice_bytes<'a>(source: &'a str, start: usize, end: usize) -> (part: Option<&'a str>)
    ensures
        match part {
            Some(text) => byte_slice(source@, start as int, end as int) == Some(text@),
            None => byte_slice(source@, start as int, end as int) is None,
        },
{
    let ghost bytes = encode_utf8(source@);
    proof {
        encode_utf8_valid_utf8(source@);
    }
    if start > end || end > source.as_bytes().len() || !source.is_char_boundary(start)
        || !source.is_char_boundary(end) {
        return None;
    }
    let (head, _) = source.split_at(end);
    proof {
        encode_utf8_valid_utf8(head@);
        if start < end {
            is_char_boundary_iff_not_is_continuation_byte(bytes, start as int);
            is_char_boundary_iff_not_is_continuation_byte(head.spec_bytes(), start as int);
        } else {
            is_char_boundary_start_end_of_seq(head.spec_bytes());
        }
    }
    let (_, part) = head.split_at(start);
    proof {
        assert(part.spec_bytes() == bytes.subrange(start as int, end as int));
        encode_utf8_decode_utf8(part@);
    }
    Some(part)
}

/// Whether `c` is one of the characters that Unicode counts as white space.
pub open spec fn is_space(c: char) -> bool {
    ||| '\t' <= c <= '\r'
    ||| c == ' '
    ||| c == '\u{85}'
    ||| c == '\u{a0}'
    ||| c == '\u{1680}'
    ||| '\u{2000}' <= c <= '\u{200a}'
    ||| c == '\u{2028}'
    ||| c == '\u{2029}'
    ||| c == '\u{202f}'
    ||| c == '\u{205f}'
    ||| c == '\u{3000}'
}

/// Tests one character for white space.
pub fn is_space_char(c: char) -> (space: bool)
    ensures
        space == is_space(c),
{
    ('\t' <= c && c <= '\r') || c == ' ' || c == '\u{85}' || c == '\u{a0}' || c == '\u{1680}' || (
    '\u{2000}' <= c && c <= '\u{200a}') || c == '\u{2028}' || c == '\u{2029}' || c == '\u{202f}'
        || c == '\u{205f}' || c == '\u{3000}'
}

/// `text` without the white space it starts with.
pub open spec fn trimmed_start(text: Seq<char>) -> Seq<char>
    decreases text.len(),
{
    if text.len() > 0 && is_space(text[0]) {
        trimmed_start(text.skip(1))
    } else {
        text
    }
}

/// `text` without the white space it ends with.
pub open spec fn trimmed_end(text: Seq<char>) -> Seq<char>
    decreases text.len(),
{
    if text.len() > 0 && is_space(text.last()) {
        trimmed_end(text.drop_last())
    } else {
        text
    }
}

/// `text` without the white space around it.
pub open spec fn trimmed(text: Seq<char>) -> Seq<char> {
    trimmed_end(trimmed_start(text))
}

proof fn lemma_trimmed_start(text: Seq<char>)
    ensures
        exists|from: int|
            0 <= from <= text.len() && trimmed_start(text) == #[trigger] text.skip(from),
        trimmed_start(text).len() > 0 ==> !is_space(trimmed_start(text)[0]),
    decreases text.len(),
{
    if text.len() > 0 && is_space(text[0]) {
        let rest = text.skip(1);
        lemma_trimmed_start(rest);
        let from = choose|from: int|
            0 <= from <= rest.len() && trimmed_start(rest) == #[trigger] rest.skip(from);
        assert(rest.skip(from) == text.skip(from + 1));
    } else {
        assert(text.skip(0) == text);
    }
}

proof fn lemma_trimmed_end(text: Seq<char>)
    ensures
        exists|to: int| 0 <= to <= text.len() && trimmed_end(text) == #[trigger] text.take(to),
        trimmed_end(text).len() > 0 ==> !is_space(trimmed_end(text).last()),
    decreases text.len(),
{
    if text.len() > 0 && is_space(text.last()) {
        let rest = text.drop_last();
        lemma_trimmed_end(rest);
        let to = choose|to: int|
            0 <= to <= rest.len() && trimmed_end(rest) == #[trigger] rest.take(to);
        assert(rest.take(to) == text.take(to));
    } else {
        assert(text.take(text.len() as int) == text);
    }
}

/// A trimmed text is a part of the text, neither starts nor ends with white space, and is left as
/// it is when it is trimmed again.
pub proof fn lemma_trimmed(text: Seq<char>)
    ensures
        exists|from: int, to: int|
            0 <= from <= to <= text.len() && trimmed(text) == #[trigger] text.subrange(from, to),
        trimmed(text).len() > 0 ==> !is_space(trimmed(text)[0]) && !is_space(trimmed(text).last()),
        trimmed(trimmed(text)) == trimmed(text),
{
    let middle = trimmed_start(text);
    lemma_trimmed_start(text);
    lemma_trimmed_end(middle);
    let from = choose|from: int|
        0 <= from <= text.len() && trimmed_start(text) == #[trigger] text.skip(from);
    let to = choose|to: int|
        0 <= to <= middle.len() && trimmed_end(middle) == #[trigger] middle.take(to);
    assert(text.skip(from).take(to) == text.subrange(from, from + to));
    if to > 0 {
        assert(middle.take(to)[0] == middle[0]);
    }
}

/// A copy of the characters from index `from` up to `to`.
pub fn copy_range(chars: &Vec<char>, from: usize, to: usize) -> (part: Vec<char>)
    requires
        from <= to <= chars@.len(),
    ensures
        part@ == chars@.subrange(from as int, to as int),
{
    let mut part: Vec<char> = Vec::new();
    for i in from..to
        invariant
            from <= to <= chars@.len(),
            part@ == chars@.subrange(from as int, i as int),
    {
        part.push(chars[i]);
        assert(chars@.subrange(from as int, i + 1) == chars@.subrange(from as int, i as int).push(
            chars@[i as int],
        ));
    }
    part
}

/// Removes the white space around the text.
pub fn trim(chars: &Vec<char>) -> (part: Vec<char>)
    ensures
        part@ == trimmed(chars@),
{
    let mut from: usize = 0;
    assert(chars@.skip(0) == chars@);
    while from < chars.len() && is_space_char(chars[from])
        invariant
            from <= chars@.len(),
            trimmed_start(chars@) == trimmed_start(chars@.skip(from as int)),
        decreases chars@.len() - from,
    {
        assert(chars@.skip(from as int).skip(1) == chars@.skip(from + 1));
        from = from + 1;
    }
    let ghost rest = chars@.skip(from as int);
    assert(trimmed_start(chars@) == rest);
    let mut to: usize = chars.len();
    assert(chars@.subrange(from as int, to as int) == rest);
    while to > from && is_space_char(chars[to - 1])
        invariant
            from <= to <= chars@.len(),
            trimmed_end(rest) == trimmed_end(chars@.subrange(from as int, to as int)),
        decreases to,
    {
        assert(chars@.subrange(from as int, to as int).drop_last() == chars@.subrange(
            from as int,
            to - 1,
        ));
        to = to - 1;
    }
    copy_range(chars, from, to)
}

/// Whether `pattern` stands in `text` at index `at`.
pub open spec fn occurs_at(text: Seq<char>, pattern: Seq<char>, at: int) -> bool {
    0 <= at && at + pattern.len() <= text.len() && text.subrange(at, at + pattern.len()) == pattern
}

/// Whether `text` starts with `prefix`.
pub open spec fn has_prefix(text: Seq<char>, prefix: Seq<char>) -> bool {
    occurs_at(text, prefix, 0)
}

/// Whether `text` ends with `suffix`.
pub open spec fn has_suffix(text: Seq<char>, suffix: Seq<char>) -> bool {
    occurs_at(text, suffix, text.len() - suffix.len())
}

/// Whether `pattern` stands anywhere in `text`.
pub open spec fn has_text(text: Seq<char>, pattern: Seq<char>) -> bool {
    exists|at: int| occurs_at(text, pattern, at)
}

/// The index of the first occurrence of `pattern` in `text` that is not left of `from`.
pub open spec fn first_at(text: Seq<char>, pattern: Seq<char>, from: int) -> Option<int>
    decreases text.len() + 1 - from,
{
    if from + pattern.len() > text.len() {
        None
    } else if occurs_at(text, pattern, from) {
        Some(from)
    } else {
        first_at(text, pattern, from + 1)
    }
}

/// Tests whether a pattern stands at an index.
pub fn matches_at(chars: &Vec<char>, pattern: &Vec<char>, at: usize) -> (found: bool)
    ensures
        found == occurs_at(chars@, pattern@, at as int),
{
    if at > chars.len() || pattern.len() > chars.len() - at {
        return false;
    }
    let size = chars.len();
    for i in 0..pattern.len()
        invariant
            size == chars@.len(),
            at + pattern@.len() <= size,
            forall|j: int| 0 <= j < i ==> chars@[at + j] == pattern@[j],
    {
        if chars[at + i] != pattern[i] {
            assert(chars@.subrange(at as int, at + pattern@.len())[i as int] != pattern@[i as int]);
            return false;
        }
    }
    assert(chars@.subrange(at as int, at + pattern@.len()) == pattern@);
    true
}

/// Tests whether the text starts with `prefix`.
pub fn starts_with(chars: &Vec<char>, prefix: &str) -> (found: bool)
    ensures
        found == has_prefix(chars@, prefix@),
{
    let prefix = chars_of(prefix);
    matches_at(chars, &prefix, 0)
}

/// Tests whether the text ends with `suffix`.
pub fn ends_with(chars: &Vec<char>, suffix: &str) -> (found: bool)
    ensures
        found == has_suffix(chars@, suffix@),
{
    let suffix = chars_of(suffix);
    if suffix.len() > chars.len() {
        return false;
    }
    matches_at(chars, &suffix, chars.len() - suffix.len())
}

/// What `first_at` says of every index.
pub proof fn lemma_first_at(text: Seq<char>, pattern: Seq<char>, from: int)
    requires
        0 <= from,
    ensures
        match first_at(text, pattern, from) {
            Some(at) => from <= at && occurs_at(text, pattern, at) && forall|i: int|
                from <= i < at ==> !#[trigger] occurs_at(text, pattern, i),
            None => forall|i: int| from <= i ==> !#[trigger] occurs_at(text, pattern, i),
        },
    decreases text.len() + 1 - from,
{
    if from + pattern.len() > text.len() {
    } else if occurs_at(text, pattern, from) {
    } else {
        lemma_first_at(text, pattern, from + 1);
    }
}

/// What stands in a part of a text stands in the text.
pub proof fn lemma_part_has_text(text: Seq<char>, from: int, to: int, pattern: Seq<char>)
    requires
        0 <= from <= to <= text.len(),
        has_text(text.subrange(from, to), pattern),
    ensures
        has_text(text, pattern),
{
    let part = text.subrange(from, to);
    let at = choose|at: int| occurs_at(part, pattern, at);
    assert(text.subrange(from + at, from + at + pattern.len()) == part.subrange(
        at,
        at + pattern.len(),
    ));
    assert(occurs_at(text, pattern, from + at));
}

/// Finds the first occurrence of a pattern.
pub fn find(chars: &Vec<char>, pattern: &str) -> (found: Option<usize>)
    ensures
        match found {
            Some(at) => first_at(chars@, pattern@, 0) == Some(at as int),
            None => first_at(chars@, pattern@, 0) is None,
        },
        found is Some <==> has_text(chars@, pattern@),
{
    proof {
        lemma_first_at(chars@, pattern@, 0);
    }
    let sought = chars_of(pattern);
    if sought.len() > chars.len() {
        return None;
    }
    let last: usize = chars.len() - sought.len();
    let mut at: usize = 0;
    while at < last && !matches_at(chars, &sought, at)
        invariant
            at <= last,
            last == chars@.len() - sought@.len(),
            first_at(chars@, sought@, 0) == first_at(chars@, sought@, at as int),
        decreases last - at,
    {
        at = at + 1;
    }
    if matches_at(chars, &sought, at) {
        Some(at)
    } else {
        assert(first_at(chars@, sought@, last + 1) is None);
        None
    }
}

/// `text` after every leading repetition of `prefix` is taken off.
pub open spec fn without_prefixes(text: Seq<char>, prefix: Seq<char>) -> Seq<char>
    decreases text.len(),
{
    if prefix.len() > 0 && has_prefix(text, prefix) {
        without_prefixes(text.skip(prefix.len() as int), prefix)
    } else {
        text
    }
}

/// `text` after every trailing repetition of `suffix` is taken off.
pub open spec fn without_suffixes(text: Seq<char>, suffix: Seq<char>) -> Seq<char>
    decreases text.len(),
{
    if suffix.len() > 0 && has_suffix(text, suffix) {
        without_suffixes(text.take(text.len() - suffix.len()), suffix)
    } else {
        text
    }
}

/// Takes every leading repetition of a prefix off the text.
pub fn strip_prefixes(chars: &Vec<char>, prefix: &str) -> (part: Vec<char>)
    ensures
        part@ == without_prefixes(chars@, prefix@),
{
    let prefix = chars_of(prefix);
    let size = chars.len();
    let mut from: usize = 0;
    assert(chars@.skip(0) == chars@);
    while prefix.len() > 0 && matches_at(chars, &prefix, from)
        invariant
            size == chars@.len(),
            from <= size,
            without_prefixes(chars@, prefix@) == without_prefixes(
                chars@.skip(from as int),
                prefix@,
            ),
        decreases chars@.len() - from,
    {
        let ghost rest = chars@.skip(from as int);
        assert(rest.subrange(0, prefix@.len() as int) == chars@.subrange(
            from as int,
            from + prefix@.len(),
        ));
        assert(rest.skip(prefix@.len() as int) == chars@.skip(from + prefix@.len()));
        from = from + prefix.len();
    }
    proof {
        let rest = chars@.skip(from as int);
        if from + prefix@.len() <= chars@.len() {
            assert(rest.subrange(0, prefix@.len() as int) == chars@.subrange(
                from as int,
                from + prefix@.len(),
            ));
        }
        assert(rest == chars@.subrange(from as int, chars@.len() as int));
    }
    copy_range(chars, from, chars.len())
}

/// Takes every trailing repetition of a suffix off the text.
pub fn strip_suffixes(chars: &Vec<char>, suffix: &str) -> (part: Vec<char>)
    ensures
        part@ == without_suffixes(chars@, suffix@),
{
    let suffix = chars_of(suffix);
    let mut to: usize = chars.len();
    assert(chars@.take(to as int) == chars@);
    while suffix.len() > 0 && suffix.len() <= to && matches_at(chars, &suffix, to - suffix.len())
        invariant
            to <= chars@.len(),
            without_suffixes(chars@, suffix@) == without_suffixes(chars@.take(to as int), suffix@),
        decreases to,
    {
        let ghost rest = chars@.take(to as int);
        assert(rest.subrange(to - suffix@.len(), to as int) == chars@.subrange(
            to - suffix@.len(),
            to as int,
        ));
        assert(rest.take(to - suffix@.len()) == chars@.take(to - suffix@.len()));
        to = to - suffix.len();
    }
    proof {
        let rest = chars@.take(to as int);
        if suffix@.len() <= to {
            assert(rest.subrange(to - suffix@.len(), to as int) == chars@.subrange(
                to - suffix@.len(),
                to as int,
            ));
        }
        assert(rest == chars@.subrange(0, to as int));
    }
    copy_range(chars, 0, to)
}

/// `text` with the first occurrence of `pattern` replaced, or unchanged where there is none.
pub open spec fn replaced_first(text: Seq<char>, pattern: Seq<char>, with: Seq<char>) -> Seq<char> {
    match first_at(text, pattern, 0) {
        Some(at) => text.take(at) + with + text.skip(at + pattern.len()),
        None => text,
    }
}

/// Replaces the first occurrence of a pattern.
pub fn replace_first(text: &str, pattern: &str, with: &str) -> (result: String)
    ensures
        result@ == replaced_first(text@, pattern@, with@),
{
    let chars = chars_of(text);
    match find(&chars, pattern) {
        None => text.to_string(),
        Some(at) => {
            proof {
                lemma_first_at(text@, pattern@, 0);
            }
            let sought = chars_of(pattern);
            let size = chars.len();
            assert(at + sought@.len() <= size);
            let end = at + sought.len();
            let mut result = string_of(&copy_range(&chars, 0, at));
            result.append(with);
            result.append(string_of(&copy_range(&chars, end, chars.len())).as_str());
            assert(chars@.subrange(0, at as int) == text@.take(at as int));
            assert(chars@.subrange(end as int, chars@.len() as int) == text@.skip(end as int));
            result
        },
    }
}

/// The index of the first line feed in `text` that is not left of `from`, or the length.
pub open spec fn line_end(text: Seq<char>, from: int) -> int
    decreases text.len() - from,
{
    if from < text.len() && text[from] != '\n' {
        line_end(text, from + 1)
    } else {
        from
    }
}

/// `line` without the one carriage return that it may end with.
pub open spec fn without_return(line: Seq<char>) -> Seq<char> {
    if line.len() > 0 && line.last() == '\r' {
        line.drop_last()
    } else {
        line
    }
}

/// The lines of `text`. A line feed ends a line, together with a carriage return before it; the
/// last line may lack it.
pub open spec fn lines(text: Seq<char>) -> Seq<Seq<char>>
    decreases text.len(),
{
    let end = line_end(text, 0);
    if text.len() == 0 {
        seq![]
    } else if 0 <= end < text.len() {
        seq![without_return(text.take(end))] + lines(text.skip(end + 1))
    } else {
        seq![text]
    }
}

/// What a list of strings says.
pub open spec fn strings_view(strings: Seq<String>) -> Seq<Seq<char>> {
    strings.map_values(|text: String| text@)
}

/// The rows that a vector of character vectors holds.
pub open spec fn rows(rows: Seq<Vec<char>>) -> Seq<Seq<char>> {
    rows.map_values(|row: Vec<char>| row@)
}

proof fn lemma_line_end_at(text: Seq<char>, from: int, at: int)
    requires
        0 <= from <= at <= text.len(),
        at < text.len() ==> text[at] == '\n',
        forall|i: int| from <= i < at ==> text[i] != '\n',
    ensures
        line_end(text, from) == at,
    decreases at - from,
{
    if from < at {
        lemma_line_end_at(text, from + 1, at);
    }
}

/// Splits a text into its lines.
pub fn split_lines(chars: &Vec<char>) -> (split: Vec<Vec<char>>)
    ensures
        rows(split@) == lines(chars@),
{
    let size = chars.len();
    let mut split: Vec<Vec<char>> = Vec::new();
    let mut from: usize = 0;
    proof {
        assert(chars@.skip(0) == chars@);
        assert(rows(split@) + lines(chars@) == lines(chars@));
    }
    while from < size
        invariant
            size == chars@.len(),
            from <= size,
            rows(split@) + lines(chars@.skip(from as int)) == lines(chars@),
        decreases size - from,
    {
        let ghost rest = chars@.skip(from as int);
        let ghost before = rows(split@);
        let mut end: usize = from;
        while end < size && chars[end] != '\n'
            invariant
                size == chars@.len(),
                from <= end <= size,
                forall|i: int| from <= i < end ==> chars@[i] != '\n',
            decreases size - end,
        {
            end = end + 1;
        }
        proof {
            assert forall|i: int| 0 <= i < end - from implies rest[i] != '\n' by {
                assert(rest[i] == chars@[from + i]);
            }
            lemma_line_end_at(rest, 0, end - from);
        }
        if end < size {
            let stop: usize = if end > from && chars[end - 1] == '\r' {
                end - 1
            } else {
                end
            };
            let line = copy_range(chars, from, stop);
            proof {
                assert(rest.take(end - from) == chars@.subrange(from as int, end as int));
                assert(line@ == without_return(rest.take(end - from)));
                assert(rest.skip(end - from + 1) == chars@.skip(end + 1));
                assert(rows(split@.push(line)) == before.push(line@));
                assert(before + lines(rest) == before.push(line@) + lines(chars@.skip(end + 1)));
            }
            split.push(line);
            from = end + 1;
        } else {
            let line = copy_range(chars, from, end);
            proof {
                assert(rest == line@);
                assert(rows(split@.push(line)) == before.push(line@));
                assert(chars@.skip(size as int).len() == 0);
                assert(before + lines(rest) == before.push(line@) + lines(
                    chars@.skip(size as int),
                ));
            }
            split.push(line);
            from = size;
        }
    }
    proof {
        assert(chars@.skip(from as int).len() == 0);
        assert(rows(split@) + lines(chars@.skip(from as int)) == rows(split@));
    }
    split
}

/// The given rows one after the other, with a separator between them.
pub open spec fn joined(rows: Seq<Seq<char>>, separator: Seq<char>) -> Seq<char>
    decreases rows.len(),
{
    if rows.len() == 0 {
        seq![]
    } else if rows.len() == 1 {
        rows[0]
    } else {
        joined(rows.drop_last(), separator) + separator + rows.last()
    }
}

/// Where one of the rows is not empty, neither are the joined rows.
pub proof fn lemma_joined_is_not_empty(rows: Seq<Seq<char>>, separator: Seq<char>, at: int)
    requires
        0 <= at < rows.len(),
        rows[at].len() > 0,
    ensures
        joined(rows, separator).len() > 0,
    decreases rows.len(),
{
    if rows.len() > 1 && at < rows.len() - 1 {
        lemma_joined_is_not_empty(rows.drop_last(), separator, at);
    }
}

/// Joins rows of characters with a separator.
pub fn join(parts: &Vec<Vec<char>>, separator: &str) -> (text: String)
    ensures
        text@ == joined(rows(parts@), separator@),
{
    let mut text = String::new();
    for i in 0..parts.len()
        invariant
            text@ == joined(rows(parts@).take(i as int), separator@),
    {
        proof {
            assert(rows(parts@).take(i + 1).drop_last() == rows(parts@).take(i as int));
            assert(rows(parts@).take(i + 1).last() == parts@[i as int]@);
        }
        if i > 0 {
            text.append(separator);
        }
        text.append(string_of(&parts[i]).as_str());
    }
    assert(rows(parts@).take(parts@.len() as int) == rows(parts@));
    text
}

/// The digit for a number below ten.
pub open spec fn digit(n: nat) -> char {
    if n == 0 {
        '0'
    } else if n == 1 {
        '1'
    } else if n == 2 {
        '2'
    } else if n == 3 {
        '3'
    } else if n == 4 {
        '4'
    } else if n == 5 {
        '5'
    } else if n == 6 {
        '6'
    } else if n == 7 {
        '7'
    } else if n == 8 {
        '8'
    } else {
        '9'
    }
}

/// A number written in decimal digits, without leading zeros.
pub open spec fn decimal(n: nat) -> Seq<char>
    decreases n,
{
    if n < 10 {
        seq![digit(n)]
    } else {
        decimal(n / 10).push(digit(n % 10))
    }
}

fn digit_char(n: u32) -> (c: char)
    requires
        n < 10,
    ensures
        c == digit(n as nat),
{
    match n {
        0 => '0',
        1 => '1',
        2 => '2',
        3 => '3',
        4 => '4',
        5 => '5',
        6 => '6',
        7 => '7',
        8 => '8',
        _ => '9',
    }
}

/// Writes a number in decimal digits.
pub fn decimal_text(n: u32) -> (text: String)
    ensures
        text@ == decimal(n as nat),
    decreases n,
{
    let mut text = if n < 10 {
        String::new()
    } else {
        decimal_text(n / 10)
    };
    text.push(digit_char(n % 10));
    text
}

} // verus!
