use symbol_indexer::text::{
    chars_of, copy_range, decimal_text, ends_with, find, is_space_char, join, replace_first,
    same_text, slice_bytes, split_lines, starts_with, string_of, strip_prefixes, strip_suffixes,
    trim,
};

fn samples() -> Vec<&'static str> {
    vec![
        "",
        " ",
        "a",
        "  a b  ",
        "\t\u{3000}x\u{2003}\n",
        "/// doc",
        "//// doc",
        "/*/*/** x */*/",
        "aaa",
        "über::größe",
        "one\ntwo\r\nthree",
        "one\n\n\ntwo\n",
        "\r\n",
        "\n",
        "end\r",
        "a\r\r\nb",
    ]
}

fn text_of(chars: &Vec<char>) -> String {
    string_of(chars)
}

#[test]
fn white_space_is_that_of_unicode() {
    for code in 0..=0x10ffff_u32 {
        if let Some(c) = char::from_u32(code) {
            assert_eq!(is_space_char(c), c.is_whitespace(), "{:x}", code);
        }
    }
}

#[test]
fn characters_and_texts_convert_both_ways() {
    for sample in samples() {
        assert_eq!(chars_of(sample), sample.chars().collect::<Vec<char>>());
        assert_eq!(text_of(&chars_of(sample)), sample);
    }
}

#[test]
fn texts_compare_by_their_characters() {
    assert!(same_text("", ""));
    assert!(same_text("größe", "größe"));
    assert!(!same_text("a", "b"));
    assert!(!same_text("a", "ab"));
    assert!(!same_text("ab", "a"));
}

#[test]
fn a_range_is_copied() {
    assert_eq!(text_of(&copy_range(&chars_of("größe"), 1, 4)), "röß");
    assert_eq!(text_of(&copy_range(&chars_of("abc"), 3, 3)), "");
}

#[test]
fn trimming_takes_white_space_off_both_ends() {
    for sample in samples() {
        assert_eq!(text_of(&trim(&chars_of(sample))), sample.trim());
    }
}

#[test]
fn trimming_twice_is_trimming_once() {
    for sample in samples() {
        let once = trim(&chars_of(sample));
        assert_eq!(trim(&once), once);
    }
}

#[test]
fn lines_end_at_line_feeds() {
    for sample in samples() {
        let split: Vec<String> = split_lines(&chars_of(sample)).iter().map(text_of).collect();
        let expected: Vec<&str> = sample.lines().collect();
        assert_eq!(split, expected);
    }
    assert_eq!(split_lines(&chars_of("")).len(), 0);
    assert_eq!(split_lines(&chars_of("end\r")), vec![chars_of("end\r")]);
}

#[test]
fn rows_are_joined_with_a_separator() {
    let none: Vec<Vec<char>> = Vec::new();
    assert_eq!(join(&none, ", "), "");
    assert_eq!(join(&vec![chars_of("a")], ", "), "a");
    assert_eq!(join(&vec![chars_of(""), chars_of("a"), chars_of("")], "\n"), "\na\n");
}

#[test]
fn prefixes_and_suffixes_are_found() {
    for sample in samples() {
        let chars = chars_of(sample);
        for pattern in ["", "/", "//", "/*", "*/", "a", "aa", "ü", "\n"] {
            assert_eq!(starts_with(&chars, pattern), sample.starts_with(pattern));
            assert_eq!(ends_with(&chars, pattern), sample.ends_with(pattern));
            let at = sample.find(pattern).map(|at| sample[..at].chars().count());
            assert_eq!(find(&chars, pattern), at);
        }
    }
}

#[test]
fn prefixes_and_suffixes_are_stripped_as_often_as_they_stand() {
    for sample in samples() {
        let chars = chars_of(sample);
        for pattern in ["///", "//", "/**", "/*", "*/", "*", "a", "aa"] {
            assert_eq!(
                text_of(&strip_prefixes(&chars, pattern)),
                sample.trim_start_matches(pattern)
            );
            assert_eq!(
                text_of(&strip_suffixes(&chars, pattern)),
                sample.trim_end_matches(pattern)
            );
        }
    }
}

#[test]
fn only_the_first_occurrence_is_replaced() {
    assert_eq!(replace_first("a b a", "a", "x::a"), "x::a b a");
    assert_eq!(replace_first("größe", "ß", "ss"), "grösse");
    assert_eq!(replace_first("abc", "d", "x"), "abc");
    assert_eq!(replace_first("abc", "", "x"), "xabc");
    for sample in samples() {
        for pattern in ["", "a", "::", "*/"] {
            assert_eq!(replace_first(sample, pattern, "<>"), sample.replacen(pattern, "<>", 1));
        }
    }
}

#[test]
fn bytes_are_cut_at_character_boundaries() {
    for sample in samples() {
        for start in 0..sample.len() + 2 {
            for end in 0..sample.len() + 2 {
                assert_eq!(slice_bytes(sample, start, end), sample.get(start..end));
            }
        }
    }
    assert_eq!(slice_bytes("über", 1, 2), None);
    assert_eq!(slice_bytes("über", 2, 4), Some("be"));
}

#[test]
fn numbers_are_written_in_decimal() {
    for n in [0, 1, 9, 10, 11, 99, 100, 1_234_567_890, u32::MAX] {
        assert_eq!(decimal_text(n), format!("{}", n));
    }
}
