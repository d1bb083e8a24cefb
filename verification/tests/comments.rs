use symbol_indexer::comments::extract_leading_comment;

fn comment(source: &str, row: usize) -> Option<String> {
    extract_leading_comment(source, row)
}

#[test]
fn a_run_of_line_comments_is_taken_whole() {
    let source = "int x;\n// one\n  /// two\n//! three\nint f();";
    assert_eq!(comment(source, 4).as_deref(), Some("one\ntwo\nthree"));
}

#[test]
fn the_row_above_the_run_is_left_out() {
    let source = "// far\n\n// near\nint f();";
    assert_eq!(comment(source, 3).as_deref(), Some("near"));
}

#[test]
fn blank_rows_below_a_comment_make_no_difference() {
    let source = "// one\n\n \t \nint f();";
    assert_eq!(comment(source, 1).as_deref(), Some("one"));
    assert_eq!(comment(source, 2), comment(source, 1));
    assert_eq!(comment(source, 3), comment(source, 1));
}

#[test]
fn slashes_are_taken_off_as_often_as_the_marker_stands() {
    assert_eq!(comment("//////\t x\nf", 1).as_deref(), Some("x"));
    assert_eq!(comment("//// x\nf", 1).as_deref(), Some("/ x"));
    assert_eq!(comment("//!//! x\nf", 1).as_deref(), Some("x"));
}

#[test]
fn a_block_comment_is_taken_from_where_it_opens() {
    let source = "/* other */\n/**\n * Adds.\n *\n * Twice.\n */\nint f();";
    assert_eq!(comment(source, 6).as_deref(), Some("\nAdds.\n\nTwice.\n"));
    assert_eq!(comment("/*! one */\nf", 1).as_deref(), Some("one"));
    assert_eq!(comment("/*/** one */*/\nf", 1).as_deref(), Some("one"));
}

#[test]
fn a_block_comment_that_opens_nowhere_starts_on_the_first_row() {
    assert_eq!(comment("int x;\n* two */\nf", 2).as_deref(), Some("int x;\ntwo"));
}

#[test]
fn a_declaration_on_the_first_row_has_no_comment() {
    assert_eq!(comment("int f();", 0), None);
    assert_eq!(comment("// below", 0), None);
    assert_eq!(comment("\n\nint f();", 2), None);
}

#[test]
fn a_row_that_is_no_comment_gives_none() {
    assert_eq!(comment("// far\nint x; // near\nint f();", 2), None);
    assert_eq!(comment("int x;\nint f();", 1), None);
}

#[test]
fn a_comment_without_text_gives_none() {
    assert_eq!(comment("//\n///  \nf", 2), None);
    assert_eq!(comment("/* */\nf", 1), None);
    assert_eq!(comment("/**\n *\n */\nf", 3), None);
}

#[test]
fn a_source_without_lines_has_no_comment() {
    assert_eq!(comment("", 0), None);
    assert_eq!(comment("", 7), None);
}

#[test]
fn a_row_below_the_last_line_may_be_asked_for() {
    assert_eq!(comment("// last", 1).as_deref(), Some("last"));
}
