use comment_miner::lexer::{
    extract_comments_from_lines, extract_inline_comments, extract_preceding_comments,
};

fn strings(items: &[&str]) -> Vec<String> {
    items.iter().map(|s| s.to_string()).collect()
}

#[test]
fn line_comment_is_emitted_trimmed() {
    assert_eq!(extract_comments_from_lines(&["// text"]), strings(&["// text"]));
    assert_eq!(extract_comments_from_lines(&["    let x = 1; // text   "]), strings(&["// text"]));
    assert_eq!(extract_comments_from_lines(&["//text\t"]), strings(&["//text"]));
}

#[test]
fn documentation_line_comments_are_left_out() {
    assert_eq!(extract_comments_from_lines(&["///text"]), strings(&[]));
    assert_eq!(extract_comments_from_lines(&["//!text"]), strings(&[]));
    assert_eq!(extract_comments_from_lines(&["/// text", "//! text", "fn f() {}"]), strings(&[]));
}

#[test]
fn rest_of_line_after_documentation_marker_is_skipped() {
    assert_eq!(extract_comments_from_lines(&["/// doc // not a comment"]), strings(&[]));
    assert_eq!(extract_comments_from_lines(&["/// doc /* not open", "// next"]), strings(&["// next"]));
}

#[test]
fn nested_block_comment_is_one_fragment() {
    assert_eq!(
        extract_comments_from_lines(&["/* a /* b */ c */"]),
        strings(&["/* a /* b */ c */"])
    );
    assert_eq!(
        extract_comments_from_lines(&["x /* a /* b */ c */ y /* d */"]),
        strings(&["/* a /* b */ c */", "/* d */"])
    );
}

#[test]
fn documentation_block_comments_are_left_out() {
    assert_eq!(extract_comments_from_lines(&["/** doc */"]), strings(&[]));
    assert_eq!(extract_comments_from_lines(&["/*! doc */"]), strings(&[]));
    assert_eq!(extract_comments_from_lines(&["/** doc", " more doc", " */", "fn f() {}"]), strings(&[]));
}

#[test]
fn text_nested_in_documentation_block_is_dropped() {
    assert_eq!(extract_comments_from_lines(&["/** doc /* inner */ more */ // after"]), strings(&["// after"]));
}

#[test]
fn block_comment_keeps_its_line_breaks() {
    assert_eq!(
        extract_comments_from_lines(&["  /* first", "     second", "  */ code"]),
        strings(&["/* first\n     second\n  */"])
    );
}

#[test]
fn unterminated_block_comment_is_still_emitted() {
    assert_eq!(extract_comments_from_lines(&["/* open", "still open  "]), strings(&["/* open\nstill open"]));
    assert_eq!(extract_comments_from_lines(&["/** open", "still open"]), strings(&[]));
}

#[test]
fn short_remainders_are_not_misread() {
    assert_eq!(extract_comments_from_lines(&["/"]), strings(&[]));
    assert_eq!(extract_comments_from_lines(&["a /"]), strings(&[]));
    assert_eq!(extract_comments_from_lines(&["*/"]), strings(&[]));
    assert_eq!(extract_comments_from_lines(&["//"]), strings(&["//"]));
    assert_eq!(extract_comments_from_lines(&["/*", "x", "*/"]), strings(&["/*\nx\n*/"]));
    assert_eq!(extract_comments_from_lines(&[""]), strings(&[]));
    assert_eq!(extract_comments_from_lines(&[]), strings(&[]));
}

#[test]
fn line_comment_marker_inside_block_is_text() {
    assert_eq!(extract_comments_from_lines(&["/* a // b */ c"]), strings(&["/* a // b */"]));
}

#[test]
fn comments_come_in_order_of_appearance() {
    assert_eq!(
        extract_comments_from_lines(&["// one", "/* two */ // three", "code(); // four"]),
        strings(&["// one", "/* two */", "// three", "// four"])
    );
}

#[test]
fn unicode_white_space_is_trimmed() {
    assert_eq!(extract_comments_from_lines(&["// caf\u{e9}\u{a0}\u{3000}"]), strings(&["// caf\u{e9}"]));
}

#[test]
fn stale_comment_above_code_is_discarded() {
    let source = "// stale comment\ncode_line();\n// kept comment\nfn target() {}\n";
    assert_eq!(extract_preceding_comments(source, 4), strings(&["// kept comment"]));
}

#[test]
fn only_the_kept_comment_belongs_to_the_target() {
    let source = "// stale comment\ncode_line();\n// kept comment\nfn target() {}\n";
    assert_eq!(extract_inline_comments(source, 4, 4), strings(&["// kept comment"]));
    assert_eq!(
        extract_comments_from_lines(&source.lines().collect::<Vec<&str>>()),
        strings(&["// stale comment", "// kept comment"])
    );
}

#[test]
fn blank_lines_and_indentation_keep_contiguity() {
    let source = "code();\n  // first\n\n    /* second */\n   \nfn target() {}\n";
    assert_eq!(extract_preceding_comments(source, 6), strings(&["// first", "/* second */"]));
}

#[test]
fn tab_breaks_contiguity() {
    let source = "// first\n\t\nfn target() {}\n";
    assert_eq!(extract_preceding_comments(source, 3), strings(&[]));
}

#[test]
fn documentation_between_comment_and_target_keeps_contiguity() {
    let source = "// kept\n/// doc\n/** more doc */\nfn target() {}\n";
    assert_eq!(extract_preceding_comments(source, 4), strings(&["// kept"]));
}

#[test]
fn preceding_scan_of_first_line_finds_nothing() {
    assert_eq!(extract_preceding_comments("fn target() {}\n", 1), strings(&[]));
}

#[test]
fn preceding_scan_past_the_end_reads_every_line() {
    assert_eq!(extract_preceding_comments("code();\n// a\n// b", 10), strings(&["// a", "// b"]));
}

#[test]
fn inline_comments_put_preceding_fragments_first() {
    let source = "// above\nfn f() {\n    // inside\n    g(); /* also */\n}\n// below\n";
    assert_eq!(
        extract_inline_comments(source, 2, 5),
        strings(&["// above", "// inside", "/* also */"])
    );
}

#[test]
fn inline_comments_scan_the_span_independently() {
    let source = "/* open above\nfn f() {\n    // inside\n}\n";
    assert_eq!(
        extract_inline_comments(source, 2, 4),
        strings(&["/* open above", "// inside"])
    );
}

#[test]
fn inline_comments_skip_a_span_outside_the_source() {
    let source = "// above\nfn f() {\n    // inside\n}\n";
    assert_eq!(extract_inline_comments(source, 2, 9), strings(&["// above"]));
    assert_eq!(extract_inline_comments(source, 7, 9), strings(&[]));
    assert_eq!(extract_inline_comments(source, 4, 2), strings(&["// inside"]));
}

#[test]
fn carriage_returns_end_lines_with_line_feeds() {
    let source = "// above  \r\nfn f() {\r\n    // inside\r\n}\r\n";
    assert_eq!(extract_inline_comments(source, 2, 4), strings(&["// above", "// inside"]));
}

#[test]
fn rescanning_gives_the_same_fragments() {
    let lines = ["// a", "/* b", "c */ d // e", "/** f */", "/* g"];
    let first = extract_comments_from_lines(&lines);
    let second = extract_comments_from_lines(&lines);
    assert_eq!(first, second);
    assert_eq!(first, strings(&["// a", "/* b\nc */", "// e", "/* g"]));
    let source = lines.join("\n");
    assert_eq!(extract_inline_comments(&source, 3, 5), extract_inline_comments(&source, 3, 5));
}
