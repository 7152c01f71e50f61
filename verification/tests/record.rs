use comment_miner::record::{examine, summarize, FunctionCommentStatus, Outcome, RecordKey};
use comment_miner::syntax::{
    Attribute, Definition, FunctionKind, FunctionLike, ImplItem, Item, Node, Span, SyntaxTree,
};
use comment_miner::text::{
    chars_of, is_whitespace, join_with_space, split_lines, string_of, trim, trim_from,
};

fn key() -> RecordKey {
    RecordKey {
        crate_name: "demo".to_string(),
        def_path: "demo::add".to_string(),
        file: "src/lib.rs".to_string(),
    }
}

fn doc(text: &str) -> Attribute {
    Attribute { name: Some("doc".to_string()), value: Some(text.to_string()) }
}

fn resolved(outcome: Outcome) -> FunctionCommentStatus {
    match outcome {
        Outcome::Resolved(status) => status,
        other => panic!("not resolved: {:?}", other),
    }
}

const ADD: &str = "/// Adds numbers.\nfn add(a: i32, b: i32) -> i32 {\n    // sum them\n    a + b\n}\n";

fn add_tree() -> SyntaxTree {
    SyntaxTree {
        items: vec![Item {
            span: Span::new(2, 5).unwrap(),
            node: Node::Function(Definition {
                name: "add".to_string(),
                attrs: vec![doc("Adds numbers.")],
            }),
        }],
    }
}

#[test]
fn documented_function_with_inner_comment() {
    let tree = add_tree();
    let status = resolved(examine(key(), ADD, Some(&tree), 2));
    assert_eq!(status.doc_paragraph, "Adds numbers.");
    assert!(status.has_doc);
    assert_eq!(status.inline_comment_paragraph, "// sum them");
    assert!(status.has_inline_comment);
    assert_eq!(status.line, 2);
    assert_eq!(status.crate_name, "demo");
    assert_eq!(status.def_path, "demo::add");
    assert_eq!(status.file, "src/lib.rs");
}

#[test]
fn any_line_of_the_span_gives_the_definition_line() {
    let tree = add_tree();
    let status = resolved(examine(key(), ADD, Some(&tree), 4));
    assert_eq!(status.line, 2);
    assert_eq!(status.inline_comment_paragraph, "// sum them");
}

#[test]
fn missing_tree_is_parse_unavailable() {
    match examine(key(), "fn broken( {", None, 1) {
        Outcome::ParseUnavailable { file, line } => {
            assert_eq!(file, "src/lib.rs");
            assert_eq!(line, 1);
        }
        other => panic!("unexpected outcome: {:?}", other),
    }
}

#[test]
fn line_outside_every_definition_is_unresolved() {
    let tree = add_tree();
    for line in [0usize, 1, 6, 400] {
        match examine(key(), ADD, Some(&tree), line) {
            Outcome::LocusUnresolved { file, line: at } => {
                assert_eq!(file, "src/lib.rs");
                assert_eq!(at, line);
            }
            other => panic!("unexpected outcome: {:?}", other),
        }
    }
}

#[test]
fn undocumented_function_without_comments() {
    let source = "fn plain() {\n    work();\n}\n";
    let definition = Definition { name: "plain".to_string(), attrs: Vec::new() };
    let func = FunctionLike {
        kind: FunctionKind::Free,
        definition: &definition,
        span: Span::new(1, 3).unwrap(),
    };
    let status = summarize(key(), source, &func);
    assert!(!status.has_doc);
    assert_eq!(status.doc_paragraph, "");
    assert!(!status.has_inline_comment);
    assert_eq!(status.inline_comment_paragraph, "");
    assert_eq!(status.line, 1);
}

#[test]
fn paragraphs_are_joined_by_single_spaces() {
    let source = "struct S;\n// about get\n/* more */\nimpl S {\n    /// Gets.\n    /// Twice.\n    fn get(&self) {\n        // one\n        call(); /* two */\n    }\n}\n";
    let tree = SyntaxTree {
        items: vec![
            Item { span: Span::new(1, 1).unwrap(), node: Node::Other },
            Item {
                span: Span::new(4, 11).unwrap(),
                node: Node::Implementation(vec![ImplItem {
                    span: Span::new(5, 10).unwrap(),
                    method: Some(Definition {
                        name: "get".to_string(),
                        attrs: vec![doc(" Gets."), doc(" Twice.")],
                    }),
                }]),
            },
        ],
    };
    let status = resolved(examine(key(), source, Some(&tree), 7));
    assert_eq!(status.line, 5);
    assert!(status.has_doc);
    assert_eq!(status.doc_paragraph, " Gets.  Twice.");
    assert!(status.has_inline_comment);
    assert_eq!(status.inline_comment_paragraph, "// one /* two */");
}

#[test]
fn comments_above_come_before_comments_within() {
    let source = "// above\nfn f() {\n    // within\n}\n";
    let definition = Definition { name: "f".to_string(), attrs: Vec::new() };
    let func = FunctionLike {
        kind: FunctionKind::Free,
        definition: &definition,
        span: Span::new(2, 4).unwrap(),
    };
    let status = summarize(key(), source, &func);
    assert_eq!(status.inline_comment_paragraph, "// above // within");
}

#[test]
fn span_past_the_end_of_the_source_keeps_the_comments_above() {
    let source = "// above\nfn f() {}\n";
    let definition = Definition { name: "f".to_string(), attrs: Vec::new() };
    let func = FunctionLike {
        kind: FunctionKind::Free,
        definition: &definition,
        span: Span::new(2, 7).unwrap(),
    };
    let status = summarize(key(), source, &func);
    assert!(status.has_inline_comment);
    assert_eq!(status.inline_comment_paragraph, "// above");
}

#[test]
fn join_puts_one_space_between_parts() {
    assert_eq!(join_with_space(&Vec::new()), "");
    assert_eq!(join_with_space(&vec!["a".to_string()]), "a");
    assert_eq!(join_with_space(&vec!["a".to_string(), "".to_string(), "b c".to_string()]), "a  b c");
}

#[test]
fn lines_end_at_line_feeds() {
    let lines = |s: &str| -> Vec<String> {
        split_lines(&chars_of(s)).iter().map(string_of).collect()
    };
    for text in ["", "a", "a\n", "a\nb", "a\r\nb\r\n", "\n", "\n\n", "a\rb", "a\r", "\r\n", "a\n\nb\n", "\r\r\n", "x\n\r"] {
        let expected: Vec<String> = text.lines().map(|l| l.to_string()).collect();
        assert_eq!(lines(text), expected, "for {:?}", text);
    }
    assert_eq!(lines("a\r\nb\n\nc"), vec!["a", "b", "", "c"]);
}

#[test]
fn trim_agrees_with_the_standard_library() {
    for text in ["", " ", "a", "  a b  ", "\t\n a \r\n", "\u{a0}x\u{3000}", "\u{85}\u{1680}\u{2000}\u{200a}\u{2028}\u{2029}\u{202f}\u{205f}y", "\u{200b}z\u{200b}", "\u{180e}"] {
        assert_eq!(string_of(&trim(&chars_of(text))), text.trim(), "for {:?}", text);
    }
    assert_eq!(string_of(&trim_from(&chars_of("ab  cd  "), 2)), "cd");
    assert_eq!(string_of(&trim_from(&chars_of("ab"), 2)), "");
}

#[test]
fn white_space_is_the_unicode_property() {
    let mut n: u32 = 0;
    while n <= 0x10ffff {
        if let Some(c) = char::from_u32(n) {
            assert_eq!(is_whitespace(c), c.is_whitespace(), "for {:#x}", n);
        }
        n += 1;
    }
}

#[test]
fn characters_survive_the_round_trip() {
    let text = "fn \u{e9}t\u{e9}() { /* \u{1f600} */ }";
    assert_eq!(chars_of(text), text.chars().collect::<Vec<char>>());
    assert_eq!(string_of(&chars_of(text)), text);
    assert_eq!(string_of(&Vec::new()), "");
}
