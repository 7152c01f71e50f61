use comment_miner::batch::Batch;
use comment_miner::intake::{parse_line_number, read_record, Intake};
use comment_miner::record::FunctionCommentStatus;
use comment_miner::text::same_text;

fn fields(items: &[&str]) -> Vec<String> {
    items.iter().map(|s| s.to_string()).collect()
}

fn status(def_path: &str) -> FunctionCommentStatus {
    FunctionCommentStatus {
        crate_name: "demo".to_string(),
        def_path: def_path.to_string(),
        file: "src/lib.rs".to_string(),
        line: 1,
        has_doc: false,
        doc_paragraph: String::new(),
        has_inline_comment: false,
        inline_comment_paragraph: String::new(),
    }
}

#[test]
fn line_numbers_are_plain_decimal() {
    assert_eq!(parse_line_number("1"), Some(1));
    assert_eq!(parse_line_number("0"), Some(0));
    assert_eq!(parse_line_number("007"), Some(7));
    assert_eq!(parse_line_number("+42"), Some(42));
    assert_eq!(parse_line_number("1234567890"), Some(1234567890));
    assert_eq!(parse_line_number(""), None);
    assert_eq!(parse_line_number("+"), None);
    assert_eq!(parse_line_number("-1"), None);
    assert_eq!(parse_line_number("++1"), None);
    assert_eq!(parse_line_number(" 1"), None);
    assert_eq!(parse_line_number("1 "), None);
    assert_eq!(parse_line_number("12a"), None);
    assert_eq!(parse_line_number("1_000"), None);
    assert_eq!(parse_line_number("\u{663}"), None);
}

#[test]
fn line_numbers_agree_with_the_standard_library() {
    let max = usize::MAX.to_string();
    let mut over = max.clone();
    over.push('0');
    let next = format!("{}", usize::MAX as u128 + 1);
    for text in ["18446744073709551615", "18446744073709551616", "99999999999999999999", "000000000000000000000000001", max.as_str(), over.as_str(), next.as_str(), "4294967295", "4294967296", "+0", "9a9999999999999999999999"] {
        assert_eq!(parse_line_number(text), text.parse::<usize>().ok(), "for {:?}", text);
    }
}

#[test]
fn short_record_is_skipped() {
    assert!(matches!(read_record(&fields(&[])), Intake::Skip));
    assert!(matches!(read_record(&fields(&["a"; 9])), Intake::Skip));
}

#[test]
fn record_without_its_fields_is_unusable() {
    assert!(matches!(read_record(&fields(&["1"; 10])), Intake::Unusable));
    assert!(matches!(read_record(&fields(&["1"; 12])), Intake::Unusable));
    let mut bad_line = vec!["x"; 13];
    bad_line[10] = "twelve";
    assert!(matches!(read_record(&fields(&bad_line)), Intake::Unusable));
}

#[test]
fn record_fields_are_read_by_position() {
    let record = fields(&[
        "id7", "demo", "hash", "demo::add", "4", "5", "6", "7", "8", "src/lib.rs", "12", "11",
        "Safe", "extra",
    ]);
    match read_record(&record) {
        Intake::Work(request) => {
            assert_eq!(request.item_id, "id7");
            assert_eq!(request.crate_name, "demo");
            assert_eq!(request.def_path, "demo::add");
            assert_eq!(request.file, "src/lib.rs");
            assert_eq!(request.line, 12);
            assert!(request.safe);
        }
        other => panic!("unexpected intake: {:?}", other),
    }
}

#[test]
fn only_the_exact_mark_is_safe() {
    for mark in ["Unsafe", "safe", "Safe ", "", "Saf", "Safer"] {
        let mut record = vec!["0"; 13];
        record[12] = mark;
        match read_record(&fields(&record)) {
            Intake::Work(request) => assert!(!request.safe, "for {:?}", mark),
            other => panic!("unexpected intake: {:?}", other),
        }
    }
}

#[test]
fn texts_are_compared_character_by_character() {
    assert!(same_text("", ""));
    assert!(same_text("caf\u{e9}", "caf\u{e9}"));
    assert!(!same_text("cafe", "caf\u{e9}"));
    assert!(!same_text("a", "ab"));
    assert!(!same_text("ab", "a"));
    assert!(!same_text("ab", "ac"));
}

#[test]
fn new_batch_is_empty_and_nameless() {
    let batch = Batch::new();
    assert_eq!(batch.crate_name, "");
    assert!(batch.results.is_empty());
    assert!(batch.belongs(""));
    assert!(!batch.belongs("demo"));
}

#[test]
fn batch_is_handed_over_when_the_package_changes() {
    let mut batch = Batch::new();
    assert!(batch.turn_to("demo").is_none());
    batch.enter("demo".to_string());
    assert!(batch.belongs("demo"));
    batch.push(status("demo::a"));
    batch.push(status("demo::b"));
    assert!(batch.turn_to("demo").is_none());
    assert_eq!(batch.results.len(), 2);
    let due = batch.turn_to("other").unwrap();
    assert_eq!(due.iter().map(|s| s.def_path.as_str()).collect::<Vec<_>>(), vec!["demo::a", "demo::b"]);
    assert!(batch.results.is_empty());
    assert_eq!(batch.crate_name, "demo");
    assert!(batch.turn_to("other").is_none());
    batch.enter("other".to_string());
    assert_eq!(batch.crate_name, "other");
}

#[test]
fn batch_is_handed_over_at_the_end_even_when_empty() {
    let mut batch = Batch::new();
    batch.enter("demo".to_string());
    let (name, results) = batch.finish();
    assert_eq!(name, "demo");
    assert!(results.is_empty());
    let mut batch = Batch::new();
    batch.enter("demo".to_string());
    batch.push(status("demo::a"));
    let (name, results) = batch.finish();
    assert_eq!(name, "demo");
    assert_eq!(results.len(), 1);
    assert_eq!(results[0].def_path, "demo::a");
}
