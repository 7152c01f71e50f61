use crate::docs::{doc_texts, extract_doc_comments};
use crate::lexer::{extract_inline_comments, inline_comments};
use crate::locator::{find_function_by_start_line, locate};
use crate::syntax::{FunctionLike, SyntaxTree};
use crate::text::{join_with_space, joined, lines_of};
use vstd::prelude::*;

verus! {

/// What identifies a record: the package, the definition and the file it names.
#[derive(Debug)]
pub struct RecordKey {
    pub crate_name: String,
    pub def_path: String,
    pub file: String,
}

/// The documentation and the ordinary comments of one definition.
#[derive(Debug)]
pub struct FunctionCommentStatus {
    pub crate_name: String,
    pub def_path: String,
    pub file: String,
    /// The line on which the definition starts.
    pub line: usize,
    pub has_doc: bool,
    /// The documentation texts, joined by single spaces.
    pub doc_paragraph: String,
    pub has_inline_comment: bool,
    /// The ordinary comments, joined by single spaces.
    pub inline_comment_paragraph: String,
}

/// How the work on one record ended.
#[derive(Debug)]
pub enum Outcome {
    /// The line resolved to a definition.
    Resolved(FunctionCommentStatus),
    /// The file's text could not be turned into a tree.
    ParseUnavailable { file: String, line: usize },
    /// No function-like construct contains the line.
    LocusUnresolved { file: String, line: usize },
}

/// Whether `status` is the result for the definition `func`, found in the file with
/// text `source` for the record `key`.
pub open spec fn describes(
    status: FunctionCommentStatus,
    key: RecordKey,
    source: Seq<char>,
    func: FunctionLike,
) -> bool {
    let docs = doc_texts(func.definition.attrs@);
    let comments = inline_comments(
        lines_of(source),
        func.span.first() as int,
        func.span.last() as int,
    );
    &&& status.crate_name@ == key.crate_name@
    &&& status.def_path@ == key.def_path@
    &&& status.file@ == key.file@
    &&& status.line == func.span.first()
    &&& status.has_doc == (docs.len() > 0)
    &&& status.doc_paragraph@ == joined(docs)
    &&& status.has_inline_comment == (comments.len() > 0)
    &&& status.inline_comment_paragraph@ == joined(comments)
}

/// Whether `outcome` is how the work on the record `key` ends, given the file's text,
/// its tree where it has one, and the record's line.
pub open spec fn settles(
    outcome: Outcome,
    key: RecordKey,
    source: Seq<char>,
    tree: Option<&SyntaxTree>,
    line: usize,
) -> bool {
    match tree {
        None => outcome matches Outcome::ParseUnavailable { file, line: at } && file@ == key.file@
            && at == line,
        Some(tree) => match locate(tree, line as nat) {
            None => outcome matches Outcome::LocusUnresolved { file, line: at } && file@
                == key.file@ && at == line,
            Some(func) => outcome matches Outcome::Resolved(status) && describes(
                status,
                key,
                source,
                func,
            ),
        },
    }
}

/// Assembles the result for the definition `func` of the file with text `source`: its
/// documentation, and the ordinary comments above it and within it.
pub fn summarize(key: RecordKey, source: &str, func: &FunctionLike) -> (status:
    FunctionCommentStatus)
    ensures
        describes(status, key, source@, *func),
{
    let docs = extract_doc_comments(func);
    let has_doc = docs.len() > 0;
    let doc_paragraph = join_with_space(&docs);
    let start = func.span.start();
    let end = func.span.end();
    let comments = extract_inline_comments(source, start, end);
    let has_inline_comment = comments.len() > 0;
    let inline_comment_paragraph = join_with_space(&comments);
    FunctionCommentStatus {
        crate_name: key.crate_name,
        def_path: key.def_path,
        file: key.file,
        line: start,
        has_doc,
        doc_paragraph,
        has_inline_comment,
        inline_comment_paragraph,
    }
}

/// Works on one record: resolves `line` in `tree` and assembles the result. Without a
/// tree, or where the line resolves to nothing, says which of the two it was.
pub fn examine(key: RecordKey, source: &str, tree: Option<&SyntaxTree>, line: usize) -> (outcome:
    Outcome)
    ensures
        settles(outcome, key, source@, tree, line),
{
    match tree {
        None => Outcome::ParseUnavailable { file: key.file, line },
        Some(tree) => match find_function_by_start_line(tree, line) {
            None => Outcome::LocusUnresolved { file: key.file, line },
            Some(func) => Outcome::Resolved(summarize(key, source, &func)),
        },
    }
}

} // verus!
