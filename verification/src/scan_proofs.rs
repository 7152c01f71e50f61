use crate::lexer::{
    comments_attached, comments_in, doc_mark_at, fragments, pair_at, scan_chars, scan_line,
    scan_lines, Mode, ScanState, Scope,
};
use crate::text::{
    is_blank, is_space, lemma_trim_start_skips, lemma_trimmed_ignores_padding, trimmed,
};
use vstd::prelude::*;

verus! {

/// Outside any block comment, characters other than `/` start no comment: a stretch of
/// them leaves the state as it is, as long as there is no fragment to forget.
pub proof fn lemma_code_skipped(st: ScanState, line: Seq<char>, from: int, to: int, mode: Mode)
    requires
        st.scopes.len() == 0,
        0 <= from <= to <= line.len(),
        forall|i: int| from <= i < to ==> #[trigger] line[i] != '/',
        mode == Mode::Everything || st.found.len() == 0,
    ensures
        scan_chars(st, line, from, mode) == scan_chars(st, line, to, mode),
    decreases to - from,
{
    if from < to {
        assert(line[from] != '/');
        assert(st.code(line[from], mode) == st) by {
            if mode == Mode::Contiguous {
                assert(st.found =~= Seq::empty());
            }
        }
        lemma_code_skipped(st, line, from + 1, to, mode);
    }
}

/// A range of one line whose first `/` starts a line comment yields that comment, from
/// its marker to the end of the line and trimmed, as its only fragment; and no
/// fragment where the marker is `///` or `//!`.
pub proof fn lemma_line_comment(line: Seq<char>, pos: int, mode: Mode)
    requires
        pair_at(line, pos, '/', '/'),
        forall|i: int| 0 <= i < pos ==> #[trigger] line[i] != '/',
    ensures
        fragments(seq![line], mode) == if doc_mark_at(line, pos, '/') {
            Seq::<Seq<char>>::empty()
        } else {
            seq![trimmed(line.skip(pos))]
        },
{
    let start = ScanState::initial();
    let lines = seq![line];
    lemma_code_skipped(start, line, 0, pos, mode);
    let after = scan_chars(start, line, pos, mode);
    assert(scan_line(start, line, mode) == after);
    assert(scan_lines(start, lines, 0, mode) == scan_lines(after, lines, 1, mode));
    assert(scan_lines(after, lines, 1, mode) == after);
    assert(trimmed(Seq::<char>::empty()).len() == 0);
    if !doc_mark_at(line, pos, '/') {
        assert(after.found =~= seq![trimmed(line.skip(pos))]);
    }
}

/// A scan keeps nothing from one run to the next: ranges that hold the same text yield
/// the same fragments.
pub proof fn lemma_rescan_is_identical(first: Seq<Seq<char>>, second: Seq<Seq<char>>, mode: Mode)
    requires
        first.len() == second.len(),
        forall|i: int| 0 <= i < first.len() ==> #[trigger] first[i] =~= second[i],
    ensures
        fragments(first, mode) == fragments(second, mode),
{
    assert(first =~= second);
}

/// What holds of every state that a scan reaches: the open block comments are of one
/// kind, and outside an ordinary block comment the buffer holds line feeds only.
pub open spec fn consistent(st: ScanState) -> bool {
    &&& forall|i: int| 0 <= i < st.scopes.len() ==> #[trigger] st.scopes[i] == st.scopes[0]
    &&& st.scopes.len() == 0 || st.scopes[0] == Scope::Documentation ==> forall|i: int|
        0 <= i < st.buffer.len() ==> #[trigger] st.buffer[i] == '\n'
}

/// Reading characters keeps a state consistent.
pub proof fn lemma_scan_chars_consistent(st: ScanState, line: Seq<char>, pos: int, mode: Mode)
    requires
        consistent(st),
    ensures
        consistent(scan_chars(st, line, pos, mode)),
    decreases line.len() - pos,
{
    if pos < 0 || pos >= line.len() {
    } else if st.scopes.len() == 0 {
        if pair_at(line, pos, '/', '/') {
        } else if pair_at(line, pos, '/', '*') {
            if doc_mark_at(line, pos, '*') {
                lemma_scan_chars_consistent(
                    st.open_block(Scope::Documentation),
                    line,
                    pos + 3,
                    mode,
                );
            } else {
                lemma_scan_chars_consistent(st.open_block(Scope::Ordinary), line, pos + 2, mode);
            }
        } else {
            lemma_scan_chars_consistent(st.code(line[pos], mode), line, pos + 1, mode);
        }
    } else {
        if pair_at(line, pos, '/', '*') {
            lemma_scan_chars_consistent(st.nest(), line, pos + 2, mode);
        } else if pair_at(line, pos, '*', '/') {
            lemma_scan_chars_consistent(st.close(), line, pos + 2, mode);
        } else {
            lemma_scan_chars_consistent(st.keep(line[pos]), line, pos + 1, mode);
        }
    }
}

/// Reading lines keeps a state consistent.
pub proof fn lemma_scan_lines_consistent(st: ScanState, lines: Seq<Seq<char>>, from: int, mode: Mode)
    requires
        consistent(st),
    ensures
        consistent(scan_lines(st, lines, from, mode)),
    decreases lines.len() - from,
{
    if 0 <= from < lines.len() {
        lemma_scan_chars_consistent(st, lines[from], 0, mode);
        lemma_scan_lines_consistent(scan_line(st, lines[from], mode), lines, from + 1, mode);
    }
}

/// The state in which a scan of `lines` ends.
pub open spec fn state_after(lines: Seq<Seq<char>>, mode: Mode) -> ScanState {
    scan_lines(ScanState::initial(), lines, 0, mode)
}

/// Whether a scan of `lines` ends outside any block comment.
pub open spec fn ends_closed(lines: Seq<Seq<char>>, mode: Mode) -> bool {
    state_after(lines, mode).scopes.len() == 0
}

/// Where a scan ends outside any block comment, its fragments are those found on the
/// way: nothing is left in the buffer to make a last one.
pub proof fn lemma_closed_scan_fragments(lines: Seq<Seq<char>>, mode: Mode)
    requires
        ends_closed(lines, mode),
    ensures
        fragments(lines, mode) == state_after(lines, mode).found,
{
    let end = state_after(lines, mode);
    lemma_scan_lines_consistent(ScanState::initial(), lines, 0, mode);
    assert forall|i: int| 0 <= i < end.buffer.len() implies is_space(
        #[trigger] end.buffer[i],
    ) by {
        assert(end.buffer[i] == '\n');
    }
    lemma_trim_start_skips(end.buffer, end.buffer.len() as int);
}

/// Reading one more line after `lines` is reading it in the state in which `lines`
/// ends.
pub proof fn lemma_scan_one_more(
    st: ScanState,
    lines: Seq<Seq<char>>,
    from: int,
    line: Seq<char>,
    mode: Mode,
)
    requires
        0 <= from <= lines.len(),
    ensures
        scan_lines(st, lines.push(line), from, mode) == scan_line(
            scan_lines(st, lines, from, mode),
            line,
            mode,
        ),
    decreases lines.len() - from,
{
    let more = lines.push(line);
    if from < lines.len() {
        assert(more[from] == lines[from]);
        lemma_scan_one_more(scan_line(st, lines[from], mode), lines, from + 1, line, mode);
    } else {
        assert(more[from] == line);
        assert(scan_lines(scan_line(st, line, mode), more, from + 1, mode) == scan_line(
            st,
            line,
            mode,
        ));
    }
}

/// Whether `line` is code and nothing else: it holds no `/`, and a character other
/// than a space.
pub open spec fn is_code_line(line: Seq<char>) -> bool {
    &&& forall|i: int| 0 <= i < line.len() ==> #[trigger] line[i] != '/'
    &&& exists|i: int| 0 <= i < line.len() && #[trigger] line[i] != ' '
}

/// Whether `line` holds spaces only, or nothing.
pub open spec fn is_blank_line(line: Seq<char>) -> bool {
    forall|i: int| 0 <= i < line.len() ==> #[trigger] line[i] == ' '
}

/// Outside any block comment, a contiguous scan that reads code to the end of the line
/// forgets what it had found, unless all of that code is spaces.
pub proof fn lemma_code_read(st: ScanState, line: Seq<char>, pos: int)
    requires
        st.scopes.len() == 0,
        0 <= pos <= line.len(),
        forall|i: int| pos <= i < line.len() ==> #[trigger] line[i] != '/',
    ensures
        scan_chars(st, line, pos, Mode::Contiguous) == if exists|i: int|
            pos <= i < line.len() && #[trigger] line[i] != ' ' {
            ScanState { found: Seq::empty(), ..st }
        } else {
            st
        },
    decreases line.len() - pos,
{
    if pos < line.len() {
        assert(line[pos] != '/');
        let next = st.code(line[pos], Mode::Contiguous);
        lemma_code_read(next, line, pos + 1);
        let later = exists|i: int| pos + 1 <= i < line.len() && #[trigger] line[i] != ' ';
        let now = exists|i: int| pos <= i < line.len() && #[trigger] line[i] != ' ';
        if line[pos] != ' ' {
            assert(now);
        } else if later {
            let i = choose|i: int| pos + 1 <= i < line.len() && #[trigger] line[i] != ' ';
            assert(pos <= i < line.len() && line[i] != ' ');
        } else if now {
            let i = choose|i: int| pos <= i < line.len() && #[trigger] line[i] != ' ';
            assert(pos + 1 <= i < line.len() && line[i] != ' ');
        }
    }
}

/// Contiguity, broken: after a line of code that follows closed comments, no comment
/// is attached any more.
pub proof fn lemma_code_line_detaches(lines: Seq<Seq<char>>, code: Seq<char>)
    requires
        ends_closed(lines, Mode::Contiguous),
        is_code_line(code),
    ensures
        ends_closed(lines.push(code), Mode::Contiguous),
        comments_attached(lines.push(code)) == Seq::<Seq<char>>::empty(),
{
    let mode = Mode::Contiguous;
    let before = state_after(lines, mode);
    lemma_scan_one_more(ScanState::initial(), lines, 0, code, mode);
    lemma_code_read(before, code, 0);
    let i = choose|i: int| 0 <= i < code.len() && #[trigger] code[i] != ' ';
    assert(0 <= i < code.len() && code[i] != ' ');
    lemma_closed_scan_fragments(lines.push(code), mode);
}

/// Contiguity, kept: a blank line after closed comments leaves what is attached as it
/// is.
pub proof fn lemma_blank_line_keeps(lines: Seq<Seq<char>>, blank: Seq<char>)
    requires
        ends_closed(lines, Mode::Contiguous),
        is_blank_line(blank),
    ensures
        ends_closed(lines.push(blank), Mode::Contiguous),
        comments_attached(lines.push(blank)) == comments_attached(lines),
{
    let mode = Mode::Contiguous;
    let before = state_after(lines, mode);
    lemma_scan_one_more(ScanState::initial(), lines, 0, blank, mode);
    assert forall|i: int| 0 <= i < blank.len() implies #[trigger] blank[i] != '/' by {
        assert(blank[i] == ' ');
    }
    lemma_code_read(before, blank, 0);
    if exists|i: int| 0 <= i < blank.len() && #[trigger] blank[i] != ' ' {
        let i = choose|i: int| 0 <= i < blank.len() && #[trigger] blank[i] != ' ';
        assert(blank[i] == ' ');
    }
}

/// Contiguity, extended: a line comment after closed comments, with nothing but
/// spaces before its marker, is attached after those that were.
pub proof fn lemma_comment_line_attaches(lines: Seq<Seq<char>>, line: Seq<char>, pos: int)
    requires
        ends_closed(lines, Mode::Contiguous),
        pair_at(line, pos, '/', '/'),
        !doc_mark_at(line, pos, '/'),
        forall|i: int| 0 <= i < pos ==> #[trigger] line[i] == ' ',
    ensures
        ends_closed(lines.push(line), Mode::Contiguous),
        comments_attached(lines.push(line)) == comments_attached(lines).push(
            trimmed(line.skip(pos)),
        ),
{
    let mode = Mode::Contiguous;
    let before = state_after(lines, mode);
    lemma_scan_one_more(ScanState::initial(), lines, 0, line, mode);
    lemma_spaces_skipped(before, line, 0, pos, mode);
    lemma_closed_scan_fragments(lines, mode);
    lemma_closed_scan_fragments(lines.push(line), mode);
}

/// Outside any block comment, spaces change nothing.
pub proof fn lemma_spaces_skipped(st: ScanState, line: Seq<char>, from: int, to: int, mode: Mode)
    requires
        st.scopes.len() == 0,
        0 <= from <= to <= line.len(),
        forall|i: int| from <= i < to ==> #[trigger] line[i] == ' ',
    ensures
        scan_chars(st, line, from, mode) == scan_chars(st, line, to, mode),
    decreases to - from,
{
    if from < to {
        assert(line[from] == ' ');
        lemma_spaces_skipped(st, line, from + 1, to, mode);
    }
}

/// Whether `padded` is `plain` but for white space `pad` in front of its buffer.
pub open spec fn same_but_padding(padded: ScanState, plain: ScanState, pad: Seq<char>) -> bool {
    &&& padded.scopes == plain.scopes
    &&& padded.found == plain.found
    &&& padded.buffer == plain.buffer || padded.buffer == pad + plain.buffer
}

/// White space in front of the buffer stays in front of it, or goes when a fragment
/// is made of the buffer: it changes nothing else in what is read from a line.
pub proof fn lemma_padding_chars(
    padded: ScanState,
    plain: ScanState,
    pad: Seq<char>,
    line: Seq<char>,
    pos: int,
    mode: Mode,
)
    requires
        same_but_padding(padded, plain, pad),
        is_blank(pad),
    ensures
        same_but_padding(
            scan_chars(padded, line, pos, mode),
            scan_chars(plain, line, pos, mode),
            pad,
        ),
    decreases line.len() - pos,
{
    let b = plain.buffer;
    let open = seq!['/', '*'];
    let shut = seq!['*', '/'];
    assert((pad + b) + open =~= pad + (b + open));
    assert((pad + b) + shut =~= pad + (b + shut));
    lemma_trimmed_ignores_padding(pad, b + shut);
    if pos < 0 || pos >= line.len() {
    } else if plain.scopes.len() == 0 {
        if pair_at(line, pos, '/', '/') {
        } else if pair_at(line, pos, '/', '*') {
            if doc_mark_at(line, pos, '*') {
                lemma_padding_chars(
                    padded.open_block(Scope::Documentation),
                    plain.open_block(Scope::Documentation),
                    pad,
                    line,
                    pos + 3,
                    mode,
                );
            } else {
                lemma_padding_chars(
                    padded.open_block(Scope::Ordinary),
                    plain.open_block(Scope::Ordinary),
                    pad,
                    line,
                    pos + 2,
                    mode,
                );
            }
        } else {
            lemma_padding_chars(
                padded.code(line[pos], mode),
                plain.code(line[pos], mode),
                pad,
                line,
                pos + 1,
                mode,
            );
        }
    } else {
        if pair_at(line, pos, '/', '*') {
            lemma_padding_chars(padded.nest(), plain.nest(), pad, line, pos + 2, mode);
        } else if pair_at(line, pos, '*', '/') {
            lemma_padding_chars(padded.close(), plain.close(), pad, line, pos + 2, mode);
        } else {
            assert((pad + b).push(line[pos]) =~= pad + b.push(line[pos]));
            lemma_padding_chars(
                padded.keep(line[pos]),
                plain.keep(line[pos]),
                pad,
                line,
                pos + 1,
                mode,
            );
        }
    }
}

/// The same, for what is read from lines.
pub proof fn lemma_padding_lines(
    padded: ScanState,
    plain: ScanState,
    pad: Seq<char>,
    lines: Seq<Seq<char>>,
    from: int,
    mode: Mode,
)
    requires
        same_but_padding(padded, plain, pad),
        is_blank(pad),
    ensures
        same_but_padding(
            scan_lines(padded, lines, from, mode),
            scan_lines(plain, lines, from, mode),
            pad,
        ),
        scan_lines(padded, lines, from, mode).finish() == scan_lines(
            plain,
            lines,
            from,
            mode,
        ).finish(),
    decreases lines.len() - from,
{
    if 0 <= from < lines.len() {
        lemma_padding_chars(padded, plain, pad, lines[from], 0, mode);
        let p = scan_chars(padded, lines[from], 0, mode);
        let q = scan_chars(plain, lines[from], 0, mode);
        assert((pad + q.buffer).push('\n') =~= pad + q.buffer.push('\n'));
        lemma_padding_lines(p.end_line(), q.end_line(), pad, lines, from + 1, mode);
    } else {
        lemma_trimmed_ignores_padding(pad, plain.buffer);
    }
}

/// Reading the lines of `first` and then those of `second` is reading `second` in the
/// state in which `first` ends.
pub proof fn lemma_scan_in_turn(
    st: ScanState,
    first: Seq<Seq<char>>,
    second: Seq<Seq<char>>,
    from: int,
    mode: Mode,
)
    requires
        0 <= from <= first.len(),
    ensures
        scan_lines(st, first + second, from, mode) == scan_lines(
            scan_lines(st, first, from, mode),
            second,
            0,
            mode,
        ),
    decreases second.len(),
{
    if second.len() == 0 {
        assert(first + second =~= first);
    } else {
        let line = second[0];
        let rest = second.drop_first();
        assert(first + second =~= first.push(line) + rest);
        lemma_scan_in_turn(st, first.push(line), rest, from, mode);
        lemma_scan_one_more(st, first, from, line, mode);
        let after = scan_lines(st, first, from, mode);
        lemma_scan_shifted(scan_line(after, line, mode), second, rest, 1, mode);
    }
}

/// Lines read from index `from` on are read alike when the lines before them are
/// dropped.
pub proof fn lemma_scan_shifted(
    st: ScanState,
    lines: Seq<Seq<char>>,
    tail: Seq<Seq<char>>,
    from: int,
    mode: Mode,
)
    requires
        0 <= from <= lines.len(),
        tail == lines.skip(from),
    ensures
        scan_lines(st, lines, from, mode) == scan_lines(st, tail, 0, mode),
    decreases lines.len() - from,
{
    if from < lines.len() {
        assert(tail[0] == lines[from]);
        assert(tail.skip(1) =~= lines.skip(from + 1));
        let next = scan_line(st, lines[from], mode);
        lemma_scan_shifted(next, lines, lines.skip(from + 1), from + 1, mode);
        lemma_scan_shifted(next, tail, tail.skip(1), 1, mode);
    }
}

/// Contiguity: a line of code after closed comments parts what stands before it from
/// what follows it. What is attached at the end of the lines after the code is what
/// is attached at the end of all the lines.
pub proof fn lemma_code_line_separates(
    before: Seq<Seq<char>>,
    code: Seq<char>,
    after: Seq<Seq<char>>,
)
    requires
        ends_closed(before, Mode::Contiguous),
        is_code_line(code),
    ensures
        comments_attached(before.push(code) + after) == comments_attached(after),
{
    let mode = Mode::Contiguous;
    let start = ScanState::initial();
    let head = before.push(code);
    lemma_code_line_detaches(before, code);
    lemma_closed_scan_fragments(head, mode);
    let parted = state_after(head, mode);
    lemma_scan_lines_consistent(start, head, 0, mode);
    lemma_scan_in_turn(start, head, after, 0, mode);
    assert(parted.found =~= start.found);
    assert(parted.scopes =~= start.scopes);
    assert(parted.buffer =~= parted.buffer + start.buffer);
    assert forall|i: int| 0 <= i < parted.buffer.len() implies is_space(
        #[trigger] parted.buffer[i],
    ) by {
        assert(parted.buffer[i] == '\n');
    }
    lemma_padding_lines(parted, start, parted.buffer, after, 0, mode);
}

/// Where the block comment that is open at depth `depth` ends, for a reader at `pos`:
/// the position after the `*/` that closes the outermost one, if the line holds it.
/// Each `/*` on the way opens one more, each `*/` closes one.
pub open spec fn block_end(line: Seq<char>, pos: int, depth: nat) -> Option<int>
    decreases line.len() - pos,
{
    if pos < 0 || pos >= line.len() {
        None
    } else if pair_at(line, pos, '/', '*') {
        block_end(line, pos + 2, depth + 1)
    } else if pair_at(line, pos, '*', '/') {
        if depth <= 1 {
            Some(pos + 2)
        } else {
            block_end(line, pos + 2, (depth - 1) as nat)
        }
    } else {
        block_end(line, pos + 1, depth)
    }
}

/// The state in which the outermost block comment has just closed at `end`, for a
/// reader that was at `pos` in state `st`: an ordinary one has become a fragment, text
/// and markers as they stand; a documentation block has left nothing.
pub open spec fn block_closed(st: ScanState, line: Seq<char>, pos: int, end: int) -> ScanState {
    if st.collecting() {
        ScanState {
            scopes: Seq::empty(),
            buffer: Seq::empty(),
            found: st.found.push(trimmed(st.buffer + line.subrange(pos, end))),
        }
    } else {
        ScanState { scopes: Seq::empty(), ..st }
    }
}

/// Inside a block comment everything up to its end is text of that comment, the
/// markers of the block comments nested in it too; these only count towards the
/// depth. Where the line ends first, an ordinary block comment has collected the rest
/// of the line and stays open.
pub proof fn lemma_block_read(st: ScanState, line: Seq<char>, pos: int, mode: Mode)
    requires
        st.scopes.len() > 0,
        consistent(st),
        0 <= pos <= line.len(),
    ensures
        match block_end(line, pos, st.scopes.len()) {
            Some(end) => pos + 2 <= end <= line.len() && scan_chars(st, line, pos, mode)
                == scan_chars(block_closed(st, line, pos, end), line, end, mode),
            None => {
                let after = scan_chars(st, line, pos, mode);
                &&& after.scopes.len() > 0
                &&& after.found == st.found
                &&& after.buffer == if st.collecting() {
                    st.buffer + line.skip(pos)
                } else {
                    st.buffer
                }
            },
        },
    decreases line.len() - pos,
{
    let depth = st.scopes.len();
    assert(st.scopes.last() == st.scopes[0]);
    if pos >= line.len() {
        assert(st.buffer + line.skip(pos) =~= st.buffer);
    } else {
        let (next, step) = if pair_at(line, pos, '/', '*') {
            (st.nest(), 2int)
        } else if pair_at(line, pos, '*', '/') {
            (st.close(), 2int)
        } else {
            (st.keep(line[pos]), 1int)
        };
        assert(line.subrange(pos, pos + step) =~= if step == 1 {
            seq![line[pos]]
        } else {
            seq![line[pos], line[pos + 1]]
        });
        if pair_at(line, pos, '*', '/') && depth == 1 {
            assert(st.buffer + seq!['*', '/'] =~= st.buffer + line.subrange(pos, pos + 2));
            assert(next.scopes =~= Seq::empty());
        } else {
            assert(next.scopes.len() > 0);
            assert(next.scopes[0] == st.scopes[0]);
            assert(next.scopes.last() == next.scopes[0]);
            lemma_block_read(next, line, pos + step, mode);
            if st.collecting() {
                assert(next.buffer =~= st.buffer + line.subrange(pos, pos + step));
                match block_end(line, pos, depth) {
                    Some(end) => {
                        assert(next.buffer + line.subrange(pos + step, end) =~= st.buffer
                            + line.subrange(pos, end));
                    },
                    None => {
                        assert(next.buffer + line.skip(pos + step) =~= st.buffer + line.skip(pos));
                    },
                }
            }
        }
    }
}

/// A range of one line that holds one ordinary block comment, with no `/` around it,
/// yields that comment as its only fragment: from its `/*` to the `*/` that closes it,
/// the block comments nested in it included, and trimmed.
pub proof fn lemma_block_comment(line: Seq<char>, pos: int, end: int)
    requires
        forall|i: int| 0 <= i < pos ==> #[trigger] line[i] != '/',
        pair_at(line, pos, '/', '*'),
        !doc_mark_at(line, pos, '*'),
        block_end(line, pos + 2, 1) == Some(end),
        forall|i: int| end <= i < line.len() ==> #[trigger] line[i] != '/',
    ensures
        comments_in(seq![line]) == seq![trimmed(line.subrange(pos, end))],
{
    let mode = Mode::Everything;
    let start = ScanState::initial();
    let lines = seq![line];
    lemma_code_skipped(start, line, 0, pos, mode);
    let opened = start.open_block(Scope::Ordinary);
    lemma_block_read(opened, line, pos + 2, mode);
    let closed = block_closed(opened, line, pos + 2, end);
    assert(opened.buffer + line.subrange(pos + 2, end) =~= line.subrange(pos, end));
    lemma_code_skipped(closed, line, end, line.len() as int, mode);
    assert(scan_chars(start, line, 0, mode) == closed);
    assert(scan_lines(start, lines, 0, mode) == scan_lines(closed, lines, 1, mode));
    assert(trimmed(Seq::<char>::empty()).len() == 0);
    assert(closed.found =~= seq![trimmed(line.subrange(pos, end))]);
}

/// A range of one line that holds one documentation block, opened by `/**` or `/*!`,
/// with no `/` around it, yields no fragment, whatever is nested in the block.
pub proof fn lemma_documentation_block(line: Seq<char>, pos: int, end: int)
    requires
        forall|i: int| 0 <= i < pos ==> #[trigger] line[i] != '/',
        pair_at(line, pos, '/', '*'),
        doc_mark_at(line, pos, '*'),
        block_end(line, pos + 3, 1) == Some(end),
        forall|i: int| end <= i < line.len() ==> #[trigger] line[i] != '/',
    ensures
        comments_in(seq![line]) == Seq::<Seq<char>>::empty(),
{
    let mode = Mode::Everything;
    let start = ScanState::initial();
    let lines = seq![line];
    lemma_code_skipped(start, line, 0, pos, mode);
    let opened = start.open_block(Scope::Documentation);
    lemma_block_read(opened, line, pos + 3, mode);
    let closed = block_closed(opened, line, pos + 3, end);
    lemma_code_skipped(closed, line, end, line.len() as int, mode);
    assert(scan_chars(start, line, 0, mode) == closed);
    assert(scan_lines(start, lines, 0, mode) == scan_lines(closed, lines, 1, mode));
    assert(trimmed(Seq::<char>::empty()).len() == 0);
}

} // verus!
