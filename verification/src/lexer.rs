use crate::text::{
    char_seqs, chars_of, chars_of_each, lines_of, split_lines, str_seqs, string_seqs,
    strings_of_each, trim, trim_from, trimmed,
};
use vstd::prelude::*;

verus! {

/// The kind of an open block comment.
#[derive(Clone, Copy, PartialEq, Eq, Structural, Debug)]
pub enum Scope {
    /// Opened by `/*`: its text is collected.
    Ordinary,
    /// Opened by `/**` or `/*!`: its text is dropped.
    Documentation,
}

/// Whether a scan forgets the comments found so far when it meets code.
#[derive(Clone, Copy, PartialEq, Eq, Structural, Debug)]
pub enum Mode {
    /// Every ordinary comment of the range is kept.
    Everything,
    /// Only the comments after the last piece of code are kept.
    Contiguous,
}

/// The state of a scan between two characters.
pub struct ScanState {
    /// The block comments that are open, the outermost first.
    pub scopes: Seq<Scope>,
    /// The text collected for the block comment that is open.
    pub buffer: Seq<char>,
    /// The fragments found so far, in order of appearance.
    pub found: Seq<Seq<char>>,
}

impl ScanState {
    /// The state before the first character: nothing open, nothing found.
    pub open spec fn initial() -> ScanState {
        ScanState { scopes: Seq::empty(), buffer: Seq::empty(), found: Seq::empty() }
    }

    /// Whether the innermost open block comment is an ordinary one.
    pub open spec fn collecting(self) -> bool {
        self.scopes.len() > 0 && self.scopes.last() == Scope::Ordinary
    }

    /// A line comment was read: `fragment` is one more fragment.
    pub open spec fn emit(self, fragment: Seq<char>) -> ScanState {
        ScanState { found: self.found.push(fragment), ..self }
    }

    /// Code was read: in a contiguous scan the fragments found so far are forgotten.
    pub open spec fn code(self, c: char, mode: Mode) -> ScanState {
        if mode == Mode::Contiguous && c != ' ' {
            ScanState { found: Seq::empty(), ..self }
        } else {
            self
        }
    }

    /// A block comment of kind `scope` opens outside any other; an ordinary one starts
    /// the buffer with its marker.
    pub open spec fn open_block(self, scope: Scope) -> ScanState {
        ScanState {
            scopes: self.scopes.push(scope),
            buffer: if scope == Scope::Ordinary {
                self.buffer + seq!['/', '*']
            } else {
                self.buffer
            },
            ..self
        }
    }

    /// A block comment opens inside another: it is of the kind of the one around it, and
    /// inside an ordinary one its marker is text.
    pub open spec fn nest(self) -> ScanState
        recommends
            self.scopes.len() > 0,
    {
        ScanState {
            scopes: self.scopes.push(self.scopes.last()),
            buffer: if self.collecting() {
                self.buffer + seq!['/', '*']
            } else {
                self.buffer
            },
            ..self
        }
    }

    /// The innermost block comment closes. The marker of an ordinary one is text, and
    /// when the outermost ordinary one closes the buffer becomes a fragment.
    pub open spec fn close(self) -> ScanState
        recommends
            self.scopes.len() > 0,
    {
        if !self.collecting() {
            ScanState { scopes: self.scopes.drop_last(), ..self }
        } else if self.scopes.len() > 1 {
            ScanState {
                scopes: self.scopes.drop_last(),
                buffer: self.buffer + seq!['*', '/'],
                ..self
            }
        } else {
            ScanState {
                scopes: Seq::empty(),
                buffer: Seq::empty(),
                found: self.found.push(trimmed(self.buffer + seq!['*', '/'])),
            }
        }
    }

    /// A character inside a block comment: text of an ordinary one, dropped otherwise.
    pub open spec fn keep(self, c: char) -> ScanState {
        if self.collecting() {
            ScanState { buffer: self.buffer.push(c), ..self }
        } else {
            self
        }
    }

    /// The line ends: an open block comment goes on in the next line.
    pub open spec fn end_line(self) -> ScanState {
        if self.scopes.len() > 0 {
            ScanState { buffer: self.buffer.push('\n'), ..self }
        } else {
            self
        }
    }

    /// The range ends: text that is left in the buffer is a last fragment.
    pub open spec fn finish(self) -> Seq<Seq<char>> {
        if trimmed(self.buffer).len() > 0 {
            self.found.push(trimmed(self.buffer))
        } else {
            self.found
        }
    }
}

/// Whether `line` holds `a` at `pos` and `b` right after it.
pub open spec fn pair_at(line: Seq<char>, pos: int, a: char, b: char) -> bool {
    0 <= pos && pos + 1 < line.len() && line[pos] == a && line[pos + 1] == b
}

/// Whether the two-character marker at `pos` is followed by `c` or by `!`, which makes
/// it a documentation marker.
pub open spec fn doc_mark_at(line: Seq<char>, pos: int, c: char) -> bool {
    0 <= pos && pos + 2 < line.len() && (line[pos + 2] == c || line[pos + 2] == '!')
}

/// The state after the characters of `line` from `pos` on, read in state `st`.
pub open spec fn scan_chars(st: ScanState, line: Seq<char>, pos: int, mode: Mode) -> ScanState
    decreases line.len() - pos,
{
    if pos < 0 || pos >= line.len() {
        st
    } else if st.scopes.len() == 0 {
        if pair_at(line, pos, '/', '/') {
            if doc_mark_at(line, pos, '/') {
                st
            } else {
                st.emit(trimmed(line.skip(pos)))
            }
        } else if pair_at(line, pos, '/', '*') {
            if doc_mark_at(line, pos, '*') {
                scan_chars(st.open_block(Scope::Documentation), line, pos + 3, mode)
            } else {
                scan_chars(st.open_block(Scope::Ordinary), line, pos + 2, mode)
            }
        } else {
            scan_chars(st.code(line[pos], mode), line, pos + 1, mode)
        }
    } else {
        if pair_at(line, pos, '/', '*') {
            scan_chars(st.nest(), line, pos + 2, mode)
        } else if pair_at(line, pos, '*', '/') {
            scan_chars(st.close(), line, pos + 2, mode)
        } else {
            scan_chars(st.keep(line[pos]), line, pos + 1, mode)
        }
    }
}

/// The state after one whole line, read in state `st`.
pub open spec fn scan_line(st: ScanState, line: Seq<char>, mode: Mode) -> ScanState {
    scan_chars(st, line, 0, mode).end_line()
}

/// The state after the lines of `lines` from index `from` on, read in state `st`.
pub open spec fn scan_lines(st: ScanState, lines: Seq<Seq<char>>, from: int, mode: Mode) -> ScanState
    decreases lines.len() - from,
{
    if from < 0 || from >= lines.len() {
        st
    } else {
        scan_lines(scan_line(st, lines[from], mode), lines, from + 1, mode)
    }
}

/// The fragments that a scan of `lines` in `mode` yields, in order of appearance.
pub open spec fn fragments(lines: Seq<Seq<char>>, mode: Mode) -> Seq<Seq<char>> {
    scan_lines(ScanState::initial(), lines, 0, mode).finish()
}

/// The ordinary comments of `lines`.
pub open spec fn comments_in(lines: Seq<Seq<char>>) -> Seq<Seq<char>> {
    fragments(lines, Mode::Everything)
}

/// The ordinary comments that stand at the end of `lines` with no code after them.
pub open spec fn comments_attached(lines: Seq<Seq<char>>) -> Seq<Seq<char>> {
    fragments(lines, Mode::Contiguous)
}

/// The scanner: the state of a scan, held in vectors.
struct Scanner {
    scopes: Vec<Scope>,
    buffer: Vec<char>,
    found: Vec<Vec<char>>,
}

impl View for Scanner {
    type V = ScanState;

    closed spec fn view(&self) -> ScanState {
        ScanState { scopes: self.scopes@, buffer: self.buffer@, found: char_seqs(self.found@) }
    }
}

impl Scanner {
    fn new() -> (s: Scanner)
        ensures
            s@ == ScanState::initial(),
    {
        let s = Scanner { scopes: Vec::new(), buffer: Vec::new(), found: Vec::new() };
        assert(char_seqs(s.found@) =~= Seq::empty());
        s
    }

    fn is_idle(&self) -> (idle: bool)
        ensures
            idle == (self@.scopes.len() == 0),
    {
        self.scopes.len() == 0
    }

    fn collecting(&self) -> (yes: bool)
        ensures
            yes == self@.collecting(),
    {
        let n = self.scopes.len();
        n > 0 && self.scopes[n - 1] == Scope::Ordinary
    }

    fn push_fragment(&mut self, fragment: Vec<char>)
        ensures
            final(self)@ == old(self)@.emit(fragment@),
    {
        self.found.push(fragment);
        assert(char_seqs(self.found@) =~= char_seqs(old(self).found@).push(fragment@));
    }

    fn code(&mut self, c: char, mode: Mode)
        ensures
            final(self)@ == old(self)@.code(c, mode),
    {
        if mode == Mode::Contiguous && c != ' ' {
            self.found.clear();
            assert(char_seqs(self.found@) =~= Seq::empty());
        }
    }

    fn open_block(&mut self, scope: Scope)
        ensures
            final(self)@ == old(self)@.open_block(scope),
    {
        self.scopes.push(scope);
        if scope == Scope::Ordinary {
            self.buffer.push('/');
            self.buffer.push('*');
            assert(self.buffer@ =~= old(self).buffer@ + seq!['/', '*']);
        }
    }

    fn nest(&mut self)
        requires
            old(self)@.scopes.len() > 0,
        ensures
            final(self)@ == old(self)@.nest(),
    {
        let n = self.scopes.len();
        let scope = self.scopes[n - 1];
        self.scopes.push(scope);
        if scope == Scope::Ordinary {
            self.buffer.push('/');
            self.buffer.push('*');
            assert(self.buffer@ =~= old(self).buffer@ + seq!['/', '*']);
        }
    }

    fn close(&mut self)
        requires
            old(self)@.scopes.len() > 0,
        ensures
            final(self)@ == old(self)@.close(),
    {
        let n = self.scopes.len();
        let scope = self.scopes[n - 1];
        self.scopes.pop();
        if scope == Scope::Ordinary {
            self.buffer.push('*');
            self.buffer.push('/');
            assert(self.buffer@ =~= old(self).buffer@ + seq!['*', '/']);
            if self.scopes.len() == 0 {
                let fragment = trim(&self.buffer);
                self.push_fragment(fragment);
                self.buffer.clear();
                assert(self.scopes@ =~= Seq::empty());
            }
        }
    }

    fn keep(&mut self, c: char)
        ensures
            final(self)@ == old(self)@.keep(c),
    {
        if self.collecting() {
            self.buffer.push(c);
        }
    }

    fn end_line(&mut self)
        ensures
            final(self)@ == old(self)@.end_line(),
    {
        if self.scopes.len() > 0 {
            self.buffer.push('\n');
        }
    }

    fn scan_line(&mut self, line: &Vec<char>, mode: Mode)
        ensures
            final(self)@ == scan_line(old(self)@, line@, mode),
    {
        let n = line.len();
        let mut pos: usize = 0;
        while pos < n
            invariant
                pos <= n,
                n == line.len(),
                scan_chars(self@, line@, pos as int, mode) == scan_chars(
                    old(self)@,
                    line@,
                    0,
                    mode,
                ),
            decreases n - pos,
        {
            let second = pos + 1 < n;
            let third = second && pos + 2 < n;
            if self.is_idle() {
                if second && line[pos] == '/' && line[pos + 1] == '/' {
                    if third && (line[pos + 2] == '/' || line[pos + 2] == '!') {
                    } else {
                        let fragment = trim_from(line, pos);
                        self.push_fragment(fragment);
                    }
                    pos = n;
                } else if second && line[pos] == '/' && line[pos + 1] == '*' {
                    if third && (line[pos + 2] == '*' || line[pos + 2] == '!') {
                        self.open_block(Scope::Documentation);
                        pos += 3;
                    } else {
                        self.open_block(Scope::Ordinary);
                        pos += 2;
                    }
                } else {
                    self.code(line[pos], mode);
                    pos += 1;
                }
            } else {
                if second && line[pos] == '/' && line[pos + 1] == '*' {
                    self.nest();
                    pos += 2;
                } else if second && line[pos] == '*' && line[pos + 1] == '/' {
                    self.close();
                    pos += 2;
                } else {
                    self.keep(line[pos]);
                    pos += 1;
                }
            }
        }
        self.end_line();
    }

    fn finish(self) -> (out: Vec<Vec<char>>)
        ensures
            char_seqs(out@) == self@.finish(),
    {
        let mut out = self.found;
        let last = trim(&self.buffer);
        if last.len() > 0 {
            out.push(last);
            assert(char_seqs(out@) =~= char_seqs(self.found@).push(last@));
        }
        out
    }
}

/// Scans the lines of `lines` from index `from` up to, not including, index `to`, from
/// a fresh state.
fn scan_range(lines: &Vec<Vec<char>>, from: usize, to: usize, mode: Mode) -> (out: Vec<Vec<char>>)
    requires
        from <= to <= lines.len(),
    ensures
        char_seqs(out@) == fragments(char_seqs(lines@).subrange(from as int, to as int), mode),
{
    let ghost range = char_seqs(lines@).subrange(from as int, to as int);
    let mut scanner = Scanner::new();
    let mut i: usize = from;
    while i < to
        invariant
            from <= i <= to <= lines.len(),
            range == char_seqs(lines@).subrange(from as int, to as int),
            scan_lines(scanner@, range, i - from, mode) == scan_lines(
                ScanState::initial(),
                range,
                0,
                mode,
            ),
        decreases to - i,
    {
        assert(range[i - from] == lines@[i as int]@);
        scanner.scan_line(&lines[i], mode);
        i += 1;
    }
    scanner.finish()
}

/// The lines strictly before line `start_line`, the first line being line 1.
pub open spec fn lines_before(lines: Seq<Seq<char>>, start_line: int) -> Seq<Seq<char>> {
    if start_line - 1 <= lines.len() {
        lines.take(start_line - 1)
    } else {
        lines
    }
}

/// The lines from line `start_line` to line `end_line`, both included; no line where
/// these do not lie within `lines`.
pub open spec fn lines_within(lines: Seq<Seq<char>>, start_line: int, end_line: int) -> Seq<
    Seq<char>,
> {
    if 1 <= start_line <= lines.len() && start_line - 1 <= end_line <= lines.len() {
        lines.subrange(start_line - 1, end_line)
    } else {
        Seq::empty()
    }
}

/// The ordinary comments that belong to the definition on lines `start_line` to
/// `end_line` of `lines`: those attached above it, then those within it, each part
/// scanned on its own.
pub open spec fn inline_comments(lines: Seq<Seq<char>>, start_line: int, end_line: int) -> Seq<
    Seq<char>,
> {
    comments_attached(lines_before(lines, start_line)) + comments_in(
        lines_within(lines, start_line, end_line),
    )
}

/// Collects the comments attached at the end of the lines before line `start_line`.
fn scan_before(lines: &Vec<Vec<char>>, start_line: usize) -> (out: Vec<Vec<char>>)
    requires
        start_line >= 1,
    ensures
        char_seqs(out@) == comments_attached(lines_before(char_seqs(lines@), start_line as int)),
{
    let n = lines.len();
    let stop = if start_line - 1 <= n {
        start_line - 1
    } else {
        n
    };
    assert(char_seqs(lines@).subrange(0, stop as int) == lines_before(
        char_seqs(lines@),
        start_line as int,
    ));
    scan_range(lines, 0, stop, Mode::Contiguous)
}

/// Extracts the ordinary comments of `lines`, in order of appearance, each without the
/// white space around it.
///
/// A line comment runs from `//` to the end of its line. A block comment runs from
/// `/*` to the `*/` that closes it, block comments inside it included, and may span
/// lines. Comments that open with `///`, `//!`, `/**` or `/*!` are documentation and
/// are left out. A block comment that the last line leaves open is still returned.
pub fn extract_comments_from_lines(lines: &[&str]) -> (comments: Vec<String>)
    ensures
        string_seqs(comments@) == comments_in(str_seqs(lines@)),
{
    let chars = chars_of_each(lines);
    assert(char_seqs(chars@).subrange(0, chars.len() as int) == char_seqs(chars@));
    let found = scan_range(&chars, 0, chars.len(), Mode::Everything);
    strings_of_each(&found)
}

/// Extracts the ordinary comments attached to the definition that starts on line
/// `start_line` of `source`: those in the lines before it after which no code
/// follows. Blank lines and spaces are no code.
pub fn extract_preceding_comments(source: &str, start_line: usize) -> (comments: Vec<String>)
    requires
        start_line >= 1,
    ensures
        string_seqs(comments@) == comments_attached(
            lines_before(lines_of(source@), start_line as int),
        ),
{
    let text = chars_of(source);
    let lines = split_lines(&text);
    let found = scan_before(&lines, start_line);
    strings_of_each(&found)
}

/// Extracts the ordinary comments of the definition on lines `extracted_start_line` to
/// `extracted_end_line` of `source`: first those attached above it, then those on its
/// own lines. Where these lines do not lie within `source`, only the former.
pub fn extract_inline_comments(
    source: &str,
    extracted_start_line: usize,
    extracted_end_line: usize,
) -> (comments: Vec<String>)
    requires
        extracted_start_line >= 1,
    ensures
        string_seqs(comments@) == inline_comments(
            lines_of(source@),
            extracted_start_line as int,
            extracted_end_line as int,
        ),
{
    let text = chars_of(source);
    let lines = split_lines(&text);
    let mut found = scan_before(&lines, extracted_start_line);
    let ghost above = char_seqs(found@);
    let n = lines.len();
    if extracted_start_line - 1 < n && extracted_end_line <= n && extracted_start_line - 1
        <= extracted_end_line {
        let mut inside = scan_range(
            &lines,
            extracted_start_line - 1,
            extracted_end_line,
            Mode::Everything,
        );
        let ghost within = char_seqs(inside@);
        found.append(&mut inside);
        assert(char_seqs(found@) =~= above + within);
    } else {
        assert(comments_in(Seq::empty()) =~= Seq::empty());
        assert(char_seqs(found@) =~= above + Seq::<Seq<char>>::empty());
    }
    strings_of_each(&found)
}

} // verus!
