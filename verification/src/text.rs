use vstd::prelude::*;
use vstd::std_specs::iter::IteratorSpec;

verus! {

/// The characters of `s`, in order.
pub fn chars_of(s: &str) -> (chars: Vec<char>)
    ensures
        chars@ == s@,
{
    broadcast use vstd::string::group_string_axioms;

    let mut chars: Vec<char> = Vec::new();
    for c in it: s.chars()
        invariant
            it.seq() == s@,
            chars@ == it.seq().take(it.index() as int),
    {
        chars.push(c);
    }
    chars
}

/// Decides whether `a` and `b` hold the same text.
pub fn same_text(a: &str, b: &str) -> (same: bool)
    ensures
        same == (a@ == b@),
{
    let x = chars_of(a);
    let y = chars_of(b);
    if x.len() != y.len() {
        return false;
    }
    let mut i: usize = 0;
    while i < x.len()
        invariant
            i <= x.len(),
            x.len() == y.len(),
            x@ == a@,
            y@ == b@,
            forall|j: int| 0 <= j < i ==> x@[j] == y@[j],
        decreases x.len() - i,
    {
        if x[i] != y[i] {
            return false;
        }
        i += 1;
    }
    assert(x@ =~= y@);
    true
}

/// Appends one character to a string.
///
/// Trusted: stands for `String::push` of the standard library, which appends the given
/// character to the end of the string and changes nothing else.
#[verifier::external_body]
fn push_char(s: &mut String, c: char)
    ensures
        final(s)@ == old(s)@.push(c),
{
    s.push(c);
}

/// The string that holds exactly the characters of `chars`.
pub fn string_of(chars: &Vec<char>) -> (s: String)
    ensures
        s@ == chars@,
{
    let mut s = String::new();
    let mut i: usize = 0;
    while i < chars.len()
        invariant
            i <= chars.len(),
            s@ == chars@.take(i as int),
        decreases chars.len() - i,
    {
        push_char(&mut s, chars[i]);
        i += 1;
        assert(chars@.take(i as int) == chars@.take(i - 1).push(chars@[i - 1]));
    }
    assert(chars@.take(chars.len() as int) == chars@);
    s
}

/// Whether `c` is white space: a character with the Unicode property `White_Space`.
pub open spec fn is_space(c: char) -> bool {
    let n = c as u32;
    ||| 0x09 <= n <= 0x0d
    ||| n == 0x20
    ||| n == 0x85
    ||| n == 0xa0
    ||| n == 0x1680
    ||| 0x2000 <= n <= 0x200a
    ||| n == 0x2028
    ||| n == 0x2029
    ||| n == 0x202f
    ||| n == 0x205f
    ||| n == 0x3000
}

/// Decides whether `c` is white space.
pub fn is_whitespace(c: char) -> (space: bool)
    ensures
        space == is_space(c),
{
    let n: u32 = c as u32;
    (0x09 <= n && n <= 0x0d) || n == 0x20 || n == 0x85 || n == 0xa0 || n == 0x1680 || (0x2000 <= n
        && n <= 0x200a) || n == 0x2028 || n == 0x2029 || n == 0x202f || n == 0x205f || n == 0x3000
}

/// `s` without the white space that it starts with.
pub open spec fn trim_start(s: Seq<char>) -> Seq<char>
    decreases s.len(),
{
    if s.len() > 0 && is_space(s[0]) {
        trim_start(s.drop_first())
    } else {
        s
    }
}

/// `s` without the white space that it ends with.
pub open spec fn trim_end(s: Seq<char>) -> Seq<char>
    decreases s.len(),
{
    if s.len() > 0 && is_space(s.last()) {
        trim_end(s.drop_last())
    } else {
        s
    }
}

/// `s` without the white space at either end.
pub open spec fn trimmed(s: Seq<char>) -> Seq<char> {
    trim_end(trim_start(s))
}

/// Trimming at the start drops exactly the leading run of white space.
pub proof fn lemma_trim_start_skips(s: Seq<char>, k: int)
    requires
        0 <= k <= s.len(),
        forall|i: int| 0 <= i < k ==> is_space(#[trigger] s[i]),
        k < s.len() ==> !is_space(s[k]),
    ensures
        trim_start(s) == s.skip(k),
    decreases k,
{
    if k == 0 {
        assert(s.skip(0) == s);
    } else {
        let rest = s.drop_first();
        assert forall|i: int| 0 <= i < k - 1 implies is_space(#[trigger] rest[i]) by {
            assert(rest[i] == s[i + 1]);
        }
        lemma_trim_start_skips(rest, k - 1);
        assert(rest.skip(k - 1) == s.skip(k));
    }
}

/// Trimming at the end drops exactly the trailing run of white space.
pub proof fn lemma_trim_end_takes(s: Seq<char>, k: int)
    requires
        0 <= k <= s.len(),
        forall|i: int| k <= i < s.len() ==> is_space(#[trigger] s[i]),
        0 < k ==> !is_space(s[k - 1]),
    ensures
        trim_end(s) == s.take(k),
    decreases s.len() - k,
{
    if k == s.len() {
        assert(s.take(k) == s);
    } else {
        let rest = s.drop_last();
        lemma_trim_end_takes(rest, k);
        assert(rest.take(k) == s.take(k));
    }
}

/// Whether `s` holds white space only, or nothing.
pub open spec fn is_blank(s: Seq<char>) -> bool {
    forall|i: int| 0 <= i < s.len() ==> is_space(#[trigger] s[i])
}

/// White space in front of a text does not change what trimming leaves of it.
pub proof fn lemma_trimmed_ignores_padding(pad: Seq<char>, s: Seq<char>)
    requires
        is_blank(pad),
    ensures
        trimmed(pad + s) == trimmed(s),
    decreases pad.len(),
{
    if pad.len() == 0 {
        assert(pad + s =~= s);
    } else {
        let rest = pad.drop_first();
        assert((pad + s)[0] == pad[0]);
        assert((pad + s).drop_first() =~= rest + s);
        assert forall|i: int| 0 <= i < rest.len() implies is_space(#[trigger] rest[i]) by {
            assert(rest[i] == pad[i + 1]);
        }
        lemma_trimmed_ignores_padding(rest, s);
    }
}

/// A copy of `chars` from position `from` on, without the white space at either end.
pub fn trim_from(chars: &Vec<char>, from: usize) -> (out: Vec<char>)
    requires
        from <= chars.len(),
    ensures
        out@ == trimmed(chars@.skip(from as int)),
{
    let n = chars.len();
    let ghost tail = chars@.skip(from as int);
    let mut start: usize = from;
    while start < n && is_whitespace(chars[start])
        invariant
            from <= start <= n,
            n == chars.len(),
            forall|i: int| from <= i < start ==> is_space(#[trigger] chars@[i]),
        decreases n - start,
    {
        start += 1;
    }
    let mut end: usize = n;
    while end > start && is_whitespace(chars[end - 1])
        invariant
            start <= end <= n,
            n == chars.len(),
            forall|i: int| end <= i < n ==> is_space(#[trigger] chars@[i]),
        decreases end,
    {
        end -= 1;
    }
    let mut out: Vec<char> = Vec::new();
    let mut i: usize = start;
    while i < end
        invariant
            start <= i <= end <= n,
            n == chars.len(),
            out@ == chars@.subrange(start as int, i as int),
        decreases end - i,
    {
        out.push(chars[i]);
        i += 1;
        assert(chars@.subrange(start as int, i as int) == chars@.subrange(start as int, i - 1).push(
            chars@[i - 1],
        ));
    }
    proof {
        let rest = tail.skip(start - from);
        assert forall|j: int| 0 <= j < start - from implies is_space(#[trigger] tail[j]) by {
            assert(tail[j] == chars@[j + from]);
        }
        lemma_trim_start_skips(tail, start - from);
        assert forall|j: int| end - start <= j < rest.len() implies is_space(#[trigger] rest[j]) by {
            assert(rest[j] == chars@[j + start]);
        }
        lemma_trim_end_takes(rest, end - start);
        assert(rest.take(end - start) == chars@.subrange(start as int, end as int));
    }
    out
}

/// A copy of `chars` without the white space at either end.
pub fn trim(chars: &Vec<char>) -> (out: Vec<char>)
    ensures
        out@ == trimmed(chars@),
{
    assert(chars@.skip(0) == chars@);
    trim_from(chars, 0)
}

/// The text of each vector of `items`.
pub open spec fn char_seqs(items: Seq<Vec<char>>) -> Seq<Seq<char>> {
    items.map_values(|item: Vec<char>| item@)
}

/// The text of each string of `items`.
pub open spec fn string_seqs(items: Seq<String>) -> Seq<Seq<char>> {
    items.map_values(|item: String| item@)
}

/// The text of each string slice of `items`.
pub open spec fn str_seqs(items: Seq<&str>) -> Seq<Seq<char>> {
    items.map_values(|item: &str| item@)
}

/// Each of `items` as a vector of its characters.
pub fn chars_of_each(items: &[&str]) -> (out: Vec<Vec<char>>)
    ensures
        char_seqs(out@) == str_seqs(items@),
{
    let mut out: Vec<Vec<char>> = Vec::new();
    let mut i: usize = 0;
    while i < items.len()
        invariant
            i <= items.len(),
            out.len() == i,
            forall|j: int| 0 <= j < i ==> (#[trigger] out@[j])@ == items@[j]@,
        decreases items.len() - i,
    {
        let chars = chars_of(items[i]);
        out.push(chars);
        i += 1;
    }
    assert(char_seqs(out@) =~= str_seqs(items@));
    out
}

/// Each of `items` as a string.
pub fn strings_of_each(items: &Vec<Vec<char>>) -> (out: Vec<String>)
    ensures
        string_seqs(out@) == char_seqs(items@),
{
    let mut out: Vec<String> = Vec::new();
    let mut i: usize = 0;
    while i < items.len()
        invariant
            i <= items.len(),
            out.len() == i,
            forall|j: int| 0 <= j < i ==> (#[trigger] out@[j])@ == items@[j]@,
        decreases items.len() - i,
    {
        let s = string_of(&items[i]);
        out.push(s);
        i += 1;
    }
    assert(string_seqs(out@) =~= char_seqs(items@));
    out
}

/// The line that runs from `from` up to, not including, the line feed at `end`. A
/// carriage return just before that line feed belongs to the line ending.
pub open spec fn line_between(text: Seq<char>, from: int, end: int) -> Seq<char> {
    if from < end && text[end - 1] == '\r' {
        text.subrange(from, end - 1)
    } else {
        text.subrange(from, end)
    }
}

/// The lines of `text` from position `start` on, where no line feed stands between
/// `start` and `pos`.
pub open spec fn lines_from(text: Seq<char>, start: int, pos: int) -> Seq<Seq<char>>
    decreases text.len() - pos,
{
    if pos < 0 || pos >= text.len() {
        if 0 <= start < text.len() {
            seq![text.skip(start)]
        } else {
            Seq::empty()
        }
    } else if text[pos] == '\n' {
        seq![line_between(text, start, pos)] + lines_from(text, pos + 1, pos + 1)
    } else {
        lines_from(text, start, pos + 1)
    }
}

/// The lines of `text`. A line ends with a line feed, or with a carriage return and a
/// line feed; neither belongs to the line. The last line needs no line ending, and
/// after a final line ending no empty line follows.
pub open spec fn lines_of(text: Seq<char>) -> Seq<Seq<char>> {
    lines_from(text, 0, 0)
}

/// Splits `text` into its lines.
pub fn split_lines(text: &Vec<char>) -> (lines: Vec<Vec<char>>)
    ensures
        char_seqs(lines@) == lines_of(text@),
{
    let n = text.len();
    let mut lines: Vec<Vec<char>> = Vec::new();
    let mut current: Vec<char> = Vec::new();
    let mut start: usize = 0;
    let mut pos: usize = 0;
    while pos < n
        invariant
            start <= pos <= n,
            n == text.len(),
            current@ == text@.subrange(start as int, pos as int),
            lines_of(text@) == char_seqs(lines@) + lines_from(text@, start as int, pos as int),
        decreases n - pos,
    {
        let c = text[pos];
        if c == '\n' {
            let m = current.len();
            if m > 0 && current[m - 1] == '\r' {
                current.pop();
                assert(current@ == text@.subrange(start as int, pos - 1));
            }
            let ghost before = char_seqs(lines@);
            lines.push(current);
            assert(char_seqs(lines@) =~= before + seq![line_between(text@, start as int, pos as int)]);
            current = Vec::new();
            pos += 1;
            start = pos;
            assert(current@ == text@.subrange(start as int, pos as int));
        } else {
            current.push(c);
            pos += 1;
            assert(current@ == text@.subrange(start as int, pos as int));
        }
    }
    if start < n {
        let ghost before = char_seqs(lines@);
        lines.push(current);
        assert(text@.skip(start as int) == text@.subrange(start as int, n as int));
        assert(char_seqs(lines@) =~= before + seq![text@.skip(start as int)]);
    }
    lines
}

/// The texts of `parts` in one, with a single space between each two.
pub open spec fn joined(parts: Seq<Seq<char>>) -> Seq<char>
    decreases parts.len(),
{
    if parts.len() == 0 {
        Seq::empty()
    } else if parts.len() == 1 {
        parts[0]
    } else {
        joined(parts.drop_last()) + seq![' '] + parts.last()
    }
}

/// Joins `parts` into one string, with a single space between each two.
pub fn join_with_space(parts: &Vec<String>) -> (out: String)
    ensures
        out@ == joined(string_seqs(parts@)),
{
    let ghost texts = string_seqs(parts@);
    let mut out = String::new();
    let mut i: usize = 0;
    while i < parts.len()
        invariant
            i <= parts.len(),
            texts == string_seqs(parts@),
            out@ == joined(texts.take(i as int)),
        decreases parts.len() - i,
    {
        proof {
            reveal_strlit(" ");
            assert(" "@ =~= seq![' ']);
            assert(texts.take(i + 1).drop_last() == texts.take(i as int));
            assert(texts.take(i + 1).last() == parts@[i as int]@);
        }
        if i > 0 {
            out.append(" ");
        }
        out.append(parts[i].as_str());
        i += 1;
    }
    assert(texts.take(parts.len() as int) == texts);
    out
}

} // verus!
