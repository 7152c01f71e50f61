use crate::text::{chars_of, same_text};
use vstd::prelude::*;

verus! {

/// What an input record asks for.
#[derive(Debug)]
pub struct Request {
    pub item_id: String,
    pub crate_name: String,
    pub def_path: String,
    /// The source file, as the record names it.
    pub file: String,
    /// The line of the definition, the first line being line 1.
    pub line: usize,
    /// Whether the record marks the function as safe; only these are worked on.
    pub safe: bool,
}

/// What an input record is good for.
#[derive(Debug)]
pub enum Intake {
    /// Fewer than ten fields: the record is passed over.
    Skip,
    /// The fields that the work needs are not all there, or the line is no number.
    Unusable,
    /// The record asks for a definition.
    Work(Request),
}

/// The mark of a safe function.
pub open spec fn safe_mark() -> Seq<char> {
    seq!['S', 'a', 'f', 'e']
}

/// Whether `c` is a decimal digit.
pub open spec fn is_digit(c: char) -> bool {
    '0' <= c <= '9'
}

/// The number that the decimal digits `digits` write.
pub open spec fn digits_value(digits: Seq<char>) -> nat
    decreases digits.len(),
{
    if digits.len() == 0 {
        0
    } else {
        digits_value(digits.drop_last()) * 10 + (digits.last() as u32 - '0' as u32) as nat
    }
}

/// The digits of `text`: all of it but for a `+` in front.
pub open spec fn digits_of(text: Seq<char>) -> Seq<char> {
    if text.len() > 0 && text[0] == '+' {
        text.drop_first()
    } else {
        text
    }
}

/// The line number that `text` writes: one or more decimal digits, with or without a
/// `+` in front, whose number fits the machine's word.
pub open spec fn line_number(text: Seq<char>) -> Option<usize> {
    let digits = digits_of(text);
    if digits.len() > 0 && (forall|i: int| 0 <= i < digits.len() ==> is_digit(#[trigger] digits[i]))
        && digits_value(digits) <= usize::MAX {
        Some(digits_value(digits) as usize)
    } else {
        None
    }
}

/// More digits never write a smaller number.
pub proof fn lemma_digits_value_grows(digits: Seq<char>, n: int)
    requires
        0 <= n <= digits.len(),
        forall|i: int| 0 <= i < digits.len() ==> is_digit(#[trigger] digits[i]),
    ensures
        digits_value(digits.take(n)) <= digits_value(digits),
    decreases digits.len() - n,
{
    if n == digits.len() {
        assert(digits.take(n) =~= digits);
    } else {
        let shorter = digits.drop_last();
        assert(shorter.take(n) =~= digits.take(n));
        assert forall|i: int| 0 <= i < shorter.len() implies is_digit(#[trigger] shorter[i]) by {
            assert(shorter[i] == digits[i]);
        }
        lemma_digits_value_grows(shorter, n);
        assert(is_digit(digits.last()));
    }
}

/// Reads a line number.
pub fn parse_line_number(text: &str) -> (line: Option<usize>)
    ensures
        line == line_number(text@),
{
    let chars = chars_of(text);
    let n = chars.len();
    let first: usize = if n > 0 && chars[0] == '+' {
        1
    } else {
        0
    };
    let ghost digits = digits_of(text@);
    assert(digits =~= chars@.skip(first as int));
    if first == n {
        return None;
    }
    let mut value: usize = 0;
    let mut i: usize = first;
    while i < n
        invariant
            first <= i <= n,
            n == chars.len(),
            digits == chars@.skip(first as int),
            digits == digits_of(text@),
            forall|j: int| 0 <= j < i - first ==> is_digit(#[trigger] digits[j]),
            value == digits_value(digits.take(i - first)),
        decreases n - i,
    {
        let c = chars[i];
        assert(digits[i - first] == c);
        if !('0' <= c && c <= '9') {
            return None;
        }
        let d: usize = (c as u32 - '0' as u32) as usize;
        let ghost longer = digits.take(i - first + 1);
        assert(longer.drop_last() =~= digits.take(i - first));
        assert(longer.last() == c);
        let next = match value.checked_mul(10) {
            Some(tens) => tens.checked_add(d),
            None => None,
        };
        match next {
            Some(v) => {
                value = v;
            },
            None => {
                proof {
                    assert(digits_value(longer) > usize::MAX);
                    if forall|j: int| 0 <= j < digits.len() ==> is_digit(#[trigger] digits[j]) {
                        lemma_digits_value_grows(digits, i - first + 1);
                    }
                }
                return None;
            },
        }
        i += 1;
    }
    assert(digits.take(n - first) =~= digits);
    Some(value)
}

/// Whether `intake` is what the record with fields `fields` is good for.
pub open spec fn reads(intake: Intake, fields: Seq<String>) -> bool {
    if fields.len() < 10 {
        intake is Skip
    } else if fields.len() < 13 {
        intake is Unusable
    } else {
        match line_number(fields[10]@) {
            None => intake is Unusable,
            Some(line) => intake matches Intake::Work(request) && request.item_id@ == fields[0]@
                && request.crate_name@ == fields[1]@ && request.def_path@ == fields[3]@
                && request.file@ == fields[9]@ && request.line == line && request.safe == (
            fields[12]@ == safe_mark()),
        }
    }
}

/// Reads what a record asks for from its fields: the item in field 0, the package in
/// field 1, the definition's path in field 3, the file in field 9, the line in field
/// 10 and the safety mark in field 12.
pub fn read_record(fields: &Vec<String>) -> (intake: Intake)
    ensures
        reads(intake, fields@),
{
    if fields.len() < 10 {
        return Intake::Skip;
    }
    if fields.len() < 13 {
        return Intake::Unusable;
    }
    match parse_line_number(fields[10].as_str()) {
        None => Intake::Unusable,
        Some(line) => {
            proof {
                reveal_strlit("Safe");
                assert("Safe"@ =~= safe_mark());
            }
            let safe = same_text(fields[12].as_str(), "Safe");
            Intake::Work(
                Request {
                    item_id: fields[0].clone(),
                    crate_name: fields[1].clone(),
                    def_path: fields[3].clone(),
                    file: fields[9].clone(),
                    line,
                    safe,
                },
            )
        },
    }
}

} // verus!
