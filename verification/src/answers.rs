//! Reading the answers that a person types at the prompts: a yes or a no,
//! and the length of the password.

use vstd::prelude::*;
use vstd::string::*;

verus! {

/// Whether `c` is white space: the characters of Unicode's `White_Space`
/// property, line ends among them.
pub open spec fn is_white_space(c: char) -> bool {
    ||| '\u{9}' <= c <= '\u{d}'
    ||| c == ' '
    ||| c == '\u{85}'
    ||| c == '\u{a0}'
    ||| c == '\u{1680}'
    ||| '\u{2000}' <= c <= '\u{200a}'
    ||| c == '\u{2028}'
    ||| c == '\u{2029}'
    ||| c == '\u{202f}'
    ||| c == '\u{205f}'
    ||| c == '\u{3000}'
}

/// `line` without the white space it starts with.
pub open spec fn trim_start(line: Seq<char>) -> Seq<char>
    decreases line.len(),
{
    if line.len() > 0 && is_white_space(line.first()) {
        trim_start(line.drop_first())
    } else {
        line
    }
}

/// `line` without the white space it ends with.
pub open spec fn trim_end(line: Seq<char>) -> Seq<char>
    decreases line.len(),
{
    if line.len() > 0 && is_white_space(line.last()) {
        trim_end(line.drop_last())
    } else {
        line
    }
}

/// `line` without the white space around it.
pub open spec fn trimmed(line: Seq<char>) -> Seq<char> {
    trim_end(trim_start(line))
}

/// What an answer to a yes-or-no question says, if it is one: a single `y`
/// or `n`, in either case.
pub open spec fn yes_or_no(answer: Seq<char>) -> Option<bool> {
    if answer.len() != 1 {
        None
    } else if answer[0] == 'y' || answer[0] == 'Y' {
        Some(true)
    } else if answer[0] == 'n' || answer[0] == 'N' {
        Some(false)
    } else {
        None
    }
}

/// The number that a sequence of decimal digits writes.
pub open spec fn decimal(digits: Seq<char>) -> nat
    decreases digits.len(),
{
    if digits.len() == 0 {
        0
    } else {
        decimal(digits.drop_last()) * 10 + (digits.last() as nat - '0' as nat) as nat
    }
}

/// Whether every character is one of the digits `0` to `9`.
pub open spec fn all_digits(digits: Seq<char>) -> bool {
    forall|i: int| 0 <= i < digits.len() ==> '0' <= #[trigger] digits[i] <= '9'
}

/// The length that an answer asks for, if it is one: digits, after an
/// optional `+`, that write a number up to 255.
pub open spec fn length_of(answer: Seq<char>) -> Option<u8> {
    let digits = if answer.len() > 0 && answer[0] == '+' {
        answer.drop_first()
    } else {
        answer
    };
    if digits.len() > 0 && all_digits(digits) && decimal(digits) <= 255 {
        Some(decimal(digits) as u8)
    } else {
        None
    }
}

/// Tells white space from other characters.
pub fn white_space(c: char) -> (b: bool)
    ensures
        b == is_white_space(c),
{
    ('\u{9}' <= c && c <= '\u{d}') || c == ' ' || c == '\u{85}' || c == '\u{a0}' || c
        == '\u{1680}' || ('\u{2000}' <= c && c <= '\u{200a}') || c == '\u{2028}' || c
        == '\u{2029}' || c == '\u{202f}' || c == '\u{205f}' || c == '\u{3000}'
}

/// Finds where the answer stands in a line: from `bounds.0` up to, not
/// including, `bounds.1`.
pub fn answer_bounds(line: &str) -> (bounds: (usize, usize))
    ensures
        bounds.0 <= bounds.1 <= line@.len(),
        line@.subrange(bounds.0 as int, bounds.1 as int) == trimmed(line@),
{
    let n = line.unicode_len();
    let mut start: usize = 0;
    assert(line@.subrange(0, n as int) =~= line@);
    while start < n && white_space(line.get_char(start))
        invariant
            n == line@.len(),
            start <= n,
            trim_start(line@) == trim_start(line@.subrange(start as int, n as int)),
        decreases n - start,
    {
        assert(line@.subrange(start as int, n as int).drop_first() =~= line@.subrange(
            start + 1,
            n as int,
        ));
        start = start + 1;
    }
    let ghost rest = line@.subrange(start as int, n as int);
    assert(trim_start(line@) == rest);
    let mut end: usize = n;
    while start < end && white_space(line.get_char(end - 1))
        invariant
            n == line@.len(),
            start <= end <= n,
            rest == line@.subrange(start as int, n as int),
            trim_end(rest) == trim_end(line@.subrange(start as int, end as int)),
        decreases end - start,
    {
        assert(line@.subrange(start as int, end as int).drop_last() =~= line@.subrange(
            start as int,
            end - 1,
        ));
        end = end - 1;
    }
    (start, end)
}

/// Reads the answer to a yes-or-no question from a line of input. `None`
/// means that the line is no answer and the question has to be asked again.
pub fn parse_yes_no(line: &str) -> (answer: Option<bool>)
    ensures
        answer == yes_or_no(trimmed(line@)),
{
    let (start, end) = answer_bounds(line);
    if end - start != 1 {
        return None;
    }
    let c = line.get_char(start);
    if c == 'y' || c == 'Y' {
        Some(true)
    } else if c == 'n' || c == 'N' {
        Some(false)
    } else {
        None
    }
}

/// A number grows with every digit written after it.
pub proof fn lemma_decimal_grows(digits: Seq<char>, shorter: int)
    requires
        all_digits(digits),
        0 <= shorter <= digits.len(),
    ensures
        decimal(digits.take(shorter)) <= decimal(digits),
    decreases digits.len(),
{
    if shorter == digits.len() {
        assert(digits.take(shorter) =~= digits);
    } else {
        assert(digits.drop_last().take(shorter) =~= digits.take(shorter));
        lemma_decimal_grows(digits.drop_last(), shorter);
    }
}

/// Reads the length of the password from a line of input. `None` means that
/// the line holds no number from 0 to 255 and the question has to be asked
/// again.
pub fn parse_length(line: &str) -> (length: Option<u8>)
    ensures
        length == length_of(trimmed(line@)),
{
    let (start, end) = answer_bounds(line);
    let ghost answer = line@.subrange(start as int, end as int);
    let mut i: usize = start;
    if start < end && line.get_char(start) == '+' {
        i = start + 1;
    }
    let first: usize = i;
    let ghost digits = line@.subrange(first as int, end as int);
    assert(digits =~= if answer.len() > 0 && answer[0] == '+' {
        answer.drop_first()
    } else {
        answer
    });
    if first == end {
        return None;
    }
    let mut value: u16 = 0;
    assert(digits.take(0) =~= Seq::<char>::empty());
    while i < end
        invariant
            first <= i <= end <= line@.len(),
            digits == line@.subrange(first as int, end as int),
            digits.len() > 0,
            length_of(trimmed(line@)) == if all_digits(digits) && decimal(digits) <= 255 {
                Some(decimal(digits) as u8)
            } else {
                None
            },
            all_digits(digits.take(i - first)),
            value == decimal(digits.take(i - first)),
            value <= 255,
        decreases end - i,
    {
        let c = line.get_char(i);
        assert(digits[i - first] == c);
        if !('0' <= c && c <= '9') {
            return None;
        }
        let ghost longer = digits.take(i - first + 1);
        assert(longer.drop_last() =~= digits.take(i - first));
        assert(longer.last() == c);
        let digit: u16 = (c as u8 - '0' as u8) as u16;
        value = value * 10 + digit;
        assert(value == decimal(longer));
        assert(all_digits(longer)) by {
            assert forall|j: int| 0 <= j < longer.len() implies '0' <= #[trigger] longer[j]
                <= '9' by {
                if j < i - first {
                    assert(digits.take(i - first)[j] == longer[j]);
                }
            }
        }
        i = i + 1;
        if value > 255 {
            proof {
                if all_digits(digits) {
                    lemma_decimal_grows(digits, i - first);
                }
            }
            return None;
        }
    }
    assert(digits.take(end - first) =~= digits);
    Some(value as u8)
}

} // verus!
