//! Splitting the listing into lines, and reading the decimal count of the
//! summary line.

use vstd::prelude::*;
use crate::pattern::texts;

verus! {

/// Number of characters before the first line feed of `s`, or the length of
/// `s` where it holds none.
pub open spec fn line_end(s: Seq<char>) -> nat
    decreases s.len(),
{
    if s.len() == 0 || s[0] == '\n' {
        0
    } else {
        1 + line_end(s.drop_first())
    }
}

/// `line` without one trailing carriage return.
pub open spec fn strip_cr(line: Seq<char>) -> Seq<char> {
    if line.len() > 0 && line.last() == '\r' {
        line.drop_last()
    } else {
        line
    }
}

/// The lines of `s`: it is cut after each line feed, the line feed and a
/// carriage return just before it are dropped, and what follows the last line
/// feed is a line of its own unless it is empty.
pub open spec fn lines_of(s: Seq<char>) -> Seq<Seq<char>>
    decreases s.len(),
{
    let end = line_end(s);
    if s.len() == 0 {
        Seq::empty()
    } else if end >= s.len() {
        seq![s]
    } else {
        seq![strip_cr(s.subrange(0, end as int))] + lines_of(s.subrange(end as int + 1, s.len() as int))
    }
}

/// Calls `str::lines` and copies each line into a `String`. Trusted: the
/// standard library documents that lines end at `\n` or `\r\n`, that the
/// terminators are not part of the lines, and that the last terminator is
/// optional; [`lines_of`] says the same.
#[verifier::external_body]
pub(crate) fn split_lines(text: &str) -> (lines: Vec<String>)
    ensures
        texts(lines@) == lines_of(text@),
{
    text.lines().map(|line| line.to_string()).collect()
}

/// Whether `c` is one of the ten ASCII digits.
pub open spec fn is_digit(c: char) -> bool {
    '0' <= c && c <= '9'
}

/// The value of the ASCII digit `c`.
pub open spec fn digit_value(c: char) -> nat {
    (c as nat - '0' as nat) as nat
}

/// The number that the digits of `s` write in base ten.
pub open spec fn decimal_value(s: Seq<char>) -> nat
    decreases s.len(),
{
    if s.len() == 0 {
        0
    } else {
        decimal_value(s.drop_last()) * 10 + digit_value(s.last())
    }
}

/// Whether every character of `s` is an ASCII digit.
pub open spec fn all_digits(s: Seq<char>) -> bool {
    forall|i: int| 0 <= i < s.len() ==> is_digit(#[trigger] s[i])
}

/// The count that `s` spells, where `s` is a non-empty run of ASCII digits
/// whose value fits a `usize`.
pub open spec fn count_of(s: Seq<char>) -> Option<usize> {
    if s.len() > 0 && all_digits(s) && decimal_value(s) <= usize::MAX {
        Some(decimal_value(s) as usize)
    } else {
        None
    }
}

/// A prefix of a digit string never spells a larger number than the whole.
pub proof fn lemma_prefix_value_le(s: Seq<char>, k: int)
    requires
        0 <= k <= s.len(),
    ensures
        decimal_value(s.take(k)) <= decimal_value(s),
    decreases s.len() - k,
{
    if k == s.len() {
        assert(s.take(k) =~= s);
    } else {
        lemma_prefix_value_le(s, k + 1);
        assert(s.take(k + 1).drop_last() =~= s.take(k));
    }
}

/// Reads the digits of a summary line as a count.
pub fn parse_count(digits: &str) -> (count: Option<usize>)
    ensures
        count == count_of(digits@),
{
    let n: usize = digits.unicode_len();
    if n == 0 {
        return None;
    }
    let mut value: usize = 0;
    let mut i: usize = 0;
    while i < n
        invariant
            n == digits@.len(),
            0 <= i <= n,
            all_digits(digits@.take(i as int)),
            value == decimal_value(digits@.take(i as int)),
        decreases n - i,
    {
        let c: char = digits.get_char(i);
        proof {
            assert(digits@.take(i + 1).drop_last() =~= digits@.take(i as int));
            assert(digits@.take(i + 1).last() == c);
            lemma_prefix_value_le(digits@, i + 1);
        }
        if !('0' <= c && c <= '9') {
            assert(!is_digit(digits@[i as int]));
            return None;
        }
        let d: usize = (c as u32 - '0' as u32) as usize;
        let next: Option<usize> = match value.checked_mul(10) {
            Some(tens) => tens.checked_add(d),
            None => None,
        };
        match next {
            Some(v) => {
                value = v;
            },
            None => {
                return None;
            },
        }
        assert forall|j: int| 0 <= j < i + 1 implies is_digit(#[trigger] digits@.take(i + 1)[j]) by {
            if j < i {
                assert(digits@.take(i as int)[j] == digits@.take(i + 1)[j]);
            }
        }
        i = i + 1;
    }
    assert(digits@.take(n as int) =~= digits@);
    Some(value)
}

} // verus!
