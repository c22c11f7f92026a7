//! The parameters of a statistics query and the events that start a
//! download, as they arrive in text.

use vstd::prelude::*;
use vstd::string::*;
use crate::stats::Period;
use crate::text::same_text;

verus! {

/// The pieces of `s` between occurrences of `sep`, read from position `i`
/// on, with the piece at hand starting at `start`.
pub open spec fn pieces_scan(s: Seq<char>, sep: char, start: int, i: int) -> Seq<Seq<char>>
    decreases s.len() - i,
{
    if i >= s.len() {
        seq![s.subrange(start, s.len() as int)]
    } else if s[i] == sep {
        seq![s.subrange(start, i)] + pieces_scan(s, sep, i + 1, i + 1)
    } else {
        pieces_scan(s, sep, start, i + 1)
    }
}

/// The pieces of `s` between occurrences of `sep`. There is always at least
/// one piece; pieces may be empty.
pub open spec fn pieces(s: Seq<char>, sep: char) -> Seq<Seq<char>> {
    pieces_scan(s, sep, 0, 0)
}

/// Splits a text at every `sep`.
pub fn split(text: &str, sep: char) -> (r: Vec<String>)
    ensures
        crate::text::texts(r@) == pieces(text@, sep),
{
    let n = text.unicode_len();
    let mut out: Vec<String> = Vec::new();
    let mut start: usize = 0;
    let mut i: usize = 0;
    while i < n
        invariant
            n == text@.len(),
            start <= i <= n,
            pieces(text@, sep) == crate::text::texts(out@) + pieces_scan(
                text@,
                sep,
                start as int,
                i as int,
            ),
        decreases n - i,
    {
        if text.get_char(i) == sep {
            let ghost before = out@;
            out.push(String::from_str(text.substring_char(start, i)));
            assert(crate::text::texts(out@) =~= crate::text::texts(before) + seq![
                text@.subrange(start as int, i as int),
            ]);
            start = i + 1;
        }
        i = i + 1;
    }
    let ghost before = out@;
    out.push(String::from_str(text.substring_char(start, n)));
    assert(crate::text::texts(out@) =~= crate::text::texts(before) + seq![
        text@.subrange(start as int, n as int),
    ]);
    out
}

/// Whether the character is a decimal digit.
pub open spec fn is_digit(c: char) -> bool {
    '0' <= c <= '9'
}

/// The number that a run of decimal digits writes.
pub open spec fn number(digits: Seq<char>) -> nat
    decreases digits.len(),
{
    if digits.len() == 0 {
        0
    } else {
        (number(digits.drop_last()) * 10 + (digits.last() as u32 - '0' as u32)) as nat
    }
}

/// The digits of a number text: the text without a leading plus sign.
pub open spec fn unsigned_digits(s: Seq<char>) -> Seq<char> {
    if s.len() > 0 && s[0] == '+' {
        s.skip(1)
    } else {
        s
    }
}

/// The unsigned 64-bit integer that a text writes: decimal digits, at least
/// one, after an optional plus sign, that do not go beyond the largest such
/// integer.
pub open spec fn unsigned_of(s: Seq<char>) -> Option<u64> {
    let digits = unsigned_digits(s);
    if digits.len() > 0 && (forall|i: int| 0 <= i < digits.len() ==> is_digit(#[trigger] digits[i]))
        && number(digits) <= u64::MAX {
        Some(number(digits) as u64)
    } else {
        None
    }
}

/// A number is at least the number that any of its leading digits write.
proof fn lemma_number_grows(digits: Seq<char>, k: int)
    requires
        0 <= k <= digits.len(),
        forall|i: int| 0 <= i < digits.len() ==> is_digit(#[trigger] digits[i]),
    ensures
        number(digits.take(k)) <= number(digits),
    decreases digits.len() - k,
{
    if k < digits.len() {
        lemma_number_grows(digits, k + 1);
        assert(digits.take(k + 1).drop_last() =~= digits.take(k));
    } else {
        assert(digits.take(k) =~= digits);
    }
}

/// Reads an unsigned 64-bit integer.
pub fn parse_unsigned(text: &str) -> (r: Option<u64>)
    ensures
        r == unsigned_of(text@),
{
    let n = text.unicode_len();
    let first: usize = if n > 0 && text.get_char(0) == '+' {
        1
    } else {
        0
    };
    let ghost digits = unsigned_digits(text@);
    if first == n {
        return None;
    }
    let mut value: u64 = 0;
    let mut i: usize = first;
    while i < n
        invariant
            n == text@.len(),
            first <= i <= n,
            digits == text@.skip(first as int),
            digits == unsigned_digits(text@),
            forall|k: int| 0 <= k < i - first ==> is_digit(#[trigger] digits[k]),
            value == number(digits.take(i - first)),
        decreases n - i,
    {
        let c = text.get_char(i);
        assert(digits[i - first] == c);
        if !('0' <= c && c <= '9') {
            return None;
        }
        let d: u64 = (c as u32 - '0' as u32) as u64;
        assert(digits.take(i - first + 1).drop_last() =~= digits.take(i - first));
        if value > (u64::MAX - d) / 10 {
            proof {
                if forall|k: int| 0 <= k < digits.len() ==> is_digit(#[trigger] digits[k]) {
                    lemma_number_grows(digits, i - first + 1);
                }
            }
            return None;
        }
        value = value * 10 + d;
        i = i + 1;
    }
    assert(digits.take(n - first) =~= digits);
    Some(value)
}

/// The numbers among the texts: each text that writes an unsigned integer
/// gives it, in order; any other text is left out.
pub open spec fn numbers_among(items: Seq<Seq<char>>, n: int) -> Seq<u64>
    decreases n,
{
    if n <= 0 {
        Seq::empty()
    } else {
        match unsigned_of(items[n - 1]) {
            Some(v) => numbers_among(items, n - 1).push(v),
            None => numbers_among(items, n - 1),
        }
    }
}

/// The activity ids of a comma-separated list; items that are no unsigned
/// integers are left out.
pub fn parse_ids(list: &str) -> (r: Vec<u64>)
    ensures
        r@ == numbers_among(pieces(list@, ','), pieces(list@, ',').len() as int),
{
    let items = split(list, ',');
    let mut out: Vec<u64> = Vec::new();
    let mut i: usize = 0;
    while i < items.len()
        invariant
            i <= items@.len(),
            crate::text::texts(items@) == pieces(list@, ','),
            out@ == numbers_among(pieces(list@, ','), i as int),
        decreases items@.len() - i,
    {
        match parse_unsigned(items[i].as_str()) {
            Some(v) => {
                out.push(v);
            },
            None => {},
        }
        i = i + 1;
    }
    out
}

/// The activity types of a comma-separated list.
pub fn parse_types(list: &str) -> (r: Vec<String>)
    ensures
        crate::text::texts(r@) == pieces(list@, ','),
{
    split(list, ',')
}

/// The period that a name stands for: `day`, `week` and `month` for
/// themselves, any other name for the year.
pub open spec fn period_named(name: Seq<char>) -> Period {
    if name == "day"@ {
        Period::Day
    } else if name == "week"@ {
        Period::Week
    } else if name == "month"@ {
        Period::Month
    } else {
        Period::Year
    }
}

/// The period that a name stands for.
pub fn period_from_name(name: &str) -> (r: Period)
    ensures
        r == period_named(name@),
{
    if same_text(name, "day") {
        Period::Day
    } else if same_text(name, "week") {
        Period::Week
    } else if same_text(name, "month") {
        Period::Month
    } else {
        Period::Year
    }
}

/// Whether an event of the provider announces a new activity, which is
/// then downloaded.
pub fn announces_activity(object_type: &str, aspect_type: &str) -> (r: bool)
    ensures
        r == (object_type@ == "activity"@ && aspect_type@ == "create"@),
{
    same_text(object_type, "activity") && same_text(aspect_type, "create")
}

} // verus!
