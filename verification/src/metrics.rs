//! The figures that the observer polls: traffic and the kernel's memory.

use crate::codec::{render_document, rendered};
use crate::json::{no_members, push_member, Json, JsonView, NumberView};
use crate::text::{decimal, decimal_text};
use vstd::prelude::*;

verus! {

/// The traffic figures: no bytes up and none down.
pub open spec fn traffic_form() -> JsonView {
    JsonView::Object(
        Map::<Seq<char>, JsonView>::empty().insert(
            "upload"@,
            JsonView::Number(NumberView::Integer(0)),
        ).insert("download"@, JsonView::Number(NumberView::Integer(0))),
    )
}

/// The traffic figures as JSON text. The figures are not measured: both are 0.
pub fn get_traffic_data() -> (text: String)
    ensures
        text@ == rendered(traffic_form()),
{
    let mut members = no_members();
    push_member(&mut members, "upload", Json::integer(0));
    push_member(&mut members, "download", Json::integer(0));
    render_document(&Json::Object(members))
}

/// Whether a character is white space, as Unicode defines it.
pub open spec fn is_space(c: char) -> bool {
    c == '\u{9}' || c == '\u{A}' || c == '\u{B}' || c == '\u{C}' || c == '\u{D}' || c == ' ' || c
        == '\u{85}' || c == '\u{A0}' || c == '\u{1680}' || c == '\u{2000}' || c == '\u{2001}' || c
        == '\u{2002}' || c == '\u{2003}' || c == '\u{2004}' || c == '\u{2005}' || c == '\u{2006}'
        || c == '\u{2007}' || c == '\u{2008}' || c == '\u{2009}' || c == '\u{200A}' || c
        == '\u{2028}' || c == '\u{2029}' || c == '\u{202F}' || c == '\u{205F}' || c == '\u{3000}'
}

/// The value of a decimal digit.
pub open spec fn digit_value(c: char) -> Option<nat> {
    if c == '0' {
        Some(0)
    } else if c == '1' {
        Some(1)
    } else if c == '2' {
        Some(2)
    } else if c == '3' {
        Some(3)
    } else if c == '4' {
        Some(4)
    } else if c == '5' {
        Some(5)
    } else if c == '6' {
        Some(6)
    } else if c == '7' {
        Some(7)
    } else if c == '8' {
        Some(8)
    } else if c == '9' {
        Some(9)
    } else {
        None
    }
}

/// The index of the first `c` in `s` at or after `from`, or the length of `s`
/// where there is none.
pub open spec fn next_index(s: Seq<char>, c: char, from: int) -> int
    decreases s.len() - from,
{
    if from >= s.len() {
        s.len() as int
    } else if s[from] == c {
        from
    } else {
        next_index(s, c, from + 1)
    }
}

/// The index of the first character in `s` from `from` up to `to` that is not
/// white space, or `to` where all are.
pub open spec fn after_spaces(s: Seq<char>, from: int, to: int) -> int
    decreases to - from,
{
    if from >= to {
        to
    } else if is_space(s[from]) {
        after_spaces(s, from + 1, to)
    } else {
        from
    }
}

/// The index behind the last character in `s` from `from` up to `to` that is
/// not white space, or `from` where all are.
pub open spec fn before_spaces(s: Seq<char>, from: int, to: int) -> int
    decreases to - from,
{
    if from >= to {
        from
    } else if is_space(s[to - 1]) {
        before_spaces(s, from, to - 1)
    } else {
        to
    }
}

/// The second line of a text without the white space around it. It is empty
/// where the text has no second line.
pub open spec fn second_line_trimmed(s: Seq<char>) -> Seq<char> {
    let first_end = next_index(s, '\n', 0);
    if first_end >= s.len() {
        Seq::empty()
    } else {
        let end = next_index(s, '\n', first_end + 1);
        let start = after_spaces(s, first_end + 1, end);
        s.subrange(start, before_spaces(s, start, end))
    }
}

/// The number that a sequence of decimal digits writes, if all are digits.
pub open spec fn digits_value(s: Seq<char>) -> Option<nat>
    decreases s.len(),
{
    if s.len() == 0 {
        Some(0)
    } else {
        match (digits_value(s.drop_last()), digit_value(s.last())) {
            (Some(head), Some(d)) => Some(10 * head + d),
            _ => None,
        }
    }
}

/// The number that a text writes: decimal digits, at least one, with or
/// without a `+` before them, and no more than 64 bits hold.
pub open spec fn unsigned_value(s: Seq<char>) -> Option<u64> {
    let digits = if s.len() > 0 && s[0] == '+' {
        s.drop_first()
    } else {
        s
    };
    if digits.len() == 0 {
        None
    } else {
        match digits_value(digits) {
            Some(n) => if n <= u64::MAX {
                Some(n as u64)
            } else {
                None
            },
            None => None,
        }
    }
}

/// The working set, in whole megabytes, that the output of the process query
/// reports: the number on its second line, and 0 where there is none.
pub open spec fn memory_megabytes(output: Seq<char>) -> nat {
    match unsigned_value(second_line_trimmed(output)) {
        Some(bytes) => (bytes / 1024 / 1024) as nat,
        None => 0,
    }
}

/// The first `c` at or after `from` is at `i` where no `c` stands before `i`
/// and one stands at `i`, or `i` is the end.
pub proof fn lemma_next_index(s: Seq<char>, c: char, from: int, i: int)
    requires
        0 <= from <= i <= s.len(),
        forall|j: int| from <= j < i ==> s[j] != c,
        i == s.len() || s[i] == c,
    ensures
        next_index(s, c, from) == i,
    decreases i - from,
{
    if from < i {
        lemma_next_index(s, c, from + 1, i);
    }
}

/// White space from `from` up to `i`, and none at `i` or `i` is the end.
pub proof fn lemma_after_spaces(s: Seq<char>, from: int, to: int, i: int)
    requires
        0 <= from <= i <= to <= s.len(),
        forall|j: int| from <= j < i ==> is_space(s[j]),
        i == to || !is_space(s[i]),
    ensures
        after_spaces(s, from, to) == i,
    decreases i - from,
{
    if from < i {
        lemma_after_spaces(s, from + 1, to, i);
    }
}

/// White space from `i` up to `to`, and none before `i` or `i` is the start.
pub proof fn lemma_before_spaces(s: Seq<char>, from: int, to: int, i: int)
    requires
        0 <= from <= i <= to <= s.len(),
        forall|j: int| i <= j < to ==> is_space(s[j]),
        i == from || !is_space(s[i - 1]),
    ensures
        before_spaces(s, from, to) == i,
    decreases to - i,
{
    if i < to {
        lemma_before_spaces(s, from, to - 1, i);
    }
}

/// A sequence of digits has digits at every start, and what a start writes is
/// no more than what the whole writes.
pub proof fn lemma_digits_prefix(s: Seq<char>, n: int)
    requires
        0 <= n <= s.len(),
        digits_value(s) is Some,
    ensures
        digits_value(s.take(n)) is Some,
        digits_value(s.take(n))->0 <= digits_value(s)->0,
    decreases s.len(),
{
    if n == s.len() {
        assert(s.take(n) =~= s);
    } else {
        lemma_digits_prefix(s.drop_last(), n);
        assert(s.drop_last().take(n) =~= s.take(n));
    }
}

/// Tells whether a character is white space.
fn is_space_char(c: char) -> (r: bool)
    ensures
        r == is_space(c),
{
    c == '\u{9}' || c == '\u{A}' || c == '\u{B}' || c == '\u{C}' || c == '\u{D}' || c == ' ' || c
        == '\u{85}' || c == '\u{A0}' || c == '\u{1680}' || c == '\u{2000}' || c == '\u{2001}' || c
        == '\u{2002}' || c == '\u{2003}' || c == '\u{2004}' || c == '\u{2005}' || c == '\u{2006}'
        || c == '\u{2007}' || c == '\u{2008}' || c == '\u{2009}' || c == '\u{200A}' || c
        == '\u{2028}' || c == '\u{2029}' || c == '\u{202F}' || c == '\u{205F}' || c == '\u{3000}'
}

/// The value of a decimal digit.
fn digit_of(c: char) -> (r: Option<u64>)
    ensures
        match r {
            Some(d) => d < 10 && digit_value(c) == Some(d as nat),
            None => digit_value(c) is None,
        },
{
    if c == '0' {
        Some(0)
    } else if c == '1' {
        Some(1)
    } else if c == '2' {
        Some(2)
    } else if c == '3' {
        Some(3)
    } else if c == '4' {
        Some(4)
    } else if c == '5' {
        Some(5)
    } else if c == '6' {
        Some(6)
    } else if c == '7' {
        Some(7)
    } else if c == '8' {
        Some(8)
    } else if c == '9' {
        Some(9)
    } else {
        None
    }
}

/// Finds the first `c` at or after `from`.
fn find_next(s: &str, len: usize, c: char, from: usize) -> (i: usize)
    requires
        len == s@.len(),
        from <= len,
    ensures
        i == next_index(s@, c, from as int),
        from <= i <= len,
{
    let mut i: usize = from;
    while i < len && s.get_char(i) != c
        invariant
            from <= i <= len,
            len == s@.len(),
            forall|j: int| from <= j < i ==> s@[j] != c,
        decreases len - i,
    {
        i += 1;
    }
    proof {
        lemma_next_index(s@, c, from as int, i as int);
    }
    i
}

/// Reads the number that the characters of `s` from `from` up to `to` write.
fn read_unsigned(s: &str, from: usize, to: usize) -> (r: Option<u64>)
    requires
        from <= to <= s@.len(),
    ensures
        r == unsigned_value(s@.subrange(from as int, to as int)),
{
    let ghost field = s@.subrange(from as int, to as int);
    let mut k: usize = from;
    if k < to && s.get_char(k) == '+' {
        k += 1;
    }
    let first: usize = k;
    let ghost digits = s@.subrange(first as int, to as int);
    assert(digits =~= if field.len() > 0 && field[0] == '+' {
        field.drop_first()
    } else {
        field
    });
    if first == to {
        return None;
    }
    let mut value: u64 = 0;
    assert(digits.take(0) =~= Seq::<char>::empty());
    while k < to
        invariant
            from <= first <= k <= to <= s@.len(),
            first < to,
            field == s@.subrange(from as int, to as int),
            digits == s@.subrange(first as int, to as int),
            digits == if field.len() > 0 && field[0] == '+' {
                field.drop_first()
            } else {
                field
            },
            digits_value(digits.take(k - first)) == Some(value as nat),
        decreases to - k,
    {
        let ghost upto = digits.take(k - first + 1);
        proof {
            assert(upto.drop_last() =~= digits.take(k - first));
            assert(upto.last() == s@[k as int]);
            if digits_value(digits) is Some {
                lemma_digits_prefix(digits, k - first + 1);
            }
        }
        let d: u64 = match digit_of(s.get_char(k)) {
            Some(d) => d,
            None => {
                return None;
            },
        };
        if value > (u64::MAX - d) / 10 {
            return None;
        }
        value = value * 10 + d;
        k += 1;
    }
    assert(digits.take(k - first) =~= digits);
    Some(value)
}

/// Reads the kernel's working set out of the output of the process query and
/// writes it in whole megabytes. The figure stands on the second line; where
/// that line is missing or holds no number that 64 bits hold, the result is 0.
pub fn get_memory_usage(output: &str) -> (text: String)
    ensures
        text@ == decimal(memory_megabytes(output@)),
{
    let len: usize = output.unicode_len();
    let first_end: usize = find_next(output, len, '\n', 0);
    if first_end >= len {
        assert(unsigned_value(Seq::<char>::empty()) is None);
        return decimal_text(0);
    }
    let end: usize = find_next(output, len, '\n', first_end + 1);
    let mut start: usize = first_end + 1;
    while start < end && is_space_char(output.get_char(start))
        invariant
            first_end + 1 <= start <= end <= len,
            len == output@.len(),
            forall|j: int| first_end + 1 <= j < start ==> is_space(output@[j]),
        decreases end - start,
    {
        start += 1;
    }
    let mut stop: usize = end;
    while stop > start && is_space_char(output.get_char(stop - 1))
        invariant
            start <= stop <= end <= len,
            len == output@.len(),
            forall|j: int| stop <= j < end ==> is_space(output@[j]),
        decreases stop - start,
    {
        stop -= 1;
    }
    proof {
        lemma_after_spaces(output@, first_end + 1, end as int, start as int);
        lemma_before_spaces(output@, start as int, end as int, stop as int);
    }
    let bytes: u64 = match read_unsigned(output, start, stop) {
        Some(bytes) => bytes,
        None => 0,
    };
    decimal_text(bytes / 1024 / 1024)
}

} // verus!
