//! Character-level helpers shared by the parsers and formatters.

use vstd::prelude::*;

verus! {

/// Whether `c` is one of the ASCII digits `0` to `9`.
pub open spec fn is_digit(c: char) -> bool {
    '0' <= c && c <= '9'
}

/// The numeric value of an ASCII digit.
pub open spec fn digit_value(c: char) -> int {
    c as int - '0' as int
}

/// The ASCII digit that stands for `d`, for `0 <= d <= 9`.
pub open spec fn digit_char(d: int) -> char {
    (d + 48) as char
}

/// Tests whether a character is an ASCII digit.
pub(crate) fn char_is_digit(c: char) -> (r: bool)
    ensures
        r == is_digit(c),
{
    '0' <= c && c <= '9'
}

/// Numeric value of an ASCII digit.
pub(crate) fn char_digit_value(c: char) -> (r: u32)
    requires
        is_digit(c),
    ensures
        r == digit_value(c),
        r <= 9,
{
    c as u32 - 48
}

/// The digit character for a value below ten.
pub(crate) fn char_of_digit(d: u32) -> (r: char)
    requires
        d <= 9,
    ensures
        r == digit_char(d as int),
        is_digit(r),
        digit_value(r) == d,
{
    let b: u8 = (d + 48) as u8;
    b as char
}

/// Collects the characters of a string slice.
pub fn chars_of(s: &str) -> (v: Vec<char>)
    ensures
        v@ == s@,
{
    let mut v: Vec<char> = Vec::new();
    for c in it: s.chars()
        invariant
            v@ == it.seq().take(it.index() as int),
            it.seq() == s@,
    {
        v.push(c);
    }
    v
}

/// `String::push` of the standard library.
///
/// Trusted: the character is appended to the end of the string.
#[verifier::external_body]
fn string_push(s: &mut String, c: char)
    ensures
        final(s)@ == old(s)@.push(c),
{
    s.push(c)
}

/// Builds a string from its characters.
pub fn string_of(chars: &Vec<char>) -> (s: String)
    ensures
        s@ == chars@,
{
    let mut s = String::new();
    let mut i: usize = 0;
    while i < chars.len()
        invariant
            i <= chars.len(),
            s@ == chars@.take(i as int),
        decreases chars.len() - i,
    {
        string_push(&mut s, chars[i]);
        i += 1;
    }
    s
}

/// Appends the characters of `s` to `out`.
pub(crate) fn push_str(out: &mut Vec<char>, s: &str)
    ensures
        final(out)@ == old(out)@ + s@,
{
    for c in it: s.chars()
        invariant
            out@ == old(out)@ + it.seq().take(it.index() as int),
            it.seq() == s@,
    {
        out.push(c);
    }
}

/// Appends `src[from..to]` to `out`.
pub(crate) fn push_range(out: &mut Vec<char>, src: &Vec<char>, from: usize, to: usize)
    requires
        from <= to <= src.len(),
    ensures
        final(out)@ == old(out)@ + src@.subrange(from as int, to as int),
{
    let mut i: usize = from;
    while i < to
        invariant
            from <= i <= to <= src.len(),
            out@ == old(out)@ + src@.subrange(from as int, i as int),
        decreases to - i,
    {
        out.push(src[i]);
        i += 1;
    }
}

/// The two decimal digits of a number below one hundred.
pub open spec fn two_digits(v: int) -> Seq<char> {
    seq![digit_char(v / 10), digit_char(v % 10)]
}

/// The four decimal digits of a number below ten thousand.
pub open spec fn four_digits(v: int) -> Seq<char> {
    two_digits(v / 100) + two_digits(v % 100)
}

/// The decimal digits of a number, without leading zeros.
pub open spec fn decimal_digits(n: nat) -> Seq<char>
    decreases n,
{
    if n < 10 {
        seq![digit_char(n as int)]
    } else {
        decimal_digits(n / 10).push(digit_char((n % 10) as int))
    }
}

/// Appends a number below one hundred as two digits.
pub(crate) fn push_two_digits(out: &mut Vec<char>, v: u32)
    requires
        v < 100,
    ensures
        final(out)@ == old(out)@ + two_digits(v as int),
{
    out.push(char_of_digit(v / 10));
    out.push(char_of_digit(v % 10));
}

/// Appends a number below ten thousand as four digits.
pub(crate) fn push_four_digits(out: &mut Vec<char>, v: u32)
    requires
        v < 10000,
    ensures
        final(out)@ == old(out)@ + four_digits(v as int),
{
    push_two_digits(out, v / 100);
    push_two_digits(out, v % 100);
}

/// Appends a number in decimal, without leading zeros.
pub(crate) fn push_decimal(out: &mut Vec<char>, n: u64)
    ensures
        final(out)@ == old(out)@ + decimal_digits(n as nat),
    decreases n,
{
    if n >= 10 {
        push_decimal(out, n / 10);
    }
    out.push(char_of_digit((n % 10) as u32));
}

/// The number that the two digits at `i` and `i + 1` of `s` spell.
pub open spec fn two_digit_value(s: Seq<char>, i: int) -> int {
    digit_value(s[i]) * 10 + digit_value(s[i + 1])
}

/// Whether every character of `s` from `from` up to `to` is a digit.
pub open spec fn all_digits(s: Seq<char>, from: int, to: int) -> bool {
    forall|i: int| from <= i < to ==> is_digit(#[trigger] s[i])
}

/// Reads the two digits at `i` and `i + 1`.
pub(crate) fn read_two_digits(s: &Vec<char>, i: usize) -> (r: u32)
    requires
        i + 1 < s.len(),
        is_digit(s[i as int]),
        is_digit(s[i + 1]),
    ensures
        r == two_digit_value(s@, i as int),
        r <= 99,
{
    char_digit_value(s[i]) * 10 + char_digit_value(s[i + 1])
}

/// Tests whether `s[from..to]` consists of digits only.
pub(crate) fn range_is_digits(s: &Vec<char>, from: usize, to: usize) -> (r: bool)
    requires
        from <= to <= s.len(),
    ensures
        r == all_digits(s@, from as int, to as int),
{
    let mut i: usize = from;
    while i < to
        invariant
            from <= i <= to <= s.len(),
            all_digits(s@, from as int, i as int),
        decreases to - i,
    {
        if !char_is_digit(s[i]) {
            return false;
        }
        i += 1;
    }
    true
}

} // verus!
