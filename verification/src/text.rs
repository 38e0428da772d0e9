//! Text helpers shared by the disassembler, the lexer and the assembler:
//! conversions between strings and character sequences, and the printing of
//! numbers in a given base.
use vstd::prelude::*;
use vstd::string::*;

verus! {

/// `String::push` of the standard library: the string afterwards is the string
/// before with the character appended at its end.
pub assume_specification[ std::string::String::push ](s: &mut std::string::String, c: char)
    ensures
        final(s)@ == old(s)@.push(c),
;

/// The character that stands for a digit value below sixteen, letters in upper case.
pub open spec fn digit_char(d: int) -> char {
    if d == 0 { '0' } else if d == 1 { '1' } else if d == 2 { '2' } else if d == 3 { '3' }
    else if d == 4 { '4' } else if d == 5 { '5' } else if d == 6 { '6' } else if d == 7 { '7' }
    else if d == 8 { '8' } else if d == 9 { '9' } else if d == 10 { 'A' } else if d == 11 { 'B' }
    else if d == 12 { 'C' } else if d == 13 { 'D' } else if d == 14 { 'E' } else { 'F' }
}

/// The hexadecimal digits of `n`, most significant first; empty for zero.
pub open spec fn hex_digits(n: nat) -> Seq<char>
    decreases n,
{
    if n == 0 {
        Seq::empty()
    } else {
        hex_digits(n / 16).push(digit_char((n % 16) as int))
    }
}

/// The decimal digits of `n`, most significant first; empty for zero.
pub open spec fn decimal_digits(n: nat) -> Seq<char>
    decreases n,
{
    if n == 0 {
        Seq::empty()
    } else {
        decimal_digits(n / 10).push(digit_char((n % 10) as int))
    }
}

/// `n` written in hexadecimal with upper-case letters, `0` for zero.
pub open spec fn hex_text(n: nat) -> Seq<char> {
    if n == 0 { seq!['0'] } else { hex_digits(n) }
}

/// `n` written in decimal, `0` for zero.
pub open spec fn decimal_text(n: nat) -> Seq<char> {
    if n == 0 { seq!['0'] } else { decimal_digits(n) }
}

fn digit_of(d: u16) -> (c: char)
    requires
        d < 16,
    ensures
        c == digit_char(d as int),
{
    if d == 0 { '0' } else if d == 1 { '1' } else if d == 2 { '2' } else if d == 3 { '3' }
    else if d == 4 { '4' } else if d == 5 { '5' } else if d == 6 { '6' } else if d == 7 { '7' }
    else if d == 8 { '8' } else if d == 9 { '9' } else if d == 10 { 'A' } else if d == 11 { 'B' }
    else if d == 12 { 'C' } else if d == 13 { 'D' } else if d == 14 { 'E' } else { 'F' }
}

pub fn push_hex_digits(out: &mut String, value: u16)
    ensures
        final(out)@ == old(out)@ + hex_digits(value as nat),
    decreases value,
{
    if value > 0 {
        push_hex_digits(out, value / 16);
        out.push(digit_of(value % 16));
    }
}

fn push_decimal_digits(out: &mut String, value: u16)
    ensures
        final(out)@ == old(out)@ + decimal_digits(value as nat),
    decreases value,
{
    if value > 0 {
        push_decimal_digits(out, value / 10);
        out.push(digit_of(value % 10));
    }
}

/// Appends `value` in hexadecimal to `out`.
pub fn push_hex(out: &mut String, value: u16)
    ensures
        final(out)@ == old(out)@ + hex_text(value as nat),
{
    if value == 0 {
        out.push('0');
    } else {
        push_hex_digits(out, value);
    }
}

/// Appends `value` in decimal to `out`.
pub fn push_decimal(out: &mut String, value: u16)
    ensures
        final(out)@ == old(out)@ + decimal_text(value as nat),
{
    if value == 0 {
        out.push('0');
    } else {
        push_decimal_digits(out, value);
    }
}

fn push_wide_digits(out: &mut String, value: usize)
    ensures
        final(out)@ == old(out)@ + decimal_digits(value as nat),
    decreases value,
{
    if value > 0 {
        push_wide_digits(out, value / 10);
        out.push(digit_of((value % 10) as u16));
    }
}

/// Appends a count in decimal to `out`.
pub fn push_count(out: &mut String, value: usize)
    ensures
        final(out)@ == old(out)@ + decimal_text(value as nat),
{
    if value == 0 {
        out.push('0');
    } else {
        push_wide_digits(out, value);
    }
}

/// The characters of a string slice, in order.
pub fn chars_of(s: &str) -> (out: Vec<char>)
    ensures
        out@ == s@,
{
    let n: usize = s.unicode_len();
    let mut out: Vec<char> = Vec::new();
    let mut i: usize = 0;
    while i < n
        invariant
            n == s@.len(),
            i <= n,
            out@ == s@.subrange(0, i as int),
        decreases n - i,
    {
        out.push(s.get_char(i));
        i += 1;
    }
    out
}

/// The string made of the given characters, in order.
pub fn string_of(chars: &Vec<char>) -> (out: String)
    ensures
        out@ == chars@,
{
    let mut out = String::new();
    let mut i: usize = 0;
    while i < chars.len()
        invariant
            i <= chars.len(),
            out@ == chars@.subrange(0, i as int),
        decreases chars.len() - i,
    {
        out.push(chars[i]);
        i += 1;
    }
    out
}

} // verus!

verus! {

/// The value of a hexadecimal digit in either case, or -1 for any other character.
pub open spec fn hex_digit_value(c: char) -> int {
    if 48 <= c as u32 <= 57 {
        c as u32 - 48
    } else if 65 <= c as u32 <= 70 {
        c as u32 - 55
    } else if 97 <= c as u32 <= 102 {
        c as u32 - 87
    } else {
        -1
    }
}

/// The number that a hexadecimal literal stands for, reduced to sixteen
/// bits. Characters that are no hexadecimal digits, such as the `x` of a
/// prefix, count for nothing.
pub open spec fn hex_value(s: Seq<char>) -> int
    decreases s.len(),
{
    if s.len() == 0 {
        0
    } else {
        let before = hex_value(s.drop_last());
        let d = hex_digit_value(s.last());
        if d < 0 { before } else { (before * 16 + d) % 0x10000 }
    }
}

/// Reads a hexadecimal literal from characters.
pub fn hex_of_chars(chars: &Vec<char>) -> (out: u16)
    ensures
        out == hex_value(chars@),
{
    let mut acc: u16 = 0;
    let mut i: usize = 0;
    while i < chars.len()
        invariant
            i <= chars.len(),
            acc == hex_value(chars@.subrange(0, i as int)),
        decreases chars.len() - i,
    {
        let c: u32 = chars[i] as u32;
        proof {
            assert(chars@.subrange(0, i + 1).drop_last() =~= chars@.subrange(0, i as int));
        }
        let d: u32 = if 48 <= c && c <= 57 {
            c - 48
        } else if 65 <= c && c <= 70 {
            c - 55
        } else if 97 <= c && c <= 102 {
            c - 87
        } else {
            16
        };
        if d < 16 {
            acc = ((acc as u32 * 16 + d) % 0x10000) as u16;
        }
        i += 1;
    }
    assert(chars@.subrange(0, i as int) =~= chars@);
    acc
}

/// Reads a hexadecimal literal.
pub fn from_hex(init: &str) -> (out: u16)
    ensures
        out == hex_value(init@),
{
    let chars = chars_of(init);
    hex_of_chars(&chars)
}

/// The upper-case form of an ASCII letter; any other character is itself.
pub open spec fn upper(c: char) -> char {
    if 97 <= c as u32 <= 122 { ((c as u32 - 32) as u8) as char } else { c }
}

/// A text with its ASCII letters in upper case.
pub open spec fn upper_text(s: Seq<char>) -> Seq<char> {
    Seq::new(s.len(), |i: int| upper(s[i]))
}

/// Whether two texts are the same up to the case of ASCII letters.
pub open spec fn same_word(a: Seq<char>, b: Seq<char>) -> bool {
    upper_text(a) == upper_text(b)
}

fn upper_of(c: char) -> (out: char)
    ensures
        out == upper(c),
{
    let v: u32 = c as u32;
    if 97 <= v && v <= 122 {
        ((v - 32) as u8) as char
    } else {
        c
    }
}

/// Whether `a` and `b` are the same up to the case of ASCII letters.
pub fn same_chars(a: &Vec<char>, b: &str) -> (out: bool)
    ensures
        out == same_word(a@, b@),
{
    let n: usize = b.unicode_len();
    if a.len() != n {
        assert(upper_text(a@).len() != upper_text(b@).len());
        return false;
    }
    let mut i: usize = 0;
    while i < n
        invariant
            i <= n,
            n == a@.len(),
            n == b@.len(),
            forall|j: int| 0 <= j < i ==> upper(a@[j]) == upper(b@[j]),
        decreases n - i,
    {
        if upper_of(a[i]) != upper_of(b.get_char(i)) {
            assert(upper_text(a@)[i as int] != upper_text(b@)[i as int]);
            return false;
        }
        i += 1;
    }
    assert(upper_text(a@) =~= upper_text(b@));
    true
}

/// Whether `a` and `b` hold the same characters.
pub fn equal_chars(a: &Vec<char>, b: &str) -> (out: bool)
    ensures
        out == (a@ == b@),
{
    let n: usize = b.unicode_len();
    if a.len() != n {
        return false;
    }
    let mut i: usize = 0;
    while i < n
        invariant
            i <= n,
            n == a@.len(),
            n == b@.len(),
            forall|j: int| 0 <= j < i ==> a@[j] == b@[j],
        decreases n - i,
    {
        if a[i] != b.get_char(i) {
            return false;
        }
        i += 1;
    }
    assert(a@ =~= b@);
    true
}

} // verus!
