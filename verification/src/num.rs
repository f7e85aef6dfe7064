//! Decimal numbers in text: parsing (`str::parse` for unsigned integers),
//! formatting (`to_string`), UTF-8 byte lengths and padding.
use vstd::prelude::*;

use crate::text::{is_ascii_digit, is_digit};

verus! {

pub open spec fn digit_of(c: char) -> nat {
    ((c as u32) - ('0' as u32)) as nat
}

/// The value of a sequence of decimal digits.
pub open spec fn digits_value(s: Seq<char>) -> nat
    decreases s.len(),
{
    if s.len() == 0 {
        0
    } else {
        digits_value(s.drop_last()) * 10 + digit_of(s.last())
    }
}

pub open spec fn all_digits(s: Seq<char>) -> bool {
    forall|i: int| 0 <= i < s.len() ==> is_digit(#[trigger] s[i])
}

/// `str::parse` of an unsigned integer type whose largest value is `max`:
/// an optional `+`, then at least one decimal digit and nothing else, with a
/// value that fits.
pub open spec fn parse_uint(s: Seq<char>, max: nat) -> Option<nat> {
    let d = if s.len() > 0 && s[0] == '+' {
        s.drop_first()
    } else {
        s
    };
    if d.len() == 0 || !all_digits(d) {
        None
    } else if digits_value(d) <= max {
        Some(digits_value(d))
    } else {
        None
    }
}

pub open spec fn parse_u16(s: Seq<char>) -> Option<u16> {
    match parse_uint(s, 0xffff) {
        Some(v) => Some(v as u16),
        None => None,
    }
}

pub open spec fn parse_u32(s: Seq<char>) -> Option<u32> {
    match parse_uint(s, 0xffff_ffff) {
        Some(v) => Some(v as u32),
        None => None,
    }
}

pub open spec fn parse_u64(s: Seq<char>) -> Option<u64> {
    match parse_uint(s, 0xffff_ffff_ffff_ffff) {
        Some(v) => Some(v as u64),
        None => None,
    }
}

pub open spec fn parse_usize(s: Seq<char>) -> Option<usize> {
    match parse_uint(s, usize::MAX as nat) {
        Some(v) => Some(v as usize),
        None => None,
    }
}

pub open spec fn digit_char(d: nat) -> char {
    ((d + 48) as u32) as char
}

/// The decimal representation of `n` (`to_string` of an unsigned integer).
pub open spec fn decimal(n: nat) -> Seq<char>
    decreases n,
{
    if n < 10 {
        seq![digit_char(n)]
    } else {
        decimal(n / 10).push(digit_char(n % 10))
    }
}

/// `s` padded with `fill` on the right up to `width` characters
/// (`format!("{:<width$}", s)` with `fill` as the fill character).
pub open spec fn pad_right(s: Seq<char>, width: nat, fill: char) -> Seq<char> {
    if s.len() >= width {
        s
    } else {
        s + Seq::new((width - s.len()) as nat, |i: int| fill)
    }
}

/// Number of bytes of the UTF-8 encoding.
pub open spec fn byte_len(s: Seq<char>) -> nat {
    vstd::utf8::encode_utf8(s).len()
}

/// What `str::len` returns for a string with characters `s`.
pub open spec fn str_len(s: Seq<char>) -> usize {
    byte_len(s) as usize
}

pub proof fn lemma_digits_value_monotone(s: Seq<char>, c: char)
    requires
        is_digit(c),
    ensures
        digits_value(s.push(c)) >= digits_value(s),
        digits_value(s.push(c)) == digits_value(s) * 10 + digit_of(c),
{
    assert(s.push(c).drop_last() =~= s);
}

/// The decimal representation is made of digits and spells the number.
pub proof fn lemma_decimal_digits(n: nat)
    ensures
        decimal(n).len() > 0,
        all_digits(decimal(n)),
        digits_value(decimal(n)) == n,
        decimal(n)[0] != '+',
    decreases n,
{
    if n >= 10 {
        lemma_decimal_digits(n / 10);
        let d = decimal(n / 10);
        let c = digit_char(n % 10);
        assert(decimal(n) == d.push(c));
        assert(d.push(c).drop_last() =~= d);
        assert forall|i: int| 0 <= i < d.push(c).len() implies is_digit(#[trigger] d.push(c)[i]) by {
            if i < d.len() {
                assert(d.push(c)[i] == d[i]);
            }
        }
        assert(digit_of(c) == n % 10);
    } else {
        assert(digits_value(decimal(n).drop_last()) == 0) by {
            assert(decimal(n).drop_last() =~= Seq::<char>::empty());
        }
    }
}

/// Parsing what `to_string` printed gives the number back: for every value
/// that fits, `parse_uint` of its decimal representation is that value.
pub proof fn lemma_parse_decimal(n: nat, max: nat)
    requires
        n <= max,
    ensures
        parse_uint(decimal(n), max) == Some(n),
{
    lemma_decimal_digits(n);
}

/// A port printed in decimal parses back to the same port.
pub proof fn lemma_port_round_trip(p: u16)
    ensures
        parse_u16(decimal(p as nat)) == Some(p),
{
    lemma_parse_decimal(p as nat, 0xffff);
}

/// Parses the digits of `s` (after an optional `+`) as an unsigned integer
/// no larger than `max`.
pub fn parse_uint_chars(s: &Vec<char>, max: u64) -> (r: Option<u64>)
    ensures
        match r {
            Some(v) => parse_uint(s@, max as nat) == Some(v as nat),
            None => parse_uint(s@, max as nat) is None,
        },
{
    let n = s.len();
    let start: usize = if n > 0 && s[0] == '+' {
        1
    } else {
        0
    };
    let ghost d = if s@.len() > 0 && s@[0] == '+' {
        s@.drop_first()
    } else {
        s@
    };
    assert(d =~= s@.skip(start as int));
    if start >= n {
        return None;
    }
    let mut acc: u128 = 0;
    let mut over = false;
    let mut i = start;
    assert(d.take(0) =~= Seq::<char>::empty());
    while i < n
        invariant
            n == s@.len(),
            start <= i <= n,
            d == s@.skip(start as int),
            d == (if s@.len() > 0 && s@[0] == '+' {
                s@.drop_first()
            } else {
                s@
            }),
            all_digits(d.take(i - start)),
            over ==> digits_value(d.take(i - start)) > max,
            !over ==> acc == digits_value(d.take(i - start)) && acc <= max,
        decreases n - i,
    {
        let c = s[i];
        if !is_ascii_digit(c) {
            assert(d[i - start] == c);
            assert(!is_digit(d[i - start]));
            return None;
        }
        let ghost pre = d.take(i - start);
        assert(d.take(i + 1 - start) =~= pre.push(c));
        proof {
            lemma_digits_value_monotone(pre, c);
        }
        if !over {
            let dv: u128 = ((c as u32) - ('0' as u32)) as u128;
            acc = acc * 10 + dv;
            if acc > max as u128 {
                over = true;
            }
        }
        i = i + 1;
    }
    assert(d.take(n - start) =~= d);
    if over {
        None
    } else {
        Some(acc as u64)
    }
}

pub fn parse_u16_chars(s: &Vec<char>) -> (r: Option<u16>)
    ensures
        r == parse_u16(s@),
{
    match parse_uint_chars(s, 0xffff) {
        Some(v) => Some(v as u16),
        None => None,
    }
}

pub fn parse_u32_chars(s: &Vec<char>) -> (r: Option<u32>)
    ensures
        r == parse_u32(s@),
{
    match parse_uint_chars(s, 0xffff_ffff) {
        Some(v) => Some(v as u32),
        None => None,
    }
}

pub fn parse_u64_chars(s: &Vec<char>) -> (r: Option<u64>)
    ensures
        r == parse_u64(s@),
{
    parse_uint_chars(s, 0xffff_ffff_ffff_ffff)
}

pub fn parse_usize_chars(s: &Vec<char>) -> (r: Option<usize>)
    ensures
        r == parse_usize(s@),
{
    match parse_uint_chars(s, usize::MAX as u64) {
        Some(v) => Some(v as usize),
        None => None,
    }
}

/// `to_string` of an unsigned integer.
pub fn decimal_chars(n: u64) -> (r: Vec<char>)
    ensures
        r@ == decimal(n as nat),
    decreases n,
{
    let d: u8 = (n % 10) as u8;
    let c: char = (48u8 + d) as char;
    if n < 10 {
        let mut v: Vec<char> = Vec::new();
        v.push(c);
        assert(v@ =~= seq![digit_char(n as nat)]);
        v
    } else {
        let mut v = decimal_chars(n / 10);
        v.push(c);
        v
    }
}

/// `to_string` of an unsigned integer, as a `String`.
pub fn decimal_string(n: u64) -> (r: String)
    ensures
        r@ == decimal(n as nat),
{
    let v = decimal_chars(n);
    crate::text::string_of(&v)
}

/// `s` padded on the right with `fill` up to `width` characters.
pub fn pad_right_chars(s: &Vec<char>, width: usize, fill: char) -> (r: Vec<char>)
    ensures
        r@ == pad_right(s@, width as nat, fill),
{
    let mut r = s.clone();
    let n = s.len();
    if n >= width {
        return r;
    }
    let mut i = n;
    while i < width
        invariant
            n == s@.len(),
            n <= i <= width,
            r@ =~= s@ + Seq::new((i - n) as nat, |k: int| fill),
        decreases width - i,
    {
        r.push(fill);
        i = i + 1;
    }
    r
}

/// `str::len` of `s`: the number of bytes of its UTF-8 encoding.
pub fn byte_len_of(s: &String) -> (r: usize)
    ensures
        r == str_len(s@),
{
    s.as_str().len()
}

} // verus!
