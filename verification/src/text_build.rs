//! Building texts out of literals and numbers.
use vstd::prelude::*;
use vstd::string::*;

use crate::sorted_map::{compare_text, Order};

verus! {

/// The character of one decimal digit.
pub open spec fn digit_char(d: nat) -> char {
    (48 + d) as char
}

/// The decimal writing of a natural number, without leading zeros.
pub open spec fn decimal_nat(n: nat) -> Seq<char>
    decreases n,
{
    if n < 10 {
        seq![digit_char(n)]
    } else {
        decimal_nat(n / 10).push(digit_char(n % 10))
    }
}

/// The decimal writing of an integer, with a minus sign where it is negative.
pub open spec fn decimal(n: int) -> Seq<char> {
    if n < 0 {
        seq!['-'] + decimal_nat((-n) as nat)
    } else {
        decimal_nat(n as nat)
    }
}

/// The text of one decimal digit.
fn digit_text(d: u128) -> (s: &'static str)
    requires
        d < 10,
    ensures
        s@ == seq![digit_char(d as nat)],
{
    proof {
        reveal_strlit("0");
        reveal_strlit("1");
        reveal_strlit("2");
        reveal_strlit("3");
        reveal_strlit("4");
        reveal_strlit("5");
        reveal_strlit("6");
        reveal_strlit("7");
        reveal_strlit("8");
        reveal_strlit("9");
    }
    match d {
        0 => "0",
        1 => "1",
        2 => "2",
        3 => "3",
        4 => "4",
        5 => "5",
        6 => "6",
        7 => "7",
        8 => "8",
        _ => "9",
    }
}

/// Appends the decimal writing of `n`.
pub fn append_nat(s: &mut String, n: u128)
    ensures
        final(s)@ == old(s)@ + decimal_nat(n as nat),
    decreases n,
{
    if n >= 10 {
        append_nat(s, n / 10);
    }
    s.append(digit_text(n % 10));
}

/// Appends the decimal writing of `n`, with its sign where it is negative.
pub fn append_int(s: &mut String, n: i128)
    ensures
        final(s)@ == old(s)@ + decimal(n as int),
{
    if n < 0 {
        proof {
            reveal_strlit("-");
        }
        s.append("-");
        let magnitude: u128 = (-(n + 1)) as u128 + 1;
        append_nat(s, magnitude);
    } else {
        append_nat(s, n as u128);
    }
}

/// The character of one hexadecimal digit, in lower case.
pub open spec fn hex_char(d: nat) -> char {
    if d < 10 {
        (48 + d) as char
    } else {
        (87 + d) as char
    }
}

/// The hexadecimal writing of a natural number, in lower case and without
/// leading zeros.
pub open spec fn hex_nat(n: nat) -> Seq<char>
    decreases n,
{
    if n < 16 {
        seq![hex_char(n)]
    } else {
        hex_nat(n / 16).push(hex_char(n % 16))
    }
}

/// The hexadecimal writing of a number in two's complement, with two digits at
/// least.
pub open spec fn hex(n: i32) -> Seq<char> {
    let v = (n as u32) as nat;
    if v < 16 {
        seq!['0'] + hex_nat(v)
    } else {
        hex_nat(v)
    }
}

fn hex_digit(d: u32) -> (c: char)
    requires
        d < 16,
    ensures
        c == hex_char(d as nat),
{
    if d < 10 {
        (48 + d as u8) as char
    } else {
        (87 + d as u8) as char
    }
}

fn append_hex_nat(s: &mut String, n: u32)
    ensures
        final(s)@ == old(s)@ + hex_nat(n as nat),
    decreases n,
{
    if n >= 16 {
        append_hex_nat(s, n / 16);
    }
    push_char(s, hex_digit(n % 16));
    assert(s@ =~= old(s)@ + hex_nat(n as nat));
}

/// Appends the hexadecimal writing of a number, with two digits at least.
pub fn append_hex(s: &mut String, n: i32)
    ensures
        final(s)@ == old(s)@ + hex(n),
{
    let v: u32 = n as u32;
    if v < 16 {
        push_char(s, '0');
    }
    append_hex_nat(s, v);
    assert(s@ =~= old(s)@ + hex(n));
}

/// What the standard library's `{:?}` writes of a text: the text in quotation
/// marks, with what cannot be shown escaped.
pub uninterp spec fn debug_text(s: Seq<char>) -> Seq<char>;

/// `format!` with `{:?}` of a text writes what [`debug_text`] names.
#[verifier::external_body]
pub(crate) fn quoted(s: &str) -> (t: String)
    ensures
        t@ == debug_text(s@),
{
    format!("{:?}", s)
}

/// A text with one number in it.
pub fn text_with(prefix: &str, n: i128, suffix: &str) -> (s: String)
    ensures
        s@ == prefix@ + decimal(n as int) + suffix@,
{
    let mut s: String = prefix.to_owned();
    append_int(&mut s, n);
    s.append(suffix);
    s
}

/// A text with two numbers in it.
pub fn text_with_two(prefix: &str, n: i128, middle: &str, m: i128, suffix: &str) -> (s: String)
    ensures
        s@ == prefix@ + decimal(n as int) + middle@ + decimal(m as int) + suffix@,
{
    let mut s: String = text_with(prefix, n, middle);
    append_int(&mut s, m);
    s.append(suffix);
    s
}

/// A text around another text.
pub fn text_around(prefix: &str, middle: &str, suffix: &str) -> (s: String)
    ensures
        s@ == prefix@ + middle@ + suffix@,
{
    let mut s: String = prefix.to_owned();
    s.append(middle);
    s.append(suffix);
    s
}

/// `String::push` appends one character.
#[verifier::external_body]
pub(crate) fn push_char(s: &mut String, c: char)
    ensures
        final(s)@ == old(s)@.push(c),
{
    s.push(c);
}

/// Whether two texts are the same.
pub fn same_text(a: &str, b: &str) -> (r: bool)
    ensures
        r == (a@ == b@),
{
    proof {
        <String as crate::sorted_map::MapKey>::irreflexive(a@);
    }
    compare_text(a, b) == Order::Equal
}

} // verus!
