//! Decimal and hexadecimal rendering of integers.

use vstd::prelude::*;
use crate::chars::push_char;

verus! {

/// The sixteen digits, upper case.
pub open spec fn digit_chars() -> Seq<char> {
    seq!['0', '1', '2', '3', '4', '5', '6', '7', '8', '9', 'A', 'B', 'C', 'D', 'E', 'F']
}

pub open spec fn digit_char(v: int) -> char {
    digit_chars()[v]
}

pub fn digit_of(v: u8) -> (c: char)
    requires
        v < 16,
    ensures
        c == digit_char(v as int),
{
    let t = ['0', '1', '2', '3', '4', '5', '6', '7', '8', '9', 'A', 'B', 'C', 'D', 'E', 'F'];
    proof {
        assert(t@ == digit_chars());
    }
    t[v as usize]
}

/// Decimal digits of `n`, without leading zeros.
pub open spec fn dec_str(n: nat) -> Seq<char>
    decreases n,
{
    if n < 10 {
        seq![digit_char(n as int)]
    } else {
        dec_str(n / 10).push(digit_char((n % 10) as int))
    }
}

/// Two upper-case hex digits of a byte.
pub open spec fn hex2(v: int) -> Seq<char> {
    seq![digit_char(v / 16), digit_char(v % 16)]
}

/// `v` millionths rounded half up to hundredths, with two decimals.
pub open spec fn fixed2(v: int) -> Seq<char> {
    let c = (2 * v + 10_000) / 20_000;
    dec_str((c / 100) as nat) + seq!['.', digit_char((c / 10) % 10), digit_char(c % 10)]
}

pub fn push_dec(s: &mut String, n: u64)
    ensures
        final(s)@ == old(s)@ + dec_str(n as nat),
    decreases n,
{
    if n >= 10 {
        push_dec(s, n / 10);
    }
    push_char(s, digit_of((n % 10) as u8));
    proof {
        if n < 10 {
            assert(final(s)@ =~= old(s)@ + dec_str(n as nat));
        } else {
            assert(final(s)@ =~= old(s)@ + dec_str(n as nat));
        }
    }
}

pub fn push_hex2(s: &mut String, v: u8)
    ensures
        final(s)@ == old(s)@ + hex2(v as int),
{
    push_char(s, digit_of(v / 16));
    push_char(s, digit_of(v % 16));
    assert(final(s)@ =~= old(s)@ + hex2(v as int));
}

pub fn push_fixed2(s: &mut String, v: u32)
    ensures
        final(s)@ == old(s)@ + fixed2(v as int),
{
    let c: u64 = (2 * (v as u64) + 10_000) / 20_000;
    push_dec(s, c / 100);
    let ghost mid = s@;
    push_char(s, '.');
    push_char(s, digit_of(((c / 10) % 10) as u8));
    push_char(s, digit_of((c % 10) as u8));
    assert(final(s)@ =~= old(s)@ + fixed2(v as int));
}

} // verus!
