//! Printing of bytes, strings and numbers: what is printed is appended to a
//! buffer of bytes, which the caller writes to the terminal.

use vstd::prelude::*;
use vstd::string::StringSliceAdditionalSpecFns;

verus! {

/// The ASCII code of the digit 0.
pub const DIGIT_ZERO: u8 = 0x30;

/// The ASCII code of the minus sign.
pub const MINUS: u8 = 0x2d;

/// The digits of `n` in decimal notation, the most significant first; no
/// digit at all for 0.
pub open spec fn significant_digits(n: nat) -> Seq<u8>
    decreases n,
{
    if n == 0 {
        Seq::empty()
    } else {
        significant_digits(n / 10).push((DIGIT_ZERO + n % 10) as u8)
    }
}

/// `d` in decimal notation: a minus sign if it is negative, then the digits
/// of its magnitude, of which the last is written for 0 too.
pub open spec fn decimal_text(d: int) -> Seq<u8> {
    let magnitude = if d < 0 {
        (-d) as nat
    } else {
        d as nat
    };
    let sign = if d < 0 {
        seq![MINUS]
    } else {
        Seq::empty()
    };
    sign + significant_digits(magnitude / 10).push((DIGIT_ZERO + magnitude % 10) as u8)
}

/// The `count` lowest digits of `reversed`, the lowest first.
pub open spec fn lowest_digits_first(reversed: nat, count: nat) -> Seq<u8>
    decreases count,
{
    if count == 0 {
        Seq::empty()
    } else {
        seq![(DIGIT_ZERO + reversed % 10) as u8] + lowest_digits_first(
            reversed / 10,
            (count - 1) as nat,
        )
    }
}

/// Something that can be printed.
pub trait Printable {
    /// The bytes that printing the value gives.
    spec fn printed(&self) -> Seq<u8>;

    /// Prints the value: appends its bytes to `out`.
    fn print(&self, out: &mut Vec<u8>)
        ensures
            final(out)@ == old(out)@ + self.printed(),
    ;
}

impl Printable for &[u8] {
    /// The bytes themselves.
    open spec fn printed(&self) -> Seq<u8> {
        (*self)@
    }

    fn print(&self, out: &mut Vec<u8>) {
        put_string(*self, out);
    }
}

impl Printable for &str {
    /// The bytes of the string.
    open spec fn printed(&self) -> Seq<u8> {
        (*self).spec_bytes()
    }

    fn print(&self, out: &mut Vec<u8>) {
        put_string((*self).as_bytes(), out);
    }
}

impl Printable for i32 {
    /// The number in decimal notation.
    open spec fn printed(&self) -> Seq<u8> {
        decimal_text(*self as int)
    }

    fn print(&self, out: &mut Vec<u8>) {
        put_decimal(*self, out);
    }
}

impl Printable for u8 {
    /// The byte itself.
    open spec fn printed(&self) -> Seq<u8> {
        seq![*self]
    }

    fn print(&self, out: &mut Vec<u8>) {
        put_char(*self, out);
    }
}

/// Prints one byte.
pub fn put_char(byte: u8, out: &mut Vec<u8>)
    ensures
        final(out)@ == old(out)@.push(byte),
{
    out.push(byte);
}

/// Prints the bytes of `s`.
pub fn put_string(s: &[u8], out: &mut Vec<u8>)
    ensures
        final(out)@ == old(out)@ + s@,
{
    let mut index: usize = 0;
    while index < s.len()
        invariant
            index <= s@.len(),
            out@ == old(out)@ + s@.take(index as int),
        decreases s@.len() - index,
    {
        put_char(s[index], out);
        index = index + 1;
    }
}

/// Prints `d` in decimal notation.
///
/// The work is done on a wider number, in which the magnitude of every `d`
/// has room. The digits before the last are turned round into a number of their own,
/// whose digits are then printed from the lowest up.
pub fn put_decimal(d: i32, out: &mut Vec<u8>)
    ensures
        final(out)@ == old(out)@ + decimal_text(d as int),
{
    let mut d: i64 = d as i64;
    if d < 0 {
        put_char(MINUS, out);
        assert(d * -1 == -d) by (nonlinear_arith);
        d = d * -1;
    }
    let ghost magnitude: nat = d as nat;
    let ghost start = out@;
    let first_digit: i64 = d % 10;
    d = d / 10;

    let mut reversed_d: i64 = 0;
    let mut extra_digits: i64 = 0;
    let ghost mut scale: nat = 1;
    while d != 0
        invariant
            0 <= d,
            0 <= reversed_d < scale,
            0 <= extra_digits < scale,
            d * scale <= magnitude / 10 <= 214748364,
            significant_digits(magnitude / 10) == significant_digits(d as nat)
                + lowest_digits_first(reversed_d as nat, extra_digits as nat),
        decreases d,
    {
        assert(scale <= 214748364 && (d / 10) * (scale * 10) <= d * scale) by (nonlinear_arith)
            requires
                d >= 1,
                d * scale <= 214748364,
                scale >= 1,
        ;
        proof {
            scale = scale * 10;
        }
        extra_digits = extra_digits + 1;
        reversed_d = reversed_d * 10 + d % 10;
        d = d / 10;
    }
    while extra_digits != 0
        invariant
            0 <= extra_digits,
            0 <= reversed_d,
            start + significant_digits(magnitude / 10) == out@ + lowest_digits_first(
                reversed_d as nat,
                extra_digits as nat,
            ),
        decreases extra_digits,
    {
        extra_digits = extra_digits - 1;
        put_char((reversed_d % 10) as u8 + DIGIT_ZERO, out);
        reversed_d = reversed_d / 10;
    }
    put_char(first_digit as u8 + DIGIT_ZERO, out);
}

/// Prints the count `n` in decimal notation.
pub fn put_count(n: u64, out: &mut Vec<u8>)
    ensures
        final(out)@ == old(out)@ + decimal_text(n as int),
{
    let mut digits: Vec<u8> = Vec::new();
    digits.push((n % 10) as u8 + DIGIT_ZERO);
    let mut rest: u64 = n / 10;
    while rest != 0
        invariant
            digits@.len() >= 1,
            decimal_text(n as int) == significant_digits(rest as nat) + digits@.reverse(),
        decreases rest,
    {
        let digit: u8 = (rest % 10) as u8 + DIGIT_ZERO;
        digits.push(digit);
        rest = rest / 10;
    }
    let mut left: usize = digits.len();
    while left != 0
        invariant
            left <= digits@.len(),
            out@ == old(out)@ + digits@.reverse().take(digits@.len() - left),
        decreases left,
    {
        left = left - 1;
        put_char(digits[left], out);
    }
}

/// Prints `p`.
pub fn put_printable<P: Printable>(p: P, out: &mut Vec<u8>)
    ensures
        final(out)@ == old(out)@ + p.printed(),
{
    p.print(out);
}

} // verus!
