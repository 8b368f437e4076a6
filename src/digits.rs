//! Digits of numbers, for drawing scores and values on screen.
use vstd::prelude::*;

verus! {

/// The decimal digits of `n`, least significant first; zero has one digit.
pub open spec fn decimal_digits(n: nat) -> Seq<u8>
    decreases n,
{
    if n < 10 {
        seq![n as u8]
    } else {
        seq![(n % 10) as u8] + decimal_digits(n / 10)
    }
}

/// The tile code of a hexadecimal digit: `0`-`9`, then `A`-`F`.
pub open spec fn digit_code(b: u8) -> int {
    if b < 10 {
        48 + b
    } else {
        55 + b
    }
}

/// The hexadecimal digits of a byte, low one first.
pub fn byte_to_digits(b: u8) -> (r: [u8; 2])
    ensures
        r@ == seq![b % 16, b / 16],
{
    let d1 = b / 0x10;
    let d0 = b % 0x10;
    [d0, d1]
}

/// The hexadecimal digits of a 16-bit value, most significant first.
pub fn u16_to_digits(x: u16) -> (r: [u8; 4])
    ensures
        r@ == seq![
            (x / 4096) as u8,
            (x / 256 % 16) as u8,
            (x / 16 % 16) as u8,
            (x % 16) as u8,
        ],
{
    let d10 = byte_to_digits((x % 256) as u8);
    let d32 = byte_to_digits((x / 0x100) as u8);
    [d32[1], d32[0], d10[1], d10[0]]
}

/// The character code of a hexadecimal digit.
pub fn digit_to_ascii(b: u8) -> (r: u8)
    requires
        b <= 200,
    ensures
        r == digit_code(b),
{
    if b < 10 {
        48 + b
    } else {
        55 + b
    }
}

/// The decimal digits of a byte, least significant first.
pub fn u8_to_decimal(b: u8) -> (r: Vec<u8>)
    ensures
        r@ == decimal_digits(b as nat),
        1 <= r@.len() <= 3,
{
    let mut digits: Vec<u8> = Vec::with_capacity(3);
    let mut a: u8 = b;
    proof {
        lemma_digit_count(b as nat);
    }
    loop
        invariant_except_break
            a <= b,
            digits@ + decimal_digits(a as nat) == decimal_digits(b as nat),
            digits@.len() + decimal_digits(a as nat).len() <= 3,
        ensures
            digits@ == decimal_digits(b as nat),
        decreases a,
    {
        proof {
            lemma_digit_count(a as nat);
        }
        digits.push(a % 10);
        let div = a / 10;
        if div == 0 {
            assert(digits@ =~= decimal_digits(b as nat));
            break;
        } else {
            assert(decimal_digits(a as nat) == seq![(a % 10) as u8] + decimal_digits(div as nat));
            assert(digits@ + decimal_digits(div as nat) =~= decimal_digits(b as nat));
            a = div;
        }
    }
    proof {
        lemma_digit_count(b as nat);
    }
    digits
}

/// The decimal digits of a 16-bit value, least significant first.
pub fn u16_to_decimal(b: u16) -> (r: Vec<u8>)
    ensures
        r@ == decimal_digits(b as nat),
        1 <= r@.len() <= 5,
{
    let mut digits: Vec<u8> = Vec::with_capacity(5);
    let mut a: u16 = b;
    loop
        invariant_except_break
            a <= b,
            digits@ + decimal_digits(a as nat) == decimal_digits(b as nat),
        ensures
            digits@ == decimal_digits(b as nat),
        decreases a,
    {
        digits.push((a % 10) as u8);
        let div = a / 10;
        if div == 0 {
            assert(digits@ =~= decimal_digits(b as nat));
            break;
        } else {
            assert(decimal_digits(a as nat) == seq![(a % 10) as u8] + decimal_digits(div as nat));
            assert(digits@ + decimal_digits(div as nat) =~= decimal_digits(b as nat));
            a = div;
        }
    }
    proof {
        lemma_digit_count(b as nat);
    }
    digits
}

/// A number below 1000 has at most three digits, one below 100000 at most five.
proof fn lemma_digit_count(n: nat)
    ensures
        decimal_digits(n).len() >= 1,
        n < 10 ==> decimal_digits(n).len() <= 1,
        n < 100 ==> decimal_digits(n).len() <= 2,
        n < 1000 ==> decimal_digits(n).len() <= 3,
        n < 10000 ==> decimal_digits(n).len() <= 4,
        n < 100000 ==> decimal_digits(n).len() <= 5,
    decreases n,
{
    if n >= 10 {
        lemma_digit_count(n / 10);
    }
}

} // verus!
