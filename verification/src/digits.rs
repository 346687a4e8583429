//! Decimal digit strings: fixed-width (zero padded) and minimal renderings of
//! unsigned numbers, together with the value a digit string denotes and the
//! round-trip lemmas connecting the two.

use vstd::prelude::*;
use vstd::arithmetic::power::pow;
use vstd::arithmetic::power::lemma_pow_positive;
use vstd::arithmetic::power::lemma_pow0;
use vstd::arithmetic::power::lemma_pow1;
use vstd::arithmetic::power::lemma_pow_adds;
use vstd::arithmetic::div_mod::lemma_breakdown;
use vstd::arithmetic::div_mod::lemma_small_mod;

verus! {

/// The character for one decimal digit.
pub open spec fn digit_char(d: nat) -> char {
    if d == 0 { '0' }
    else if d == 1 { '1' }
    else if d == 2 { '2' }
    else if d == 3 { '3' }
    else if d == 4 { '4' }
    else if d == 5 { '5' }
    else if d == 6 { '6' }
    else if d == 7 { '7' }
    else if d == 8 { '8' }
    else { '9' }
}

/// The numeric value of a decimal digit character.
pub open spec fn char_digit(c: char) -> nat {
    if c == '0' { 0 }
    else if c == '1' { 1 }
    else if c == '2' { 2 }
    else if c == '3' { 3 }
    else if c == '4' { 4 }
    else if c == '5' { 5 }
    else if c == '6' { 6 }
    else if c == '7' { 7 }
    else if c == '8' { 8 }
    else { 9 }
}

/// The `width` low decimal digits of `n`, most significant first, zero padded
/// when `n` has fewer digits.
pub open spec fn spec_fixed_digits(n: nat, width: nat) -> Seq<char>
    decreases width,
{
    if width == 0 {
        Seq::empty()
    } else {
        spec_fixed_digits(n / 10, (width - 1) as nat) + seq![digit_char(n % 10)]
    }
}

/// The decimal digits of `n` without padding (`"0"` for zero).
pub open spec fn spec_nat_digits(n: nat) -> Seq<char>
    decreases n,
{
    if n < 10 {
        seq![digit_char(n)]
    } else {
        spec_nat_digits(n / 10) + seq![digit_char(n % 10)]
    }
}

/// The number a digit string denotes, read most significant digit first.
pub open spec fn digits_value(s: Seq<char>) -> nat
    decreases s.len(),
{
    if s.len() == 0 {
        0
    } else {
        digits_value(s.drop_last()) * 10 + char_digit(s.last())
    }
}

pub proof fn lemma_char_digit_of_digit(d: nat)
    requires
        d < 10,
    ensures
        char_digit(digit_char(d)) == d,
{
}

pub proof fn lemma_fixed_digits_len(n: nat, width: nat)
    ensures
        spec_fixed_digits(n, width).len() == width,
    decreases width,
{
    if width > 0 {
        lemma_fixed_digits_len(n / 10, (width - 1) as nat);
    }
}

/// A fixed-width rendering denotes the number modulo `10^width`.
pub proof fn lemma_fixed_digits_value(n: nat, width: nat)
    ensures
        digits_value(spec_fixed_digits(n, width)) == n as int % pow(10, width),
    decreases width,
{
    if width == 0 {
        lemma_pow0(10);
        assert(n as int % 1 == 0);
    } else {
        let w1 = (width - 1) as nat;
        let s = spec_fixed_digits(n, width);
        lemma_fixed_digits_len(n / 10, w1);
        assert(s.drop_last() =~= spec_fixed_digits(n / 10, w1));
        assert(s.last() == digit_char(n % 10));
        lemma_fixed_digits_value(n / 10, w1);
        lemma_char_digit_of_digit(n % 10);
        lemma_pow_positive(10, w1);
        lemma_breakdown(n as int, 10, pow(10, w1));
        lemma_pow1(10);
        lemma_pow_adds(10, 1, w1);
        assert(pow(10, width) == 10 * pow(10, w1));
    }
}

/// Round trip: a number below `10^width` is recovered from its fixed-width
/// rendering.
pub proof fn lemma_fixed_digits_roundtrip(n: nat, width: nat)
    requires
        n < pow(10, width),
    ensures
        digits_value(spec_fixed_digits(n, width)) == n,
{
    lemma_fixed_digits_value(n, width);
    lemma_pow_positive(10, width);
    lemma_small_mod(n, pow(10, width) as nat);
}

/// An unpadded rendering denotes the number itself.
pub proof fn lemma_nat_digits_value(n: nat)
    ensures
        digits_value(spec_nat_digits(n)) == n,
    decreases n,
{
    if n < 10 {
        assert(spec_nat_digits(n).drop_last() =~= Seq::<char>::empty());
        assert(digits_value(Seq::<char>::empty()) == 0);
        assert(spec_nat_digits(n).last() == digit_char(n));
        lemma_char_digit_of_digit(n);
    } else {
        assert(spec_nat_digits(n).drop_last() =~= spec_nat_digits(n / 10));
        assert(spec_nat_digits(n).last() == digit_char(n % 10));
        lemma_nat_digits_value(n / 10);
        lemma_char_digit_of_digit(n % 10);
    }
}

/// An unpadded rendering has one digit per decimal place.
pub proof fn lemma_nat_digits_len(n: nat)
    ensures
        spec_nat_digits(n).len() >= 1,
        n >= 10 ==> spec_nat_digits(n).len() >= 2,
        n >= 100 ==> spec_nat_digits(n).len() >= 3,
    decreases n,
{
    if n >= 10 {
        lemma_nat_digits_len(n / 10);
    }
}

/// The first few powers of ten, spelled out for the solver.
pub proof fn lemma_pow10_values()
    ensures
        pow(10, 0) == 1,
        pow(10, 1) == 10,
        pow(10, 2) == 100,
        pow(10, 3) == 1000,
        pow(10, 4) == 10000,
        pow(10, 5) == 100000,
        pow(10, 6) == 1000000,
        pow(10, 7) == 10000000,
{
    lemma_pow0(10);
    lemma_pow1(10);
    lemma_pow_adds(10, 1, 1);
    lemma_pow_adds(10, 2, 1);
    lemma_pow_adds(10, 3, 1);
    lemma_pow_adds(10, 4, 1);
    lemma_pow_adds(10, 5, 1);
    lemma_pow_adds(10, 6, 1);
}

/// `10^k` for small `k`.
pub fn pow10_u64(k: u64) -> (r: u64)
    requires
        k <= 7,
    ensures
        r == pow(10, k as nat),
        r >= 1,
{
    proof {
        lemma_pow10_values();
    }
    match k {
        0 => 1,
        1 => 10,
        2 => 100,
        3 => 1000,
        4 => 10000,
        5 => 100000,
        6 => 1000000,
        _ => 10000000,
    }
}

/// One decimal digit as a string slice.
pub fn digit_str(d: u64) -> (r: &'static str)
    requires
        d < 10,
    ensures
        r@ == seq![digit_char(d as nat)],
{
    proof {
        reveal_strlit("0");
        reveal_strlit("1");
        reveal_strlit("2");
        reveal_strlit("3");
        reveal_strlit("4");
        reveal_strlit("5");
        reveal_strlit("6");
        reveal_strlit("7");
        reveal_strlit("8");
        reveal_strlit("9");
    }
    let r = match d {
        0 => "0",
        1 => "1",
        2 => "2",
        3 => "3",
        4 => "4",
        5 => "5",
        6 => "6",
        7 => "7",
        8 => "8",
        _ => "9",
    };
    proof {
        assert(r@ =~= seq![digit_char(d as nat)]);
    }
    r
}

/// `n` rendered as exactly `width` decimal digits (its low digits, zero
/// padded).
pub fn fixed_digits(n: u64, width: u64) -> (s: String)
    ensures
        s@ == spec_fixed_digits(n as nat, width as nat),
    decreases width,
{
    if width == 0 {
        let s = String::new();
        proof {
            assert(s@ =~= spec_fixed_digits(n as nat, 0));
        }
        s
    } else {
        let mut s = fixed_digits(n / 10, width - 1);
        s.append(digit_str(n % 10));
        s
    }
}

/// `n` rendered as decimal digits without padding.
pub fn nat_digits(n: u64) -> (s: String)
    ensures
        s@ == spec_nat_digits(n as nat),
    decreases n,
{
    if n < 10 {
        let mut s = String::new();
        s.append(digit_str(n));
        proof {
            assert(s@ =~= spec_nat_digits(n as nat));
        }
        s
    } else {
        let mut s = nat_digits(n / 10);
        s.append(digit_str(n % 10));
        s
    }
}

} // verus!
