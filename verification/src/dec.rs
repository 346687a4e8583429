//! Nonnegative decimal values in normalized scientific form.
//!
//! The station's analog limits and measurements span many orders of magnitude
//! (picofarads to megohms), so a value is kept as a six-digit mantissa and a
//! decimal exponent: `Dec { mant, exp }` stands for `(mant / 10^5) * 10^exp`.
//! Zero is `mant == 0`. On normalized values, numeric order is exactly the
//! lexicographic order on `(exp, mant)`, which is what `dec_lt` states; the
//! lemma `lemma_dec_lt_matches_scaled` grounds that in plain integer
//! arithmetic at a common scale.

use vstd::prelude::*;
use vstd::arithmetic::power::pow;
use vstd::arithmetic::power::lemma_pow_positive;
use vstd::arithmetic::power::lemma_pow1;
use vstd::arithmetic::power::lemma_pow_adds;
use vstd::arithmetic::power::lemma_pow_increases;
use vstd::arithmetic::mul::lemma_mul_inequality;
use vstd::arithmetic::mul::lemma_mul_strict_inequality;
use crate::digits::digit_char;
use crate::digits::digit_str;
use crate::digits::spec_fixed_digits;
use crate::digits::fixed_digits;
use crate::digits::spec_nat_digits;
use crate::digits::nat_digits;

verus! {

/// A nonnegative decimal in scientific form: `(mant / 10^5) * 10^exp`.
#[derive(Clone, Copy, PartialEq, Eq, Structural, Debug)]
pub struct Dec {
    pub mant: u64,
    pub exp: i32,
}

impl Dec {
    /// Well-formed: zero, or a normalized six-digit mantissa with the
    /// exponent inside a range that keeps all exponent arithmetic in bounds.
    pub open spec fn wf(self) -> bool {
        if self.mant == 0 {
            self.exp == 0
        } else {
            100000 <= self.mant < 1000000 && -1000 <= self.exp <= 1000
        }
    }

    pub open spec fn is_zero(self) -> bool {
        self.mant == 0
    }
}

/// Strict numeric order on well-formed values: zero is below every nonzero
/// value, and nonzero normalized values order lexicographically by
/// `(exp, mant)`.
pub open spec fn dec_lt(a: Dec, b: Dec) -> bool {
    if a.mant == 0 {
        b.mant != 0
    } else {
        b.mant != 0 && (a.exp < b.exp || (a.exp == b.exp && a.mant < b.mant))
    }
}

/// Runtime comparison deciding `dec_lt`.
pub fn dec_lt_exec(a: &Dec, b: &Dec) -> (r: bool)
    ensures
        r == dec_lt(*a, *b),
{
    if a.mant == 0 {
        b.mant != 0
    } else if b.mant == 0 {
        false
    } else {
        a.exp < b.exp || (a.exp == b.exp && a.mant < b.mant)
    }
}

/// The value of `d` in units of `10^(base - 5)`; meaningful for
/// `d.exp >= base`.
pub open spec fn dec_scaled(d: Dec, base: int) -> int {
    d.mant * pow(10, (d.exp - base) as nat)
}

/// `dec_lt` agrees with integer comparison of the two values brought to a
/// common scale: the order is the numeric one, not merely a convention.
pub proof fn lemma_dec_lt_matches_scaled(a: Dec, b: Dec, base: int)
    requires
        a.wf(),
        b.wf(),
        base <= a.exp,
        base <= b.exp,
    ensures
        dec_lt(a, b) <==> dec_scaled(a, base) < dec_scaled(b, base),
{
    lemma_pow_positive(10, (a.exp - base) as nat);
    lemma_pow_positive(10, (b.exp - base) as nat);
    if a.mant == 0 {
        if b.mant != 0 {
            lemma_mul_inequality(1, b.mant as int, pow(10, (b.exp - base) as nat));
        }
    } else if b.mant == 0 {
        lemma_mul_inequality(1, a.mant as int, pow(10, (a.exp - base) as nat));
    } else if a.exp < b.exp {
        lemma_scaled_lt(a, b, base);
    } else if b.exp < a.exp {
        lemma_scaled_lt(b, a, base);
    } else {
        let p = pow(10, (a.exp - base) as nat);
        if a.mant < b.mant {
            lemma_mul_strict_inequality(a.mant as int, b.mant as int, p);
        }
        if b.mant < a.mant {
            lemma_mul_strict_inequality(b.mant as int, a.mant as int, p);
        }
    }
}

/// For nonzero normalized values, a strictly smaller exponent means a
/// strictly smaller scaled value.
proof fn lemma_scaled_lt(a: Dec, b: Dec, base: int)
    requires
        a.wf(),
        b.wf(),
        a.mant != 0,
        b.mant != 0,
        base <= a.exp,
        a.exp < b.exp,
    ensures
        dec_scaled(a, base) < dec_scaled(b, base),
{
    let ea = (a.exp - base) as nat;
    let eb = (b.exp - base) as nat;
    let pa = pow(10, ea);
    let pb = pow(10, eb);
    lemma_pow_positive(10, ea);
    lemma_pow_positive(10, eb);
    lemma_pow1(10);
    lemma_pow_adds(10, ea, 1);
    lemma_pow_increases(10, (ea + 1) as nat, eb);
    assert(pow(10, (ea + 1) as nat) == pa * 10);
    // a.mant * pa < 10^6 * pa == 10^5 * (pa * 10) <= 10^5 * pb <= b.mant * pb
    lemma_mul_strict_inequality(a.mant as int, 1000000, pa);
    assert(1000000 * pa == 100000 * (pa * 10));
    assert(100000 * (pa * 10) <= 100000 * pb) by {
        lemma_mul_inequality(pa * 10, pb, 100000);
    }
    lemma_mul_inequality(100000, b.mant as int, pb);
    assert(100000 * pb <= b.mant * pb);
}

/// There is room for a value strictly between `min` and `max` on the
/// six-digit decimal grid: brought to `min`'s scale, the interval
/// `(min.mant, max scaled)` holds at least one integer.
pub open spec fn dec_gap(min: Dec, max: Dec) -> bool {
    min.exp <= max.exp && max.mant * pow(10, (max.exp - min.exp) as nat) > min.mant + 1
}

/// The exponent field rendered as the log grammar wants it: a minus sign for
/// negative exponents, no sign otherwise, digits without padding.
pub open spec fn spec_exp_chars(e: int) -> Seq<char> {
    if e < 0 {
        seq!['-'] + spec_nat_digits((-e) as nat)
    } else {
        spec_nat_digits(e as nat)
    }
}

/// A value rendered in signed scientific notation with an explicit leading
/// sign, five fractional digits and an uppercase exponent marker, e.g.
/// `+1.23456E-9`.
pub open spec fn spec_dec_chars(d: Dec) -> Seq<char> {
    seq!['+', digit_char((d.mant / 100000) as nat), '.']
        + spec_fixed_digits((d.mant % 100000) as nat, 5) + seq!['E'] + spec_exp_chars(
        d.exp as int,
    )
}

/// Render a value in signed scientific notation.
pub fn dec_to_string(d: &Dec) -> (s: String)
    requires
        d.wf(),
    ensures
        s@ == spec_dec_chars(*d),
{
    let mut s = String::new();
    s.append("+");
    s.append(digit_str(d.mant / 100000));
    s.append(".");
    let frac = fixed_digits(d.mant % 100000, 5);
    s.append(frac.as_str());
    s.append("E");
    if d.exp < 0 {
        s.append("-");
        let mag = nat_digits((-(d.exp as i64)) as u64);
        s.append(mag.as_str());
    } else {
        let mag = nat_digits(d.exp as u64);
        s.append(mag.as_str());
    }
    proof {
        reveal_strlit("+");
        reveal_strlit(".");
        reveal_strlit("E");
        reveal_strlit("-");
        assert(s@ =~= spec_dec_chars(*d));
    }
    s
}

} // verus!
