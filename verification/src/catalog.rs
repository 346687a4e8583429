//! The test catalog: one pin test, then a configurable number of capacitor
//! tests, then a configurable number of resistor tests, each analog test with
//! randomly drawn limits that satisfy `min < nominal < max` by construction.

use vstd::prelude::*;
use vstd::arithmetic::power::pow;
use vstd::arithmetic::div_mod::lemma_multiply_divide_lt;
use vstd::arithmetic::div_mod::lemma_div_is_ordered;
use vstd::arithmetic::div_mod::lemma_div_by_multiple;
use crate::dec::Dec;
use crate::dec::dec_lt;
use crate::dec::dec_gap;
use crate::digits::spec_fixed_digits;
use crate::digits::fixed_digits;
use crate::digits::spec_nat_digits;
use crate::digits::nat_digits;
use crate::digits::lemma_pow10_values;
use crate::rng::rand_u64;

verus! {

/// The kind of a test: a digital pin test without limits, or an analog test
/// with a lower limit, a nominal value and an upper limit.
pub enum TestKind {
    Pin,
    Capacitor { min: Dec, nominal: Dec, max: Dec },
    Resistor { min: Dec, nominal: Dec, max: Dec },
}

/// One entry of the catalog: a unique name and a kind.
pub struct TestDefinition {
    pub name: String,
    pub kind: TestKind,
}

/// Well-formed analog limits: normalized, strictly ordered, with room on the
/// decimal grid between the limits and exponents far from the ends of the
/// representable range.
pub open spec fn limits_wf(min: Dec, nominal: Dec, max: Dec) -> bool {
    &&& min.wf()
    &&& nominal.wf()
    &&& max.wf()
    &&& !min.is_zero()
    &&& !nominal.is_zero()
    &&& !max.is_zero()
    &&& dec_lt(min, nominal)
    &&& dec_lt(nominal, max)
    &&& dec_gap(min, max)
    &&& -900 <= min.exp
    &&& max.exp <= 900
    &&& max.exp - min.exp <= 3
}

impl TestKind {
    /// Well-formed: analog limits satisfy `limits_wf`; a pin test carries
    /// nothing.
    pub open spec fn wf(self) -> bool {
        match self {
            TestKind::Pin => true,
            TestKind::Capacitor { min, nominal, max } => limits_wf(min, nominal, max),
            TestKind::Resistor { min, nominal, max } => limits_wf(min, nominal, max),
        }
    }
}

/// A normalized value with a random six-digit mantissa and a random exponent
/// in `[lo_exp, hi_exp]`: a draw from a wide exponential range.
fn draw_nominal(lo_exp: i32, hi_exp: i32) -> (r: Dec)
    requires
        -900 <= lo_exp <= hi_exp <= 900,
    ensures
        r.wf(),
        !r.is_zero(),
        lo_exp <= r.exp <= hi_exp,
{
    let mant = rand_u64(100000, 1000000);
    let off = rand_u64(0, (hi_exp - lo_exp) as u64 + 1);
    Dec { mant, exp: lo_exp + off as i32 }
}

/// Scale a normalized value down by the factor `f / 1000` (with `f` below
/// 1000), truncating on the six-digit grid: the result is strictly smaller.
fn scale_down(d: Dec, f: u64) -> (r: Dec)
    requires
        d.wf(),
        !d.is_zero(),
        700 <= f <= 999,
        d.exp >= -999,
    ensures
        r.wf(),
        !r.is_zero(),
        dec_lt(r, d),
        d.exp - 1 <= r.exp <= d.exp,
        r.exp == d.exp ==> r.mant < d.mant,
{
    proof {
        assert(d.mant * f < 1000000000) by (nonlinear_arith)
            requires
                d.mant < 1000000,
                f <= 999,
        ;
        assert(d.mant * f >= 70000000) by (nonlinear_arith)
            requires
                d.mant >= 100000,
                f >= 700,
        ;
        assert(d.mant * f <= d.mant * 999) by (nonlinear_arith)
            requires
                f <= 999,
                d.mant >= 0,
        ;
    }
    let raw = d.mant * f;
    if raw >= 100000000 {
        let m = raw / 1000;
        proof {
            lemma_div_is_ordered(raw as int, (d.mant * 999) as int, 1000);
            assert(((d.mant * 999) as int) < 1000 * (d.mant as int)) by (nonlinear_arith)
                requires
                    d.mant >= 1,
            ;
            lemma_multiply_divide_lt((d.mant * 999) as int, 1000, d.mant as int);
        }
        Dec { mant: m, exp: d.exp }
    } else {
        let m = raw / 100;
        Dec { mant: m, exp: d.exp - 1 }
    }
}

/// Scale a normalized value up by the factor `f / 1000` (with `f` above
/// 1000), truncating on the six-digit grid: the result is strictly larger.
fn scale_up(d: Dec, f: u64) -> (r: Dec)
    requires
        d.wf(),
        !d.is_zero(),
        1001 <= f <= 1999,
        d.exp <= 999,
    ensures
        r.wf(),
        !r.is_zero(),
        dec_lt(d, r),
        d.exp <= r.exp <= d.exp + 1,
        r.exp == d.exp ==> r.mant > d.mant,
{
    proof {
        assert(d.mant * f < 2000000000) by (nonlinear_arith)
            requires
                d.mant < 1000000,
                f <= 1999,
        ;
        assert(d.mant * f >= d.mant * 1000 + 1000) by (nonlinear_arith)
            requires
                d.mant >= 100000,
                f >= 1001,
        ;
    }
    let raw = d.mant * f;
    if raw >= 1000000000 {
        let m = raw / 10000;
        Dec { mant: m, exp: d.exp + 1 }
    } else {
        let m = raw / 1000;
        proof {
            lemma_div_is_ordered((d.mant * 1000 + 1000) as int, raw as int, 1000);
            lemma_div_by_multiple((d.mant + 1) as int, 1000);
            assert((d.mant * 1000 + 1000) as int == ((d.mant + 1) as int) * 1000);
        }
        Dec { mant: m, exp: d.exp }
    }
}

/// Limits built by `scale_down` and `scale_up` around one nominal value
/// always leave room on the grid between `min` and `max`.
proof fn lemma_gap_from_limits(min: Dec, nominal: Dec, max: Dec)
    requires
        min.wf(),
        nominal.wf(),
        max.wf(),
        !min.is_zero(),
        !nominal.is_zero(),
        !max.is_zero(),
        nominal.exp - 1 <= min.exp <= nominal.exp,
        min.exp == nominal.exp ==> min.mant < nominal.mant,
        nominal.exp <= max.exp <= nominal.exp + 1,
        max.exp == nominal.exp ==> max.mant > nominal.mant,
    ensures
        dec_gap(min, max),
{
    lemma_pow10_values();
    let delta = (max.exp - min.exp) as nat;
    if delta == 0 {
        assert(max.mant * pow(10, 0) == max.mant);
    } else if delta == 1 {
        assert(max.mant * pow(10, 1) == max.mant * 10);
        if max.exp == nominal.exp {
            // min sits one decade below; max.mant exceeds a normalized mantissa.
            assert(max.mant * 10 >= 1000010);
        } else {
            // min shares nominal's decade and is strictly below its mantissa.
            assert(min.mant + 1 <= nominal.mant);
            assert(max.mant * 10 >= 1000000);
        }
    } else {
        assert(delta == 2);
        assert(max.mant * pow(10, 2) == max.mant * 100);
        assert(max.mant * 100 >= 10000000);
    }
}

/// A capacitor test's limits: a nominal capacitance drawn from a wide
/// exponential range, the lower limit at 70-90 percent of it, the upper at
/// 110-130 percent.
fn make_capacitor_kind() -> (k: TestKind)
    ensures
        k is Capacitor,
        k.wf(),
{
    let nominal = draw_nominal(-12, -7);
    let min = scale_down(nominal, rand_u64(700, 900));
    let max = scale_up(nominal, rand_u64(1100, 1300));
    proof {
        lemma_gap_from_limits(min, nominal, max);
    }
    TestKind::Capacitor { min, nominal, max }
}

/// A resistor test's limits: a nominal resistance drawn from a wide
/// exponential range, the lower limit at 95-99 percent of it, the upper at
/// 101-105 percent.
fn make_resistor_kind() -> (k: TestKind)
    ensures
        k is Resistor,
        k.wf(),
{
    let nominal = draw_nominal(0, 5);
    let min = scale_down(nominal, rand_u64(950, 990));
    let max = scale_up(nominal, rand_u64(1010, 1050));
    proof {
        lemma_gap_from_limits(min, nominal, max);
    }
    TestKind::Resistor { min, nominal, max }
}

/// A catalog index rendered as at least two digits, zero padded.
pub open spec fn spec_padded2(n: nat) -> Seq<char> {
    if n < 100 {
        spec_fixed_digits(n, 2)
    } else {
        spec_nat_digits(n)
    }
}

/// Render a catalog index as at least two digits, zero padded.
pub fn padded2(n: u64) -> (s: String)
    ensures
        s@ == spec_padded2(n as nat),
{
    if n < 100 {
        fixed_digits(n, 2)
    } else {
        nat_digits(n)
    }
}

/// Two distinct indices render to distinct padded strings.
proof fn lemma_padded2_injective(a: nat, b: nat)
    requires
        spec_padded2(a) == spec_padded2(b),
    ensures
        a == b,
{
    lemma_pow10_values();
    crate::digits::lemma_nat_digits_len(a);
    crate::digits::lemma_nat_digits_len(b);
    crate::digits::lemma_fixed_digits_len(a, 2);
    crate::digits::lemma_fixed_digits_len(b, 2);
    if a < 100 && b < 100 {
        crate::digits::lemma_fixed_digits_roundtrip(a, 2);
        crate::digits::lemma_fixed_digits_roundtrip(b, 2);
    } else if a >= 100 && b >= 100 {
        crate::digits::lemma_nat_digits_value(a);
        crate::digits::lemma_nat_digits_value(b);
    }
}

/// The shape of the capacitor test at (one-based) analog index `i`.
pub open spec fn cap_def_ok(t: TestDefinition, i: int) -> bool {
    &&& t.kind is Capacitor
    &&& t.kind.wf()
    &&& t.name@ == seq!['c'] + spec_padded2(i as nat)
}

/// The shape of the resistor test at (one-based) analog index `i`.
pub open spec fn res_def_ok(t: TestDefinition, i: int) -> bool {
    &&& t.kind is Resistor
    &&& t.kind.wf()
    &&& t.name@ == seq!['r'] + spec_padded2(i as nat)
}

/// Every catalog entry is well-formed.
pub open spec fn catalog_wf(tests: Seq<TestDefinition>) -> bool {
    forall|i: int| 0 <= i < tests.len() ==> (#[trigger] tests[i]).kind.wf()
}

/// Build the catalog: one pin test named `"pins"`, then `cap_count`
/// capacitor tests named `"c01"`, `"c02"`, ..., then `res_count` resistor
/// tests named `"r01"`, `"r02"`, .... The limits of every analog test
/// satisfy `min < nominal < max` by construction.
pub fn build_catalog(cap_count: u64, res_count: u64) -> (r: Vec<TestDefinition>)
    requires
        cap_count <= 100000,
        res_count <= 100000,
    ensures
        r@.len() == 1 + cap_count + res_count,
        r@[0].kind is Pin,
        r@[0].name@ == "pins"@,
        forall|i: int| 1 <= i <= cap_count ==> cap_def_ok(#[trigger] r@[i], i),
        forall|i: int|
            cap_count < i < r@.len() ==> res_def_ok(#[trigger] r@[i], i - cap_count),
        catalog_wf(r@),
{
    let mut out: Vec<TestDefinition> = Vec::new();
    let mut name = String::new();
    name.append("pins");
    proof {
        assert(name@ =~= "pins"@);
    }
    out.push(TestDefinition { name, kind: TestKind::Pin });
    let mut i: u64 = 1;
    while i <= cap_count
        invariant
            cap_count <= 100000,
            1 <= i <= cap_count + 1,
            out@.len() == i,
            out@[0].kind is Pin,
            out@[0].name@ == "pins"@,
            forall|j: int| 1 <= j < i ==> cap_def_ok(#[trigger] out@[j], j),
        decreases cap_count + 1 - i,
    {
        let mut name = String::new();
        name.append("c");
        let digits = padded2(i);
        name.append(digits.as_str());
        proof {
            reveal_strlit("c");
            assert(name@ =~= seq!['c'] + spec_padded2(i as nat));
        }
        out.push(TestDefinition { name, kind: make_capacitor_kind() });
        i = i + 1;
    }
    let mut i: u64 = 1;
    while i <= res_count
        invariant
            cap_count <= 100000,
            res_count <= 100000,
            1 <= i <= res_count + 1,
            out@.len() == 1 + cap_count + (i - 1),
            out@[0].kind is Pin,
            out@[0].name@ == "pins"@,
            forall|j: int| 1 <= j <= cap_count ==> cap_def_ok(#[trigger] out@[j], j),
            forall|j: int|
                cap_count < j < out@.len() ==> res_def_ok(#[trigger] out@[j], j - cap_count),
        decreases res_count + 1 - i,
    {
        let mut name = String::new();
        name.append("r");
        let digits = padded2(i);
        name.append(digits.as_str());
        proof {
            reveal_strlit("r");
            assert(name@ =~= seq!['r'] + spec_padded2(i as nat));
        }
        out.push(TestDefinition { name, kind: make_resistor_kind() });
        i = i + 1;
    }
    out
}

/// Catalog names are unique: the pin test, the capacitor tests and the
/// resistor tests all carry pairwise distinct names.
pub proof fn lemma_catalog_names_unique(r: Seq<TestDefinition>, cap_count: int, res_count: int)
    requires
        0 <= cap_count,
        0 <= res_count,
        r.len() == 1 + cap_count + res_count,
        r[0].name@ == "pins"@,
        forall|i: int| 1 <= i <= cap_count ==> cap_def_ok(#[trigger] r[i], i),
        forall|i: int| cap_count < i < r.len() ==> res_def_ok(#[trigger] r[i], i - cap_count),
    ensures
        forall|i: int, j: int| 0 <= i < j < r.len() ==> r[i].name@ != r[j].name@,
{
    assert forall|i: int, j: int| 0 <= i < j < r.len() implies r[i].name@ != r[j].name@ by {
        reveal_strlit("pins");
        if r[i].name@ == r[j].name@ {
            let a = r[i].name@;
            let b = r[j].name@;
            if i == 0 {
                // "pins" starts with 'p'; every other name with 'c' or 'r'.
                assert(a[0] == 'p');
                if j <= cap_count {
                    assert(b[0] == 'c');
                } else {
                    assert(b[0] == 'r');
                }
            } else if j <= cap_count {
                // Two capacitor names share their index rendering.
                assert(a.drop_first() =~= spec_padded2(i as nat));
                assert(b.drop_first() =~= spec_padded2(j as nat));
                lemma_padded2_injective(i as nat, j as nat);
            } else if i > cap_count {
                // Two resistor names share their index rendering.
                assert(a.drop_first() =~= spec_padded2((i - cap_count) as nat));
                assert(b.drop_first() =~= spec_padded2((j - cap_count) as nat));
                lemma_padded2_injective((i - cap_count) as nat, (j - cap_count) as nat);
            } else {
                // A capacitor name starts with 'c', a resistor name with 'r'.
                assert(a[0] == 'c');
                assert(b[0] == 'r');
            }
        }
    }
}

} // verus!
