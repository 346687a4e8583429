//! The measurement simulator: a pass/fail decision against the configured
//! yield, and a measured value consistent with the decision — inside the
//! limits on a pass, below the lower limit on a fail. Measuring above the
//! upper limit is deliberately not modeled.

use vstd::prelude::*;
use vstd::arithmetic::power::pow;
use vstd::arithmetic::power::lemma_pow_positive;
use vstd::arithmetic::power::lemma_pow1;
use vstd::arithmetic::power::lemma_pow_adds;
use vstd::arithmetic::power::lemma_pow_increases;
use vstd::arithmetic::div_mod::lemma_multiply_divide_lt;
use crate::dec::Dec;
use crate::dec::dec_lt;
use crate::dec::dec_gap;
use crate::catalog::TestDefinition;
use crate::catalog::TestKind;
use crate::digits::pow10_u64;
use crate::digits::lemma_pow10_values;
use crate::rng::rand_u64;

verus! {

/// The outcome of one simulated test.
#[derive(Clone, Copy, Debug)]
pub struct TestResult {
    pub passed: bool,
    pub measured: Dec,
}

/// The pass decision: a uniform draw from `[0, 100)` passes iff it falls
/// below the yield percentage.
pub open spec fn spec_passes(draw: u64, yield_percent: u64) -> bool {
    draw < yield_percent
}

/// Decide pass/fail from a uniform draw and the yield percentage.
pub fn decide_pass(draw: u64, yield_percent: u64) -> (r: bool)
    ensures
        r == spec_passes(draw, yield_percent),
{
    draw < yield_percent
}

/// Draw the pass decision: with yield 0 every test fails, with yield 100
/// every test passes; in between the outcome is random.
pub fn should_pass(yield_percent: u64) -> (r: bool)
    ensures
        yield_percent == 0 ==> !r,
        yield_percent >= 100 ==> r,
{
    let draw = rand_u64(0, 100);
    decide_pass(draw, yield_percent)
}

/// A uniform draw from the open interval `(min, max)` on the six-digit
/// decimal grid at `min`'s scale.
fn draw_between(min: Dec, max: Dec) -> (r: Dec)
    requires
        min.wf(),
        max.wf(),
        !min.is_zero(),
        !max.is_zero(),
        dec_lt(min, max),
        dec_gap(min, max),
        max.exp - min.exp <= 3,
        max.exp <= 900,
    ensures
        r.wf(),
        !r.is_zero(),
        dec_lt(min, r),
        dec_lt(r, max),
{
    let delta = (max.exp - min.exp) as u64;
    let factor = pow10_u64(delta);
    proof {
        lemma_pow10_values();
        assert(max.mant * factor < 1000000000000u64) by (nonlinear_arith)
            requires
                max.mant < 1000000,
                factor <= 1000,
        ;
    }
    let hi = max.mant * factor;
    let units = rand_u64(min.mant + 1, hi);
    let mut m = units;
    let mut e = min.exp;
    while m >= 1000000
        invariant
            min.wf(),
            max.wf(),
            !min.is_zero(),
            !max.is_zero(),
            m >= 100000,
            min.exp <= e <= max.exp,
            max.exp <= 900,
            m < max.mant * pow(10, (max.exp - e) as nat),
            e == min.exp ==> m > min.mant,
        decreases m,
    {
        proof {
            let k = (max.exp - e) as nat;
            lemma_pow_positive(10, k);
            if e == max.exp {
                assert(pow(10, 0) == 1) by {
                    lemma_pow10_values();
                }
                assert(false);
            }
            assert(k >= 1);
            lemma_pow1(10);
            lemma_pow_adds(10, (k - 1) as nat, 1);
            assert(max.mant * pow(10, k) == (max.mant * pow(10, (k - 1) as nat)) * 10)
                by (nonlinear_arith)
                requires
                    pow(10, k) == pow(10, (k - 1) as nat) * 10,
            ;
            lemma_multiply_divide_lt(
                m as int,
                10,
                (max.mant * pow(10, (k - 1) as nat)) as int,
            );
        }
        m = m / 10;
        e = e + 1;
    }
    proof {
        lemma_pow_positive(10, (max.exp - e) as nat);
        if e == max.exp {
            lemma_pow10_values();
            assert(max.mant * pow(10, 0) == max.mant);
            assert(m < max.mant);
        }
        assert(dec_lt(Dec { mant: m, exp: e }, max));
    }
    Dec { mant: m, exp: e }
}

/// A uniform draw from `[0, min)` on the decimal grid at `min`'s scale:
/// the "measured too low" failure mode.
fn draw_below(min: Dec) -> (r: Dec)
    requires
        min.wf(),
        !min.is_zero(),
        min.exp >= -900,
    ensures
        r.wf(),
        dec_lt(r, min),
{
    let units = rand_u64(0, min.mant);
    if units == 0 {
        return Dec { mant: 0, exp: 0 };
    }
    let mut m = units;
    let mut e = min.exp;
    proof {
        lemma_pow10_values();
    }
    while m < 100000
        invariant
            min.wf(),
            !min.is_zero(),
            min.exp >= -900,
            1 <= m < 1000000,
            min.exp - 5 <= e <= min.exp,
            e == min.exp ==> m < min.mant,
            pow(10, (min.exp - e) as nat) <= m,
        decreases 1000000 - m,
    {
        proof {
            let k = (min.exp - e) as nat;
            lemma_pow1(10);
            lemma_pow_adds(10, k, 1);
            assert(pow(10, (k + 1) as nat) == pow(10, k) * 10);
            // m is still below 10^5 here, so the exponent has room to fall.
            lemma_pow10_values();
            if k >= 5 {
                lemma_pow_increases(10, 5, k);
                assert(false);
            }
        }
        m = m * 10;
        e = e - 1;
    }
    proof {
        // The exponent fell by at most five places: 10^(min.exp - e) <= m
        // and m < 10^6 force min.exp - e < 6.
        lemma_pow10_values();
        let k = (min.exp - e) as nat;
        if k >= 6 {
            lemma_pow_increases(10, 6, k);
            assert(false);
        }
    }
    Dec { mant: m, exp: e }
}

/// A result is consistent with its test's kind: pin measurements are zero;
/// an analog pass measures strictly inside the limits; an analog fail
/// measures below the lower limit.
pub open spec fn result_matches(kind: TestKind, r: TestResult) -> bool {
    match kind {
        TestKind::Pin => r.measured.wf() && r.measured.is_zero(),
        TestKind::Capacitor { min, nominal, max } => measured_ok(min, max, r),
        TestKind::Resistor { min, nominal, max } => measured_ok(min, max, r),
    }
}

/// The analog measurement contract: inside `(min, max)` on a pass, inside
/// `[0, min)` on a fail.
pub open spec fn measured_ok(min: Dec, max: Dec, r: TestResult) -> bool {
    &&& r.measured.wf()
    &&& if r.passed {
        dec_lt(min, r.measured) && dec_lt(r.measured, max)
    } else {
        dec_lt(r.measured, min)
    }
}

/// Simulate one test: decide pass/fail against the yield, then draw a
/// measurement consistent with the decision.
pub fn simulate_result(t: &TestDefinition, yield_percent: u64) -> (r: TestResult)
    requires
        t.kind.wf(),
    ensures
        result_matches(t.kind, r),
        yield_percent == 0 ==> !r.passed,
        yield_percent >= 100 ==> r.passed,
{
    let passed = should_pass(yield_percent);
    let measured = match &t.kind {
        TestKind::Pin => Dec { mant: 0, exp: 0 },
        TestKind::Capacitor { min, nominal, max } => {
            if passed {
                draw_between(*min, *max)
            } else {
                draw_below(*min)
            }
        },
        TestKind::Resistor { min, nominal, max } => {
            if passed {
                draw_between(*min, *max)
            } else {
                draw_below(*min)
            }
        },
    };
    TestResult { passed, measured }
}

/// Simulate one result per catalog entry, in catalog order. Analog tests are
/// always simulated even when the pin test fails — a deliberate
/// simplification of a real station's flow.
pub fn simulate_results(tests: &Vec<TestDefinition>, yield_percent: u64) -> (r: Vec<TestResult>)
    requires
        crate::catalog::catalog_wf(tests@),
    ensures
        r@.len() == tests@.len(),
        forall|i: int|
            0 <= i < tests@.len() ==> result_matches(
                tests@[i].kind,
                #[trigger] r@[i],
            ),
        yield_percent == 0 ==> forall|i: int| 0 <= i < r@.len() ==> !(#[trigger] r@[i]).passed,
        yield_percent >= 100 ==> forall|i: int| 0 <= i < r@.len() ==> (#[trigger] r@[i]).passed,
{
    let mut out: Vec<TestResult> = Vec::new();
    let mut i: usize = 0;
    while i < tests.len()
        invariant
            crate::catalog::catalog_wf(tests@),
            0 <= i <= tests@.len(),
            out@.len() == i,
            forall|j: int|
                0 <= j < i ==> result_matches(tests@[j].kind, #[trigger] out@[j]),
            yield_percent == 0 ==> forall|j: int|
                0 <= j < i ==> !(#[trigger] out@[j]).passed,
            yield_percent >= 100 ==> forall|j: int|
                0 <= j < i ==> (#[trigger] out@[j]).passed,
        decreases tests@.len() - i,
    {
        let res = simulate_result(&tests[i], yield_percent);
        out.push(res);
        i = i + 1;
    }
    out
}

} // verus!
