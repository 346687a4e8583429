//! The identifier generator: the fixed-width data matrix code (DMC) given to
//! each board and panel, encoding the calendar date and a sequence number,
//! and the proof that the encoding is reversible.

use vstd::prelude::*;
use crate::digits::spec_fixed_digits;
use crate::digits::fixed_digits;
use crate::digits::digits_value;
use crate::digits::lemma_fixed_digits_len;
use crate::digits::lemma_fixed_digits_roundtrip;
use crate::digits::lemma_pow10_values;

verus! {

/// The identifier: `"L"`, a four-digit year, a three-digit day of the year,
/// a five-digit zero-padded sequence number, and a fixed static suffix.
pub open spec fn spec_dmc(year: nat, ordinal: nat, sequence: nat) -> Seq<char> {
    seq!['L'] + spec_fixed_digits(year, 4) + spec_fixed_digits(ordinal, 3) + spec_fixed_digits(
        sequence,
        5,
    ) + "TB0001010111"@
}

/// Generate the identifier for the given date and sequence number. The
/// output is a function of the arguments alone, so equal inputs give
/// byte-identical identifiers. Sequence numbers beyond five digits have no
/// defined encoding and are excluded.
pub fn generate_dmc(year: u32, ordinal: u32, sequence: u64) -> (s: String)
    requires
        year <= 9999,
        ordinal <= 999,
        sequence <= 99999,
    ensures
        s@ == spec_dmc(year as nat, ordinal as nat, sequence as nat),
{
    let mut s = String::new();
    s.append("L");
    let part = fixed_digits(year as u64, 4);
    s.append(part.as_str());
    let part = fixed_digits(ordinal as u64, 3);
    s.append(part.as_str());
    let part = fixed_digits(sequence, 5);
    s.append(part.as_str());
    s.append("TB0001010111");
    proof {
        reveal_strlit("L");
        assert(s@ =~= spec_dmc(year as nat, ordinal as nat, sequence as nat));
    }
    s
}

/// The year field of an identifier.
pub open spec fn spec_dmc_year(s: Seq<char>) -> nat {
    digits_value(s.subrange(1, 5))
}

/// The day-of-year field of an identifier.
pub open spec fn spec_dmc_ordinal(s: Seq<char>) -> nat {
    digits_value(s.subrange(5, 8))
}

/// The sequence field of an identifier.
pub open spec fn spec_dmc_sequence(s: Seq<char>) -> nat {
    digits_value(s.subrange(8, 13))
}

/// Decoding the year, day-of-year and sequence fields of a generated
/// identifier recovers the inputs it was generated from.
pub proof fn lemma_dmc_roundtrip(year: nat, ordinal: nat, sequence: nat)
    requires
        year <= 9999,
        ordinal <= 999,
        sequence <= 99999,
    ensures
        spec_dmc_year(spec_dmc(year, ordinal, sequence)) == year,
        spec_dmc_ordinal(spec_dmc(year, ordinal, sequence)) == ordinal,
        spec_dmc_sequence(spec_dmc(year, ordinal, sequence)) == sequence,
{
    let s = spec_dmc(year, ordinal, sequence);
    lemma_fixed_digits_len(year, 4);
    lemma_fixed_digits_len(ordinal, 3);
    lemma_fixed_digits_len(sequence, 5);
    assert(s.subrange(1, 5) =~= spec_fixed_digits(year, 4));
    assert(s.subrange(5, 8) =~= spec_fixed_digits(ordinal, 3));
    assert(s.subrange(8, 13) =~= spec_fixed_digits(sequence, 5));
    lemma_pow10_values();
    lemma_fixed_digits_roundtrip(year, 4);
    lemma_fixed_digits_roundtrip(ordinal, 3);
    lemma_fixed_digits_roundtrip(sequence, 5);
}

} // verus!
