//! Boards and panels: the per-test status codes, the board-level status, and
//! the assembly of one panel's worth of boards for an export cycle.

use vstd::prelude::*;
use crate::catalog::TestDefinition;
use crate::catalog::catalog_wf;
use crate::sim::TestResult;
use crate::sim::result_matches;
use crate::sim::simulate_results;
use crate::ident::spec_dmc;
use crate::ident::generate_dmc;

verus! {

/// One tested board: its identifier, its one-based position on the panel,
/// and one result per catalog entry, in catalog order.
pub struct Board {
    pub dmc: String,
    pub position: u8,
    pub results: Vec<TestResult>,
}

/// One panel: its own identifier and the boards it carries. It is fully
/// replaced every export cycle.
pub struct Panel {
    pub dmc: String,
    pub boards: Vec<Board>,
}

/// Single-character status: `"0"` for pass, `"1"` for fail.
pub open spec fn spec_status_short(passed: bool) -> Seq<char> {
    if passed {
        seq!['0']
    } else {
        seq!['1']
    }
}

/// Two-character status: `"00"` for pass, `"01"` for fail.
pub open spec fn spec_status_long(passed: bool) -> Seq<char> {
    if passed {
        seq!['0', '0']
    } else {
        seq!['0', '1']
    }
}

/// Render the single-character status.
pub fn status_short(passed: bool) -> (r: &'static str)
    ensures
        r@ == spec_status_short(passed),
{
    proof {
        reveal_strlit("0");
        reveal_strlit("1");
    }
    if passed {
        proof {
            assert("0"@ =~= spec_status_short(true));
        }
        "0"
    } else {
        proof {
            assert("1"@ =~= spec_status_short(false));
        }
        "1"
    }
}

/// Render the two-character status.
pub fn status_long(passed: bool) -> (r: &'static str)
    ensures
        r@ == spec_status_long(passed),
{
    proof {
        reveal_strlit("00");
        reveal_strlit("01");
    }
    if passed {
        proof {
            assert("00"@ =~= spec_status_long(true));
        }
        "00"
    } else {
        proof {
            assert("01"@ =~= spec_status_long(false));
        }
        "01"
    }
}

/// Every result in the sequence passed.
pub open spec fn spec_all_passed(results: Seq<TestResult>) -> bool {
    forall|i: int| 0 <= i < results.len() ==> (#[trigger] results[i]).passed
}

/// The board-level status: `"01"` iff at least one result failed, `"00"`
/// iff all passed.
pub open spec fn spec_board_status(results: Seq<TestResult>) -> Seq<char> {
    if spec_all_passed(results) {
        seq!['0', '0']
    } else {
        seq!['0', '1']
    }
}

/// Compute the board-level status from the board's results.
pub fn board_status(results: &Vec<TestResult>) -> (r: &'static str)
    ensures
        r@ == spec_board_status(results@),
{
    proof {
        reveal_strlit("00");
        reveal_strlit("01");
    }
    let mut i: usize = 0;
    while i < results.len()
        invariant
            0 <= i <= results@.len(),
            forall|j: int| 0 <= j < i ==> (#[trigger] results@[j]).passed,
        decreases results@.len() - i,
    {
        if !results[i].passed {
            proof {
                reveal_strlit("01");
                assert(!spec_all_passed(results@));
                assert("01"@ =~= spec_board_status(results@));
            }
            return "01";
        }
        i = i + 1;
    }
    proof {
        assert(spec_all_passed(results@));
        assert("00"@ =~= spec_board_status(results@));
    }
    "00"
}

/// A board as one export cycle builds it: its identifier encodes the date
/// and the panel's base sequence plus the board's position, and its results
/// line up with the catalog.
pub open spec fn board_ok(
    b: Board,
    tests: Seq<TestDefinition>,
    year: nat,
    ordinal: nat,
    seq_base: nat,
    position: nat,
) -> bool {
    &&& b.position == position
    &&& b.dmc@ == spec_dmc(year, ordinal, seq_base + position)
    &&& b.results@.len() == tests.len()
    &&& forall|i: int|
        0 <= i < tests.len() ==> result_matches(tests[i].kind, #[trigger] b.results@[i])
}

/// A panel as one export cycle builds it: the panel identifier uses the base
/// sequence itself, and the board at (zero-based) index `p` sits at position
/// `p + 1` with sequence offset `p + 1`.
pub open spec fn panel_ok(
    panel: Panel,
    tests: Seq<TestDefinition>,
    year: nat,
    ordinal: nat,
    seq_base: nat,
    panel_count: nat,
) -> bool {
    &&& panel.dmc@ == spec_dmc(year, ordinal, seq_base)
    &&& panel.boards@.len() == panel_count
    &&& forall|p: int|
        0 <= p < panel_count ==> board_ok(
            #[trigger] panel.boards@[p],
            tests,
            year,
            ordinal,
            seq_base,
            (p + 1) as nat,
        )
}

/// Build one board: generate its identifier from the date and its sequence
/// offset, and simulate one result per catalog entry.
pub fn build_board(
    tests: &Vec<TestDefinition>,
    yield_percent: u64,
    year: u32,
    ordinal: u32,
    seq_base: u64,
    position: u8,
) -> (b: Board)
    requires
        catalog_wf(tests@),
        year <= 9999,
        ordinal <= 999,
        1 <= position <= 20,
        seq_base + position <= 99999,
    ensures
        board_ok(b, tests@, year as nat, ordinal as nat, seq_base as nat, position as nat),
        yield_percent == 0 && tests@.len() > 0 ==> !spec_all_passed(b.results@),
        yield_percent >= 100 ==> spec_all_passed(b.results@),
{
    let dmc = generate_dmc(year, ordinal, seq_base + position as u64);
    let results = simulate_results(tests, yield_percent);
    proof {
        if yield_percent == 0 {
            // A catalog always holds the pin test, so at least one result
            // exists to fail.
            assert(tests@.len() > 0 ==> !results@[0].passed);
        }
    }
    Board { dmc, position, results }
}

/// Assemble a fresh panel for an export cycle: the panel identifier at
/// offset zero, then one board per position `1..=panel_count`, each with its
/// own identifier and freshly simulated results.
pub fn build_panel(
    tests: &Vec<TestDefinition>,
    yield_percent: u64,
    year: u32,
    ordinal: u32,
    seq_base: u64,
    panel_count: u8,
) -> (panel: Panel)
    requires
        catalog_wf(tests@),
        year <= 9999,
        ordinal <= 999,
        1 <= panel_count <= 20,
        seq_base + panel_count <= 99999,
    ensures
        panel_ok(
            panel,
            tests@,
            year as nat,
            ordinal as nat,
            seq_base as nat,
            panel_count as nat,
        ),
{
    let dmc = generate_dmc(year, ordinal, seq_base);
    let mut boards: Vec<Board> = Vec::new();
    let mut p: u8 = 0;
    while p < panel_count
        invariant
            catalog_wf(tests@),
            year <= 9999,
            ordinal <= 999,
            1 <= panel_count <= 20,
            seq_base + panel_count <= 99999,
            0 <= p <= panel_count,
            boards@.len() == p,
            forall|q: int|
                0 <= q < p ==> board_ok(
                    #[trigger] boards@[q],
                    tests@,
                    year as nat,
                    ordinal as nat,
                    seq_base as nat,
                    (q + 1) as nat,
                ),
        decreases panel_count - p,
    {
        let board = build_board(tests, yield_percent, year, ordinal, seq_base, p + 1);
        boards.push(board);
        p = p + 1;
    }
    Panel { dmc, boards }
}

} // verus!
