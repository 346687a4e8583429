//! The log encoder: renders one board plus its panel and batch context into
//! the fixed legacy text grammar, line by line. The structural tokens, field
//! order and brace nesting are a compatibility contract with the downstream
//! parser and are reproduced exactly, including the doubled closing brace at
//! the very end.

use vstd::prelude::*;
use crate::catalog::TestDefinition;
use crate::catalog::TestKind;
use crate::catalog::catalog_wf;
use crate::dec::Dec;
use crate::dec::spec_dec_chars;
use crate::dec::dec_to_string;
use crate::digits::spec_fixed_digits;
use crate::digits::fixed_digits;
use crate::digits::spec_nat_digits;
use crate::digits::nat_digits;
use crate::panel::Board;
use crate::panel::spec_status_short;
use crate::panel::spec_status_long;
use crate::panel::spec_board_status;
use crate::panel::status_short;
use crate::panel::status_long;
use crate::panel::board_status;
use crate::sim::TestResult;
use crate::sim::result_matches;

verus! {

/// The batch header line, carrying the batch start timestamp.
pub open spec fn spec_batch_line(batch_start: Seq<char>) -> Seq<char> {
    "{@BATCH|DUMMY||0101|1||btest|"@ + batch_start
        + "||i30704CE0101BZ01|DUMMY|RevA|DUMMY||D"@
}

/// The board header line: identifier, board status, batch start, current
/// timestamp, two-digit position and the panel identifier.
pub open spec fn spec_btest_line(
    board_dmc: Seq<char>,
    status: Seq<char>,
    batch_start: Seq<char>,
    now_ts: Seq<char>,
    position: nat,
    panel_dmc: Seq<char>,
) -> Seq<char> {
    "{@BTEST|"@ + board_dmc + seq!['|'] + status + seq!['|'] + batch_start
        + "|000000|0|all||n|n|"@ + now_ts + "||"@ + spec_fixed_digits(position, 2) + seq!['|']
        + panel_dmc
}

/// The opening line of a pin test block.
pub open spec fn spec_pf_line(position: nat, passed: bool) -> Seq<char> {
    "{@PF|"@ + spec_nat_digits(position) + "%pins|"@ + spec_status_short(passed) + "|0"@
}

/// The opening line of an analog test block.
pub open spec fn spec_block_open_line(position: nat, name: Seq<char>, passed: bool) -> Seq<
    char,
> {
    "{@BLOCK|"@ + spec_nat_digits(position) + seq!['%'] + name + seq!['|'] + spec_status_long(
        passed,
    )
}

/// The measurement line of an analog test block: the measured value, then
/// the nominal, upper and lower limits, all in signed scientific notation.
pub open spec fn spec_meas_line(
    marker: Seq<char>,
    passed: bool,
    measured: Dec,
    nominal: Dec,
    max: Dec,
    min: Dec,
) -> Seq<char> {
    seq!['{', '@'] + marker + seq!['|'] + spec_status_short(passed) + seq!['|'] + spec_dec_chars(
        measured,
    ) + "{@LIM3|"@ + spec_dec_chars(nominal) + seq!['|'] + spec_dec_chars(max) + seq!['|']
        + spec_dec_chars(min) + "}}"@
}

/// The lines of one test's block: two for a pin test, three for an analog
/// test, each block closed by a lone `}`.
pub open spec fn spec_test_block(t: TestDefinition, r: TestResult, position: nat) -> Seq<
    Seq<char>,
> {
    match t.kind {
        TestKind::Pin => seq![spec_pf_line(position, r.passed), seq!['}']],
        TestKind::Capacitor { min, nominal, max } => seq![
            spec_block_open_line(position, t.name@, r.passed),
            spec_meas_line("A-CAP"@, r.passed, r.measured, nominal, max, min),
            seq!['}'],
        ],
        TestKind::Resistor { min, nominal, max } => seq![
            spec_block_open_line(position, t.name@, r.passed),
            spec_meas_line("A-RES"@, r.passed, r.measured, nominal, max, min),
            seq!['}'],
        ],
    }
}

/// The concatenated blocks of all tests, in catalog order.
pub open spec fn spec_test_blocks(
    tests: Seq<TestDefinition>,
    results: Seq<TestResult>,
    position: nat,
) -> Seq<Seq<char>>
    decreases tests.len(),
{
    if tests.len() == 0 {
        Seq::empty()
    } else {
        spec_test_blocks(tests.drop_last(), results.drop_last(), position) + spec_test_block(
            tests.last(),
            results.last(),
            position,
        )
    }
}

/// All lines of one board's log: the batch header, the board header, the
/// per-test blocks, and the final doubled closing brace.
pub open spec fn spec_log_lines(
    tests: Seq<TestDefinition>,
    board: Board,
    panel_dmc: Seq<char>,
    batch_start: Seq<char>,
    now_ts: Seq<char>,
) -> Seq<Seq<char>> {
    seq![
        spec_batch_line(batch_start),
        spec_btest_line(
            board.dmc@,
            spec_board_status(board.results@),
            batch_start,
            now_ts,
            board.position as nat,
            panel_dmc,
        ),
    ] + spec_test_blocks(tests, board.results@, board.position as nat) + seq![seq!['}', '}']]
}

/// Lines joined by a newline separator, with no trailing newline.
pub open spec fn spec_join_lines(lines: Seq<Seq<char>>) -> Seq<char>
    decreases lines.len(),
{
    if lines.len() == 0 {
        Seq::empty()
    } else if lines.len() == 1 {
        lines[0]
    } else {
        spec_join_lines(lines.drop_last()) + seq!['\n'] + lines.last()
    }
}

/// One board's complete log text: a pure function of the board, its panel
/// context, the batch start timestamp and the current timestamp.
pub open spec fn spec_log(
    tests: Seq<TestDefinition>,
    board: Board,
    panel_dmc: Seq<char>,
    batch_start: Seq<char>,
    now_ts: Seq<char>,
) -> Seq<char> {
    spec_join_lines(spec_log_lines(tests, board, panel_dmc, batch_start, now_ts))
}

/// `l` begins with the prefix `p`.
pub open spec fn line_starts_with(l: Seq<char>, p: Seq<char>) -> bool {
    p.len() <= l.len() && l.take(p.len() as int) == p
}

/// A line that opens a per-test block.
pub open spec fn is_block_open(l: Seq<char>) -> bool {
    line_starts_with(l, "{@PF|"@) || line_starts_with(l, "{@BLOCK|"@)
}

/// The line that closes a per-test block.
pub open spec fn is_block_close(l: Seq<char>) -> bool {
    l == seq!['}']
}

/// The batch header line.
pub open spec fn is_batch_header(l: Seq<char>) -> bool {
    line_starts_with(l, "{@BATCH|"@)
}

/// The board header line.
pub open spec fn is_board_header(l: Seq<char>) -> bool {
    line_starts_with(l, "{@BTEST|"@)
}

/// The doubled closing brace that ends the log.
pub open spec fn is_final_line(l: Seq<char>) -> bool {
    l == seq!['}', '}']
}

/// A line agrees with its prefix at every prefix index.
proof fn lemma_prefix_char(l: Seq<char>, p: Seq<char>, i: int)
    requires
        line_starts_with(l, p),
        0 <= i < p.len(),
    ensures
        l[i] == p[i],
{
    assert(l.take(p.len() as int)[i] == l[i]);
}

/// A pin block's opening line opens a block and is nothing else.
proof fn lemma_classify_pf(position: nat, passed: bool)
    ensures
        ({
            let l = spec_pf_line(position, passed);
            is_block_open(l) && !is_batch_header(l) && !is_board_header(l) && !is_block_close(l)
                && !is_final_line(l)
        }),
{
    reveal_strlit("{@PF|");
    reveal_strlit("{@BLOCK|");
    reveal_strlit("{@BATCH|");
    reveal_strlit("{@BTEST|");
    let l = spec_pf_line(position, passed);
    assert(l.take(5) =~= "{@PF|"@);
    lemma_prefix_char(l, "{@PF|"@, 2);
    assert(l[2] == 'P');
    if is_batch_header(l) {
        lemma_prefix_char(l, "{@BATCH|"@, 2);
    }
    if is_board_header(l) {
        lemma_prefix_char(l, "{@BTEST|"@, 2);
    }
    assert(l.len() >= 5);
}

/// An analog block's opening line opens a block and is nothing else.
proof fn lemma_classify_block_open(position: nat, name: Seq<char>, passed: bool)
    ensures
        ({
            let l = spec_block_open_line(position, name, passed);
            is_block_open(l) && !is_batch_header(l) && !is_board_header(l) && !is_block_close(l)
                && !is_final_line(l)
        }),
{
    reveal_strlit("{@PF|");
    reveal_strlit("{@BLOCK|");
    reveal_strlit("{@BATCH|");
    reveal_strlit("{@BTEST|");
    let l = spec_block_open_line(position, name, passed);
    assert(l.take(8) =~= "{@BLOCK|"@);
    lemma_prefix_char(l, "{@BLOCK|"@, 2);
    lemma_prefix_char(l, "{@BLOCK|"@, 3);
    if is_batch_header(l) {
        lemma_prefix_char(l, "{@BATCH|"@, 3);
    }
    if is_board_header(l) {
        lemma_prefix_char(l, "{@BTEST|"@, 3);
    }
    if line_starts_with(l, "{@PF|"@) {
        lemma_prefix_char(l, "{@PF|"@, 2);
    }
    assert(l.len() >= 8);
}

/// A measurement line neither opens nor closes anything.
proof fn lemma_classify_meas(
    marker: Seq<char>,
    passed: bool,
    measured: Dec,
    nominal: Dec,
    max: Dec,
    min: Dec,
)
    requires
        marker == "A-CAP"@ || marker == "A-RES"@,
    ensures
        ({
            let l = spec_meas_line(marker, passed, measured, nominal, max, min);
            !is_block_open(l) && !is_batch_header(l) && !is_board_header(l) && !is_block_close(l)
                && !is_final_line(l)
        }),
{
    reveal_strlit("{@PF|");
    reveal_strlit("{@BLOCK|");
    reveal_strlit("{@BATCH|");
    reveal_strlit("{@BTEST|");
    reveal_strlit("A-CAP");
    reveal_strlit("A-RES");
    let l = spec_meas_line(marker, passed, measured, nominal, max, min);
    assert(l.take(7) =~= seq!['{', '@'] + marker);
    assert(l[2] == l.take(7)[2]);
    assert((seq!['{', '@'] + marker)[2] == marker[0]);
    assert(l[2] == 'A');
    assert(l.len() >= 7);
    if line_starts_with(l, "{@PF|"@) {
        lemma_prefix_char(l, "{@PF|"@, 2);
    }
    if line_starts_with(l, "{@BLOCK|"@) {
        lemma_prefix_char(l, "{@BLOCK|"@, 2);
    }
    if is_batch_header(l) {
        lemma_prefix_char(l, "{@BATCH|"@, 2);
    }
    if is_board_header(l) {
        lemma_prefix_char(l, "{@BTEST|"@, 2);
    }
}

/// The lone closing brace closes a block and is nothing else.
proof fn lemma_classify_close()
    ensures
        ({
            let l = seq!['}'];
            is_block_close(l) && !is_block_open(l) && !is_batch_header(l) && !is_board_header(l)
                && !is_final_line(l)
        }),
{
    reveal_strlit("{@PF|");
    reveal_strlit("{@BLOCK|");
    reveal_strlit("{@BATCH|");
    reveal_strlit("{@BTEST|");
}

/// The batch header line is exactly that.
proof fn lemma_classify_batch(batch_start: Seq<char>)
    ensures
        ({
            let l = spec_batch_line(batch_start);
            is_batch_header(l) && !is_block_open(l) && !is_board_header(l) && !is_block_close(l)
                && !is_final_line(l)
        }),
{
    reveal_strlit("{@PF|");
    reveal_strlit("{@BLOCK|");
    reveal_strlit("{@BATCH|");
    reveal_strlit("{@BTEST|");
    reveal_strlit("{@BATCH|DUMMY||0101|1||btest|");
    let l = spec_batch_line(batch_start);
    assert(l.take(8) =~= "{@BATCH|"@);
    lemma_prefix_char(l, "{@BATCH|"@, 2);
    lemma_prefix_char(l, "{@BATCH|"@, 3);
    if is_board_header(l) {
        lemma_prefix_char(l, "{@BTEST|"@, 3);
    }
    if line_starts_with(l, "{@PF|"@) {
        lemma_prefix_char(l, "{@PF|"@, 2);
    }
    if line_starts_with(l, "{@BLOCK|"@) {
        lemma_prefix_char(l, "{@BLOCK|"@, 3);
    }
    assert(l.len() >= 8);
}

/// The board header line is exactly that.
proof fn lemma_classify_btest(
    board_dmc: Seq<char>,
    status: Seq<char>,
    batch_start: Seq<char>,
    now_ts: Seq<char>,
    position: nat,
    panel_dmc: Seq<char>,
)
    ensures
        ({
            let l = spec_btest_line(board_dmc, status, batch_start, now_ts, position, panel_dmc);
            is_board_header(l) && !is_block_open(l) && !is_batch_header(l) && !is_block_close(l)
                && !is_final_line(l)
        }),
{
    reveal_strlit("{@PF|");
    reveal_strlit("{@BLOCK|");
    reveal_strlit("{@BATCH|");
    reveal_strlit("{@BTEST|");
    let l = spec_btest_line(board_dmc, status, batch_start, now_ts, position, panel_dmc);
    assert(l.take(8) =~= "{@BTEST|"@);
    lemma_prefix_char(l, "{@BTEST|"@, 2);
    lemma_prefix_char(l, "{@BTEST|"@, 3);
    if is_batch_header(l) {
        lemma_prefix_char(l, "{@BATCH|"@, 3);
    }
    if line_starts_with(l, "{@PF|"@) {
        lemma_prefix_char(l, "{@PF|"@, 2);
    }
    if line_starts_with(l, "{@BLOCK|"@) {
        lemma_prefix_char(l, "{@BLOCK|"@, 3);
    }
    assert(l.len() >= 8);
}

/// How a filter counts a one-line sequence.
proof fn lemma_filter_one(a: Seq<char>, pred: spec_fn(Seq<char>) -> bool)
    ensures
        pred(a) ==> seq![a].filter(pred).len() == 1,
        !pred(a) ==> seq![a].filter(pred).len() == 0,
{
    reveal_with_fuel(Seq::filter, 3);
    assert(seq![a].drop_last() =~= Seq::<Seq<char>>::empty());
    assert(seq![a].last() == a);
}

/// How a filter counts a two-line sequence.
proof fn lemma_filter_pair(a: Seq<char>, b: Seq<char>, pred: spec_fn(Seq<char>) -> bool)
    ensures
        seq![a, b].filter(pred).len() == (if pred(a) {
            1 as int
        } else {
            0 as int
        }) + (if pred(b) {
            1 as int
        } else {
            0 as int
        }),
{
    reveal_with_fuel(Seq::filter, 4);
    assert(seq![a, b].drop_last() =~= seq![a]);
    assert(seq![a].drop_last() =~= Seq::<Seq<char>>::empty());
    assert(seq![a, b].last() == b);
    assert(seq![a].last() == a);
}

/// How a filter counts a three-line sequence.
proof fn lemma_filter_triple(
    a: Seq<char>,
    b: Seq<char>,
    c: Seq<char>,
    pred: spec_fn(Seq<char>) -> bool,
)
    ensures
        seq![a, b, c].filter(pred).len() == (if pred(a) {
            1 as int
        } else {
            0 as int
        }) + (if pred(b) {
            1 as int
        } else {
            0 as int
        }) + (if pred(c) {
            1 as int
        } else {
            0 as int
        }),
{
    reveal_with_fuel(Seq::filter, 5);
    assert(seq![a, b, c].drop_last() =~= seq![a, b]);
    assert(seq![a, b].drop_last() =~= seq![a]);
    assert(seq![a].drop_last() =~= Seq::<Seq<char>>::empty());
    assert(seq![a, b, c].last() == c);
    assert(seq![a, b].last() == b);
    assert(seq![a].last() == a);
}

/// Per-test blocks contain exactly one opening and one closing line per
/// test, and no header or final line.
proof fn lemma_blocks_counts(tests: Seq<TestDefinition>, results: Seq<TestResult>, pos: nat)
    ensures
        ({
            let bs = spec_test_blocks(tests, results, pos);
            &&& bs.filter(|l: Seq<char>| is_block_open(l)).len() == tests.len()
            &&& bs.filter(|l: Seq<char>| is_block_close(l)).len() == tests.len()
            &&& bs.filter(|l: Seq<char>| is_batch_header(l)).len() == 0
            &&& bs.filter(|l: Seq<char>| is_board_header(l)).len() == 0
            &&& bs.filter(|l: Seq<char>| is_final_line(l)).len() == 0
        }),
    decreases tests.len(),
{
    reveal_with_fuel(Seq::filter, 2);
    let bs = spec_test_blocks(tests, results, pos);
    if tests.len() == 0 {
        assert(bs =~= Seq::<Seq<char>>::empty());
    } else {
        let prev = spec_test_blocks(tests.drop_last(), results.drop_last(), pos);
        let blk = spec_test_block(tests.last(), results.last(), pos);
        lemma_blocks_counts(tests.drop_last(), results.drop_last(), pos);
        Seq::filter_distributes_over_add(prev, blk, |l: Seq<char>| is_block_open(l));
        Seq::filter_distributes_over_add(prev, blk, |l: Seq<char>| is_block_close(l));
        Seq::filter_distributes_over_add(prev, blk, |l: Seq<char>| is_batch_header(l));
        Seq::filter_distributes_over_add(prev, blk, |l: Seq<char>| is_board_header(l));
        Seq::filter_distributes_over_add(prev, blk, |l: Seq<char>| is_final_line(l));
        lemma_classify_close();
        let t = tests.last();
        let r = results.last();
        match t.kind {
            TestKind::Pin => {
                lemma_classify_pf(pos, r.passed);
                lemma_filter_pair(
                    spec_pf_line(pos, r.passed),
                    seq!['}'],
                    |l: Seq<char>| is_block_open(l),
                );
                lemma_filter_pair(
                    spec_pf_line(pos, r.passed),
                    seq!['}'],
                    |l: Seq<char>| is_block_close(l),
                );
                lemma_filter_pair(
                    spec_pf_line(pos, r.passed),
                    seq!['}'],
                    |l: Seq<char>| is_batch_header(l),
                );
                lemma_filter_pair(
                    spec_pf_line(pos, r.passed),
                    seq!['}'],
                    |l: Seq<char>| is_board_header(l),
                );
                lemma_filter_pair(
                    spec_pf_line(pos, r.passed),
                    seq!['}'],
                    |l: Seq<char>| is_final_line(l),
                );
            },
            TestKind::Capacitor { min, nominal, max } => {
                lemma_classify_block_open(pos, t.name@, r.passed);
                lemma_classify_meas("A-CAP"@, r.passed, r.measured, nominal, max, min);
                let a = spec_block_open_line(pos, t.name@, r.passed);
                let b = spec_meas_line("A-CAP"@, r.passed, r.measured, nominal, max, min);
                lemma_filter_triple(a, b, seq!['}'], |l: Seq<char>| is_block_open(l));
                lemma_filter_triple(a, b, seq!['}'], |l: Seq<char>| is_block_close(l));
                lemma_filter_triple(a, b, seq!['}'], |l: Seq<char>| is_batch_header(l));
                lemma_filter_triple(a, b, seq!['}'], |l: Seq<char>| is_board_header(l));
                lemma_filter_triple(a, b, seq!['}'], |l: Seq<char>| is_final_line(l));
            },
            TestKind::Resistor { min, nominal, max } => {
                lemma_classify_block_open(pos, t.name@, r.passed);
                lemma_classify_meas("A-RES"@, r.passed, r.measured, nominal, max, min);
                let a = spec_block_open_line(pos, t.name@, r.passed);
                let b = spec_meas_line("A-RES"@, r.passed, r.measured, nominal, max, min);
                lemma_filter_triple(a, b, seq!['}'], |l: Seq<char>| is_block_open(l));
                lemma_filter_triple(a, b, seq!['}'], |l: Seq<char>| is_block_close(l));
                lemma_filter_triple(a, b, seq!['}'], |l: Seq<char>| is_batch_header(l));
                lemma_filter_triple(a, b, seq!['}'], |l: Seq<char>| is_board_header(l));
                lemma_filter_triple(a, b, seq!['}'], |l: Seq<char>| is_final_line(l));
            },
        }
    }
}

/// Brace balance of a rendered board log: exactly one batch header, one
/// board header, one opening and one closing line per test, and one final
/// doubled closing brace, which is the last line.
pub proof fn lemma_log_brace_balance(
    tests: Seq<TestDefinition>,
    board: Board,
    panel_dmc: Seq<char>,
    batch_start: Seq<char>,
    now_ts: Seq<char>,
)
    ensures
        ({
            let lines = spec_log_lines(tests, board, panel_dmc, batch_start, now_ts);
            &&& lines.filter(|l: Seq<char>| is_batch_header(l)).len() == 1
            &&& lines.filter(|l: Seq<char>| is_board_header(l)).len() == 1
            &&& lines.filter(|l: Seq<char>| is_block_open(l)).len() == tests.len()
            &&& lines.filter(|l: Seq<char>| is_block_close(l)).len() == tests.len()
            &&& lines.filter(|l: Seq<char>| is_final_line(l)).len() == 1
            &&& lines.last() == seq!['}', '}']
        }),
{
    let pos = board.position as nat;
    let a = spec_batch_line(batch_start);
    let b = spec_btest_line(
        board.dmc@,
        spec_board_status(board.results@),
        batch_start,
        now_ts,
        pos,
        panel_dmc,
    );
    let bs = spec_test_blocks(tests, board.results@, pos);
    let fin = seq![seq!['}', '}']];
    let lines = spec_log_lines(tests, board, panel_dmc, batch_start, now_ts);
    assert(lines == seq![a, b] + bs + fin);
    lemma_classify_batch(batch_start);
    lemma_classify_btest(
        board.dmc@,
        spec_board_status(board.results@),
        batch_start,
        now_ts,
        pos,
        panel_dmc,
    );
    lemma_blocks_counts(tests, board.results@, pos);
    reveal_strlit("{@PF|");
    reveal_strlit("{@BLOCK|");
    reveal_strlit("{@BATCH|");
    reveal_strlit("{@BTEST|");
    lemma_count_all(a, b, bs, seq!['}', '}'], |l: Seq<char>| is_batch_header(l));
    lemma_count_all(a, b, bs, seq!['}', '}'], |l: Seq<char>| is_board_header(l));
    lemma_count_all(a, b, bs, seq!['}', '}'], |l: Seq<char>| is_block_open(l));
    lemma_count_all(a, b, bs, seq!['}', '}'], |l: Seq<char>| is_block_close(l));
    lemma_count_all(a, b, bs, seq!['}', '}'], |l: Seq<char>| is_final_line(l));
    assert(lines.last() == seq!['}', '}']);
}

/// Filtering the full line list splits into the two headers, the blocks and
/// the final line.
proof fn lemma_count_all(
    a: Seq<char>,
    b: Seq<char>,
    bs: Seq<Seq<char>>,
    fin: Seq<char>,
    pred: spec_fn(Seq<char>) -> bool,
)
    ensures
        (seq![a, b] + bs + seq![fin]).filter(pred).len() == (if pred(a) {
            1 as int
        } else {
            0 as int
        }) + (if pred(b) {
            1 as int
        } else {
            0 as int
        }) + bs.filter(pred).len() + (if pred(fin) {
            1 as int
        } else {
            0 as int
        }),
{
    Seq::filter_distributes_over_add(seq![a, b] + bs, seq![fin], pred);
    Seq::filter_distributes_over_add(seq![a, b], bs, pred);
    lemma_filter_pair(a, b, pred);
    lemma_filter_one(fin, pred);
}

/// Render the batch header line.
fn batch_line(batch_start: &str) -> (s: String)
    ensures
        s@ == spec_batch_line(batch_start@),
{
    let mut s = String::new();
    s.append("{@BATCH|DUMMY||0101|1||btest|");
    s.append(batch_start);
    s.append("||i30704CE0101BZ01|DUMMY|RevA|DUMMY||D");
    proof {
        assert(s@ =~= spec_batch_line(batch_start@));
    }
    s
}

/// Render the board header line.
fn btest_line(
    board_dmc: &str,
    results: &Vec<TestResult>,
    batch_start: &str,
    now_ts: &str,
    position: u8,
    panel_dmc: &str,
) -> (s: String)
    ensures
        s@ == spec_btest_line(
            board_dmc@,
            spec_board_status(results@),
            batch_start@,
            now_ts@,
            position as nat,
            panel_dmc@,
        ),
{
    let mut s = String::new();
    s.append("{@BTEST|");
    s.append(board_dmc);
    s.append("|");
    s.append(board_status(results));
    s.append("|");
    s.append(batch_start);
    s.append("|000000|0|all||n|n|");
    s.append(now_ts);
    s.append("||");
    let pos = fixed_digits(position as u64, 2);
    s.append(pos.as_str());
    s.append("|");
    s.append(panel_dmc);
    proof {
        reveal_strlit("|");
        assert(s@ =~= spec_btest_line(
            board_dmc@,
            spec_board_status(results@),
            batch_start@,
            now_ts@,
            position as nat,
            panel_dmc@,
        ));
    }
    s
}

/// Render the opening line of a pin test block.
fn pf_line(position: u8, passed: bool) -> (s: String)
    ensures
        s@ == spec_pf_line(position as nat, passed),
{
    let mut s = String::new();
    s.append("{@PF|");
    let pos = nat_digits(position as u64);
    s.append(pos.as_str());
    s.append("%pins|");
    s.append(status_short(passed));
    s.append("|0");
    proof {
        assert(s@ =~= spec_pf_line(position as nat, passed));
    }
    s
}

/// Render the opening line of an analog test block.
fn block_open_line(position: u8, name: &str, passed: bool) -> (s: String)
    ensures
        s@ == spec_block_open_line(position as nat, name@, passed),
{
    let mut s = String::new();
    s.append("{@BLOCK|");
    let pos = nat_digits(position as u64);
    s.append(pos.as_str());
    s.append("%");
    s.append(name);
    s.append("|");
    s.append(status_long(passed));
    proof {
        reveal_strlit("%");
        reveal_strlit("|");
        assert(s@ =~= spec_block_open_line(position as nat, name@, passed));
    }
    s
}

/// Render the measurement line of an analog test block.
fn meas_line(marker: &str, passed: bool, measured: &Dec, nominal: &Dec, max: &Dec, min: &Dec) -> (s:
    String)
    requires
        measured.wf(),
        nominal.wf(),
        max.wf(),
        min.wf(),
    ensures
        s@ == spec_meas_line(marker@, passed, *measured, *nominal, *max, *min),
{
    let mut s = String::new();
    s.append("{@");
    s.append(marker);
    s.append("|");
    s.append(status_short(passed));
    s.append("|");
    let v = dec_to_string(measured);
    s.append(v.as_str());
    s.append("{@LIM3|");
    let v = dec_to_string(nominal);
    s.append(v.as_str());
    s.append("|");
    let v = dec_to_string(max);
    s.append(v.as_str());
    s.append("|");
    let v = dec_to_string(min);
    s.append(v.as_str());
    s.append("}}");
    proof {
        reveal_strlit("{@");
        reveal_strlit("|");
        reveal_strlit("}}");
        assert(s@ =~= spec_meas_line(marker@, passed, *measured, *nominal, *max, *min));
    }
    s
}

/// Viewing a line vector commutes with appending one line.
proof fn lemma_view_push(v: Seq<String>, x: String)
    ensures
        v.push(x).map_values(|l: String| l@) == v.map_values(|l: String| l@).push(x@),
{
    assert(v.push(x).map_values(|l: String| l@) =~= v.map_values(|l: String| l@).push(x@));
}

/// Join rendered lines with newline separators, no trailing newline.
fn join_lines(lines: &Vec<String>) -> (s: String)
    ensures
        s@ == spec_join_lines(lines@.map_values(|l: String| l@)),
{
    let ghost views = lines@.map_values(|l: String| l@);
    let mut s = String::new();
    let mut i: usize = 0;
    proof {
        assert(views.take(0) =~= Seq::empty());
        assert(s@ =~= spec_join_lines(views.take(0)));
    }
    while i < lines.len()
        invariant
            views == lines@.map_values(|l: String| l@),
            0 <= i <= lines@.len(),
            s@ == spec_join_lines(views.take(i as int)),
        decreases lines@.len() - i,
    {
        if i > 0 {
            s.append("\n");
        }
        s.append(lines[i].as_str());
        proof {
            reveal_strlit("\n");
            let t = views.take(i + 1);
            assert(t.last() == views[i as int]);
            if i == 0 {
                assert(t.len() == 1);
                assert(s@ =~= spec_join_lines(t));
            } else {
                assert(t.drop_last() =~= views.take(i as int));
                assert(s@ =~= spec_join_lines(t));
            }
        }
        i = i + 1;
    }
    proof {
        assert(views.take(lines@.len() as int) =~= views);
    }
    s
}

/// Render one board's complete log. The output equals `spec_log` of the
/// arguments, so identical inputs always give identical text.
pub fn render_board_log(
    tests: &Vec<TestDefinition>,
    board: &Board,
    panel_dmc: &str,
    batch_start: &str,
    now_ts: &str,
) -> (s: String)
    requires
        catalog_wf(tests@),
        board.results@.len() == tests@.len(),
        forall|i: int|
            0 <= i < tests@.len() ==> result_matches(
                tests@[i].kind,
                #[trigger] board.results@[i],
            ),
    ensures
        s@ == spec_log(tests@, *board, panel_dmc@, batch_start@, now_ts@),
{
    let ghost pos = board.position as nat;
    let mut lines: Vec<String> = Vec::new();
    lines.push(batch_line(batch_start));
    lines.push(
        btest_line(
            board.dmc.as_str(),
            &board.results,
            batch_start,
            now_ts,
            board.position,
            panel_dmc,
        ),
    );
    let ghost headers = seq![
        spec_batch_line(batch_start@),
        spec_btest_line(
            board.dmc@,
            spec_board_status(board.results@),
            batch_start@,
            now_ts@,
            pos,
            panel_dmc@,
        ),
    ];
    proof {
        assert(lines@.map_values(|l: String| l@) =~= headers + spec_test_blocks(
            tests@.take(0),
            board.results@.take(0),
            pos,
        ));
    }
    let mut i: usize = 0;
    while i < tests.len()
        invariant
            catalog_wf(tests@),
            board.results@.len() == tests@.len(),
            forall|k: int|
                0 <= k < tests@.len() ==> result_matches(
                    tests@[k].kind,
                    #[trigger] board.results@[k],
                ),
            pos == board.position as nat,
            headers == seq![
                spec_batch_line(batch_start@),
                spec_btest_line(
                    board.dmc@,
                    spec_board_status(board.results@),
                    batch_start@,
                    now_ts@,
                    pos,
                    panel_dmc@,
                ),
            ],
            0 <= i <= tests@.len(),
            lines@.map_values(|l: String| l@) == headers + spec_test_blocks(
                tests@.take(i as int),
                board.results@.take(i as int),
                pos,
            ),
        decreases tests@.len() - i,
    {
        let ghost pre = lines@;
        let t = &tests[i];
        let r = board.results[i];
        proof {
            let tt = tests@.take(i + 1);
            let rr = board.results@.take(i + 1);
            assert(tt.drop_last() =~= tests@.take(i as int));
            assert(rr.drop_last() =~= board.results@.take(i as int));
            assert(tt.last() == tests@[i as int]);
            assert(rr.last() == board.results@[i as int]);
            assert(spec_test_blocks(tt, rr, pos) == spec_test_blocks(
                tests@.take(i as int),
                board.results@.take(i as int),
                pos,
            ) + spec_test_block(tests@[i as int], board.results@[i as int], pos));
        }
        match &t.kind {
            TestKind::Pin => {
                let la = pf_line(board.position, r.passed);
                let ghost ga = la;
                lines.push(la);
                let mut close = String::new();
                close.append("}");
                let ghost gc = close;
                lines.push(close);
                proof {
                    reveal_strlit("}");
                    assert("}"@ =~= seq!['}']);
                    lemma_view_push(pre, ga);
                    lemma_view_push(pre.push(ga), gc);
                    assert(lines@.map_values(|l: String| l@) =~= headers + spec_test_blocks(
                        tests@.take(i + 1),
                        board.results@.take(i + 1),
                        pos,
                    ));
                }
            },
            TestKind::Capacitor { min, nominal, max } => {
                let la = block_open_line(board.position, t.name.as_str(), r.passed);
                let ghost ga = la;
                lines.push(la);
                let lb = meas_line("A-CAP", r.passed, &r.measured, nominal, max, min);
                let ghost gb = lb;
                lines.push(lb);
                let mut close = String::new();
                close.append("}");
                let ghost gc = close;
                lines.push(close);
                proof {
                    reveal_strlit("}");
                    assert("}"@ =~= seq!['}']);
                    lemma_view_push(pre, ga);
                    lemma_view_push(pre.push(ga), gb);
                    lemma_view_push(pre.push(ga).push(gb), gc);
                    assert(lines@.map_values(|l: String| l@) =~= headers + spec_test_blocks(
                        tests@.take(i + 1),
                        board.results@.take(i + 1),
                        pos,
                    ));
                }
            },
            TestKind::Resistor { min, nominal, max } => {
                let la = block_open_line(board.position, t.name.as_str(), r.passed);
                let ghost ga = la;
                lines.push(la);
                let lb = meas_line("A-RES", r.passed, &r.measured, nominal, max, min);
                let ghost gb = lb;
                lines.push(lb);
                let mut close = String::new();
                close.append("}");
                let ghost gc = close;
                lines.push(close);
                proof {
                    reveal_strlit("}");
                    assert("}"@ =~= seq!['}']);
                    lemma_view_push(pre, ga);
                    lemma_view_push(pre.push(ga), gb);
                    lemma_view_push(pre.push(ga).push(gb), gc);
                    assert(lines@.map_values(|l: String| l@) =~= headers + spec_test_blocks(
                        tests@.take(i + 1),
                        board.results@.take(i + 1),
                        pos,
                    ));
                }
            },
        }
        i = i + 1;
    }
    let mut fin = String::new();
    fin.append("}}");
    lines.push(fin);
    proof {
        reveal_strlit("}}");
        assert("}}"@ =~= seq!['}', '}']);
        assert(tests@.take(tests@.len() as int) =~= tests@);
        assert(board.results@.take(tests@.len() as int) =~= board.results@);
        assert(lines@.map_values(|l: String| l@) =~= spec_log_lines(
            tests@,
            *board,
            panel_dmc@,
            batch_start@,
            now_ts@,
        ));
    }
    join_lines(&lines)
}

} // verus!
