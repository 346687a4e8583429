//! The export scheduler: the configuration state, the run state, the firing
//! decision, and one export cycle — assembling a fresh panel and rendering
//! one named log file per board. Writing the files to disk is the caller's
//! business; a cycle only computes their names and contents.

use vstd::prelude::*;
use crate::catalog::TestDefinition;
use crate::catalog::catalog_wf;
use crate::clock::ClockReading;
use crate::clock::ts_in_range;
use crate::clock::clock_formattable;
use crate::clock::clock_formattable_exec;
use crate::clock::spec_timestamp;
use crate::clock::format_timestamp;
use crate::clock::read_clock;
use crate::digits::spec_nat_digits;
use crate::digits::nat_digits;
use crate::log::spec_log;
use crate::log::render_board_log;
use crate::panel::Panel;
use crate::panel::panel_ok;
use crate::panel::build_panel;

verus! {

/// The configuration options, each kept inside its documented range.
pub struct Config {
    /// Gates firing; exports happen only while set.
    pub enabled: bool,
    /// Boards per panel, 1 to 20.
    pub panel_count: u8,
    /// Minimum seconds between exports, 5 to 60.
    pub interval_seconds: i64,
    /// Percent probability that a simulated test passes, 0 to 100.
    pub yield_percent: u64,
    /// Initial value of the identifier sequence counter.
    pub starting_sequence: u64,
}

/// Clamp a value into `[lo, hi]`.
pub open spec fn spec_clamp(v: int, lo: int, hi: int) -> int {
    if v < lo {
        lo
    } else if v > hi {
        hi
    } else {
        v
    }
}

impl Config {
    /// The ranged options sit inside their documented ranges.
    pub open spec fn wf(self) -> bool {
        &&& 1 <= self.panel_count <= 20
        &&& 5 <= self.interval_seconds <= 60
        &&& self.yield_percent <= 100
    }

    /// Build a configuration, clamping each ranged option at the boundary so
    /// that no out-of-range value ever reaches the core.
    pub fn new(
        enabled: bool,
        panel_count: u8,
        interval_seconds: i64,
        yield_percent: u64,
        starting_sequence: u64,
    ) -> (c: Config)
        ensures
            c.wf(),
            c.enabled == enabled,
            c.panel_count == spec_clamp(panel_count as int, 1, 20),
            c.interval_seconds == spec_clamp(interval_seconds as int, 5, 60),
            c.yield_percent == spec_clamp(yield_percent as int, 0, 100),
            c.starting_sequence == starting_sequence,
    {
        Config {
            enabled,
            panel_count: if panel_count < 1 {
                1
            } else if panel_count > 20 {
                20
            } else {
                panel_count
            },
            interval_seconds: if interval_seconds < 5 {
                5
            } else if interval_seconds > 60 {
                60
            } else {
                interval_seconds
            },
            yield_percent: if yield_percent > 100 {
                100
            } else {
                yield_percent
            },
            starting_sequence,
        }
    }
}

impl Default for Config {
    /// The documented defaults: disabled, 20 boards per panel, 30 seconds
    /// between exports, 99 percent yield, sequence counter starting at 1.
    fn default() -> (c: Config)
        ensures
            c.wf(),
            !c.enabled,
            c.panel_count == 20,
            c.interval_seconds == 30,
            c.yield_percent == 99,
            c.starting_sequence == 1,
    {
        Config {
            enabled: false,
            panel_count: 20,
            interval_seconds: 30,
            yield_percent: 99,
            starting_sequence: 1,
        }
    }
}

/// The mutable run state: the next identifier sequence value, the time of
/// the last export, and the batch start timestamp fixed at process start.
pub struct RunState {
    pub next_sequence: u64,
    pub last_export: i64,
    pub batch_start: String,
}

impl RunState {
    pub open spec fn wf(self) -> bool {
        ts_in_range(self.last_export)
    }
}

/// Start the run state from the current wall clock: the sequence counter at
/// its configured start, the batch timestamp fixed to now. Returns `None`
/// when the clock reading cannot be rendered with a four-digit year.
pub fn init_run_state(cfg: &Config) -> (r: Option<RunState>)
    ensures
        r matches Some(s) ==> {
            &&& s.wf()
            &&& s.next_sequence == cfg.starting_sequence
            &&& exists|c: ClockReading|
                #[trigger] clock_formattable(c) && s.batch_start@ == spec_timestamp(c)
                    && s.last_export == c.unix_seconds
        },
{
    let c = read_clock();
    if !clock_formattable_exec(&c) {
        return None;
    }
    let batch_start = format_timestamp(&c);
    Some(
        RunState {
            next_sequence: cfg.starting_sequence,
            last_export: c.unix_seconds,
            batch_start,
        },
    )
}

/// The firing condition: enabled, and more than the configured interval has
/// elapsed since the last export.
pub open spec fn spec_should_fire(enabled: bool, now: i64, last: i64, interval: i64) -> bool {
    enabled && now - last > interval
}

/// Decide whether an export cycle fires at time `now`.
pub fn its_time(enabled: bool, now: i64, last: i64, interval: i64) -> (r: bool)
    requires
        ts_in_range(now),
        ts_in_range(last),
    ensures
        r == spec_should_fire(enabled, now, last, interval),
{
    enabled && now - last > interval
}

/// A board log file to be written: its name and its full text.
pub struct ExportFile {
    pub name: String,
    pub content: String,
}

/// The file name for one board's log: the board position, a dash, the
/// firing timestamp, and a fixed station suffix, with no extension.
pub open spec fn spec_filename(position: nat, ts: Seq<char>) -> Seq<char> {
    spec_nat_digits(position) + seq!['-'] + ts + "I3070CE0101BZ01"@
}

/// Render the file name for one board's log.
pub fn generate_filename(position: u8, ts: &str) -> (s: String)
    ensures
        s@ == spec_filename(position as nat, ts@),
{
    let mut s = nat_digits(position as u64);
    s.append("-");
    s.append(ts);
    s.append("I3070CE0101BZ01");
    proof {
        reveal_strlit("-");
        assert(s@ =~= spec_filename(position as nat, ts@));
    }
    s
}

/// Run one export cycle at the clock reading `clock`: assemble a fresh
/// panel, render one log file per board, and advance the run state — the
/// sequence counter by the panel count, the last export time to now. The
/// previous panel is discarded entirely.
pub fn run_export_cycle(
    tests: &Vec<TestDefinition>,
    cfg: &Config,
    state: &mut RunState,
    clock: ClockReading,
) -> (r: (Panel, Vec<ExportFile>))
    requires
        catalog_wf(tests@),
        cfg.wf(),
        clock_formattable(clock),
        old(state).next_sequence + cfg.panel_count <= 99999,
    ensures
        final(state).next_sequence == old(state).next_sequence + cfg.panel_count,
        final(state).last_export == clock.unix_seconds,
        final(state).batch_start == old(state).batch_start,
        panel_ok(
            r.0,
            tests@,
            clock.year as nat,
            clock.ordinal as nat,
            old(state).next_sequence as nat,
            cfg.panel_count as nat,
        ),
        r.1@.len() == cfg.panel_count,
        forall|p: int|
            0 <= p < cfg.panel_count ==> {
                &&& (#[trigger] r.1@[p]).name@ == spec_filename(
                    (p + 1) as nat,
                    spec_timestamp(clock),
                )
                &&& r.1@[p].content@ == spec_log(
                    tests@,
                    r.0.boards@[p],
                    r.0.dmc@,
                    old(state).batch_start@,
                    spec_timestamp(clock),
                )
            },
{
    let ts = format_timestamp(&clock);
    let panel = build_panel(
        tests,
        cfg.yield_percent,
        clock.year as u32,
        clock.ordinal,
        state.next_sequence,
        cfg.panel_count,
    );
    let mut files: Vec<ExportFile> = Vec::new();
    let mut p: usize = 0;
    while p < panel.boards.len()
        invariant
            catalog_wf(tests@),
            cfg.wf(),
            clock_formattable(clock),
            *state == *old(state),
            ts@ == spec_timestamp(clock),
            panel_ok(
                panel,
                tests@,
                clock.year as nat,
                clock.ordinal as nat,
                old(state).next_sequence as nat,
                cfg.panel_count as nat,
            ),
            0 <= p <= panel.boards@.len(),
            files@.len() == p,
            forall|q: int|
                0 <= q < p ==> {
                    &&& (#[trigger] files@[q]).name@ == spec_filename(
                        (q + 1) as nat,
                        spec_timestamp(clock),
                    )
                    &&& files@[q].content@ == spec_log(
                        tests@,
                        panel.boards@[q],
                        panel.dmc@,
                        old(state).batch_start@,
                        spec_timestamp(clock),
                    )
                },
        decreases panel.boards@.len() - p,
    {
        let board = &panel.boards[p];
        let name = generate_filename(board.position, ts.as_str());
        let content = render_board_log(
            tests,
            board,
            panel.dmc.as_str(),
            state.batch_start.as_str(),
            ts.as_str(),
        );
        files.push(ExportFile { name, content });
        p = p + 1;
    }
    state.next_sequence = state.next_sequence + cfg.panel_count as u64;
    state.last_export = clock.unix_seconds;
    (panel, files)
}

/// What one fired tick guarantees of its panel and files, at some
/// formattable clock reading `c`.
pub open spec fn cycle_ok(
    panel: Panel,
    files: Seq<ExportFile>,
    tests: Seq<TestDefinition>,
    seq_base: nat,
    batch_start: Seq<char>,
    panel_count: nat,
    c: ClockReading,
) -> bool {
    &&& clock_formattable(c)
    &&& panel_ok(panel, tests, c.year as nat, c.ordinal as nat, seq_base, panel_count)
    &&& files.len() == panel_count
    &&& forall|p: int|
        0 <= p < panel_count ==> {
            &&& (#[trigger] files[p]).name@ == spec_filename((p + 1) as nat, spec_timestamp(c))
            &&& files[p].content@ == spec_log(
                tests,
                panel.boards@[p],
                panel.dmc@,
                batch_start,
                spec_timestamp(c),
            )
        }
}

/// One scheduler tick: read the clock, and fire an export cycle when the
/// enabled flag is set and the interval has elapsed. Returns the assembled
/// panel and the files to write, or `None` when the cycle did not fire (or
/// the clock could not be rendered with a four-digit year). Whatever time
/// the clock returns: a fired tick advances the sequence counter by the
/// panel count and leaves the batch timestamp alone, and a silent tick
/// leaves the state untouched. With the enabled flag clear it never fires.
pub fn tick(tests: &Vec<TestDefinition>, cfg: &Config, state: &mut RunState) -> (r: Option<
    (Panel, Vec<ExportFile>),
>)
    requires
        catalog_wf(tests@),
        cfg.wf(),
        old(state).wf(),
        old(state).next_sequence + cfg.panel_count <= 99999,
    ensures
        final(state).wf(),
        r is None ==> *final(state) == *old(state),
        !cfg.enabled ==> r is None,
        r is Some ==> final(state).next_sequence == old(state).next_sequence + cfg.panel_count,
        r is Some ==> final(state).batch_start == old(state).batch_start,
        r matches Some(x) ==> exists|c: ClockReading|
            #[trigger] cycle_ok(
                x.0,
                x.1@,
                tests@,
                old(state).next_sequence as nat,
                old(state).batch_start@,
                cfg.panel_count as nat,
                c,
            ),
{
    let c = read_clock();
    if !clock_formattable_exec(&c) {
        return None;
    }
    if !its_time(cfg.enabled, c.unix_seconds, state.last_export, cfg.interval_seconds) {
        return None;
    }
    let out = run_export_cycle(tests, cfg, state, c);
    let res = Some(out);
    proof {
        match res {
            Some(ref x) => {
                assert(cycle_ok(
                    x.0,
                    x.1@,
                    tests@,
                    old(state).next_sequence as nat,
                    old(state).batch_start@,
                    cfg.panel_count as nat,
                    c,
                ));
                assert(exists|cc: ClockReading|
                    #[trigger] cycle_ok(
                        x.0,
                        x.1@,
                        tests@,
                        old(state).next_sequence as nat,
                        old(state).batch_start@,
                        cfg.panel_count as nat,
                        cc,
                    ));
            },
            None => {},
        }
    }
    res
}

} // verus!
