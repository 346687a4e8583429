use ict_logsim::catalog::{build_catalog, TestDefinition, TestKind};
use ict_logsim::clock::ClockReading;
use ict_logsim::dec::{dec_lt_exec, Dec};
use ict_logsim::ident::generate_dmc;
use ict_logsim::log::render_board_log;
use ict_logsim::panel::{board_status, build_board, build_panel, Board};
use ict_logsim::sched::{
    generate_filename, init_run_state, its_time, run_export_cycle, tick, Config, RunState,
};
use ict_logsim::sim::{simulate_result, simulate_results, TestResult};
use ict_logsim::dec::dec_to_string;
use ict_logsim::clock::format_timestamp;

fn clock_may_29() -> ClockReading {
    ClockReading {
        year: 2024,
        ordinal: 150,
        month: 5,
        day: 29,
        hour: 12,
        minute: 0,
        second: 0,
        unix_seconds: 1716984000,
    }
}

fn dec(mant: u64, exp: i32) -> Dec {
    Dec { mant, exp }
}

fn small_catalog() -> Vec<TestDefinition> {
    vec![
        TestDefinition {
            name: String::from("pins"),
            kind: TestKind::Pin,
        },
        TestDefinition {
            name: String::from("c01"),
            kind: TestKind::Capacitor {
                min: dec(100000, -9),
                nominal: dec(120000, -9),
                max: dec(150000, -9),
            },
        },
    ]
}

#[test]
fn catalog_shape_and_names() {
    let cat = build_catalog(10, 10);
    assert_eq!(cat.len(), 21);
    assert_eq!(cat[0].name, "pins");
    assert!(matches!(cat[0].kind, TestKind::Pin));
    assert_eq!(cat[1].name, "c01");
    assert_eq!(cat[10].name, "c10");
    assert_eq!(cat[11].name, "r01");
    assert_eq!(cat[20].name, "r10");
}

#[test]
fn catalog_limits_strictly_ordered() {
    let cat = build_catalog(10, 10);
    for t in &cat {
        match &t.kind {
            TestKind::Pin => {}
            TestKind::Capacitor { min, nominal, max }
            | TestKind::Resistor { min, nominal, max } => {
                assert!(dec_lt_exec(min, nominal));
                assert!(dec_lt_exec(nominal, max));
                assert!(dec_lt_exec(min, max));
            }
        }
    }
}

#[test]
fn catalog_names_are_unique() {
    let cat = build_catalog(10, 10);
    let mut names: Vec<&str> = cat.iter().map(|t| t.name.as_str()).collect();
    names.sort();
    names.dedup();
    assert_eq!(names.len(), cat.len());
}

#[test]
fn empty_analog_catalogs_are_valid() {
    let cat = build_catalog(0, 0);
    assert_eq!(cat.len(), 1);
    assert_eq!(cat[0].name, "pins");
}

#[test]
fn pass_measurement_sits_inside_limits() {
    let cat = small_catalog();
    for _ in 0..50 {
        let r = simulate_result(&cat[1], 100);
        assert!(r.passed);
        match &cat[1].kind {
            TestKind::Capacitor { min, max, .. } => {
                assert!(dec_lt_exec(min, &r.measured));
                assert!(dec_lt_exec(&r.measured, max));
            }
            _ => unreachable!(),
        }
    }
}

#[test]
fn fail_measurement_sits_below_lower_limit() {
    let cat = small_catalog();
    for _ in 0..50 {
        let r = simulate_result(&cat[1], 0);
        assert!(!r.passed);
        match &cat[1].kind {
            TestKind::Capacitor { min, .. } => {
                assert!(dec_lt_exec(&r.measured, min));
            }
            _ => unreachable!(),
        }
    }
}

#[test]
fn pin_measurement_is_zero() {
    let cat = small_catalog();
    let r = simulate_result(&cat[0], 50);
    assert_eq!(r.measured, dec(0, 0));
}

#[test]
fn scientific_notation_exact_values() {
    assert_eq!(dec_to_string(&dec(123456, -9)), "+1.23456E-9");
    assert_eq!(dec_to_string(&dec(100000, 3)), "+1.00000E3");
    assert_eq!(dec_to_string(&dec(999999, 0)), "+9.99999E0");
    assert_eq!(dec_to_string(&dec(0, 0)), "+0.00000E0");
    assert_eq!(dec_to_string(&dec(500000, -12)), "+5.00000E-12");
}

#[test]
fn timestamp_exact_value() {
    assert_eq!(format_timestamp(&clock_may_29()), "240529120000");
}

#[test]
fn dmc_exact_value() {
    let s = generate_dmc(2024, 150, 42);
    assert_eq!(s, "L202415000042TB0001010111");
}

#[test]
fn dmc_is_deterministic() {
    let a = generate_dmc(2024, 150, 42);
    let b = generate_dmc(2024, 150, 42);
    assert_eq!(a, b);
}

#[test]
fn dmc_zero_padding() {
    let s = generate_dmc(987, 5, 3);
    assert_eq!(s, "L098700500003TB0001010111");
}

#[test]
fn board_status_fails_when_any_result_fails() {
    let pass = TestResult {
        passed: true,
        measured: dec(0, 0),
    };
    let fail = TestResult {
        passed: false,
        measured: dec(0, 0),
    };
    assert_eq!(board_status(&vec![pass, pass, pass]), "00");
    assert_eq!(board_status(&vec![pass, fail, pass]), "01");
    assert_eq!(board_status(&vec![fail]), "01");
    assert_eq!(board_status(&vec![]), "00");
}

#[test]
fn rendered_log_exact_text() {
    let cat = small_catalog();
    let board = Board {
        dmc: generate_dmc(2024, 150, 43),
        position: 1,
        results: vec![
            TestResult {
                passed: true,
                measured: dec(0, 0),
            },
            TestResult {
                passed: true,
                measured: dec(130000, -9),
            },
        ],
    };
    let s = render_board_log(
        &cat,
        &board,
        "L202415000042TB0001010111",
        "240529120000",
        "240529120100",
    );
    let expected = "{@BATCH|DUMMY||0101|1||btest|240529120000||i30704CE0101BZ01|DUMMY|RevA|DUMMY||D\n{@BTEST|L202415000043TB0001010111|00|240529120000|000000|0|all||n|n|240529120100||01|L202415000042TB0001010111\n{@PF|1%pins|0|0\n}\n{@BLOCK|1%c01|00\n{@A-CAP|0|+1.30000E-9{@LIM3|+1.20000E-9|+1.50000E-9|+1.00000E-9}}\n}\n}}";
    assert_eq!(s, expected);
}

#[test]
fn rendering_is_pure() {
    let cat = small_catalog();
    let board = build_board(&cat, 50, 2024, 150, 1, 1);
    let a = render_board_log(&cat, &board, "L202415000001TB0001010111", "240529120000", "240529120100");
    let b = render_board_log(&cat, &board, "L202415000001TB0001010111", "240529120000", "240529120100");
    assert_eq!(a, b);
}

#[test]
fn rendered_log_brace_balance() {
    let cat = build_catalog(10, 10);
    let board = build_board(&cat, 50, 2024, 150, 1, 1);
    let s = render_board_log(&cat, &board, "L202415000001TB0001010111", "240529120000", "240529120100");
    assert_eq!(s.matches("{@BATCH").count(), 1);
    assert_eq!(s.matches("{@BTEST").count(), 1);
    let opens = s.matches("{@PF|").count() + s.matches("{@BLOCK|").count();
    assert_eq!(opens, cat.len());
    let lines: Vec<&str> = s.split('\n').collect();
    let closes = lines.iter().filter(|l| **l == "}").count();
    assert_eq!(closes, cat.len());
    assert_eq!(*lines.last().unwrap(), "}}");
}

#[test]
fn full_yield_scenario() {
    let cat = small_catalog();
    let results = simulate_results(&cat, 100);
    assert!(results.iter().all(|r| r.passed));
    match &cat[1].kind {
        TestKind::Capacitor { min, max, .. } => {
            assert!(dec_lt_exec(min, &results[1].measured));
            assert!(dec_lt_exec(&results[1].measured, max));
        }
        _ => unreachable!(),
    }
    assert_eq!(board_status(&results), "00");
    let board = Board {
        dmc: generate_dmc(2024, 150, 2),
        position: 1,
        results,
    };
    let s = render_board_log(
        &cat,
        &board,
        "L202415000001TB0001010111",
        "240529120000",
        "240529120100",
    );
    assert_eq!(s.matches("{@PF|1%pins|0|0\n}").count(), 1);
    assert_eq!(s.matches("{@BLOCK|1%c01|00").count(), 1);
}

#[test]
fn zero_yield_scenario() {
    for (caps, ress) in [(0u64, 0u64), (3, 2), (10, 10)] {
        let cat = build_catalog(caps, ress);
        let results = simulate_results(&cat, 0);
        assert!(results.iter().all(|r| !r.passed));
        assert_eq!(board_status(&results), "01");
    }
}

#[test]
fn sequence_advances_by_panel_count() {
    let cat = build_catalog(2, 2);
    let cfg = Config::new(true, 5, 30, 99, 1);
    let mut state = RunState {
        next_sequence: 1,
        last_export: 0,
        batch_start: String::from("240529120000"),
    };
    let clock = clock_may_29();
    let (panel, files) = run_export_cycle(&cat, &cfg, &mut state, clock);
    assert_eq!(state.next_sequence, 6);
    assert_eq!(files.len(), 5);
    assert_eq!(panel.boards.len(), 5);
    // The panel identifier uses the base sequence, boards the offsets 2..=6.
    assert_eq!(panel.dmc, "L202415000001TB0001010111");
    assert_eq!(panel.boards[0].dmc, "L202415000002TB0001010111");
    assert_eq!(panel.boards[4].dmc, "L202415000006TB0001010111");
    let (panel2, _files2) = run_export_cycle(&cat, &cfg, &mut state, clock);
    assert_eq!(state.next_sequence, 11);
    // Second cycle: board identifiers use sequence offsets 7..=11.
    for (i, b) in panel2.boards.iter().enumerate() {
        let expected = format!("L2024150{:05}TB0001010111", 7 + i);
        assert_eq!(b.dmc, expected);
    }
}

#[test]
fn panel_positions_are_one_based_and_unique() {
    let cat = build_catalog(1, 1);
    let panel = build_panel(&cat, 99, 2024, 150, 1, 20);
    assert_eq!(panel.boards.len(), 20);
    for (i, b) in panel.boards.iter().enumerate() {
        assert_eq!(b.position as usize, i + 1);
        assert_eq!(b.results.len(), cat.len());
    }
}

#[test]
fn filename_grammar() {
    let name = generate_filename(7, "240529120000");
    assert_eq!(name, "7-240529120000I3070CE0101BZ01");
}

#[test]
fn export_cycle_file_names_and_contents() {
    let cat = build_catalog(1, 1);
    let cfg = Config::new(true, 3, 30, 99, 10);
    let mut state = RunState {
        next_sequence: 10,
        last_export: 0,
        batch_start: String::from("240529115900"),
    };
    let (panel, files) = run_export_cycle(&cat, &cfg, &mut state, clock_may_29());
    for (i, f) in files.iter().enumerate() {
        assert_eq!(f.name, format!("{}-240529120000I3070CE0101BZ01", i + 1));
        let again = render_board_log(
            &cat,
            &panel.boards[i],
            panel.dmc.as_str(),
            "240529115900",
            "240529120000",
        );
        assert_eq!(f.content, again);
    }
}

#[test]
fn timer_fires_only_when_enabled_and_elapsed() {
    assert!(its_time(true, 100, 60, 30));
    assert!(!its_time(true, 90, 60, 30));
    assert!(!its_time(true, 60, 60, 30));
    assert!(!its_time(false, 100, 60, 30));
}

#[test]
fn config_clamps_out_of_range_options() {
    let c = Config::new(true, 0, 1, 250, 1);
    assert_eq!(c.panel_count, 1);
    assert_eq!(c.interval_seconds, 5);
    assert_eq!(c.yield_percent, 100);
    let c = Config::new(true, 200, 600, 50, 1);
    assert_eq!(c.panel_count, 20);
    assert_eq!(c.interval_seconds, 60);
    assert_eq!(c.yield_percent, 50);
    let c = Config::default();
    assert!(!c.enabled);
    assert_eq!(c.panel_count, 20);
    assert_eq!(c.interval_seconds, 30);
    assert_eq!(c.yield_percent, 99);
    assert_eq!(c.starting_sequence, 1);
}

#[test]
fn run_state_starts_at_configured_sequence() {
    let cfg = Config::new(false, 20, 30, 99, 123);
    let state = init_run_state(&cfg).unwrap();
    assert_eq!(state.next_sequence, 123);
    assert_eq!(state.batch_start.len(), 12);
    assert!(state.batch_start.chars().all(|c| c.is_ascii_digit()));
}

#[test]
fn disabled_tick_never_fires() {
    let cat = build_catalog(1, 1);
    let cfg = Config::new(false, 5, 30, 99, 1);
    let mut state = init_run_state(&cfg).unwrap();
    let before = state.next_sequence;
    assert!(tick(&cat, &cfg, &mut state).is_none());
    assert_eq!(state.next_sequence, before);
}

#[test]
fn enabled_tick_fires_after_interval() {
    let cat = build_catalog(1, 1);
    let cfg = Config::new(true, 4, 5, 99, 1);
    let mut state = init_run_state(&cfg).unwrap();
    // Pretend the last export lies far in the past.
    state.last_export = 0;
    let fired = tick(&cat, &cfg, &mut state).expect("tick should fire");
    assert_eq!(fired.1.len(), 4);
    assert_eq!(state.next_sequence, 5);
}

#[test]
fn clock_reading_feeds_timestamp_format() {
    let cat = build_catalog(0, 0);
    let cfg = Config::new(true, 1, 30, 99, 1);
    let mut state = RunState {
        next_sequence: 1,
        last_export: 0,
        batch_start: String::from("000000000000"),
    };
    let c = ClockReading {
        year: 2026,
        ordinal: 284,
        month: 10,
        day: 11,
        hour: 9,
        minute: 8,
        second: 7,
        unix_seconds: 1760000000,
    };
    let (_panel, files) = run_export_cycle(&cat, &cfg, &mut state, c);
    assert_eq!(files[0].name, "1-261011090807I3070CE0101BZ01");
}
