use mseq_tb::bpm::{period_us, BeatCounter, BeatStep, BEATS, TARGET_BPM};
use mseq_tb::display::{
    self, display_transfers, draw_number, lines_idle, probe_transfer, random_number, transfer, Frame,
    CMD, DATA, DISPLAY_ON, HEIGHT, WIDTH,
};
use mseq_tb::rtt_logger::{log_level, parse_log_level, Level, LevelFilter, RttLogger};
use mseq_tb::switch::{level, verdict, Debouncer, PinState, SwitchStep, SwitchTest, Wait, DEBOUNCE_CYCLES, TIMEOUT_CYCLES};
use mseq_tb::timing::{elapsed_cycles, elapsed_ms};

#[test]
fn digits_drawn_scaled_and_centred() {
    let mut frame = Frame::blank();
    draw_number(&mut frame, 7);
    // one digit: 5 columns of 4 pixels, centred: x from 54 to 73, y from 18 to 45
    let lit: Vec<(usize, usize)> = (0..HEIGHT)
        .flat_map(|y| (0..WIDTH).map(move |x| (x, y)))
        .filter(|&(x, y)| frame.is_lit(x, y))
        .collect();
    assert!(lit.iter().all(|&(x, y)| (54..74).contains(&x) && (18..46).contains(&y)));
    // glyph 7, column 0 is 0x01: only its top dot, a 4x4 square at (54, 18)
    for dx in 0..4 {
        for dy in 0..4 {
            assert!(frame.is_lit(54 + dx, 18 + dy));
        }
    }
    assert!(!frame.is_lit(54, 22));
    // column 1 is 0x71: rows 0, 4, 5, 6
    assert!(frame.is_lit(58, 18) && frame.is_lit(58, 34) && frame.is_lit(58, 42) && !frame.is_lit(58, 26));
}

#[test]
fn four_digits_fill_92_columns() {
    let mut frame = Frame::blank();
    draw_number(&mut frame, 8888);
    let cols: Vec<usize> = (0..WIDTH).filter(|&x| (0..HEIGHT).any(|y| frame.is_lit(x, y))).collect();
    assert_eq!(*cols.first().unwrap(), 18);
    assert_eq!(*cols.last().unwrap(), 18 + 92 - 1);
    // the gap between two digits stays dark
    assert!((0..HEIGHT).all(|y| !frame.is_lit(18 + 20, y)));
}

#[test]
fn zero_is_one_digit() {
    let mut frame = Frame::blank();
    draw_number(&mut frame, 0);
    assert!(frame.is_lit(54 + 4, 18));
    assert!(!frame.is_lit(50, 30));
}

#[test]
fn display_transfer_sequence() {
    let mut frame = Frame::blank();
    draw_number(&mut frame, 42);
    let t = display_transfers(&frame);
    assert_eq!(t.len(), 18);
    assert_eq!(t[0][0], CMD);
    assert_eq!(&t[0][1..], &display::INIT[..]);
    assert_eq!(t[1], vec![CMD, 0xB0, 0x00, 0x10]);
    assert_eq!(t[15], vec![CMD, 0xB7, 0x00, 0x10]);
    assert_eq!(t[4].len(), 129);
    assert_eq!(t[4][0], DATA);
    assert_eq!(&t[4][1..], &frame.page(1)[..]);
    assert_eq!(t[17], vec![CMD, DISPLAY_ON]);
    assert_eq!(probe_transfer(), vec![CMD, 0xE3]);
    assert_eq!(transfer(DATA, &[1, 2]), vec![DATA, 1, 2]);
}

#[test]
fn display_helpers() {
    assert!(lines_idle(true, true));
    assert!(!lines_idle(true, false));
    assert_eq!(display::level(true), "high");
    assert_eq!(display::level(false), "low");
    for seed in 0..200 {
        assert!(random_number(seed) <= 9999);
    }
}

#[test]
fn debouncer_needs_a_steady_change() {
    let mut d = Debouncer::new(PinState::Low);
    assert!(matches!(d.sample(0, PinState::Low), Wait::Pending));
    assert!(matches!(d.sample(10, PinState::High), Wait::Pending));
    // a bounce back restarts the debounce time
    assert!(matches!(d.sample(10 + DEBOUNCE_CYCLES, PinState::Low), Wait::Pending));
    assert!(matches!(d.sample(20 + DEBOUNCE_CYCLES, PinState::High), Wait::Pending));
    assert!(matches!(d.sample(20 + 2 * DEBOUNCE_CYCLES, PinState::High), Wait::Changed(PinState::High)));
}

#[test]
fn debouncer_times_out() {
    let mut d = Debouncer::new(PinState::High);
    assert!(matches!(d.sample(5, PinState::High), Wait::Pending));
    assert!(matches!(d.sample(5 + TIMEOUT_CYCLES - 1, PinState::High), Wait::Pending));
    assert!(matches!(d.sample(5 + TIMEOUT_CYCLES, PinState::High), Wait::TimedOut));
}

#[test]
fn switch_test_two_flips() {
    let mut t = SwitchTest::new(PinState::Low);
    assert_eq!(t.next_flip(), 1);
    assert!(matches!(t.sample(0, PinState::High), SwitchStep::Waiting));
    match t.sample(DEBOUNCE_CYCLES, PinState::High) {
        SwitchStep::Flipped { level, flip } => assert!(level == PinState::High && flip == 1),
        _ => panic!(),
    }
    assert!(!t.passed());
    assert_eq!(t.next_flip(), 2);
    assert!(matches!(t.sample(100, PinState::Low), SwitchStep::Waiting));
    assert!(matches!(t.sample(100 + DEBOUNCE_CYCLES, PinState::Low), SwitchStep::Flipped { flip: 2, .. }));
    assert!(t.passed());
    assert_eq!(level(PinState::High), "HIGH (3.3 V)");
    assert_eq!(level(PinState::Low), "LOW (GND)");
    assert_eq!(verdict(true), "SWITCH PASS");
    assert_eq!(verdict(false), "SWITCH FAIL");
}

#[test]
fn switch_test_fails_without_flip() {
    let mut t = SwitchTest::new(PinState::High);
    assert!(matches!(t.sample(0, PinState::High), SwitchStep::Waiting));
    assert!(matches!(t.sample(TIMEOUT_CYCLES, PinState::High), SwitchStep::Failed));
}

#[test]
fn beat_counter_runs_fifty_beats() {
    assert_eq!(period_us(TARGET_BPM), 20_833);
    let mut c = BeatCounter::new();
    let mut beats = vec![];
    let mut wakeups = 0;
    loop {
        wakeups += 1;
        match c.on_wakeup() {
            BeatStep::Tick => {}
            BeatStep::Beat(n) => beats.push((wakeups, n)),
            BeatStep::Done(n) => {
                beats.push((wakeups, n));
                break;
            }
        }
    }
    assert_eq!(wakeups, 1200);
    assert_eq!(beats.len(), BEATS as usize);
    assert!(beats.iter().all(|&(w, n)| w == 24 * n));
}

#[test]
fn cycle_counter_arithmetic() {
    assert_eq!(elapsed_cycles(10, 15), 5);
    assert_eq!(elapsed_cycles(u32::MAX, 4), 5);
    assert_eq!(elapsed_ms(0, 250_000), 2);
    assert_eq!(elapsed_ms(u32::MAX - 99_999, 0), 1);
}

#[test]
fn log_levels() {
    assert!(parse_log_level(b"error") == LevelFilter::Error);
    assert!(parse_log_level(b"warn") == LevelFilter::Warn);
    assert!(parse_log_level(b"debug") == LevelFilter::Debug);
    assert!(parse_log_level(b"trace") == LevelFilter::Trace);
    assert!(parse_log_level(b"info") == LevelFilter::Info);
    assert!(parse_log_level(b"TRACE") == LevelFilter::Info);
    assert!(parse_log_level(b"") == LevelFilter::Info);
    assert!(log_level(None) == LevelFilter::Info);
    assert!(log_level(Some(b"warn")) == LevelFilter::Warn);
}

#[test]
fn logger_filters_and_colours() {
    let logger = RttLogger::new(LevelFilter::Info);
    assert!(logger.level() == LevelFilter::Info);
    assert!(logger.enabled(Level::Error));
    assert!(logger.enabled(Level::Info));
    assert!(!logger.enabled(Level::Debug));
    assert_eq!(RttLogger::color_for(Level::Error), "\x1B[31m");
    assert_eq!(RttLogger::color_for(Level::Trace), "\x1B[90m");
    assert_eq!(
        logger.line(Level::Warn, "fw::nor", "Still busy after 20 ms"),
        Some("\x1B[33m[WARN]\x1B[0m fw::nor - Still busy after 20 ms".to_string())
    );
    assert_eq!(logger.line(Level::Trace, "fw", "x"), None);
    assert!(!RttLogger::new(LevelFilter::Off).enabled(Level::Error));
}
