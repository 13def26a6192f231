use mseq_tb::crc32::{checksum, Crc32Digest};
use mseq_tb::midi::{note_on, random_midi_message, MessageRun, MessageSource, MidiFilter, ReceiveStats};
use mseq_tb::receive::{Receiver, RxEvent, RxStep, WATCHDOG_CYCLES};
use rand::SeedableRng;

#[test]
fn crc32_check_value() {
    assert_eq!(checksum(b"123456789"), 0xCBF4_3926);
    assert_eq!(checksum(b""), 0);
}

#[test]
fn crc32_digest_in_pieces() {
    let mut d = Crc32Digest::new();
    d.update(b"1234");
    d.update(b"");
    d.update(b"56789");
    assert_eq!(d.finalize(), 0xCBF4_3926);
}

#[test]
fn filter_drops_realtime_common_and_sysex() {
    let mut f = MidiFilter::new();
    let input = [0x90, 0xF8, 0x40, 0xF0, 0x01, 0x02, 0xF7, 0x7F, 0xF1, 0x80, 0xFE];
    let kept: Vec<u8> = input.iter().copied().filter(|&b| f.accept(b)).collect();
    assert_eq!(kept, vec![0x90, 0x40, 0x7F, 0x80]);
    assert!(!f.sysex_active);
}

#[test]
fn filter_keeps_sysex_state_across_pieces() {
    let mut stats = ReceiveStats::new();
    stats.feed(&[0x90, 0x3C, 0x40, 0xF0, 0x7E]);
    stats.feed(&[0x00, 0x0D, 0x70]);
    stats.feed(&[0x01, 0xF7, 0x80, 0x3C, 0x00]);
    let (crc, count) = stats.finish();
    assert_eq!(count, 6);
    assert_eq!(crc, checksum(&[0x90, 0x3C, 0x40, 0x80, 0x3C, 0x00]));
}

#[test]
fn note_on_sets_channel() {
    assert_eq!(note_on(0, 60, 100), [0x90, 60, 100]);
    assert_eq!(note_on(15, 127, 1), [0x9F, 127, 1]);
}

#[test]
fn random_messages_are_note_on() {
    let mut rng = rand::rngs::SmallRng::seed_from_u64(7);
    for _ in 0..1000 {
        let m = random_midi_message(&mut rng);
        assert!((0x90..=0x9F).contains(&m[0]));
        assert!(m[1] <= 127);
        assert!((1..=127).contains(&m[2]));
    }
}

#[test]
fn sender_and_receiver_agree() {
    let mut run = MessageRun::new(42, 3000);
    let mut stats = ReceiveStats::new();
    let mut sent = Vec::new();
    while let Some(msg) = run.next_message() {
        sent.extend_from_slice(&msg);
        stats.feed(&msg);
    }
    let (tx_crc, tx_bytes) = run.finish();
    let (rx_crc, rx_bytes) = stats.finish();
    assert_eq!(tx_bytes, 9000);
    assert_eq!((tx_crc, tx_bytes), (rx_crc, rx_bytes));
    assert_eq!(tx_crc, checksum(&sent));
}

#[test]
fn message_source_counts_bytes() {
    let mut src = MessageSource::new(1);
    let a = src.next_message();
    let b = src.next_message();
    let (crc, n) = src.finish();
    assert_eq!(n, 6);
    let mut all = a.to_vec();
    all.extend_from_slice(&b);
    assert_eq!(crc, checksum(&all));
}

#[test]
fn receiver_reports_after_watchdog() {
    let mut rx = Receiver::new();
    let bytes = [0xF8, 0x90, 0x3C, 0xF0, 0x11, 0xF7, 0x40];
    for (i, &b) in bytes.iter().enumerate() {
        rx = match rx.step(RxEvent::Byte { byte: b, now: i as u32 }) {
            RxStep::Continue(r) => r,
            RxStep::Report { .. } => panic!("report before silence"),
        };
    }
    assert_eq!(rx.byte_count(), 3);
    rx = match rx.step(RxEvent::Idle { now: 6 + WATCHDOG_CYCLES - 1 }) {
        RxStep::Continue(r) => r,
        RxStep::Report { .. } => panic!("report too early"),
    };
    rx = match rx.step(RxEvent::Fault) {
        RxStep::Continue(r) => r,
        RxStep::Report { .. } => panic!("report on a fault"),
    };
    match rx.step(RxEvent::Idle { now: 6 + WATCHDOG_CYCLES }) {
        RxStep::Report { crc, byte_count } => {
            assert_eq!(byte_count, 3);
            assert_eq!(crc, checksum(&[0x90, 0x3C, 0x40]));
        }
        RxStep::Continue(_) => panic!("no report"),
    }
}

#[test]
fn receiver_waits_for_a_first_byte() {
    let mut rx = Receiver::new();
    for now in [0u32, WATCHDOG_CYCLES, u32::MAX] {
        rx = match rx.step(RxEvent::Idle { now }) {
            RxStep::Continue(r) => r,
            RxStep::Report { .. } => panic!("report with nothing received"),
        };
    }
    // A real-time byte alone does not start the watchdog
    rx = match rx.step(RxEvent::Byte { byte: 0xFA, now: 0 }) {
        RxStep::Continue(r) => r,
        RxStep::Report { .. } => unreachable!(),
    };
    assert!(matches!(rx.step(RxEvent::Idle { now: WATCHDOG_CYCLES }), RxStep::Continue(_)));
}

#[test]
fn receiver_watchdog_across_counter_wrap() {
    let mut rx = Receiver::new();
    let start = u32::MAX - 10;
    rx = match rx.step(RxEvent::Byte { byte: 0x90, now: start }) {
        RxStep::Continue(r) => r,
        RxStep::Report { .. } => unreachable!(),
    };
    let now = start.wrapping_add(WATCHDOG_CYCLES);
    assert!(now < start);
    match rx.step(RxEvent::Idle { now }) {
        RxStep::Report { byte_count, .. } => assert_eq!(byte_count, 1),
        RxStep::Continue(_) => panic!("no report after wrap"),
    }
}

#[test]
fn board_and_host_receivers_agree() {
    let stream = [0x90, 0x3C, 0xF8, 0x40, 0xF0, 0x7E, 0x01, 0xF7, 0xF3, 0x80, 0x3C, 0x00];
    let mut host = ReceiveStats::new();
    host.feed(&stream[..5]);
    host.feed(&stream[5..]);
    let mut rx = Receiver::new();
    for &b in stream.iter() {
        rx = match rx.step(RxEvent::Byte { byte: b, now: 0 }) {
            RxStep::Continue(r) => r,
            RxStep::Report { .. } => panic!("report before silence"),
        };
    }
    assert_eq!(rx.byte_count(), host.byte_count());
    let (host_crc, host_count) = host.finish();
    assert_eq!(host_count, 6);
    match rx.step(RxEvent::Idle { now: WATCHDOG_CYCLES }) {
        RxStep::Report { crc, byte_count } => {
            assert_eq!(byte_count, host_count);
            assert_eq!(crc, host_crc);
            assert_eq!(crc, checksum(&[0x90, 0x3C, 0x40, 0x80, 0x3C, 0x00]));
        }
        RxStep::Continue(_) => panic!("no report"),
    }
}
