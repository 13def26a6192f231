use mseq_tb::config::Config as TesterConfig;
use mseq_tb::host::{Conductor, Config, ControlChange, BPM, LAST_STEP};
use mseq_tb::ports::{find_port, list_header, list_selection, port_line, PortError};

fn names(list: &[Option<&str>]) -> Vec<Option<Vec<u8>>> {
    list.iter().map(|n| n.map(|s| s.as_bytes().to_vec())).collect()
}

#[test]
fn port_by_index_or_name() {
    let ports = names(&[Some("Midi Through"), None, Some("UM-ONE"), Some("UM-ONE")]);
    assert_eq!(find_port(&ports, b"2"), Ok(2));
    assert_eq!(find_port(&ports, b"+0"), Ok(0));
    assert_eq!(find_port(&ports, b"UM-ONE"), Ok(2));
    assert_eq!(find_port(&ports, b"4"), Err(PortError::IndexNotFound(4)));
    assert_eq!(find_port(&ports, b"um-one"), Err(PortError::NameNotFound));
    assert_eq!(find_port(&ports, b""), Err(PortError::NameNotFound));
}

#[test]
fn listing() {
    assert_eq!(list_selection(false, false), (true, true));
    assert_eq!(list_selection(true, true), (true, true));
    assert_eq!(list_selection(true, false), (false, true));
    assert_eq!(list_selection(false, true), (true, false));
    assert_eq!(list_header("Output"), "Output ports:");
    assert_eq!(port_line(12, "UM-ONE"), "12: UM-ONE");
}

#[test]
fn host_config_port_override() {
    let cfg = Config { seed: 1, message_count: 10, interval_ms: 5, midi_port: Some(3), watchdog_ms: None };
    let cfg = cfg.with_port(None);
    assert_eq!(cfg.midi_port, Some(3));
    let cfg = cfg.with_port(Some(1));
    assert_eq!(cfg.midi_port, Some(1));
    assert_eq!(cfg.message_count, 10);
    let t = TesterConfig { seed: 42, interval_ms: 5, watchdog_ms: Some(2000) };
    assert_eq!(t.watchdog_ms, Some(2000));
}

#[test]
fn conductor_sends_cc_until_last_step() {
    let mut c = Conductor::default();
    let (bpm, ins) = c.init();
    assert_eq!(bpm, BPM);
    assert!(ins.is_empty());
    for step in 0..LAST_STEP {
        let ins = c.update(step).expect("instructions before the last step");
        assert!(ins.len() <= 4);
        assert!(ins.iter().all(|cc: &ControlChange| (1..=16).contains(&cc.channel_id) && cc.parameter <= 127 && cc.value <= 127));
    }
    assert!(c.update(LAST_STEP).is_none());
}
