use mseq_tb::fram::{self, FramError, FramNote, FramStep, FramTest, PatternSource};
use mseq_tb::nor::{self, nor_pattern, NorError, NorNote, NorStep, NorTest};
use mseq_tb::spi_bus::{first_mismatch, mhz, speeds, SpeedSweep, Transfer};

/// A W25Q16JV as the datasheet describes it, for the parts the test uses.
struct Flash {
    mem: Vec<u8>,
    sr: [u8; 3],
    busy_polls: u32,
    id: [u8; 3],
}

impl Flash {
    fn new() -> Self {
        Flash { mem: vec![0x5A; 0x20_0000], sr: [0x1C, 0x40, 0x04], busy_polls: 0, id: [0xEF, 0x40, 0x15] }
    }

    fn addr(cmd: &[u8]) -> usize {
        ((cmd[1] as usize) << 16) | ((cmd[2] as usize) << 8) | cmd[3] as usize
    }

    fn apply(&mut self, t: Transfer) -> Vec<u8> {
        let wel = self.sr[0] & 0x02 != 0;
        match t {
            Transfer::Write { cmd, data } => {
                match cmd[0] {
                    0x06 => self.sr[0] |= 0x02,
                    0xAB => {}
                    0x01 | 0x31 | 0x11 if wel => {
                        let r = match cmd[0] { 0x01 => 0, 0x31 => 1, _ => 2 };
                        self.sr[r] = if r == 0 { cmd[1] & !0x03 } else { cmd[1] };
                        self.sr[0] &= !0x02;
                        self.busy_polls = 1;
                    }
                    0x20 if wel => {
                        let a = Self::addr(&cmd) & !0xFFF;
                        self.mem[a..a + 4096].iter_mut().for_each(|b| *b = 0xFF);
                        self.sr[0] &= !0x02;
                        self.busy_polls = 3;
                    }
                    0x02 if wel => {
                        let a = Self::addr(&cmd);
                        for (i, d) in data.iter().enumerate() {
                            self.mem[a + i] &= d;
                        }
                        self.sr[0] &= !0x02;
                        self.busy_polls = 2;
                    }
                    _ => {}
                }
                vec![]
            }
            Transfer::Read { cmd, len } => match cmd[0] {
                0x9F => self.id[..len].to_vec(),
                0x05 => {
                    let busy = if self.busy_polls > 0 {
                        self.busy_polls -= 1;
                        0x01
                    } else {
                        0
                    };
                    vec![self.sr[0] | busy]
                }
                0x35 => vec![self.sr[1]],
                0x15 => vec![self.sr[2]],
                0x03 => {
                    let a = Self::addr(&cmd);
                    self.mem[a..a + len].to_vec()
                }
                _ => vec![0; len],
            },
        }
    }
}

fn run_nor(flash: &mut Flash, run: u64) -> (Result<(), NorError>, Vec<NorNote>) {
    let mut test = NorTest::new(nor_pattern(run));
    let mut reply = vec![];
    let mut now = 0u32;
    let mut notes = vec![];
    loop {
        now = now.wrapping_add(10_000);
        match test.resume(&reply, now) {
            NorStep::Transfer(t) => reply = flash.apply(t),
            NorStep::Wait => reply = vec![],
            NorStep::Note(n) => {
                notes.push(n);
                reply = vec![];
            }
            NorStep::Finished(r) => return (r, notes),
        }
    }
}

#[test]
fn nor_addr_cmd() {
    assert_eq!(nor::addr_cmd(0x20, 0x1F_F000), [0x20, 0x1F, 0xF0, 0x00]);
    assert_eq!(nor::addr_cmd(0x03, 0x12_3456), [0x03, 0x12, 0x34, 0x56]);
}

#[test]
fn nor_test_passes_on_good_flash_at_every_speed() {
    let mut flash = Flash::new();
    for run in 0..4 {
        let (r, notes) = run_nor(&mut flash, run);
        assert_eq!(r, Ok(()));
        assert!(notes.contains(&NorNote::VerifyOk));
        assert!(notes.contains(&NorNote::EraseOk));
        assert_eq!(&flash.mem[0x1F_F000..0x20_0000], &nor_pattern(run)[..]);
    }
    assert_eq!(flash.sr, [0x00, 0x00, 0x00]);
}

#[test]
fn nor_test_clears_only_what_is_set() {
    let mut flash = Flash::new();
    flash.sr = [0x00, 0x40, 0x00];
    let (r, notes) = run_nor(&mut flash, 0);
    assert_eq!(r, Ok(()));
    assert!(notes.contains(&NorNote::Clearing(1)));
    assert!(!notes.contains(&NorNote::Clearing(0)));
}

#[test]
fn nor_test_rejects_wrong_id() {
    let mut flash = Flash::new();
    flash.id = [0xEF, 0x60, 0x15];
    assert_eq!(run_nor(&mut flash, 0).0, Err(NorError::UnexpectedId(0xEF, 0x60, 0x15)));
}

#[test]
fn nor_test_reports_locked_status() {
    let mut flash = Flash::new();
    flash.sr = [0x1C, 0x01, 0x00];
    assert_eq!(run_nor(&mut flash, 0).0, Err(NorError::StatusLocked));
}

#[test]
fn spi_speeds_and_names() {
    let hz = speeds(50_000_000);
    assert_eq!(hz, [3_125_000, 6_250_000, 12_500_000, 25_000_000]);
    assert_eq!(mhz(3_125_000), "3.125 MHz");
    assert_eq!(mhz(25_000_000), "25.000 MHz");
    assert_eq!(mhz(999), "0.000 MHz");
}

#[test]
fn speed_sweep_summary() {
    let mut sweep = SpeedSweep::new(50_000_000);
    let mut seen = vec![];
    while let Some((i, hz)) = sweep.next_speed() {
        seen.push((i, hz));
        sweep.record(i != 2);
    }
    assert_eq!(seen, vec![(0, 3_125_000), (1, 6_250_000), (2, 12_500_000), (3, 25_000_000)]);
    let lines = sweep.summary("NOR");
    assert_eq!(lines[0], (true, "NOR at 3.125 MHz: OK".to_string()));
    assert_eq!(lines[2], (false, "NOR at 12.500 MHz: FAIL".to_string()));
    assert_eq!(sweep.verdict_line("NOR"), (false, "NOR FAIL".to_string()));
    assert!(!sweep.all_passed());
}

#[test]
fn first_mismatch_finds_first() {
    assert_eq!(first_mismatch(&[1, 2, 3], &[1, 2, 3]), None);
    assert_eq!(first_mismatch(&[1, 9, 3, 8], &[1, 2, 3, 4]), Some(1));
    assert_eq!(first_mismatch(&[1, 2], &[1, 2, 3]), None);
}

/// An MB85RS256B, optionally with address line `alias` stuck, write enable ignored, or a
/// write enable latch that never sets.
struct Fram {
    mem: Vec<u8>,
    status: u8,
    alias: Option<u32>,
    needs_wel: bool,
    latch_works: bool,
}

impl Fram {
    fn new() -> Self {
        Fram { mem: vec![0; 0x8000], status: 0x0C, alias: None, needs_wel: true, latch_works: true }
    }

    fn addr(&self, cmd: &[u8], i: usize) -> usize {
        let a = ((((cmd[1] as usize) << 8) | cmd[2] as usize) + i) & 0x7FFF;
        match self.alias {
            Some(bit) => a & !(1 << bit),
            None => a,
        }
    }

    fn apply(&mut self, t: Transfer) -> Vec<u8> {
        let wel = self.status & 0x02 != 0 || !self.needs_wel;
        match t {
            Transfer::Write { cmd, data } => {
                match cmd[0] {
                    0x06 if self.latch_works => self.status |= 0x02,
                    0x04 => self.status &= !0x02,
                    0x01 if wel => self.status = cmd[1] & 0x8C,
                    0x02 if wel => {
                        for (i, d) in data.iter().enumerate() {
                            let a = self.addr(&cmd, i);
                            self.mem[a] = *d;
                        }
                        self.status &= !0x02;
                    }
                    _ => {}
                }
                vec![]
            }
            Transfer::Read { cmd, len } => match cmd[0] {
                0x05 => vec![self.status],
                0x9F => vec![0x04, 0x7F, 0x05, 0x09],
                0x03 => (0..len).map(|i| self.mem[self.addr(&cmd, i)]).collect(),
                0x0B => {
                    assert_eq!(cmd.len(), 4, "FSTRD takes a dummy byte");
                    (0..len).map(|i| self.mem[self.addr(&cmd, i)]).collect()
                }
                _ => vec![0; len],
            },
        }
    }
}

fn run_fram(dev: &mut Fram) -> (Result<(), FramError>, Vec<FramNote>) {
    let mut test = FramTest::new();
    let mut source = PatternSource::new(0);
    let mut reply = vec![];
    let mut notes = vec![];
    loop {
        match test.resume(&reply) {
            FramStep::Transfer(t) => reply = dev.apply(t),
            FramStep::Pattern { restart } => {
                if restart {
                    source = PatternSource::new(0);
                }
                reply = source.next_chunk();
            }
            FramStep::Note(n) => {
                notes.push(n);
                reply = vec![];
            }
            FramStep::Finished(r) => return (r, notes),
        }
    }
}

#[test]
fn fram_addr_cmd_and_lines() {
    assert_eq!(fram::addr_cmd(0x02, 0x7C00), [0x02, 0x7C, 0x00]);
    let addrs: Vec<usize> = (0..16).map(fram::line_address).collect();
    assert_eq!(addrs[0], 0);
    assert_eq!(addrs[1], 1);
    assert_eq!(addrs[15], 0x4000);
    assert_eq!(fram::line_marker(3), 0xA6);
}

#[test]
fn fram_test_passes_on_good_fram() {
    let mut dev = Fram::new();
    let (r, notes) = run_fram(&mut dev);
    assert_eq!(r, Ok(()));
    assert_eq!(dev.status & 0x0C, 0);
    let write_crc = notes.iter().find_map(|n| match n { FramNote::WriteOk(c) => Some(*c), _ => None });
    let verify_crcs: Vec<(bool, u32)> = notes
        .iter()
        .filter_map(|n| match n { FramNote::VerifyOk { fast, crc } => Some((*fast, *crc)), _ => None })
        .collect();
    let w = write_crc.unwrap();
    assert_eq!(verify_crcs, vec![(false, w), (true, w)]);
    assert!(notes.contains(&FramNote::DeviceId(0x04, 0x7F, 0x05, 0x09)));
    assert!(notes.contains(&FramNote::ClearingProtection));
    assert!(notes.contains(&FramNote::AddressLinesOk));
}

#[test]
fn fram_test_finds_stuck_address_line() {
    let mut dev = Fram::new();
    dev.alias = Some(14);
    let (r, _) = run_fram(&mut dev);
    assert!(matches!(r, Err(FramError::Verify { .. }) | Err(FramError::AddressLine { .. })));
}

#[test]
fn fram_test_finds_ignored_write_enable() {
    let mut dev = Fram::new();
    dev.needs_wel = false;
    let (r, _) = run_fram(&mut dev);
    assert!(matches!(r, Err(FramError::WriteWithoutEnable { .. })));
}

#[test]
fn fram_test_needs_the_device() {
    // a chip that is not there reads all zero
    let mut test = FramTest::new();
    let mut reply = vec![];
    let r = loop {
        match test.resume(&reply) {
            FramStep::Transfer(Transfer::Read { len, .. }) => reply = vec![0; len],
            FramStep::Transfer(_) | FramStep::Note(_) => reply = vec![],
            FramStep::Pattern { .. } => panic!("no pattern before the ID check"),
            FramStep::Finished(r) => break r,
        }
    };
    assert_eq!(r, Err(FramError::UnexpectedId(0, 0, 0, 0)));
}

#[test]
fn fram_test_needs_a_latch() {
    let mut dev = Fram::new();
    dev.latch_works = false;
    let (r, _) = run_fram(&mut dev);
    assert_eq!(r, Err(FramError::LatchDoesNotToggle { enabled: 0x0C, disabled: 0x0C }));
}
