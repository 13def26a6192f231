//! The NOR flash test (W25Q16JV on SPI2), as a sequence of SPI transfers: check the JEDEC ID,
//! clear the write protection, erase the last 4 KB sector and check it is blank, program a
//! pattern page by page and read it back.
//!
//! The test is a state machine: each call of `NorTest::resume` takes what the previous step
//! gave (the bytes read, and the cycle counter) and returns the next step. The caller performs
//! the transfers and waits, and logs the notes.
use crate::spi_bus::{first_mismatch, Transfer, TransferView};
use crate::timing::{cycles_since, elapsed_ms, CYCLES_PER_MS};
use vstd::prelude::*;

verus! {

// W25Q16JV commands (datasheet revision F)
pub const WRITE_ENABLE: u8 = 0x06;
pub const READ_STATUS_1: u8 = 0x05;
pub const WRITE_STATUS_1: u8 = 0x01;
pub const READ_STATUS_2: u8 = 0x35;
pub const WRITE_STATUS_2: u8 = 0x31;
pub const READ_STATUS_3: u8 = 0x15;
pub const WRITE_STATUS_3: u8 = 0x11;
pub const READ_DATA: u8 = 0x03;
pub const PAGE_PROGRAM: u8 = 0x02;
pub const SECTOR_ERASE: u8 = 0x20;
pub const JEDEC_ID: u8 = 0x9F;
pub const RELEASE_POWER_DOWN: u8 = 0xAB;

pub const STATUS_1_BUSY: u8 = 0x01;
pub const STATUS_1_WEL: u8 = 0x02;
/// BP0-2, TB and SEC block protection bits.
pub const STATUS_1_PROTECT: u8 = 0x7C;
/// Status register lock: status registers cannot be written.
pub const STATUS_2_SRL: u8 = 0x01;
/// Complement protect: inverts the SR1 block protection.
pub const STATUS_2_CMP: u8 = 0x40;
/// Write protect selection: use the individual block locks, all locked at power-up.
pub const STATUS_3_WPS: u8 = 0x04;

/// Last 4 KB sector, so the top address bits are exercised.
pub const SECTOR_ADDR: u32 = 0x1F_F000;
pub const SECTOR_LEN: usize = 4096;
pub const PAGE_LEN: usize = 256;
pub const PAGES: usize = 16;

// Datasheet maximums are 400 ms for a sector erase, 3 ms for a page program
// and 15 ms for a status register write.
pub const ERASE_TIMEOUT_MS: u32 = 1_000;
pub const PROGRAM_TIMEOUT_MS: u32 = 20;
pub const STATUS_WRITE_TIMEOUT_MS: u32 = 20;

pub const SEED: u64 = 42;

/// The bytes of `addr_cmd(cmd, addr)`: the command, then the 24-bit address, most significant
/// byte first.
pub open spec fn addr_cmd_spec(cmd: u8, addr: u32) -> Seq<u8> {
    seq![cmd, ((addr / 0x1_0000) % 0x100) as u8, ((addr / 0x100) % 0x100) as u8, (addr % 0x100) as u8]
}

/// A command followed by the low 24 bits of `addr`, most significant byte first.
pub fn addr_cmd(cmd: u8, addr: u32) -> (c: [u8; 4])
    ensures
        c@ == addr_cmd_spec(cmd, addr),
{
    let a2 = (addr >> 16u32) as u8;
    let a1 = (addr >> 8u32) as u8;
    let a0 = addr as u8;
    assert(a2 == ((addr / 0x1_0000) % 0x100) as u8 && a1 == ((addr / 0x100) % 0x100) as u8 && a0
        == (addr % 0x100) as u8) by (bit_vector)
        requires
            a2 == (addr >> 16u32) as u8,
            a1 == (addr >> 8u32) as u8,
            a0 == addr as u8,
    ;
    let c = [cmd, a2, a1, a0];
    assert(c@ =~= addr_cmd_spec(cmd, addr));
    c
}

/// The address bytes of a command give back every address of the 16 Mbit array.
pub proof fn lemma_addr_cmd_decodes(cmd: u8, addr: u32)
    requires
        addr < 0x100_0000,
    ensures
        addr_cmd_spec(cmd, addr)[1] * 0x1_0000 + addr_cmd_spec(cmd, addr)[2] * 0x100 + addr_cmd_spec(
            cmd,
            addr,
        )[3] == addr,
{
}

/// The W25Q16JV JEDEC ID: manufacturer Winbond, type 0x40 (IQ) or 0x70 (IM), capacity
/// 16 Mbit.
pub open spec fn id_ok(id: Seq<u8>) -> bool {
    id[0] == 0xEF && (id[1] == 0x40 || id[1] == 0x70) && id[2] == 0x15
}

/// Whether any setting makes the chip silently ignore erase and program: SR1 block
/// protection, CMP (which inverts it) or WPS (which switches to per-block locks).
pub open spec fn protected(sr1: u8, sr2: u8, sr3: u8) -> bool {
    sr1 & STATUS_1_PROTECT != 0 || sr2 & STATUS_2_CMP != 0 || sr3 & STATUS_3_WPS != 0
}

/// The read command, write command and protection mask of status register `reg` (0 to 2).
pub open spec fn register(reg: u8) -> (u8, u8, u8) {
    if reg == 0 {
        (READ_STATUS_1, WRITE_STATUS_1, STATUS_1_PROTECT)
    } else if reg == 1 {
        (READ_STATUS_2, WRITE_STATUS_2, STATUS_2_CMP)
    } else {
        (READ_STATUS_3, WRITE_STATUS_3, STATUS_3_WPS)
    }
}

fn register_cmds(reg: u8) -> (r: (u8, u8, u8))
    ensures
        r == register(reg),
{
    if reg == 0 {
        (READ_STATUS_1, WRITE_STATUS_1, STATUS_1_PROTECT)
    } else if reg == 1 {
        (READ_STATUS_2, WRITE_STATUS_2, STATUS_2_CMP)
    } else {
        (READ_STATUS_3, WRITE_STATUS_3, STATUS_3_WPS)
    }
}

/// What the log is told along the way.
#[derive(PartialEq, Eq, Structural, Clone, Copy, Debug)]
pub enum NorNote {
    /// The JEDEC ID read.
    JedecId(u8, u8, u8),
    /// The three status registers.
    StatusRegisters(u8, u8, u8),
    /// Clearing the protection bits of status register `reg`.
    Clearing(u8),
    EraseOk,
    ProgramOk,
    /// The whole sector reads back as programmed.
    VerifyOk,
}

/// Why the test failed.
#[derive(PartialEq, Eq, Structural, Clone, Copy, Debug)]
pub enum NorError {
    /// Not a W25Q16JV: expected EF 40 15 or EF 70 15.
    UnexpectedId(u8, u8, u8),
    /// Write protection is set but the status registers are locked (SRL).
    StatusLocked,
    /// Status register `reg` still has protection bits set.
    StillSet { reg: u8, value: u8 },
    /// The write enable latch did not set.
    WelNotSet(u8),
    /// Still busy after the timeout.
    Busy(u32),
    /// The erased sector reads `read` at `addr`, expected 0xFF.
    Erase { addr: u32, read: u8 },
    /// The sector reads `read` at `addr`, expected `expected`.
    Verify { addr: u32, read: u8, expected: u8 },
}

/// What a write enable, and the busy wait after it, are for.
#[derive(PartialEq, Eq, Structural, Clone, Copy, Debug)]
pub enum Purpose {
    /// Writing `value` with its protection bits cleared to status register `reg`.
    ClearRegister { reg: u8, value: u8 },
    /// Erasing the sector.
    Erase,
    /// Programming page `page` of the sector.
    Program(u8),
}

/// Where the test stands: what the last step was, so what the next call is given.
#[derive(PartialEq, Eq, Structural, Clone, Copy, Debug)]
pub enum NorPhase {
    /// Nothing done yet.
    Start,
    /// Released from power-down; waiting 1 ms from `start` (tRES1 is 3 us).
    PowerUp { since: Option<u32> },
    /// Reading the JEDEC ID.
    Id,
    /// The ID was logged.
    IdLogged(u8, u8, u8),
    /// Reading status register 1.
    Status1,
    /// Reading status register 2.
    Status2(u8),
    /// Reading status register 3.
    Status3(u8, u8),
    /// The status registers were logged.
    StatusLogged(u8, u8, u8),
    /// Reading status register `reg` before clearing it.
    ClearRead(u8),
    /// Logged that register `reg` is being cleared.
    ClearLogged { reg: u8, value: u8 },
    /// Sent a write enable.
    WelSent(Purpose),
    /// Reading status register 1 after a write enable.
    WelStatus(Purpose),
    /// Sent the write, erase or program.
    Acted(Purpose),
    /// Waiting for the busy bit to clear, since `start`.
    Busy { purpose: Purpose, start: u32 },
    /// Reading status register `reg` after clearing it.
    ClearCheck(u8),
    /// Reading the erased sector.
    EraseRead,
    /// Logged that the erase is good.
    Erased,
    /// Logged that every page is programmed.
    Programmed,
    /// Reading back the programmed sector.
    VerifyRead,
    /// Logged that the sector reads back right.
    Verified,
    /// The test has finished.
    Done,
}

/// A step of the test, as values.
pub enum NorStepView {
    Transfer(TransferView),
    Wait,
    Note(NorNote),
    Finished(Result<(), NorError>),
}

/// A step of the test.
pub enum NorStep {
    /// Perform this transfer, then call again with the bytes read (nothing for a write).
    Transfer(Transfer),
    /// Call again.
    Wait,
    /// Log this, then call again.
    Note(NorNote),
    /// The test is over.
    Finished(Result<(), NorError>),
}

impl View for NorStep {
    type V = NorStepView;

    open spec fn view(&self) -> NorStepView {
        match self {
            NorStep::Transfer(t) => NorStepView::Transfer(t@),
            NorStep::Wait => NorStepView::Wait,
            NorStep::Note(n) => NorStepView::Note(*n),
            NorStep::Finished(r) => NorStepView::Finished(*r),
        }
    }
}

pub open spec fn cmd_only(cmd: Seq<u8>) -> NorStepView {
    NorStepView::Transfer(TransferView::Write { cmd, data: Seq::empty() })
}

pub open spec fn read_step(cmd: Seq<u8>, len: nat) -> NorStepView {
    NorStepView::Transfer(TransferView::Read { cmd, len })
}

/// The timeout of the busy wait after a write, erase or program.
pub open spec fn timeout_ms(p: Purpose) -> u32 {
    match p {
        Purpose::ClearRegister { .. } => STATUS_WRITE_TIMEOUT_MS,
        Purpose::Erase => ERASE_TIMEOUT_MS,
        Purpose::Program(_) => PROGRAM_TIMEOUT_MS,
    }
}

/// The first index below the length of the shorter of `a` and `b` at which they differ.
pub open spec fn first_difference(a: Seq<u8>, b: Seq<u8>) -> int {
    choose|i: int| 0 <= i < a.len() && i < b.len() && a[i] != b[i] && forall|j: int| 0 <= j < i ==> a[j] == b[j]
}

/// `len` bytes of 0xFF: an erased area.
pub open spec fn erased(len: nat) -> Seq<u8> {
    Seq::new(len, |i: int| 0xFFu8)
}

/// After the protection of register `reg` is clear: read the next register, or start the
/// erase with a write enable.
pub open spec fn after_clear(reg: u8) -> (NorPhase, NorStepView) {
    if reg < 2 {
        (NorPhase::ClearRead((reg + 1) as u8), read_step(seq![register((reg + 1) as u8).0], 1))
    } else {
        (NorPhase::WelSent(Purpose::Erase), cmd_only(seq![WRITE_ENABLE]))
    }
}

/// The bytes read that the step after `phase` needs: what the last read asked for.
pub open spec fn reply_len(phase: NorPhase) -> nat {
    match phase {
        NorPhase::Id => 3,
        NorPhase::Status1 | NorPhase::Status2(_) | NorPhase::Status3(..) | NorPhase::ClearRead(_)
        | NorPhase::WelStatus(_) | NorPhase::Busy { .. } | NorPhase::ClearCheck(_) => 1,
        NorPhase::EraseRead | NorPhase::VerifyRead => SECTOR_LEN as nat,
        _ => 0,
    }
}

/// The next phase and step of the test, from `phase`, given the bytes `reply` read by the
/// last step and the cycle counter `now`, with `pattern` the 4096 bytes to program.
pub open spec fn nor_next(phase: NorPhase, pattern: Seq<u8>, reply: Seq<u8>, now: u32) -> (
    NorPhase,
    NorStepView,
) {
    match phase {
        NorPhase::Start => (NorPhase::PowerUp { since: None }, cmd_only(seq![RELEASE_POWER_DOWN])),
        NorPhase::PowerUp { since } => {
            let s = match since {
                Some(s) => s,
                None => now,
            };
            if cycles_since(s, now) / (CYCLES_PER_MS as nat) < 1 {
                (NorPhase::PowerUp { since: Some(s) }, NorStepView::Wait)
            } else {
                (NorPhase::Id, read_step(seq![JEDEC_ID], 3))
            }
        },
        NorPhase::Id => (
            NorPhase::IdLogged(reply[0], reply[1], reply[2]),
            NorStepView::Note(NorNote::JedecId(reply[0], reply[1], reply[2])),
        ),
        NorPhase::IdLogged(a, b, c) => if id_ok(seq![a, b, c]) {
            (NorPhase::Status1, read_step(seq![READ_STATUS_1], 1))
        } else {
            (NorPhase::Done, NorStepView::Finished(Err(NorError::UnexpectedId(a, b, c))))
        },
        NorPhase::Status1 => (NorPhase::Status2(reply[0]), read_step(seq![READ_STATUS_2], 1)),
        NorPhase::Status2(sr1) => (NorPhase::Status3(sr1, reply[0]), read_step(seq![READ_STATUS_3], 1)),
        NorPhase::Status3(sr1, sr2) => (
            NorPhase::StatusLogged(sr1, sr2, reply[0]),
            NorStepView::Note(NorNote::StatusRegisters(sr1, sr2, reply[0])),
        ),
        NorPhase::StatusLogged(sr1, sr2, sr3) => if !protected(sr1, sr2, sr3) {
            (NorPhase::WelSent(Purpose::Erase), cmd_only(seq![WRITE_ENABLE]))
        } else if sr2 & STATUS_2_SRL != 0 {
            (NorPhase::Done, NorStepView::Finished(Err(NorError::StatusLocked)))
        } else {
            (NorPhase::ClearRead(0), read_step(seq![READ_STATUS_1], 1))
        },
        NorPhase::ClearRead(reg) => if reply[0] & register(reg).2 == 0 {
            after_clear(reg)
        } else {
            (
                NorPhase::ClearLogged { reg, value: reply[0] },
                NorStepView::Note(NorNote::Clearing(reg)),
            )
        },
        NorPhase::ClearLogged { reg, value } => (
            NorPhase::WelSent(Purpose::ClearRegister { reg, value }),
            cmd_only(seq![WRITE_ENABLE]),
        ),
        NorPhase::WelSent(p) => (NorPhase::WelStatus(p), read_step(seq![READ_STATUS_1], 1)),
        NorPhase::WelStatus(p) => if reply[0] & STATUS_1_WEL == 0 {
            (NorPhase::Done, NorStepView::Finished(Err(NorError::WelNotSet(reply[0]))))
        } else {
            (
                NorPhase::Acted(p),
                match p {
                    Purpose::ClearRegister { reg, value } => cmd_only(
                        seq![register(reg).1, value & !register(reg).2],
                    ),
                    Purpose::Erase => cmd_only(addr_cmd_spec(SECTOR_ERASE, SECTOR_ADDR)),
                    Purpose::Program(page) => NorStepView::Transfer(
                        TransferView::Write {
                            cmd: addr_cmd_spec(PAGE_PROGRAM, (SECTOR_ADDR + page * PAGE_LEN) as u32),
                            data: pattern.subrange(page * PAGE_LEN, page * PAGE_LEN + PAGE_LEN),
                        },
                    ),
                },
            )
        },
        NorPhase::Acted(p) => (
            NorPhase::Busy { purpose: p, start: now },
            read_step(seq![READ_STATUS_1], 1),
        ),
        NorPhase::Busy { purpose, start } => if reply[0] & STATUS_1_BUSY == 0 {
            match purpose {
                Purpose::ClearRegister { reg, .. } => (
                    NorPhase::ClearCheck(reg),
                    read_step(seq![register(reg).0], 1),
                ),
                Purpose::Erase => (
                    NorPhase::EraseRead,
                    read_step(addr_cmd_spec(READ_DATA, SECTOR_ADDR), SECTOR_LEN as nat),
                ),
                Purpose::Program(page) => if page + 1 < PAGES {
                    (
                        NorPhase::WelSent(Purpose::Program((page + 1) as u8)),
                        cmd_only(seq![WRITE_ENABLE]),
                    )
                } else {
                    (NorPhase::Programmed, NorStepView::Note(NorNote::ProgramOk))
                },
            }
        } else if cycles_since(start, now) / (CYCLES_PER_MS as nat) > timeout_ms(purpose) {
            (NorPhase::Done, NorStepView::Finished(Err(NorError::Busy(timeout_ms(purpose)))))
        } else {
            (NorPhase::Busy { purpose, start }, read_step(seq![READ_STATUS_1], 1))
        },
        NorPhase::ClearCheck(reg) => if reply[0] & register(reg).2 != 0 {
            (
                NorPhase::Done,
                NorStepView::Finished(Err(NorError::StillSet { reg, value: reply[0] })),
            )
        } else {
            after_clear(reg)
        },
        NorPhase::EraseRead => if reply == erased(SECTOR_LEN as nat) {
            (NorPhase::Erased, NorStepView::Note(NorNote::EraseOk))
        } else {
            let i = first_difference(reply, erased(SECTOR_LEN as nat));
            (
                NorPhase::Done,
                NorStepView::Finished(
                    Err(NorError::Erase { addr: (SECTOR_ADDR + i) as u32, read: reply[i] }),
                ),
            )
        },
        NorPhase::Erased => (
            NorPhase::WelSent(Purpose::Program(0)),
            cmd_only(seq![WRITE_ENABLE]),
        ),
        NorPhase::Programmed => (
            NorPhase::VerifyRead,
            read_step(addr_cmd_spec(READ_DATA, SECTOR_ADDR), SECTOR_LEN as nat),
        ),
        NorPhase::VerifyRead => if reply == pattern {
            (NorPhase::Verified, NorStepView::Note(NorNote::VerifyOk))
        } else {
            let i = first_difference(reply, pattern);
            (
                NorPhase::Done,
                NorStepView::Finished(
                    Err(
                        NorError::Verify {
                            addr: (SECTOR_ADDR + i) as u32,
                            read: reply[i],
                            expected: pattern[i],
                        },
                    ),
                ),
            )
        },
        NorPhase::Verified => (NorPhase::Done, NorStepView::Finished(Ok(()))),
        NorPhase::Done => (NorPhase::Done, NorStepView::Finished(Ok(()))),
    }
}

/// The first difference is the index `first_mismatch` finds.
pub proof fn lemma_first_difference(a: Seq<u8>, b: Seq<u8>, i: int)
    requires
        0 <= i < a.len(),
        i < b.len(),
        a[i] != b[i],
        forall|j: int| 0 <= j < i ==> a[j] == b[j],
    ensures
        first_difference(a, b) == i,
{
    let k = first_difference(a, b);
    assert(0 <= k < a.len() && k < b.len() && a[k] != b[k] && forall|j: int| 0 <= j < k ==> a[j]
        == b[j]);
    if k < i {
        assert(a[k] == b[k]);
    }
    if i < k {
        assert(a[i] == b[i]);
    }
}

/// The pattern for run `run` of the test: 4096 bytes drawn from a generator seeded with
/// 42 + `run`, so that data left by a previous run cannot pass the verify.
pub fn nor_pattern(run: u64) -> (p: Vec<u8>)
    requires
        run <= u64::MAX - SEED,
    ensures
        p@.len() == SECTOR_LEN,
{
    let mut rng = crate::random::seeded_rng(SEED + run);
    let mut p: Vec<u8> = Vec::new();
    let mut i: usize = 0;
    while i < SECTOR_LEN
        invariant
            i <= SECTOR_LEN,
            p@.len() == i,
        decreases SECTOR_LEN - i,
    {
        p.push(crate::random::random_byte(&mut rng));
        i = i + 1;
    }
    p
}

fn single(b: u8) -> (v: Vec<u8>)
    ensures
        v@ == seq![b],
{
    let mut v = Vec::new();
    v.push(b);
    assert(v@ =~= seq![b]);
    v
}

fn cmd_step(b: u8) -> (s: NorStep)
    ensures
        s@ == cmd_only(seq![b]),
{
    NorStep::Transfer(Transfer::Write { cmd: single(b), data: Vec::new() })
}

fn read1_step(b: u8) -> (s: NorStep)
    ensures
        s@ == read_step(seq![b], 1),
{
    NorStep::Transfer(Transfer::Read { cmd: single(b), len: 1 })
}

fn after_clear_exec(reg: u8) -> (r: (NorPhase, NorStep))
    requires
        reg <= 2,
    ensures
        (r.0, r.1@) == after_clear(reg),
{
    if reg < 2 {
        let (rd, _, _) = register_cmds(reg + 1);
        (NorPhase::ClearRead(reg + 1), read1_step(rd))
    } else {
        (NorPhase::WelSent(Purpose::Erase), cmd_step(WRITE_ENABLE))
    }
}

/// Whether `phase` is one the test can reach: register numbers below 3, page numbers below
/// 16.
pub open spec fn phase_ok(phase: NorPhase) -> bool {
    let purpose_ok = |p: Purpose| match p {
        Purpose::ClearRegister { reg, .. } => reg <= 2,
        Purpose::Erase => true,
        Purpose::Program(page) => page < PAGES,
    };
    match phase {
        NorPhase::ClearRead(reg) | NorPhase::ClearCheck(reg) => reg <= 2,
        NorPhase::ClearLogged { reg, .. } => reg <= 2,
        NorPhase::WelSent(p) | NorPhase::WelStatus(p) | NorPhase::Acted(p) => purpose_ok(p),
        NorPhase::Busy { purpose, .. } => purpose_ok(purpose),
        _ => true,
    }
}

/// The NOR flash test at one SPI speed.
pub struct NorTest {
    phase: NorPhase,
    pattern: Vec<u8>,
}

impl NorTest {
    /// Where the test stands.
    pub closed spec fn phase(&self) -> NorPhase {
        self.phase
    }

    /// The bytes to program.
    pub closed spec fn pattern(&self) -> Seq<u8> {
        self.pattern@
    }

    /// A test that programs `pattern`, nothing done yet.
    pub fn new(pattern: Vec<u8>) -> (t: Self)
        requires
            pattern@.len() == SECTOR_LEN,
        ensures
            t.phase() == NorPhase::Start,
            t.pattern() == pattern@,
    {
        NorTest { phase: NorPhase::Start, pattern }
    }

    /// Whether the test has finished.
    pub fn is_done(&self) -> (b: bool)
        ensures
            b == (self.phase() == NorPhase::Done),
    {
        self.phase == NorPhase::Done
    }

    /// The next step, given the bytes read by the last one (nothing after a write, a wait or
    /// a note) and the cycle counter `now`.
    pub fn resume(&mut self, reply: &[u8], now: u32) -> (s: NorStep)
        requires
            old(self).phase() != NorPhase::Done,
            phase_ok(old(self).phase()),
            old(self).pattern().len() == SECTOR_LEN,
            reply@.len() == reply_len(old(self).phase()),
        ensures
            (final(self).phase(), s@) == nor_next(old(self).phase(), old(self).pattern(), reply@, now),
            final(self).pattern() == old(self).pattern(),
            phase_ok(final(self).phase()),
    {
        let (phase, step) = match self.phase {
            NorPhase::Start => (NorPhase::PowerUp { since: None }, cmd_step(RELEASE_POWER_DOWN)),
            NorPhase::PowerUp { since } => {
                let s = match since {
                    Some(s) => s,
                    None => now,
                };
                if elapsed_ms(s, now) < 1 {
                    (NorPhase::PowerUp { since: Some(s) }, NorStep::Wait)
                } else {
                    (NorPhase::Id, NorStep::Transfer(Transfer::Read { cmd: single(JEDEC_ID), len: 3 }))
                }
            },
            NorPhase::Id => (
                NorPhase::IdLogged(reply[0], reply[1], reply[2]),
                NorStep::Note(NorNote::JedecId(reply[0], reply[1], reply[2])),
            ),
            NorPhase::IdLogged(a, b, c) => {
                if a == 0xEF && (b == 0x40 || b == 0x70) && c == 0x15 {
                    (NorPhase::Status1, read1_step(READ_STATUS_1))
                } else {
                    (NorPhase::Done, NorStep::Finished(Err(NorError::UnexpectedId(a, b, c))))
                }
            },
            NorPhase::Status1 => (NorPhase::Status2(reply[0]), read1_step(READ_STATUS_2)),
            NorPhase::Status2(sr1) => (NorPhase::Status3(sr1, reply[0]), read1_step(READ_STATUS_3)),
            NorPhase::Status3(sr1, sr2) => (
                NorPhase::StatusLogged(sr1, sr2, reply[0]),
                NorStep::Note(NorNote::StatusRegisters(sr1, sr2, reply[0])),
            ),
            NorPhase::StatusLogged(sr1, sr2, sr3) => {
                if !(sr1 & STATUS_1_PROTECT != 0 || sr2 & STATUS_2_CMP != 0 || sr3 & STATUS_3_WPS
                    != 0) {
                    (NorPhase::WelSent(Purpose::Erase), cmd_step(WRITE_ENABLE))
                } else if sr2 & STATUS_2_SRL != 0 {
                    (NorPhase::Done, NorStep::Finished(Err(NorError::StatusLocked)))
                } else {
                    (NorPhase::ClearRead(0), read1_step(READ_STATUS_1))
                }
            },
            NorPhase::ClearRead(reg) => {
                let (_, _, mask) = register_cmds(reg);
                if reply[0] & mask == 0 {
                    after_clear_exec(reg)
                } else {
                    (
                        NorPhase::ClearLogged { reg, value: reply[0] },
                        NorStep::Note(NorNote::Clearing(reg)),
                    )
                }
            },
            NorPhase::ClearLogged { reg, value } => (
                NorPhase::WelSent(Purpose::ClearRegister { reg, value }),
                cmd_step(WRITE_ENABLE),
            ),
            NorPhase::WelSent(p) => (NorPhase::WelStatus(p), read1_step(READ_STATUS_1)),
            NorPhase::WelStatus(p) => {
                if reply[0] & STATUS_1_WEL == 0 {
                    (NorPhase::Done, NorStep::Finished(Err(NorError::WelNotSet(reply[0]))))
                } else {
                    let step = match p {
                        Purpose::ClearRegister { reg, value } => {
                            let (_, wr, mask) = register_cmds(reg);
                            let mut v: Vec<u8> = Vec::new();
                            v.push(wr);
                            v.push(value & !mask);
                            assert(v@ =~= seq![register(reg).1, value & !register(reg).2]);
                            NorStep::Transfer(Transfer::Write { cmd: v, data: Vec::new() })
                        },
                        Purpose::Erase => {
                            let c = addr_cmd(SECTOR_ERASE, SECTOR_ADDR);
                            NorStep::Transfer(
                                Transfer::Write { cmd: crate::spi_bus::copy_bytes(&c), data: Vec::new() },
                            )
                        },
                        Purpose::Program(page) => {
                            let start = page as usize * PAGE_LEN;
                            let c = addr_cmd(PAGE_PROGRAM, SECTOR_ADDR + start as u32);
                            let mut data: Vec<u8> = Vec::new();
                            let mut i: usize = 0;
                            while i < PAGE_LEN
                                invariant
                                    i <= PAGE_LEN,
                                    start + PAGE_LEN <= self.pattern@.len(),
                                    self.pattern@.len() == SECTOR_LEN,
                                    data@ =~= self.pattern@.subrange(start as int, start + i),
                                decreases PAGE_LEN - i,
                            {
                                data.push(self.pattern[start + i]);
                                i = i + 1;
                            }
                            NorStep::Transfer(
                                Transfer::Write { cmd: crate::spi_bus::copy_bytes(&c), data },
                            )
                        },
                    };
                    (NorPhase::Acted(p), step)
                }
            },
            NorPhase::Acted(p) => (NorPhase::Busy { purpose: p, start: now }, read1_step(READ_STATUS_1)),
            NorPhase::Busy { purpose, start } => {
                if reply[0] & STATUS_1_BUSY == 0 {
                    match purpose {
                        Purpose::ClearRegister { reg, .. } => {
                            let (rd, _, _) = register_cmds(reg);
                            (NorPhase::ClearCheck(reg), read1_step(rd))
                        },
                        Purpose::Erase => {
                            let c = addr_cmd(READ_DATA, SECTOR_ADDR);
                            (
                                NorPhase::EraseRead,
                                NorStep::Transfer(
                                    Transfer::Read { cmd: crate::spi_bus::copy_bytes(&c), len: SECTOR_LEN },
                                ),
                            )
                        },
                        Purpose::Program(page) => {
                            if (page as usize) + 1 < PAGES {
                                (NorPhase::WelSent(Purpose::Program(page + 1)), cmd_step(WRITE_ENABLE))
                            } else {
                                (NorPhase::Programmed, NorStep::Note(NorNote::ProgramOk))
                            }
                        },
                    }
                } else {
                    let timeout = match purpose {
                        Purpose::ClearRegister { .. } => STATUS_WRITE_TIMEOUT_MS,
                        Purpose::Erase => ERASE_TIMEOUT_MS,
                        Purpose::Program(_) => PROGRAM_TIMEOUT_MS,
                    };
                    if elapsed_ms(start, now) > timeout {
                        (NorPhase::Done, NorStep::Finished(Err(NorError::Busy(timeout))))
                    } else {
                        (NorPhase::Busy { purpose, start }, read1_step(READ_STATUS_1))
                    }
                }
            },
            NorPhase::ClearCheck(reg) => {
                let (_, _, mask) = register_cmds(reg);
                if reply[0] & mask != 0 {
                    (NorPhase::Done, NorStep::Finished(Err(NorError::StillSet { reg, value: reply[0] })))
                } else {
                    after_clear_exec(reg)
                }
            },
            NorPhase::EraseRead => {
                let ff = erased_bytes(SECTOR_LEN);
                match first_mismatch(reply, ff.as_slice()) {
                    None => {
                        assert(reply@ =~= erased(SECTOR_LEN as nat));
                        (NorPhase::Erased, NorStep::Note(NorNote::EraseOk))
                    },
                    Some(i) => {
                        proof { lemma_first_difference(reply@, erased(SECTOR_LEN as nat), i as int); }
                        (
                            NorPhase::Done,
                            NorStep::Finished(
                                Err(NorError::Erase { addr: SECTOR_ADDR + i as u32, read: reply[i] }),
                            ),
                        )
                    },
                }
            },
            NorPhase::Erased => (NorPhase::WelSent(Purpose::Program(0)), cmd_step(WRITE_ENABLE)),
            NorPhase::Programmed => {
                let c = addr_cmd(READ_DATA, SECTOR_ADDR);
                (
                    NorPhase::VerifyRead,
                    NorStep::Transfer(Transfer::Read { cmd: crate::spi_bus::copy_bytes(&c), len: SECTOR_LEN }),
                )
            },
            NorPhase::VerifyRead => {
                match first_mismatch(reply, self.pattern.as_slice()) {
                    None => {
                        assert(reply@ =~= self.pattern@);
                        (NorPhase::Verified, NorStep::Note(NorNote::VerifyOk))
                    },
                    Some(i) => {
                        proof { lemma_first_difference(reply@, self.pattern@, i as int); }
                        (
                            NorPhase::Done,
                            NorStep::Finished(
                                Err(
                                    NorError::Verify {
                                        addr: SECTOR_ADDR + i as u32,
                                        read: reply[i],
                                        expected: self.pattern[i],
                                    },
                                ),
                            ),
                        )
                    },
                }
            },
            NorPhase::Verified => (NorPhase::Done, NorStep::Finished(Ok(()))),
            NorPhase::Done => (NorPhase::Done, NorStep::Finished(Ok(()))),
        };
        self.phase = phase;
        step
    }
}

fn erased_bytes(len: usize) -> (v: Vec<u8>)
    ensures
        v@ == erased(len as nat),
{
    let mut v: Vec<u8> = Vec::new();
    let mut i: usize = 0;
    while i < len
        invariant
            i <= len,
            v@ =~= erased(i as nat),
        decreases len - i,
    {
        v.push(0xFF);
        i = i + 1;
    }
    v
}

/// Whether a command changes the array or a status register: erase, program, or a status
/// register write.
pub open spec fn is_modifying(cmd: u8) -> bool {
    cmd == SECTOR_ERASE || cmd == PAGE_PROGRAM || cmd == WRITE_STATUS_1 || cmd == WRITE_STATUS_2
        || cmd == WRITE_STATUS_3
}

/// Erase, program and status register writes are sent only right after a write enable whose
/// status read showed the write enable latch set.
pub proof fn lemma_modify_after_write_enable(phase: NorPhase, pattern: Seq<u8>, reply: Seq<u8>, now: u32)
    requires
        phase_ok(phase),
        reply.len() == reply_len(phase),
    ensures
        ({
            let step = nor_next(phase, pattern, reply, now).1;
            step matches NorStepView::Transfer(TransferView::Write { cmd, .. }) && is_modifying(cmd[0])
                ==> phase is WelStatus && reply[0] & STATUS_1_WEL != 0
        }),
{
    let step = nor_next(phase, pattern, reply, now).1;
    if let NorPhase::WelStatus(p) = phase {
    } else if let NorPhase::ClearRead(reg) = phase {
        if reg < 2 {
        }
    } else if let NorPhase::ClearCheck(reg) = phase {
    }
}

/// Once an erase, program or status register write is sent, the test only reads status
/// register 1 until the busy bit clears, and gives up only after the timeout.
pub proof fn lemma_wait_until_ready(purpose: Purpose, start: u32, pattern: Seq<u8>, reply: Seq<u8>, now: u32)
    requires
        reply.len() == 1,
    ensures
        nor_next(NorPhase::Acted(purpose), pattern, Seq::empty(), now) == (
            NorPhase::Busy { purpose, start: now },
            read_step(seq![READ_STATUS_1], 1),
        ),
        reply[0] & STATUS_1_BUSY != 0 ==> {
            let (next, step) = nor_next(NorPhase::Busy { purpose, start }, pattern, reply, now);
            ||| next == NorPhase::Busy { purpose, start } && step == read_step(seq![READ_STATUS_1], 1)
            ||| cycles_since(start, now) / (CYCLES_PER_MS as nat) > timeout_ms(purpose) && step
                == NorStepView::Finished(Err(NorError::Busy(timeout_ms(purpose))))
        },
{
}

/// Every byte of the pattern is programmed at its place in the sector: byte `k` goes with
/// page `k / 256`, at offset `k % 256` of that page's data, whose command addresses
/// `SECTOR_ADDR + 256 * (k / 256)`.
pub proof fn lemma_program_covers_sector(pattern: Seq<u8>, reply: Seq<u8>, now: u32, k: int)
    requires
        pattern.len() == SECTOR_LEN,
        0 <= k < SECTOR_LEN,
        reply.len() == 1,
        reply[0] & STATUS_1_WEL != 0,
    ensures
        ({
            let page = (k / PAGE_LEN as int) as u8;
            nor_next(NorPhase::WelStatus(Purpose::Program(page)), pattern, reply, now).1 matches
                NorStepView::Transfer(TransferView::Write { cmd, data }) && cmd == addr_cmd_spec(
                PAGE_PROGRAM,
                (SECTOR_ADDR + page * PAGE_LEN) as u32,
            ) && data.len() == PAGE_LEN && data[k % PAGE_LEN as int] == pattern[k]
        }),
{
}

/// The pages are programmed in order, 0 to 15, each once its predecessor is no longer busy,
/// and the sector is read back after the last.
pub proof fn lemma_pages_in_order(page: u8, start: u32, pattern: Seq<u8>, reply: Seq<u8>, now: u32)
    requires
        page < PAGES,
        reply.len() == 1,
        reply[0] & STATUS_1_BUSY == 0,
    ensures
        nor_next(NorPhase::Busy { purpose: Purpose::Program(page), start }, pattern, reply, now).0
            == if page + 1 < PAGES {
            NorPhase::WelSent(Purpose::Program((page + 1) as u8))
        } else {
            NorPhase::Programmed
        },
        nor_next(NorPhase::Erased, pattern, Seq::empty(), now).0 == NorPhase::WelSent(
            Purpose::Program(0),
        ),
        nor_next(NorPhase::Programmed, pattern, Seq::empty(), now).0 == NorPhase::VerifyRead,
{
}

/// The test passes only through a verify read that gave back the whole pattern, after an
/// erase check that read the whole sector as 0xFF.
pub proof fn lemma_pass_needs_checks(phase: NorPhase, pattern: Seq<u8>, reply: Seq<u8>, now: u32)
    requires
        phase != NorPhase::Done,
    ensures
        nor_next(phase, pattern, reply, now).1 == NorStepView::Finished(Ok(())) ==> phase
            == NorPhase::Verified,
        nor_next(phase, pattern, reply, now).0 == NorPhase::Verified ==> phase
            == NorPhase::VerifyRead && reply == pattern,
        nor_next(phase, pattern, reply, now).0 == NorPhase::Erased ==> phase == NorPhase::EraseRead
            && reply == erased(SECTOR_LEN as nat),
        nor_next(phase, pattern, reply, now).0 == NorPhase::Programmed ==> phase is Busy,
{
}

/// While the chip is busy, the wait gives up only once more than the purpose's datasheet-based
/// limit has passed since the write went out, on the 100 MHz cycle counter (which may wrap
/// once): 1000 ms after the sector erase, 20 ms after a page program or a status register
/// write. Until then it reads status register 1 (0x05) again and keeps waiting from the same
/// start; after it, the test fails with that limit.
pub proof fn lemma_busy_wait_limits(purpose: Purpose, start: u32, pattern: Seq<u8>, reply: Seq<u8>, now: u32)
    requires
        reply.len() == 1,
        reply[0] & 0x01 != 0,
    ensures
        ({
            let limit: u32 = match purpose {
                Purpose::Erase => 1000,
                Purpose::Program(_) => 20,
                Purpose::ClearRegister { .. } => 20,
            };
            let elapsed: int = if now >= start {
                now - start
            } else {
                now + 0x1_0000_0000 - start
            };
            let (next, step) = nor_next(NorPhase::Busy { purpose, start }, pattern, reply, now);
            if elapsed / 100_000 > limit {
                &&& next == NorPhase::Done
                &&& step == NorStepView::Finished(Err(NorError::Busy(limit)))
            } else {
                &&& next == NorPhase::Busy { purpose, start }
                &&& step == NorStepView::Transfer(TransferView::Read { cmd: seq![0x05u8], len: 1 })
            }
        }),
{
}

/// The JEDEC ID check accepts exactly the two W25Q16JV variants, EF 40 15 (IQ) and EF 70 15
/// (IM): either goes on to read status register 1 (0x05); any other ID ends the test with
/// `UnexpectedId` carrying the three bytes read.
pub proof fn lemma_jedec_id_check(a: u8, b: u8, c: u8, pattern: Seq<u8>, reply: Seq<u8>, now: u32)
    ensures
        ({
            let (next, step) = nor_next(NorPhase::IdLogged(a, b, c), pattern, reply, now);
            &&& (a == 0xEF && b == 0x40 && c == 0x15) || (a == 0xEF && b == 0x70 && c == 0x15) ==> {
                &&& next == NorPhase::Status1
                &&& step == NorStepView::Transfer(TransferView::Read { cmd: seq![0x05u8], len: 1 })
            }
            &&& !((a == 0xEF && b == 0x40 && c == 0x15) || (a == 0xEF && b == 0x70 && c == 0x15)) ==> {
                &&& next == NorPhase::Done
                &&& step == NorStepView::Finished(Err(NorError::UnexpectedId(a, b, c)))
            }
        }),
{
}

} // verus!
