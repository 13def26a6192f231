//! The FRAM test (MB85RS256B on SPI2), as a sequence of SPI transfers: check the device ID
//! and that the write enable latch toggles, clear the block protection, write a pattern over
//! the whole 32 KB and read it back with both READ (rated up to 25 MHz) and FSTRD (fast read,
//! rated up to 33 MHz), check every address line for aliasing, and check that a write without
//! write enable is ignored.
//!
//! The test is a state machine: each call of `FramTest::resume` takes what the previous step
//! gave (the bytes read, or the next 1 KB of the pattern) and returns the next step.
use crate::crc32::{crc32, Crc32Digest};
use crate::random::{random_byte, seeded_rng};
use crate::spi_bus::{first_mismatch, Transfer, TransferView};
use crate::nor::first_difference;
use crate::nor::lemma_first_difference;
use vstd::prelude::*;

verus! {

// MB85RS256B commands
pub const WRITE_ENABLE: u8 = 0x06;
pub const WRITE_DISABLE: u8 = 0x04;
pub const READ_STATUS: u8 = 0x05;
pub const WRITE_STATUS: u8 = 0x01;
pub const READ: u8 = 0x03;
pub const WRITE: u8 = 0x02;
pub const FAST_READ: u8 = 0x0B;
pub const READ_ID: u8 = 0x9F;

/// The device ID: manufacturer Fujitsu (04h), continuation code 7Fh, product 05h 09h.
pub const DEVICE_ID: [u8; 4] = [0x04, 0x7F, 0x05, 0x09];

pub const STATUS_WEL: u8 = 0x02;
/// BP0 and BP1 block protection bits.
pub const STATUS_PROTECT: u8 = 0x0C;

pub const FRAM_LEN: usize = 32 * 1024;
pub const CHUNK_LEN: usize = 1024;
pub const CHUNKS: usize = 32;
/// The address lines checked: 0x0000, then each power of two below 32 KB.
pub const ADDRESS_LINES: usize = 16;

pub const SEED: u64 = 42;

/// The bytes of `addr_cmd(cmd, addr)`: the command, then the low 16 bits of the address, most
/// significant byte first.
pub open spec fn addr_cmd_spec(cmd: u8, addr: int) -> Seq<u8> {
    seq![cmd, ((addr / 0x100) % 0x100) as u8, (addr % 0x100) as u8]
}

/// A command followed by the low 16 bits of `addr`, most significant byte first.
#[verifier::spinoff_prover]
pub fn addr_cmd(cmd: u8, addr: usize) -> (c: [u8; 3])
    ensures
        c@ == addr_cmd_spec(cmd, addr as int),
{
    let a = (addr % 0x1_0000) as u32;
    let a1 = (a >> 8u32) as u8;
    let a0 = a as u8;
    assert(a1 == ((a / 0x100) % 0x100) as u8 && a0 == (a % 0x100) as u8) by (bit_vector)
        requires
            a1 == (a >> 8u32) as u8,
            a0 == a as u8,
    ;
    let c = [cmd, a1, a0];
    assert(c@ =~= addr_cmd_spec(cmd, addr as int));
    c
}

/// The address bytes of a command give back every address of the 32 KB array.
pub proof fn lemma_addr_cmd_decodes(cmd: u8, addr: int)
    requires
        0 <= addr < FRAM_LEN,
    ensures
        addr_cmd_spec(cmd, addr)[1] * 0x100 + addr_cmd_spec(cmd, addr)[2] == addr,
{
}

/// The address of address-line check `i`: 0 first, then 1, 2, 4, ..., 0x4000.
pub open spec fn line_addr(i: int) -> int {
    if i == 0 {
        0
    } else {
        vstd::arithmetic::power2::pow2((i - 1) as nat) as int
    }
}

/// The marker written at address-line check `i`.
pub open spec fn marker(i: int) -> u8 {
    0xA5u8 ^ (i as u8)
}

/// The address of address-line check `i`.
pub fn line_address(i: usize) -> (a: usize)
    requires
        i < ADDRESS_LINES,
    ensures
        a == line_addr(i as int),
        a < FRAM_LEN,
{
    proof { vstd::arithmetic::power2::lemma2_to64(); }
    if i == 0 {
        0
    } else {
        let a: usize = 1usize << ((i - 1) as u32);
        proof {
            vstd::bits::lemma_u64_shl_is_mul(1, (i - 1) as u64);
        }
        assert(a == line_addr(i as int)) by {
            let b = (i - 1) as u64;
            assert((1usize << (b as u32)) as u64 == 1u64 << b) by (bit_vector)
                requires
                    b < 15,
            ;
        }
        a
    }
}

/// The marker of address-line check `i`.
pub fn line_marker(i: usize) -> (m: u8)
    requires
        i < ADDRESS_LINES,
    ensures
        m == marker(i as int),
{
    0xA5 ^ (i as u8)
}

/// The address-line checks use sixteen distinct addresses, 0 and one per address line, with
/// sixteen distinct markers: a stuck or shorted line makes two of them alias, and the later
/// write overwrites the earlier marker.
pub proof fn lemma_address_lines_distinct(i: int, j: int)
    requires
        0 <= i < ADDRESS_LINES,
        0 <= j < ADDRESS_LINES,
        i != j,
    ensures
        line_addr(i) != line_addr(j),
        marker(i) != marker(j),
        line_addr(i) < FRAM_LEN,
{
    vstd::arithmetic::power2::lemma2_to64();
    let a = i as u8;
    let b = j as u8;
    assert(0xA5u8 ^ a != 0xA5u8 ^ b) by (bit_vector)
        requires
            a != b,
    ;
}

/// The read command for address `addr`: READ, or FSTRD with its dummy byte.
pub open spec fn read_cmd_spec(fast: bool, addr: int) -> Seq<u8> {
    if fast {
        addr_cmd_spec(FAST_READ, addr).push(0x00)
    } else {
        addr_cmd_spec(READ, addr)
    }
}

/// What the log is told along the way.
#[derive(PartialEq, Eq, Structural, Clone, Copy, Debug)]
pub enum FramNote {
    /// The device ID read.
    DeviceId(u8, u8, u8, u8),
    /// The status register at the start.
    StatusRegister(u8),
    LatchOk,
    ClearingProtection,
    /// The whole memory is written; the CRC32 of the pattern.
    WriteOk(u32),
    /// The whole memory reads back right with READ, or with FSTRD when `fast`; the CRC32 of
    /// what was read.
    VerifyOk { fast: bool, crc: u32 },
    AddressLinesOk,
    WriteProtectionOk,
}

/// Why the test failed.
#[derive(PartialEq, Eq, Structural, Clone, Copy, Debug)]
pub enum FramError {
    /// Not an MB85RS256B: expected 04 7F 05 09.
    UnexpectedId(u8, u8, u8, u8),
    /// The write enable latch does not toggle: status after WREN, after WRDI.
    LatchDoesNotToggle { enabled: u8, disabled: u8 },
    /// Block protection still set.
    ProtectionStillSet(u8),
    /// The memory reads `read` at `addr` with READ, or FSTRD when `fast`; expected
    /// `expected`.
    Verify { fast: bool, addr: u32, read: u8, expected: u8 },
    /// An address-line marker reads `read` at `addr`, expected `expected`.
    AddressLine { addr: u32, read: u8, expected: u8 },
    /// A write without write enable changed address 0.
    WriteWithoutEnable { before: u8, after: u8 },
}

/// Where the test stands: what the last step was, so what the next call is given.
#[derive(PartialEq, Eq, Structural, Clone, Copy, Debug)]
pub enum FramPhase {
    Start,
    /// Reading the device ID.
    IdRead,
    /// The device ID was logged.
    IdLogged(u8, u8, u8, u8),
    /// Reading the status register at the start.
    LatchStatus,
    LatchLogged,
    /// Sent WREN.
    LatchWren,
    /// Reading the status after WREN.
    LatchEnabled,
    /// Sent WRDI; the status after WREN was this.
    LatchWrdi(u8),
    /// Reading the status after WRDI.
    LatchDisabled(u8),
    LatchGood,
    /// Reading the status for block protection.
    ProtectStatus,
    ProtectLogged,
    /// Sent WREN before clearing the protection.
    ProtectWren,
    /// Sent the status write.
    ProtectWrite,
    /// Reading the status after clearing.
    ProtectCheck,
    /// Asked for chunk `k` of the pattern, to write.
    WriteChunk(u32),
    /// Sent WREN before writing chunk `k`.
    WriteWren(u32),
    /// Wrote chunk `k`.
    WriteData(u32),
    Written,
    /// Asked for chunk `k` of the pattern, to check with READ, or FSTRD when `fast`.
    VerifyChunk { k: u32, fast: bool },
    /// Reading chunk `k` with READ, or FSTRD when `fast`.
    VerifyRead { k: u32, fast: bool },
    /// Checked the whole memory with READ, or FSTRD when `fast`.
    Verified(bool),
    /// Sent WREN before writing marker `i`.
    LineWren(u32),
    /// Wrote marker `i`.
    LineWrite(u32),
    /// Reading marker `i`.
    LineRead(u32),
    LinesGood,
    /// Reading address 0 before the unprotected write.
    ProtBefore,
    /// Sent WRDI; address 0 held this.
    ProtWrdi(u8),
    /// Sent the write without write enable.
    ProtWrite(u8),
    /// Reading address 0 after the unprotected write.
    ProtAfter(u8),
    ProtGood,
    Done,
}

/// A step of the test, as values.
pub enum FramStepView {
    Transfer(TransferView),
    Pattern { restart: bool },
    Note(FramNote),
    Finished(Result<(), FramError>),
}

/// A step of the test.
pub enum FramStep {
    /// Perform this transfer, then call again with the bytes read (nothing for a write).
    Transfer(Transfer),
    /// Call again with the next 1 KB of the pattern, from a generator seeded anew when
    /// `restart` holds.
    Pattern { restart: bool },
    /// Log this, then call again.
    Note(FramNote),
    /// The test is over.
    Finished(Result<(), FramError>),
}

impl View for FramStep {
    type V = FramStepView;

    open spec fn view(&self) -> FramStepView {
        match self {
            FramStep::Transfer(t) => FramStepView::Transfer(t@),
            FramStep::Pattern { restart } => FramStepView::Pattern { restart: *restart },
            FramStep::Note(n) => FramStepView::Note(*n),
            FramStep::Finished(r) => FramStepView::Finished(*r),
        }
    }
}

pub open spec fn cmd_only(cmd: Seq<u8>) -> FramStepView {
    FramStepView::Transfer(TransferView::Write { cmd, data: Seq::empty() })
}

pub open spec fn read_step(cmd: Seq<u8>, len: nat) -> FramStepView {
    FramStepView::Transfer(TransferView::Read { cmd, len })
}

/// The values the test carries besides its phase: the last chunk of the pattern, and the
/// bytes fed to the CRC32 of the current pass.
pub struct FramState {
    pub phase: FramPhase,
    pub chunk: Seq<u8>,
    pub digested: Seq<u8>,
}

/// The bytes read that the step after `phase` needs: what the last step asked for.
pub open spec fn reply_len(phase: FramPhase) -> nat {
    match phase {
        FramPhase::LatchStatus | FramPhase::LatchEnabled | FramPhase::LatchDisabled(_)
        | FramPhase::ProtectStatus | FramPhase::ProtectCheck | FramPhase::LineRead(_)
        | FramPhase::ProtBefore | FramPhase::ProtAfter(_) => 1,
        FramPhase::IdRead => 4,
        FramPhase::WriteChunk(_) | FramPhase::VerifyChunk { .. } | FramPhase::VerifyRead { .. } => CHUNK_LEN as nat,
        _ => 0,
    }
}

/// After the protection is clear: ask for the first chunk of the pattern.
pub open spec fn start_pattern(s: FramState) -> (FramState, FramStepView) {
    (FramState { phase: FramPhase::WriteChunk(0), ..s }, FramStepView::Pattern { restart: true })
}

/// The next state and step of the test, given the bytes `reply` the last step gave.
pub open spec fn fram_next(s: FramState, reply: Seq<u8>) -> (FramState, FramStepView) {
    let go = |phase: FramPhase, step: FramStepView| (FramState { phase, ..s }, step);
    match s.phase {
        FramPhase::Start => go(FramPhase::IdRead, read_step(seq![READ_ID], 4)),
        FramPhase::IdRead => go(
            FramPhase::IdLogged(reply[0], reply[1], reply[2], reply[3]),
            FramStepView::Note(FramNote::DeviceId(reply[0], reply[1], reply[2], reply[3])),
        ),
        FramPhase::IdLogged(a, b, c, d) => if seq![a, b, c, d] == DEVICE_ID@ {
            go(FramPhase::LatchStatus, read_step(seq![READ_STATUS], 1))
        } else {
            go(FramPhase::Done, FramStepView::Finished(Err(FramError::UnexpectedId(a, b, c, d))))
        },
        FramPhase::LatchStatus => go(FramPhase::LatchLogged, FramStepView::Note(FramNote::StatusRegister(reply[0]))),
        FramPhase::LatchLogged => go(FramPhase::LatchWren, cmd_only(seq![WRITE_ENABLE])),
        FramPhase::LatchWren => go(FramPhase::LatchEnabled, read_step(seq![READ_STATUS], 1)),
        FramPhase::LatchEnabled => go(FramPhase::LatchWrdi(reply[0]), cmd_only(seq![WRITE_DISABLE])),
        FramPhase::LatchWrdi(e) => go(FramPhase::LatchDisabled(e), read_step(seq![READ_STATUS], 1)),
        FramPhase::LatchDisabled(e) => if e & STATUS_WEL == 0 || reply[0] & STATUS_WEL != 0 {
            go(
                FramPhase::Done,
                FramStepView::Finished(Err(FramError::LatchDoesNotToggle { enabled: e, disabled: reply[0] })),
            )
        } else {
            go(FramPhase::LatchGood, FramStepView::Note(FramNote::LatchOk))
        },
        FramPhase::LatchGood => go(FramPhase::ProtectStatus, read_step(seq![READ_STATUS], 1)),
        FramPhase::ProtectStatus => if reply[0] & STATUS_PROTECT == 0 {
            start_pattern(s)
        } else {
            go(FramPhase::ProtectLogged, FramStepView::Note(FramNote::ClearingProtection))
        },
        FramPhase::ProtectLogged => go(FramPhase::ProtectWren, cmd_only(seq![WRITE_ENABLE])),
        FramPhase::ProtectWren => go(FramPhase::ProtectWrite, cmd_only(seq![WRITE_STATUS, 0x00])),
        FramPhase::ProtectWrite => go(FramPhase::ProtectCheck, read_step(seq![READ_STATUS], 1)),
        FramPhase::ProtectCheck => if reply[0] & STATUS_PROTECT != 0 {
            go(FramPhase::Done, FramStepView::Finished(Err(FramError::ProtectionStillSet(reply[0]))))
        } else {
            start_pattern(s)
        },
        FramPhase::WriteChunk(k) => (
            FramState { phase: FramPhase::WriteWren(k), chunk: reply, digested: s.digested + reply },
            cmd_only(seq![WRITE_ENABLE]),
        ),
        FramPhase::WriteWren(k) => go(
            FramPhase::WriteData(k),
            FramStepView::Transfer(
                TransferView::Write { cmd: addr_cmd_spec(WRITE, k * CHUNK_LEN), data: s.chunk },
            ),
        ),
        FramPhase::WriteData(k) => if k + 1 < CHUNKS {
            go(FramPhase::WriteChunk((k + 1) as u32), FramStepView::Pattern { restart: false })
        } else {
            (
                FramState { phase: FramPhase::Written, chunk: s.chunk, digested: Seq::empty() },
                FramStepView::Note(FramNote::WriteOk(crc32(s.digested))),
            )
        },
        FramPhase::Written => go(
            FramPhase::VerifyChunk { k: 0, fast: false },
            FramStepView::Pattern { restart: true },
        ),
        FramPhase::VerifyChunk { k, fast } => (
            FramState { phase: FramPhase::VerifyRead { k, fast }, chunk: reply, digested: s.digested },
            read_step(read_cmd_spec(fast, k * CHUNK_LEN), CHUNK_LEN as nat),
        ),
        FramPhase::VerifyRead { k, fast } => if reply != s.chunk {
            let i = first_difference(reply, s.chunk);
            go(
                FramPhase::Done,
                FramStepView::Finished(
                    Err(
                        FramError::Verify {
                            fast,
                            addr: (k * CHUNK_LEN + i) as u32,
                            read: reply[i],
                            expected: s.chunk[i],
                        },
                    ),
                ),
            )
        } else if k + 1 < CHUNKS {
            (
                FramState {
                    phase: FramPhase::VerifyChunk { k: (k + 1) as u32, fast },
                    chunk: s.chunk,
                    digested: s.digested + reply,
                },
                FramStepView::Pattern { restart: false },
            )
        } else {
            (
                FramState { phase: FramPhase::Verified(fast), chunk: s.chunk, digested: Seq::empty() },
                FramStepView::Note(FramNote::VerifyOk { fast, crc: crc32(s.digested + reply) }),
            )
        },
        FramPhase::Verified(fast) => if !fast {
            go(FramPhase::VerifyChunk { k: 0, fast: true }, FramStepView::Pattern { restart: true })
        } else {
            go(FramPhase::LineWren(0), cmd_only(seq![WRITE_ENABLE]))
        },
        FramPhase::LineWren(i) => go(
            FramPhase::LineWrite(i),
            FramStepView::Transfer(
                TransferView::Write { cmd: addr_cmd_spec(WRITE, line_addr(i as int)), data: seq![marker(i as int)] },
            ),
        ),
        FramPhase::LineWrite(i) => if i + 1 < ADDRESS_LINES {
            go(FramPhase::LineWren((i + 1) as u32), cmd_only(seq![WRITE_ENABLE]))
        } else {
            go(FramPhase::LineRead(0), read_step(addr_cmd_spec(READ, line_addr(0)), 1))
        },
        FramPhase::LineRead(i) => if reply[0] != marker(i as int) {
            go(
                FramPhase::Done,
                FramStepView::Finished(
                    Err(
                        FramError::AddressLine {
                            addr: line_addr(i as int) as u32,
                            read: reply[0],
                            expected: marker(i as int),
                        },
                    ),
                ),
            )
        } else if i + 1 < ADDRESS_LINES {
            go(FramPhase::LineRead((i + 1) as u32), read_step(addr_cmd_spec(READ, line_addr(i + 1)), 1))
        } else {
            go(FramPhase::LinesGood, FramStepView::Note(FramNote::AddressLinesOk))
        },
        FramPhase::LinesGood => go(FramPhase::ProtBefore, read_step(addr_cmd_spec(READ, 0), 1)),
        FramPhase::ProtBefore => go(FramPhase::ProtWrdi(reply[0]), cmd_only(seq![WRITE_DISABLE])),
        FramPhase::ProtWrdi(b) => go(
            FramPhase::ProtWrite(b),
            FramStepView::Transfer(TransferView::Write { cmd: addr_cmd_spec(WRITE, 0), data: seq![!b] }),
        ),
        FramPhase::ProtWrite(b) => go(FramPhase::ProtAfter(b), read_step(addr_cmd_spec(READ, 0), 1)),
        FramPhase::ProtAfter(b) => if reply[0] != b {
            go(
                FramPhase::Done,
                FramStepView::Finished(Err(FramError::WriteWithoutEnable { before: b, after: reply[0] })),
            )
        } else {
            go(FramPhase::ProtGood, FramStepView::Note(FramNote::WriteProtectionOk))
        },
        FramPhase::ProtGood => go(FramPhase::Done, FramStepView::Finished(Ok(()))),
        FramPhase::Done => go(FramPhase::Done, FramStepView::Finished(Ok(()))),
    }
}

/// Whether `phase` is one the test can reach: chunk numbers below 32, address-line checks
/// below 16.
pub open spec fn phase_ok(phase: FramPhase) -> bool {
    match phase {
        FramPhase::WriteChunk(k) | FramPhase::WriteWren(k) | FramPhase::WriteData(k)
        | FramPhase::VerifyChunk { k, .. } | FramPhase::VerifyRead { k, .. } => k < CHUNKS,
        FramPhase::LineWren(i) | FramPhase::LineWrite(i) | FramPhase::LineRead(i) => i < ADDRESS_LINES,
        _ => true,
    }
}

/// The pattern written over the memory: 1 KB chunks of bytes from a generator seeded with
/// 42 plus the run number, so that each SPI speed writes other data; it is regenerated from
/// the seed to check, to avoid holding 32 KB in RAM.
pub struct PatternSource {
    rng: rand::rngs::SmallRng,
    seed: Ghost<u64>,
    chunks: Ghost<nat>,
}

impl PatternSource {
    /// The seed the source's generator was created with.
    pub closed spec fn seed(&self) -> u64 {
        self.seed@
    }

    /// The number of chunks drawn so far.
    pub closed spec fn chunks(&self) -> nat {
        self.chunks@
    }

    /// The generator seeded for the first chunk of run `run`: seeded with 42 + `run`, no
    /// chunk drawn yet.
    pub fn new(run: u64) -> (p: Self)
        requires
            run <= u64::MAX - SEED,
        ensures
            p.seed() == SEED + run,
            p.chunks() == 0,
    {
        PatternSource { rng: seeded_rng(SEED + run), seed: Ghost((SEED + run) as u64), chunks: Ghost(0) }
    }

    /// The next 1 KB of the pattern.
    pub fn next_chunk(&mut self) -> (c: Vec<u8>)
        ensures
            c@.len() == CHUNK_LEN,
            final(self).seed() == old(self).seed(),
            final(self).chunks() == old(self).chunks() + 1,
    {
        let mut c: Vec<u8> = Vec::new();
        let mut i: usize = 0;
        while i < CHUNK_LEN
            invariant
                i <= CHUNK_LEN,
                c@.len() == i,
                self.seed@ == old(self).seed@,
                self.chunks@ == old(self).chunks@,
            decreases CHUNK_LEN - i,
        {
            c.push(random_byte(&mut self.rng));
            i = i + 1;
        }
        proof {
            self.chunks@ = self.chunks@ + 1;
        }
        c
    }
}

fn single(b: u8) -> (v: Vec<u8>)
    ensures
        v@ == seq![b],
{
    let mut v = Vec::new();
    v.push(b);
    assert(v@ =~= seq![b]);
    v
}

fn cmd_step(b: u8) -> (s: FramStep)
    ensures
        s@ == cmd_only(seq![b]),
{
    FramStep::Transfer(Transfer::Write { cmd: single(b), data: Vec::new() })
}

fn status_read() -> (s: FramStep)
    ensures
        s@ == read_step(seq![READ_STATUS], 1),
{
    FramStep::Transfer(Transfer::Read { cmd: single(READ_STATUS), len: 1 })
}

fn read_at(addr: usize, len: usize) -> (s: FramStep)
    ensures
        s@ == read_step(addr_cmd_spec(READ, addr as int), len as nat),
{
    let c = addr_cmd(READ, addr);
    FramStep::Transfer(Transfer::Read { cmd: crate::spi_bus::copy_bytes(&c), len })
}

fn fast_read_at(addr: usize, len: usize) -> (s: FramStep)
    ensures
        s@ == read_step(read_cmd_spec(true, addr as int), len as nat),
{
    let c = addr_cmd(FAST_READ, addr);
    let mut v = crate::spi_bus::copy_bytes(&c);
    v.push(0x00);
    FramStep::Transfer(Transfer::Read { cmd: v, len })
}

fn write_at(addr: usize, data: Vec<u8>) -> (s: FramStep)
    ensures
        s@ == FramStepView::Transfer(TransferView::Write { cmd: addr_cmd_spec(WRITE, addr as int), data: data@ }),
{
    let c = addr_cmd(WRITE, addr);
    FramStep::Transfer(Transfer::Write { cmd: crate::spi_bus::copy_bytes(&c), data })
}

/// The FRAM test.
pub struct FramTest {
    phase: FramPhase,
    chunk: Vec<u8>,
    digest: Crc32Digest,
}

impl View for FramTest {
    type V = FramState;

    closed spec fn view(&self) -> FramState {
        FramState { phase: self.phase, chunk: self.chunk@, digested: self.digest@ }
    }
}

impl FramTest {
    /// Nothing done yet.
    pub fn new() -> (t: Self)
        ensures
            t@.phase == FramPhase::Start,
            t@.digested == Seq::<u8>::empty(),
    {
        FramTest { phase: FramPhase::Start, chunk: Vec::new(), digest: Crc32Digest::new() }
    }

    /// Whether the test has finished.
    pub fn is_done(&self) -> (b: bool)
        ensures
            b == (self@.phase == FramPhase::Done),
    {
        self.phase == FramPhase::Done
    }

    /// The CRC32 of the bytes fed so far, and a fresh digest in its place.
    fn take_crc(&mut self) -> (crc: u32)
        ensures
            crc == crc32(old(self)@.digested),
            final(self)@.digested == Seq::<u8>::empty(),
            final(self)@.phase == old(self)@.phase,
            final(self)@.chunk == old(self)@.chunk,
    {
        let mut d = Crc32Digest::new();
        std::mem::swap(&mut d, &mut self.digest);
        d.finalize()
    }

    /// The next step, given what the last one gave: the bytes read, the next 1 KB of the
    /// pattern after a `Pattern` step, or nothing.
    pub fn resume(&mut self, reply: &[u8]) -> (s: FramStep)
        requires
            old(self)@.phase != FramPhase::Done,
            phase_ok(old(self)@.phase),
            reply@.len() == reply_len(old(self)@.phase),
            old(self)@.phase is WriteWren || old(self)@.phase is VerifyRead ==> old(self)@.chunk.len()
                == CHUNK_LEN,
        ensures
            (final(self)@, s@) == fram_next(old(self)@, reply@),
            phase_ok(final(self)@.phase),
            final(self)@.phase is WriteWren || final(self)@.phase is VerifyRead ==> final(self)@.chunk.len()
                == CHUNK_LEN,
    {
        let ghost old_state = self@;
        match self.phase {
            FramPhase::Start => {
                self.phase = FramPhase::IdRead;
                FramStep::Transfer(Transfer::Read { cmd: single(READ_ID), len: 4 })
            },
            FramPhase::IdRead => {
                self.phase = FramPhase::IdLogged(reply[0], reply[1], reply[2], reply[3]);
                FramStep::Note(FramNote::DeviceId(reply[0], reply[1], reply[2], reply[3]))
            },
            FramPhase::IdLogged(a, b, c, d) => {
                let id = DEVICE_ID;
                assert(id@ == DEVICE_ID@);
                if a == id[0] && b == id[1] && c == id[2] && d == id[3] {
                    assert(seq![a, b, c, d] =~= DEVICE_ID@);
                    self.phase = FramPhase::LatchStatus;
                    status_read()
                } else {
                    assert(seq![a, b, c, d] != DEVICE_ID@) by {
                        if seq![a, b, c, d] == DEVICE_ID@ {
                            assert(seq![a, b, c, d][0] == a);
                            assert(seq![a, b, c, d][1] == b);
                            assert(seq![a, b, c, d][2] == c);
                            assert(seq![a, b, c, d][3] == d);
                        }
                    }
                    self.phase = FramPhase::Done;
                    FramStep::Finished(Err(FramError::UnexpectedId(a, b, c, d)))
                }
            },
            FramPhase::LatchStatus => {
                self.phase = FramPhase::LatchLogged;
                FramStep::Note(FramNote::StatusRegister(reply[0]))
            },
            FramPhase::LatchLogged => {
                self.phase = FramPhase::LatchWren;
                cmd_step(WRITE_ENABLE)
            },
            FramPhase::LatchWren => {
                self.phase = FramPhase::LatchEnabled;
                status_read()
            },
            FramPhase::LatchEnabled => {
                self.phase = FramPhase::LatchWrdi(reply[0]);
                cmd_step(WRITE_DISABLE)
            },
            FramPhase::LatchWrdi(e) => {
                self.phase = FramPhase::LatchDisabled(e);
                status_read()
            },
            FramPhase::LatchDisabled(e) => {
                if e & STATUS_WEL == 0 || reply[0] & STATUS_WEL != 0 {
                    self.phase = FramPhase::Done;
                    FramStep::Finished(Err(FramError::LatchDoesNotToggle { enabled: e, disabled: reply[0] }))
                } else {
                    self.phase = FramPhase::LatchGood;
                    FramStep::Note(FramNote::LatchOk)
                }
            },
            FramPhase::LatchGood => {
                self.phase = FramPhase::ProtectStatus;
                status_read()
            },
            FramPhase::ProtectStatus => {
                if reply[0] & STATUS_PROTECT == 0 {
                    self.phase = FramPhase::WriteChunk(0);
                    FramStep::Pattern { restart: true }
                } else {
                    self.phase = FramPhase::ProtectLogged;
                    FramStep::Note(FramNote::ClearingProtection)
                }
            },
            FramPhase::ProtectLogged => {
                self.phase = FramPhase::ProtectWren;
                cmd_step(WRITE_ENABLE)
            },
            FramPhase::ProtectWren => {
                self.phase = FramPhase::ProtectWrite;
                let mut v = single(WRITE_STATUS);
                v.push(0x00);
                assert(v@ =~= seq![WRITE_STATUS, 0x00]);
                FramStep::Transfer(Transfer::Write { cmd: v, data: Vec::new() })
            },
            FramPhase::ProtectWrite => {
                self.phase = FramPhase::ProtectCheck;
                status_read()
            },
            FramPhase::ProtectCheck => {
                if reply[0] & STATUS_PROTECT != 0 {
                    self.phase = FramPhase::Done;
                    FramStep::Finished(Err(FramError::ProtectionStillSet(reply[0])))
                } else {
                    self.phase = FramPhase::WriteChunk(0);
                    FramStep::Pattern { restart: true }
                }
            },
            FramPhase::WriteChunk(k) => {
                self.digest.update(reply);
                self.chunk = crate::spi_bus::copy_bytes(reply);
                self.phase = FramPhase::WriteWren(k);
                cmd_step(WRITE_ENABLE)
            },
            FramPhase::WriteWren(k) => {
                self.phase = FramPhase::WriteData(k);
                let data = crate::spi_bus::copy_bytes(self.chunk.as_slice());
                write_at(k as usize * CHUNK_LEN, data)
            },
            FramPhase::WriteData(k) => {
                if (k as usize) + 1 < CHUNKS {
                    self.phase = FramPhase::WriteChunk(k + 1);
                    FramStep::Pattern { restart: false }
                } else {
                    let crc = self.take_crc();
                    self.phase = FramPhase::Written;
                    FramStep::Note(FramNote::WriteOk(crc))
                }
            },
            FramPhase::Written => {
                self.phase = FramPhase::VerifyChunk { k: 0, fast: false };
                FramStep::Pattern { restart: true }
            },
            FramPhase::VerifyChunk { k, fast } => {
                self.chunk = crate::spi_bus::copy_bytes(reply);
                self.phase = FramPhase::VerifyRead { k, fast };
                if fast {
                    fast_read_at(k as usize * CHUNK_LEN, CHUNK_LEN)
                } else {
                    read_at(k as usize * CHUNK_LEN, CHUNK_LEN)
                }
            },
            FramPhase::VerifyRead { k, fast } => {
                match first_mismatch(reply, self.chunk.as_slice()) {
                    Some(i) => {
                        proof { lemma_first_difference(reply@, self.chunk@, i as int); }
                        let read = reply[i];
                        let expected = self.chunk[i];
                        self.phase = FramPhase::Done;
                        FramStep::Finished(
                            Err(
                                FramError::Verify {
                                    fast,
                                    addr: (k as usize * CHUNK_LEN + i) as u32,
                                    read,
                                    expected,
                                },
                            ),
                        )
                    },
                    None => {
                        assert(reply@ =~= self.chunk@);
                        self.digest.update(reply);
                        if (k as usize) + 1 < CHUNKS {
                            self.phase = FramPhase::VerifyChunk { k: k + 1, fast };
                            FramStep::Pattern { restart: false }
                        } else {
                            let crc = self.take_crc();
                            self.phase = FramPhase::Verified(fast);
                            FramStep::Note(FramNote::VerifyOk { fast, crc })
                        }
                    },
                }
            },
            FramPhase::Verified(fast) => {
                if !fast {
                    self.phase = FramPhase::VerifyChunk { k: 0, fast: true };
                    FramStep::Pattern { restart: true }
                } else {
                    self.phase = FramPhase::LineWren(0);
                    cmd_step(WRITE_ENABLE)
                }
            },
            FramPhase::LineWren(i) => {
                self.phase = FramPhase::LineWrite(i);
                write_at(line_address(i as usize), single(line_marker(i as usize)))
            },
            FramPhase::LineWrite(i) => {
                if (i as usize) + 1 < ADDRESS_LINES {
                    self.phase = FramPhase::LineWren(i + 1);
                    cmd_step(WRITE_ENABLE)
                } else {
                    self.phase = FramPhase::LineRead(0);
                    read_at(line_address(0), 1)
                }
            },
            FramPhase::LineRead(i) => {
                let expected = line_marker(i as usize);
                if reply[0] != expected {
                    self.phase = FramPhase::Done;
                    FramStep::Finished(
                        Err(
                            FramError::AddressLine {
                                addr: line_address(i as usize) as u32,
                                read: reply[0],
                                expected,
                            },
                        ),
                    )
                } else if (i as usize) + 1 < ADDRESS_LINES {
                    self.phase = FramPhase::LineRead(i + 1);
                    read_at(line_address(i as usize + 1), 1)
                } else {
                    self.phase = FramPhase::LinesGood;
                    FramStep::Note(FramNote::AddressLinesOk)
                }
            },
            FramPhase::LinesGood => {
                self.phase = FramPhase::ProtBefore;
                read_at(0, 1)
            },
            FramPhase::ProtBefore => {
                self.phase = FramPhase::ProtWrdi(reply[0]);
                cmd_step(WRITE_DISABLE)
            },
            FramPhase::ProtWrdi(b) => {
                self.phase = FramPhase::ProtWrite(b);
                write_at(0, single(!b))
            },
            FramPhase::ProtWrite(b) => {
                self.phase = FramPhase::ProtAfter(b);
                read_at(0, 1)
            },
            FramPhase::ProtAfter(b) => {
                if reply[0] != b {
                    self.phase = FramPhase::Done;
                    FramStep::Finished(Err(FramError::WriteWithoutEnable { before: b, after: reply[0] }))
                } else {
                    self.phase = FramPhase::ProtGood;
                    FramStep::Note(FramNote::WriteProtectionOk)
                }
            },
            FramPhase::ProtGood => {
                self.phase = FramPhase::Done;
                FramStep::Finished(Ok(()))
            },
            FramPhase::Done => FramStep::Finished(Ok(())),
        }
    }
}

/// Every data write is sent right after a write enable, but the one that checks that a
/// write without write enable is ignored, which is sent right after a write disable; the
/// status register is written right after a write enable too.
pub proof fn lemma_write_discipline(s: FramState, reply: Seq<u8>)
    ensures
        ({
            let (next, step) = fram_next(s, reply);
            &&& step matches FramStepView::Transfer(TransferView::Write { cmd, .. }) ==> (cmd[0]
                == WRITE ==> (s.phase is WriteWren || s.phase is LineWren || s.phase is ProtWrdi))
            &&& step matches FramStepView::Transfer(TransferView::Write { cmd, .. }) ==> (cmd[0]
                == WRITE_STATUS ==> s.phase is ProtectWren)
            &&& next.phase != s.phase && (next.phase is WriteWren || next.phase is LineWren || next.phase
                is ProtectWren) ==> step == cmd_only(seq![WRITE_ENABLE])
            &&& next.phase != s.phase && next.phase is ProtWrdi ==> step == cmd_only(seq![WRITE_DISABLE])
        }),
{
}

/// The pattern is written over the whole memory, one chunk after another: chunk `k` of the
/// pattern goes to addresses `1024 k` to `1024 k + 1023`, and 32 chunks of 1 KB make the
/// 32 KB.
pub proof fn lemma_pattern_covers_memory(s: FramState, reply: Seq<u8>, k: u32)
    requires
        k < CHUNKS,
    ensures
        CHUNKS * CHUNK_LEN == FRAM_LEN,
        fram_next(FramState { phase: FramPhase::WriteWren(k), ..s }, reply).1 == FramStepView::Transfer(
            TransferView::Write { cmd: addr_cmd_spec(WRITE, k * CHUNK_LEN), data: s.chunk },
        ),
        fram_next(FramState { phase: FramPhase::WriteData(k), ..s }, reply).0.phase == if k + 1
            < CHUNKS {
            FramPhase::WriteChunk((k + 1) as u32)
        } else {
            FramPhase::Written
        },
        fram_next(FramState { phase: FramPhase::WriteChunk(k), ..s }, reply).0.chunk == reply,
        fram_next(FramState { phase: FramPhase::WriteChunk(k), ..s }, reply).0.phase
            == FramPhase::WriteWren(k),
{
}

/// The test passes only through every check: the latch toggled, every chunk read back as
/// the pattern, every address-line marker read back, and the write without write enable left
/// address 0 as it was.
pub proof fn lemma_pass_needs_checks(s: FramState, reply: Seq<u8>)
    requires
        s.phase != FramPhase::Done,
        phase_ok(s.phase),
        reply.len() == reply_len(s.phase),
    ensures
        ({
            let (next, step) = fram_next(s, reply);
            &&& step == FramStepView::Finished(Ok(())) ==> s.phase == FramPhase::ProtGood
            &&& next.phase == FramPhase::ProtGood ==> (s.phase matches FramPhase::ProtAfter(b) && reply[0]
                == b)
            &&& next.phase == FramPhase::LinesGood ==> s.phase == FramPhase::LineRead(
                (ADDRESS_LINES - 1) as u32,
            ) && reply[0] == marker(ADDRESS_LINES - 1)
            &&& next.phase matches FramPhase::LineRead(i) ==> (i > 0 ==> s.phase == FramPhase::LineRead(
                (i - 1) as u32,
            ) && reply[0] == marker(i - 1))
            &&& next.phase matches FramPhase::Verified(fast) ==> s.phase == FramPhase::VerifyRead {
                k: (CHUNKS - 1) as u32,
                fast,
            } && reply == s.chunk
            &&& next.phase matches FramPhase::VerifyChunk { k, fast } ==> (k > 0 ==> s.phase
                == FramPhase::VerifyRead { k: (k - 1) as u32, fast } && reply == s.chunk)
            &&& next.phase == (FramPhase::VerifyChunk { k: 0, fast: true }) ==> s.phase
                == FramPhase::Verified(false)
            &&& next.phase == FramPhase::LineWren(0) ==> s.phase == FramPhase::Verified(true)
            &&& next.phase == FramPhase::LatchStatus ==> (s.phase matches FramPhase::IdLogged(a, b, c, d)
                && seq![a, b, c, d] == DEVICE_ID@)
            &&& next.phase == FramPhase::LatchGood ==> (s.phase matches FramPhase::LatchDisabled(e) && e
                & STATUS_WEL != 0 && reply[0] & STATUS_WEL == 0)
        }),
{
}

/// The logged CRC32 of the write pass is that of every chunk written, in order, and the
/// verify pass counts afresh.
pub proof fn lemma_write_crc(s: FramState, reply: Seq<u8>)
    requires
        s.phase == FramPhase::WriteData((CHUNKS - 1) as u32),
    ensures
        fram_next(s, reply).1 == FramStepView::Note(FramNote::WriteOk(crc32(s.digested))),
        fram_next(s, reply).0.digested == Seq::<u8>::empty(),
        fram_next(FramState { phase: FramPhase::WriteChunk(0), ..s }, reply).0.digested == s.digested
            + reply,
{
}

/// Each chunk of a verify pass is read at its own 1 KB: chunk `k` at address `1024 k`, whose
/// high byte is `4 k` and low byte 0. The READ pass reads with READ (0x03) and two address
/// bytes; the fast pass reads with FSTRD (0x0B), two address bytes and the dummy byte. The
/// chunk of the pattern given is kept to compare with the bytes read.
pub proof fn lemma_verify_reads(s: FramState, reply: Seq<u8>)
    requires
        s.phase matches FramPhase::VerifyChunk { k, .. } && k < 32,
    ensures
        ({
            let (next, step) = fram_next(s, reply);
            match s.phase {
                FramPhase::VerifyChunk { k, fast } => {
                    &&& next.phase == FramPhase::VerifyRead { k, fast }
                    &&& next.chunk == reply
                    &&& step == FramStepView::Transfer(TransferView::Read {
                        cmd: if fast {
                            seq![0x0Bu8, (4 * k) as u8, 0x00u8, 0x00u8]
                        } else {
                            seq![0x03u8, (4 * k) as u8, 0x00u8]
                        },
                        len: 1024,
                    })
                    &&& ((4 * k) as u8) * 0x100 == 1024 * k
                },
                _ => true,
            }
        }),
{
    if let FramPhase::VerifyChunk { k, fast } = s.phase {
        let a: int = k * CHUNK_LEN;
        assert((a / 0x100) % 0x100 == 4 * k && a % 0x100 == 0) by (nonlinear_arith)
            requires
                a == k * 1024,
                k < 32,
        ;
        assert(((4 * k) as u8) == 4 * k);
        assert(addr_cmd_spec(READ, a) =~= seq![0x03u8, (4 * k) as u8, 0x00u8]);
        assert(addr_cmd_spec(FAST_READ, a).push(0x00) =~= seq![0x0Bu8, (4 * k) as u8, 0x00u8, 0x00u8]);
    }
}

} // verus!
