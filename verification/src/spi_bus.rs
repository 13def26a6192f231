//! The shared SPI2 bus of the FRAM and NOR flash tests: its speeds, the transfers of one
//! chip-select frame, and the comparison of what was read with what was expected.
use crate::text::{decimal, decimal_padded, lemma_decimal_len, push_decimal, push_decimal_padded};
use vstd::prelude::*;

verus! {

/// SPI2 runs from APB1 and its prescaler divides by a power of two, at least 2. Each speed is
/// an exact prescaler step, ending at the 25 MHz maximum of a 50 MHz APB1.
pub const DIVIDERS: [u32; 4] = [16, 8, 4, 2];

/// One chip-select frame on the bus.
pub enum Transfer {
    /// Sends `cmd` then `data`.
    Write { cmd: Vec<u8>, data: Vec<u8> },
    /// Sends `cmd` then reads `len` bytes.
    Read { cmd: Vec<u8>, len: usize },
}

/// The value of a transfer, with its bytes as sequences.
pub enum TransferView {
    Write { cmd: Seq<u8>, data: Seq<u8> },
    Read { cmd: Seq<u8>, len: nat },
}

impl View for Transfer {
    type V = TransferView;

    open spec fn view(&self) -> TransferView {
        match self {
            Transfer::Write { cmd, data } => TransferView::Write { cmd: cmd@, data: data@ },
            Transfer::Read { cmd, len } => TransferView::Read { cmd: cmd@, len: *len as nat },
        }
    }
}

/// A transfer that sends `cmd` alone.
pub fn command(cmd: &[u8]) -> (t: Transfer)
    ensures
        t@ == (TransferView::Write { cmd: cmd@, data: Seq::empty() }),
{
    let c = copy_bytes(cmd);
    Transfer::Write { cmd: c, data: Vec::new() }
}

/// A transfer that sends `cmd` then `data`.
pub fn write(cmd: &[u8], data: &[u8]) -> (t: Transfer)
    ensures
        t@ == (TransferView::Write { cmd: cmd@, data: data@ }),
{
    Transfer::Write { cmd: copy_bytes(cmd), data: copy_bytes(data) }
}

/// A transfer that sends `cmd` then reads `len` bytes.
pub fn read(cmd: &[u8], len: usize) -> (t: Transfer)
    ensures
        t@ == (TransferView::Read { cmd: cmd@, len: len as nat }),
{
    Transfer::Read { cmd: copy_bytes(cmd), len }
}

/// A vector holding `bytes`.
pub fn copy_bytes(bytes: &[u8]) -> (v: Vec<u8>)
    ensures
        v@ == bytes@,
{
    let mut v: Vec<u8> = Vec::new();
    let mut i: usize = 0;
    while i < bytes.len()
        invariant
            i <= bytes.len(),
            v@ =~= bytes@.take(i as int),
        decreases bytes.len() - i,
    {
        v.push(bytes[i]);
        i = i + 1;
    }
    assert(bytes@.take(bytes.len() as int) =~= bytes@);
    v
}

/// The SPI clock for each divider, from the APB1 clock `pclk1`, slowest first.
pub fn speeds(pclk1: u32) -> (hz: [u32; 4])
    ensures
        forall|i: int| 0 <= i < 4 ==> #[trigger] hz[i] == pclk1 / DIVIDERS[i],
{
    [pclk1 / DIVIDERS[0], pclk1 / DIVIDERS[1], pclk1 / DIVIDERS[2], pclk1 / DIVIDERS[3]]
}

/// A frequency in Hz as MHz with three decimals, e.g. "3.125 MHz".
pub open spec fn mhz_text(hz: u32) -> Seq<char> {
    decimal((hz / 1_000_000) as nat) + seq!['.'] + decimal_padded(((hz % 1_000_000) / 1_000) as nat, 3)
        + seq![' ', 'M', 'H', 'z']
}

/// Formats a frequency in Hz as MHz with three decimals, e.g. "3.125 MHz".
pub fn mhz(hz: u32) -> (s: String)
    ensures
        s@ == mhz_text(hz),
{
    let mut s = String::new();
    push_decimal(&mut s, hz / 1_000_000);
    proof { reveal_strlit("."); }
    s.append(".");
    let frac = hz % 1_000_000 / 1_000;
    proof { lemma_decimal_len(frac as nat); }
    push_decimal_padded(&mut s, frac, 3);
    proof { reveal_strlit(" MHz"); }
    s.append(" MHz");
    s
}

/// Index of the first byte that differs between `actual` and `expected`, over the length of
/// the shorter.
pub fn first_mismatch(actual: &[u8], expected: &[u8]) -> (r: Option<usize>)
    ensures
        match r {
            Some(i) => i < actual.len() && i < expected.len() && actual[i as int] != expected[i as int]
                && forall|j: int| 0 <= j < i ==> actual[j] == expected[j],
            None => forall|j: int|
                0 <= j < actual.len() && j < expected.len() ==> actual[j] == expected[j],
        },
{
    let n = if actual.len() < expected.len() {
        actual.len()
    } else {
        expected.len()
    };
    let mut i: usize = 0;
    while i < n
        invariant
            i <= n,
            n <= actual.len(),
            n <= expected.len(),
            n == actual.len() || n == expected.len(),
            forall|j: int| 0 <= j < i ==> actual[j] == expected[j],
        decreases n - i,
    {
        if actual[i] != expected[i] {
            return Some(i);
        }
        i = i + 1;
    }
    None
}

/// The run of a test at every SPI speed, slowest first, and which speeds it passed.
pub struct SpeedSweep {
    hz: [u32; 4],
    passed: Vec<bool>,
}

impl SpeedSweep {
    /// The speeds, in Hz.
    pub closed spec fn speeds(&self) -> Seq<u32> {
        self.hz@
    }

    /// The verdicts so far, one per speed already run.
    pub closed spec fn verdicts(&self) -> Seq<bool> {
        self.passed@
    }

    /// A sweep from the APB1 clock `pclk1`, no speed run yet.
    pub fn new(pclk1: u32) -> (s: Self)
        ensures
            s.speeds().len() == 4,
            forall|i: int| 0 <= i < 4 ==> #[trigger] s.speeds()[i] == pclk1 / DIVIDERS[i],
            s.verdicts() == Seq::<bool>::empty(),
    {
        SpeedSweep { hz: speeds(pclk1), passed: Vec::new() }
    }

    /// The next speed to run, with its index (which varies the test's data pattern), or
    /// `None` once every speed has run.
    pub fn next_speed(&self) -> (r: Option<(u64, u32)>)
        requires
            self.verdicts().len() <= 4,
        ensures
            self.verdicts().len() < 4 ==> r == Some(
                (self.verdicts().len() as u64, self.speeds()[self.verdicts().len() as int]),
            ),
            self.verdicts().len() == 4 ==> r is None,
    {
        let i = self.passed.len();
        if i < 4 {
            Some((i as u64, self.hz[i]))
        } else {
            None
        }
    }

    /// Records whether the test passed at the current speed.
    pub fn record(&mut self, ok: bool)
        requires
            old(self).verdicts().len() < 4,
        ensures
            final(self).verdicts() == old(self).verdicts().push(ok),
            final(self).speeds() == old(self).speeds(),
    {
        self.passed.push(ok);
    }

    /// Whether the test passed at every speed.
    pub fn all_passed(&self) -> (b: bool)
        ensures
            b == forall|i: int| 0 <= i < self.verdicts().len() ==> #[trigger] self.verdicts()[i],
    {
        let mut i: usize = 0;
        while i < self.passed.len()
            invariant
                i <= self.passed@.len(),
                forall|j: int| 0 <= j < i ==> #[trigger] self.passed@[j],
            decreases self.passed@.len() - i,
        {
            if !self.passed[i] {
                assert(!self.verdicts()[i as int]);
                return false;
            }
            i = i + 1;
        }
        true
    }

    /// One summary line per speed run, "`name` at `speed`: OK" or "...: FAIL", with whether
    /// it passed.
    pub fn summary(&self, name: &str) -> (lines: Vec<(bool, String)>)
        requires
            self.verdicts().len() <= 4,
            self.speeds().len() == 4,
        ensures
            lines@.len() == self.verdicts().len(),
            forall|i: int|
                0 <= i < lines@.len() ==> (#[trigger] lines@[i]).0 == self.verdicts()[i] && lines@[i].1@
                    == name@ + " at "@ + mhz_text(self.speeds()[i]) + if self.verdicts()[i] {
                    ": OK"@
                } else {
                    ": FAIL"@
                },
    {
        let mut lines: Vec<(bool, String)> = Vec::new();
        let mut i: usize = 0;
        while i < self.passed.len()
            invariant
                i <= self.passed@.len(),
                self.passed@.len() <= 4,
                self.hz@.len() == 4,
                lines@.len() == i,
                forall|j: int|
                    0 <= j < i ==> (#[trigger] lines@[j]).0 == self.passed@[j] && lines@[j].1@
                        == name@ + " at "@ + mhz_text(self.hz@[j]) + if self.passed@[j] {
                        ": OK"@
                    } else {
                        ": FAIL"@
                    },
            decreases self.passed@.len() - i,
        {
            let ok = self.passed[i];
            let mut line = String::from_str(name);
            line.append(" at ");
            let m = mhz(self.hz[i]);
            line.append(m.as_str());
            if ok {
                line.append(": OK");
            } else {
                line.append(": FAIL");
            }
            lines.push((ok, line));
            i = i + 1;
        }
        lines
    }

    /// The final line: "`name` PASS" when every speed passed, else "`name` FAIL".
    pub fn verdict_line(&self, name: &str) -> (r: (bool, String))
        ensures
            r.0 == forall|i: int| 0 <= i < self.verdicts().len() ==> #[trigger] self.verdicts()[i],
            r.1@ == name@ + if r.0 { " PASS"@ } else { " FAIL"@ },
    {
        let ok = self.all_passed();
        let mut line = String::from_str(name);
        if ok {
            line.append(" PASS");
        } else {
            line.append(" FAIL");
        }
        (ok, line)
    }
}

} // verus!
