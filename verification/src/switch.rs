//! The MASTER/SLAVE switch test: the switch is flipped once and back, within 30 s each, and
//! each change must hold through the debounce time to count.
use crate::timing::{cycles_since, elapsed_cycles, CYCLES_PER_MS};
use vstd::prelude::*;

verus! {

/// A change counts once it has held for 20 ms.
pub const DEBOUNCE_CYCLES: u32 = CYCLES_PER_MS * 20;
/// Each flip must come within 30 s.
pub const TIMEOUT_CYCLES: u32 = CYCLES_PER_MS * 30_000;
/// Flip once and back, so both positions are seen changing.
pub const FLIPS: u32 = 2;

/// The level of the switch pin.
#[derive(PartialEq, Eq, Structural, Clone, Copy, Debug)]
pub enum PinState {
    Low,
    High,
}

/// How the log names a switch level.
pub fn level(state: PinState) -> (s: &'static str)
    ensures
        s@ == match state {
            PinState::High => "HIGH (3.3 V)"@,
            PinState::Low => "LOW (GND)"@,
        },
{
    match state {
        PinState::High => "HIGH (3.3 V)",
        PinState::Low => "LOW (GND)",
    }
}

/// The last line of the test.
pub fn verdict(ok: bool) -> (s: &'static str)
    ensures
        s@ == if ok { "SWITCH PASS"@ } else { "SWITCH FAIL"@ },
{
    if ok { "SWITCH PASS" } else { "SWITCH FAIL" }
}

/// What one sample of the pin gives while waiting for a change.
pub enum Wait {
    /// Keep sampling.
    Pending,
    /// The pin has held this level, other than the old one, through the debounce time.
    Changed(PinState),
    /// No change within the timeout.
    TimedOut,
}

/// Waits until the pin has held a level other than `state` for the debounce time, or the
/// timeout has passed since the first sample.
pub struct Debouncer {
    /// The level a change is measured from.
    pub state: PinState,
    /// Cycle counter at the first sample.
    pub start: Option<u32>,
    /// Cycle counter when the pin last left `state`, while it stays away from it.
    pub changed_at: Option<u32>,
}

/// One sample of the pin at cycle `now`, reading `current`: the debouncer after it and what
/// it gives. The first sample starts the timeout; leaving `d.state` starts the debounce time,
/// and coming back to it cancels it.
pub open spec fn debounce_step(d: Debouncer, now: u32, current: PinState) -> (Debouncer, Wait) {
    let start = match d.start {
        Some(s) => s,
        None => now,
    };
    let since = match d.changed_at {
        Some(c) => c,
        None => now,
    };
    let next = Debouncer {
        state: d.state,
        start: Some(start),
        changed_at: if current != d.state { Some(since) } else { None },
    };
    let w = if current != d.state && cycles_since(since, now) >= DEBOUNCE_CYCLES {
        Wait::Changed(current)
    } else if cycles_since(start, now) >= TIMEOUT_CYCLES {
        Wait::TimedOut
    } else {
        Wait::Pending
    };
    (next, w)
}

impl Debouncer {
    /// Starts waiting for a change from `state`.
    pub fn new(state: PinState) -> (d: Self)
        ensures
            d.state == state,
            d.start is None,
            d.changed_at is None,
    {
        Debouncer { state, start: None, changed_at: None }
    }

    /// Samples the pin: `current` is its level at cycle `now`.
    pub fn sample(&mut self, now: u32, current: PinState) -> (w: Wait)
        ensures
            ({
                let start = match old(self).start {
                    Some(s) => s,
                    None => now,
                };
                let since = match old(self).changed_at {
                    Some(c) => c,
                    None => now,
                };
                &&& final(self).state == old(self).state
                &&& final(self).start == Some(start)
                &&& final(self).changed_at == if current != old(self).state {
                    Some(since)
                } else {
                    None
                }
                &&& w == if current != old(self).state && cycles_since(since, now)
                    >= DEBOUNCE_CYCLES {
                    Wait::Changed(current)
                } else if cycles_since(start, now) >= TIMEOUT_CYCLES {
                    Wait::TimedOut
                } else {
                    Wait::Pending
                }
            }),
            (*final(self), w) == debounce_step(*old(self), now, current),
    {
        let start = match self.start {
            Some(s) => s,
            None => now,
        };
        self.start = Some(start);
        if current != self.state {
            let since = match self.changed_at {
                Some(c) => c,
                None => now,
            };
            self.changed_at = Some(since);
            if elapsed_cycles(since, now) >= DEBOUNCE_CYCLES {
                return Wait::Changed(current);
            }
        } else {
            self.changed_at = None;
        }
        if elapsed_cycles(start, now) >= TIMEOUT_CYCLES {
            return Wait::TimedOut;
        }
        Wait::Pending
    }
}

/// What the test reports after a sample.
pub enum SwitchStep {
    /// Keep sampling.
    Waiting,
    /// Flip `flip` of FLIPS was seen: the switch is now at `level`.
    Flipped { level: PinState, flip: u32 },
    /// No change within 30 s: the test fails.
    Failed,
}

/// The whole test: FLIPS debounced changes, each within the timeout.
pub struct SwitchTest {
    debouncer: Debouncer,
    flips: u32,
}

impl SwitchTest {
    /// The level the switch is at.
    pub closed spec fn state(&self) -> PinState {
        self.debouncer.state
    }

    /// The flips seen so far.
    pub closed spec fn flips(&self) -> u32 {
        self.flips
    }

    /// The debouncer waiting for the next flip.
    pub closed spec fn debouncer(&self) -> Debouncer {
        self.debouncer
    }

    /// Starts the test with the switch at `initial`.
    pub fn new(initial: PinState) -> (t: Self)
        ensures
            t.state() == initial,
            t.flips() == 0,
            t.debouncer() == (Debouncer { state: initial, start: None, changed_at: None }),
    {
        SwitchTest { debouncer: Debouncer::new(initial), flips: 0 }
    }

    /// The number of the flip being waited for, from 1.
    pub fn next_flip(&self) -> (n: u32)
        requires
            self.flips() < FLIPS,
        ensures
            n == self.flips() + 1,
    {
        self.flips + 1
    }

    /// Whether every flip has been seen: the test passes.
    pub fn passed(&self) -> (b: bool)
        ensures
            b == (self.flips() >= FLIPS),
    {
        self.flips >= FLIPS
    }

    /// Samples the pin while a flip is awaited: `current` is its level at cycle `now`.
    pub fn sample(&mut self, now: u32, current: PinState) -> (s: SwitchStep)
        requires
            old(self).flips() < FLIPS,
        ensures
            match s {
                SwitchStep::Flipped { level, flip } => {
                    &&& level != old(self).state()
                    &&& level == current
                    &&& final(self).state() == level
                    &&& flip == old(self).flips() + 1
                    &&& final(self).flips() == flip
                },
                _ => final(self).state() == old(self).state() && final(self).flips() == old(
                    self,
                ).flips(),
            },
            ({
                let (next, w) = debounce_step(old(self).debouncer(), now, current);
                match w {
                    Wait::Pending => s is Waiting && final(self).debouncer() == next,
                    Wait::TimedOut => s is Failed && final(self).debouncer() == next,
                    Wait::Changed(level) => s == (SwitchStep::Flipped {
                        level,
                        flip: (old(self).flips() + 1) as u32,
                    }) && final(self).debouncer() == (Debouncer {
                        state: level,
                        start: None,
                        changed_at: None,
                    }),
                }
            }),
    {
        match self.debouncer.sample(now, current) {
            Wait::Pending => SwitchStep::Waiting,
            Wait::TimedOut => SwitchStep::Failed,
            Wait::Changed(level) => {
                self.flips = self.flips + 1;
                self.debouncer = Debouncer::new(level);
                SwitchStep::Flipped { level, flip: self.flips }
            },
        }
    }
}

} // verus!
