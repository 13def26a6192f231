//! The BPM test: the RTC wakeup timer ticks 24 times per beat (the MIDI clock rate) at 120
//! BPM, and the board logs each of 50 beats; the host times them.
use vstd::prelude::*;

verus! {

/// The tempo under test.
pub const TARGET_BPM: u32 = 120;
/// Beats to generate.
pub const BEATS: u32 = 50;
/// Clock ticks per beat.
pub const TICKS_PER_BEAT: u32 = 24;

/// The wakeup period, in microseconds, of a 24-ticks-per-beat clock at `bpm`:
/// 60 s / `bpm` / 24, rounded down.
pub fn period_us(bpm: u32) -> (us: u64)
    requires
        bpm > 0,
    ensures
        us == 2_500_000int / (bpm as int),
{
    2_500_000 / bpm as u64
}

/// What a wakeup gives.
pub enum BeatStep {
    /// A tick within a beat.
    Tick,
    /// Beat number `n` (from 1) is complete.
    Beat(u32),
    /// The last beat, number `n`, is complete: the test is over.
    Done(u32),
}

/// The tick and beat counts.
pub struct BeatCounter {
    tick: u32,
    beat: u32,
}

impl BeatCounter {
    /// Ticks counted so far.
    pub closed spec fn ticks(&self) -> u32 {
        self.tick
    }

    /// Beats completed so far.
    pub closed spec fn beats(&self) -> u32 {
        self.beat
    }

    pub closed spec fn wf(&self) -> bool {
        &&& self.beat == self.tick / TICKS_PER_BEAT
        &&& self.beat < BEATS
    }

    /// No tick yet.
    pub fn new() -> (c: Self)
        ensures
            c.wf(),
            c.ticks() == 0,
            c.beats() == 0,
    {
        BeatCounter { tick: 0, beat: 0 }
    }

    /// Counts one wakeup of the RTC. Every 24th completes a beat; the 50th beat ends the
    /// test.
    pub fn on_wakeup(&mut self) -> (s: BeatStep)
        requires
            old(self).wf(),
        ensures
            final(self).ticks() == old(self).ticks() + 1,
            final(self).beats() == final(self).ticks() / TICKS_PER_BEAT,
            s == if final(self).ticks() % TICKS_PER_BEAT != 0 {
                BeatStep::Tick
            } else if final(self).beats() < BEATS {
                BeatStep::Beat(final(self).beats())
            } else {
                BeatStep::Done(final(self).beats())
            },
            s !is Done ==> final(self).wf(),
    {
        self.tick = self.tick + 1;
        if self.tick % TICKS_PER_BEAT == 0 {
            self.beat = self.beat + 1;
            if self.beat >= BEATS {
                return BeatStep::Done(self.beat);
            }
            return BeatStep::Beat(self.beat);
        }
        BeatStep::Tick
    }
}

/// The run ends exactly at the 1200th wakeup: the first tick count at which a beat completes
/// and the beat count has reached 50 is 24 times 50.
pub proof fn lemma_run_length(ticks: int)
    requires
        ticks > 0,
    ensures
        ({
            &&& ticks % 24 == 0
            &&& ticks / 24 >= 50
            &&& (ticks - 1) / 24 < 50
        }) <==> ticks == TICKS_PER_BEAT * BEATS,
{
}

} // verus!
