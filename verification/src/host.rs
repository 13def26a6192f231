//! The first host program: its settings, and the sequencer conductor that sends random
//! Control Change messages through `mseq`.
use crate::random::{random_u8_in, seeded_rng};
use vstd::prelude::*;

verus! {

/// The host program's settings, read from `config.toml`.
pub struct Config {
    pub seed: u64,
    pub message_count: u32,
    /// Delay between messages in milliseconds.
    pub interval_ms: u64,
    /// MIDI port index. If absent, the program prompts interactively.
    pub midi_port: Option<usize>,
    /// Receiver watchdog: exit if no message arrives within this many milliseconds.
    pub watchdog_ms: Option<u64>,
}

impl Config {
    /// The settings with the port given on the command line, if any, in place of the
    /// configured one.
    pub fn with_port(self, port: Option<usize>) -> (c: Self)
        ensures
            c.midi_port == match port {
                Some(p) => Some(p),
                None => self.midi_port,
            },
            c.seed == self.seed,
            c.message_count == self.message_count,
            c.interval_ms == self.interval_ms,
            c.watchdog_ms == self.watchdog_ms,
    {
        let mut c = self;
        if let Some(p) = port {
            c.midi_port = Some(p);
        }
        c
    }
}

/// The conductor's generator seed.
pub const SEED: u64 = 42;
/// The tempo the conductor sets.
pub const BPM: u8 = 130;
/// The step at which the conductor quits.
pub const LAST_STEP: u32 = 383;

/// A MIDI Control Change to send.
#[derive(PartialEq, Eq, Structural, Clone, Copy, Debug)]
pub struct ControlChange {
    /// MIDI channel, 1 to 16.
    pub channel_id: u8,
    /// The controller number, 0 to 127.
    pub parameter: u8,
    /// The controller value, 0 to 127.
    pub value: u8,
}

/// A Control Change `mseq` accepts.
pub open spec fn valid_cc(cc: ControlChange) -> bool {
    1 <= cc.channel_id <= 16 && cc.parameter <= 127 && cc.value <= 127
}

/// The conductor: random Control Changes at each step until the last.
pub struct Conductor {
    rng: rand::rngs::SmallRng,
    seed: Ghost<u64>,
}

impl Conductor {
    /// The seed the conductor's generator was created with.
    pub closed spec fn seed(&self) -> u64 {
        self.seed@
    }

    /// A conductor seeded with SEED.
    pub fn default() -> (c: Self)
        ensures
            c.seed() == SEED,
    {
        Conductor { rng: seeded_rng(SEED), seed: Ghost(SEED) }
    }

    /// At start-up: the tempo to set before starting the sequencer, and no instructions.
    pub fn init(&mut self) -> (r: (u8, Vec<ControlChange>))
        ensures
            r.0 == BPM,
            r.1@ == Seq::<ControlChange>::empty(),
    {
        (BPM, Vec::new())
    }

    /// At each step: `None` at the last step, where the sequencer quits; else zero to four
    /// random Control Changes.
    pub fn update(&mut self, step: u32) -> (r: Option<Vec<ControlChange>>)
        ensures
            final(self).seed() == old(self).seed(),
            step == LAST_STEP <==> r is None,
            r matches Some(v) ==> v@.len() <= 4 && forall|i: int| 0 <= i < v@.len() ==> valid_cc(
                #[trigger] v@[i],
            ),
    {
        if step == LAST_STEP {
            return None;
        }
        let mut ins: Vec<ControlChange> = Vec::new();
        let n = random_u8_in(&mut self.rng, 0, 4);
        let mut i: u8 = 0;
        while i < n
            invariant
                i <= n,
                n <= 4,
                self.seed@ == old(self).seed@,
                ins@.len() == i,
                forall|j: int| 0 <= j < ins@.len() ==> valid_cc(#[trigger] ins@[j]),
            decreases n - i,
        {
            let channel_id = random_u8_in(&mut self.rng, 1, 16);
            let parameter = random_u8_in(&mut self.rng, 0, 127);
            let value = random_u8_in(&mut self.rng, 0, 127);
            ins.push(ControlChange { channel_id, parameter, value });
            i = i + 1;
        }
        Some(ins)
    }
}

} // verus!
