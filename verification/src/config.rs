//! The host tester's settings, read from `config.toml`.
use vstd::prelude::*;

verus! {

/// The host tester's settings.
pub struct Config {
    /// Seed of the message generator, shared with the firmware.
    pub seed: u64,
    /// Delay between messages in milliseconds.
    pub interval_ms: u64,
    /// Receiver watchdog: exit if no message arrives within this many milliseconds.
    pub watchdog_ms: Option<u64>,
}

} // verus!
