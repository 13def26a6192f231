//! Time on the board: the DWT cycle counter, a free-running `u32` at the system clock.
use vstd::prelude::*;

verus! {

/// System clock of the board, in MHz.
pub const SYSCLK_MHZ: u32 = 100;

/// Cycles of the system clock in one millisecond.
pub const CYCLES_PER_MS: u32 = SYSCLK_MHZ * 1_000;

/// Cycles from `start` to `now` on the 32-bit counter, which may have wrapped once.
pub open spec fn cycles_since(start: u32, now: u32) -> nat {
    if now >= start {
        (now - start) as nat
    } else {
        (now + 0x1_0000_0000 - start) as nat
    }
}

/// `now.wrapping_sub(start)`: cycles from `start` to `now`.
pub fn elapsed_cycles(start: u32, now: u32) -> (c: u32)
    ensures
        c == cycles_since(start, now),
{
    now.wrapping_sub(start)
}

/// Whole milliseconds from `start` to `now`.
pub fn elapsed_ms(start: u32, now: u32) -> (ms: u32)
    ensures
        ms == cycles_since(start, now) / (CYCLES_PER_MS as nat),
{
    elapsed_cycles(start, now) / CYCLES_PER_MS
}

} // verus!
