//! The send path of the firmware: `COUNT` random `Note On` messages, 5 ms apart, and the
//! CRC32 of their bytes.
use crate::text::{decimal_fits_u32, digits_value, parse_u32};
use crate::timing::CYCLES_PER_MS;
use vstd::prelude::*;

verus! {

/// Messages are 5 ms apart.
pub const INTERVAL_CYCLES: u32 = CYCLES_PER_MS * 5;
/// The generator seed, shared with the host.
pub const SEED: u64 = 42;
/// Messages sent when `COUNT` is not set.
pub const DEFAULT_MESSAGE_COUNT: u32 = 1000;

/// Whether a `COUNT` setting is a number the build accepts: no byte below `b'0'`, and a
/// value within `u32`.
pub open spec fn count_ok(s: Seq<u8>) -> bool {
    (forall|i: int| 0 <= i < s.len() ==> s[i] >= 48) && digits_value(s) <= u32::MAX
}

/// The number of messages to send: the `COUNT` setting of the build, or 1000; `None` for a
/// setting the build refuses.
pub fn message_count(setting: Option<&[u8]>) -> (n: Option<u32>)
    ensures
        n == match setting {
            Some(s) => if count_ok(s@) {
                Some(digits_value(s@) as u32)
            } else {
                None
            },
            None => Some(DEFAULT_MESSAGE_COUNT),
        },
{
    match setting {
        Some(s) => {
            if !decimal_fits_u32(s) {
                return None;
            }
            Some(parse_u32(s))
        },
        None => Some(DEFAULT_MESSAGE_COUNT),
    }
}

} // verus!
