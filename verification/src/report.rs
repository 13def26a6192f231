//! The result lines the test scripts read back and compare: a CRC32 in hexadecimal, and the
//! count of bytes it covers.
use crate::text::{decimal, hex_u32, push_decimal, push_hex_u32};
use vstd::prelude::*;

verus! {

/// `{crc:#010X} ({count} bytes)`: the firmware's receive result.
pub open spec fn crc_count_text(crc: u32, count: u32) -> Seq<char> {
    hex_u32(crc) + " ("@ + decimal(count as nat) + " bytes)"@
}

/// The firmware's receive result: the CRC32 and the byte count.
pub fn crc_count_line(crc: u32, count: u32) -> (s: String)
    ensures
        s@ == crc_count_text(crc, count),
{
    let mut s = String::new();
    push_hex_u32(&mut s, crc);
    s.append(" (");
    push_decimal(&mut s, count);
    s.append(" bytes)");
    s
}

/// The host tester's result: `CRC32: {crc:#010X} ({count} bytes)`.
pub fn tester_line(crc: u32, count: u32) -> (s: String)
    ensures
        s@ == "CRC32: "@ + crc_count_text(crc, count),
{
    let mut s = String::from_str("CRC32: ");
    let rest = crc_count_line(crc, count);
    s.append(rest.as_str());
    s
}

/// The firmware's send result, and the CRC32 the firmware's storage tests log:
/// `{crc:#010X}`.
pub fn crc_line(crc: u32) -> (s: String)
    ensures
        s@ == hex_u32(crc),
{
    let mut s = String::new();
    push_hex_u32(&mut s, crc);
    s
}

} // verus!
