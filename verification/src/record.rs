//! Decoding of the fixed-format records the kernel probe emits.
//!
//! Each record carries exactly one raw timestamp: a monotonic kernel-clock
//! value in nanoseconds, stored as a 64-bit little-endian integer.

use vstd::prelude::*;

verus! {

/// Number of bytes in one probe record.
pub const RECORD_SIZE: usize = 8;

/// The integer that eight little-endian bytes encode.
pub open spec fn le_u64(s: Seq<u8>) -> int
    recommends
        s.len() == RECORD_SIZE,
{
    s[0] as int
        + s[1] as int * 0x100
        + s[2] as int * 0x1_0000
        + s[3] as int * 0x100_0000
        + s[4] as int * 0x1_0000_0000
        + s[5] as int * 0x100_0000_0000
        + s[6] as int * 0x1_0000_0000_0000
        + s[7] as int * 0x100_0000_0000_0000
}

/// Reads the raw timestamp out of one drained ring-buffer record.
///
/// A record of any other size than eight bytes is malformed and yields
/// nothing; a well-sized record yields exactly the little-endian integer its
/// bytes encode.
pub fn parse_timestamp(bytes: &[u8]) -> (r: Option<u64>)
    ensures
        bytes@.len() == RECORD_SIZE ==> (r matches Some(v) && v as int == le_u64(bytes@)),
        bytes@.len() != RECORD_SIZE ==> r is None,
{
    if bytes.len() != RECORD_SIZE {
        return None;
    }
    let v: u64 = bytes[0] as u64
        + (bytes[1] as u64) * 0x100
        + (bytes[2] as u64) * 0x1_0000
        + (bytes[3] as u64) * 0x100_0000
        + (bytes[4] as u64) * 0x1_0000_0000
        + (bytes[5] as u64) * 0x100_0000_0000
        + (bytes[6] as u64) * 0x1_0000_0000_0000
        + (bytes[7] as u64) * 0x100_0000_0000_0000;
    Some(v)
}

} // verus!
