//! The frame checksum: an 8-bit XOR fold over a prefix of the payload.
//!
//! The receiving firmware verifies each chunk against an XOR fold that
//! deliberately leaves the last 8 payload bytes out; payloads of 8 bytes or
//! fewer carry a zero checksum. Wire compatibility demands this asymmetry
//! exactly as it is.

use vstd::prelude::*;

verus! {

/// XOR of all bytes of `s`, 0 for the empty sequence.
pub open spec fn xor_fold(s: Seq<u8>) -> u8
    decreases s.len(),
{
    if s.len() == 0 {
        0u8
    } else {
        xor_fold(s.drop_last()) ^ s.last()
    }
}

/// The checksum carried in byte 6 of a frame: zero when the payload has at
/// most 8 bytes, otherwise the XOR fold of all payload bytes but the last 8.
pub open spec fn payload_checksum(s: Seq<u8>) -> u8 {
    if s.len() <= 8 {
        0u8
    } else {
        xor_fold(s.take(s.len() - 8))
    }
}

/// Computes the frame checksum of `data`.
pub fn xor8checksum(data: &[u8]) -> (r: u8)
    ensures
        r == payload_checksum(data@),
        data@.len() <= 8 ==> r == 0u8,
        data@.len() > 8 ==> r == xor_fold(data@.take(data@.len() - 8)),
{
    if data.len() <= 8 {
        return 0x00;
    }
    let end = data.len() - 8;
    let mut acc: u8 = 0;
    let mut i: usize = 0;
    while i < end
        invariant
            end == data@.len() - 8,
            0 <= i <= end,
            acc == xor_fold(data@.take(i as int)),
        decreases end - i,
    {
        proof {
            assert(data@.take(i + 1).drop_last() =~= data@.take(i as int));
        }
        acc = acc ^ data[i];
        i = i + 1;
    }
    acc
}

} // verus!
