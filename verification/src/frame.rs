//! The binary chunk frame.
//!
//! One chunk travels as a single datagram of exactly `8 + payload length`
//! bytes: a start marker, the chunk index as a 24-bit big-endian integer,
//! the payload length as a 16-bit big-endian integer, the payload checksum,
//! an end marker, and then the payload itself.

use vstd::prelude::*;

use crate::checksum::{payload_checksum, xor8checksum};
use crate::failure::TransferFailure;

verus! {

/// Chunk indexes must fit in the frame's 24-bit index field.
pub const MAX_CHUNK_INDEX: u64 = 0x0100_0000;

/// Payload lengths must fit in the frame's 16-bit length field.
pub const MAX_PAYLOAD_LEN: usize = 0xffff;

/// Whether a chunk index and payload length fit the wire format.
pub open spec fn encodable(index: u64, payload_len: nat) -> bool {
    index < 0x0100_0000 && payload_len <= 0xffff
}

/// The chunk index as three big-endian bytes (most significant first).
pub open spec fn index_be_bytes(index: u64) -> Seq<u8> {
    seq![
        (index / 0x10000 % 0x100) as u8,
        (index / 0x100 % 0x100) as u8,
        (index % 0x100) as u8,
    ]
}

/// The payload length as two big-endian bytes.
pub open spec fn len_be_bytes(len: nat) -> Seq<u8> {
    seq![(len / 0x100 % 0x100) as u8, (len % 0x100) as u8]
}

/// The full frame for one chunk: marker, index, length, checksum, marker,
/// payload.
pub open spec fn frame_bytes(index: u64, payload: Seq<u8>) -> Seq<u8> {
    seq![0xaau8] + index_be_bytes(index) + len_be_bytes(payload.len()) + seq![
        payload_checksum(payload),
    ] + seq![0x55u8] + payload
}

/// The 24-bit big-endian integer held in three bytes.
pub open spec fn index_of_be_bytes(b1: u8, b2: u8, b3: u8) -> int {
    (b1 as u64) * 0x10000 + (b2 as u64) * 0x100 + (b3 as u64)
}

/// Builds the frame for one chunk, or reports that the index or the length
/// exceeds what the format can express. Exactly the inputs within the
/// 24-bit index and 16-bit length limits encode.
pub fn encode_frame(index: u64, payload: &[u8]) -> (r: Result<Vec<u8>, TransferFailure>)
    ensures
        r is Ok <==> encodable(index, payload@.len()),
        r matches Ok(frame) ==> frame@ == frame_bytes(index, payload@),
        r matches Ok(frame) ==> frame@.len() == payload@.len() + 8,
        r matches Ok(frame) ==> frame@[0] == 0xaau8 && frame@[7] == 0x55u8,
        !encodable(index, payload@.len()) ==> r == Err::<Vec<u8>, TransferFailure>(
            TransferFailure::EncodingLimitExceeded,
        ),
{
    if index >= MAX_CHUNK_INDEX {
        return Err(TransferFailure::EncodingLimitExceeded);
    }
    if payload.len() > MAX_PAYLOAD_LEN {
        return Err(TransferFailure::EncodingLimitExceeded);
    }
    let len = payload.len();
    let mut out: Vec<u8> = Vec::new();
    out.push(0xaa);
    out.push((index / 0x10000 % 0x100) as u8);
    out.push((index / 0x100 % 0x100) as u8);
    out.push((index % 0x100) as u8);
    out.push((len / 0x100 % 0x100) as u8);
    out.push((len % 0x100) as u8);
    out.push(xor8checksum(payload));
    out.push(0x55);
    let ghost header = out@;
    proof {
        assert(header =~= frame_bytes(index, payload@).take(8));
    }
    let mut i: usize = 0;
    while i < payload.len()
        invariant
            0 <= i <= payload@.len(),
            out@ == header + payload@.take(i as int),
            header =~= frame_bytes(index, payload@).take(8),
        decreases payload@.len() - i,
    {
        out.push(payload[i]);
        proof {
            assert(header + payload@.take(i + 1) =~= (header + payload@.take(i as int)).push(
                payload@[i as int],
            ));
        }
        i = i + 1;
    }
    proof {
        assert(out@ =~= frame_bytes(index, payload@));
    }
    Ok(out)
}

/// Reads the 24-bit big-endian chunk index back out of an encoded frame.
pub fn decode_chunk_index(frame: &[u8]) -> (r: u64)
    requires
        frame@.len() >= 4,
    ensures
        r == index_of_be_bytes(frame@[1], frame@[2], frame@[3]),
{
    (frame[1] as u64) * 0x10000 + (frame[2] as u64) * 0x100 + (frame[3] as u64)
}

/// The 24-bit big-endian chunk index round-trips through the frame: decoding
/// bytes 1 to 3 of an encoded frame gives back the index it was built from.
pub proof fn lemma_index_round_trip(index: u64, payload: Seq<u8>)
    requires
        index < 0x0100_0000,
    ensures
        index_of_be_bytes(
            frame_bytes(index, payload)[1],
            frame_bytes(index, payload)[2],
            frame_bytes(index, payload)[3],
        ) == index,
{
    assert(((index / 0x10000 % 0x100) as u8 as u64) * 0x10000 + ((index / 0x100 % 0x100) as u8
        as u64) * 0x100 + ((index % 0x100) as u8 as u64) == index) by (bit_vector)
        requires
            index < 0x0100_0000,
    ;
}

} // verus!

