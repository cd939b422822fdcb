use chunkwire::frame::{decode_chunk_index, encode_frame};
use chunkwire::TransferFailure;

#[test]
fn frame_layout_worked_case() {
    let payload = "Testqwe\r\n".as_bytes();
    let frame = encode_frame(0x123456, payload).unwrap();
    assert_eq!(frame.len(), payload.len() + 8);
    assert_eq!(frame[0], 0xaa);
    assert_eq!(frame[1], 0x12);
    assert_eq!(frame[2], 0x34);
    assert_eq!(frame[3], 0x56);
    assert_eq!(frame[4], 0x00);
    assert_eq!(frame[5], 0x09);
    assert_eq!(frame[6], 0x54);
    assert_eq!(frame[7], 0x55);
    assert_eq!(&frame[8..], payload);
}

#[test]
fn frame_index_round_trips() {
    let frame = encode_frame(0xabcdef, &[1, 2, 3]).unwrap();
    assert_eq!(decode_chunk_index(&frame), 0xabcdef);
    let frame = encode_frame(0, &[]).unwrap();
    assert_eq!(decode_chunk_index(&frame), 0);
    assert_eq!(frame.len(), 8);
}

#[test]
fn short_payload_gets_zero_checksum() {
    let frame = encode_frame(1, &[9, 9, 9]).unwrap();
    assert_eq!(frame[6], 0x00);
}

#[test]
fn index_too_large_is_refused() {
    let r = encode_frame(0x0100_0000, &[1]);
    assert_eq!(r, Err(TransferFailure::EncodingLimitExceeded));
    // the largest encodable index still passes
    assert!(encode_frame(0x00ff_ffff, &[1]).is_ok());
}

#[test]
fn payload_too_long_is_refused() {
    let big = vec![0u8; 65536];
    let r = encode_frame(0, &big);
    assert_eq!(r, Err(TransferFailure::EncodingLimitExceeded));
    let ok = vec![0u8; 65535];
    assert!(encode_frame(0, &ok).is_ok());
}
