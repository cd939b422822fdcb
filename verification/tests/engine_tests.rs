use chunkwire::engine::{TransferEngine, TransferState, CHUNK_SIZE};
use chunkwire::TransferFailure;

fn sample_file(len: usize) -> Vec<u8> {
    (0..len).map(|i| (i % 251) as u8).collect()
}

#[test]
fn full_transfer_of_three_chunks() {
    // a 3000-byte file: chunks of 1442, 1442 and 116 bytes
    let data = sample_file(3000);
    let mut engine = TransferEngine::new(data.clone());
    assert_eq!(engine.state, TransferState::CreatingFile);

    engine.command_sent();
    assert_eq!(engine.state, TransferState::AwaitingReady);

    engine.on_ready_line("ok");
    assert_eq!(engine.state, TransferState::Transferring);

    let frame = engine.on_transfer_line("N 0\r\n").unwrap();
    assert_eq!(frame.len(), 8 + CHUNK_SIZE);
    assert_eq!(&frame[8..], &data[0..1442]);

    let frame = engine.on_transfer_line("N 1\r\n").unwrap();
    assert_eq!(&frame[8..], &data[1442..2884]);

    let frame = engine.on_transfer_line("N 2\r\n").unwrap();
    assert_eq!(frame.len(), 8 + 116);
    assert_eq!(&frame[8..], &data[2884..3000]);
    assert_eq!(engine.progress, 3000);

    let out = engine.on_transfer_line("File transfer completed\r\n");
    assert!(out.is_none());
    assert_eq!(engine.state, TransferState::Completed);
}

#[test]
fn stale_request_is_ignored() {
    // index 3 starts at byte 4326, past the 3000-byte file: no frame, no
    // error, still transferring
    let mut engine = TransferEngine::new(sample_file(3000));
    engine.command_sent();
    engine.on_ready_line("ok\r\n");
    let out = engine.on_transfer_line("N 3\r\n");
    assert!(out.is_none());
    assert_eq!(engine.state, TransferState::Transferring);

    // and a later in-range request is still served
    let frame = engine.on_transfer_line("N 1\r\n").unwrap();
    assert_eq!(frame.len(), 8 + CHUNK_SIZE);
}

#[test]
fn request_at_exact_end_sends_empty_frame() {
    // 2884 = 2 chunks exactly; index 2 starts at the end of the file and is
    // answered with an empty payload, not ignored
    let mut engine = TransferEngine::new(sample_file(2884));
    engine.command_sent();
    engine.on_ready_line("ok");
    let frame = engine.on_transfer_line("N 2\r\n").unwrap();
    assert_eq!(frame.len(), 8);
}

#[test]
fn device_error_fails_transfer() {
    let mut engine = TransferEngine::new(sample_file(100));
    engine.command_sent();
    engine.on_ready_line("ok");
    let out = engine.on_transfer_line("File transfer error\r\n");
    assert!(out.is_none());
    assert_eq!(
        engine.state,
        TransferState::Failed(TransferFailure::DeviceReported)
    );
}

#[test]
fn unparseable_line_is_ignored_mid_transfer() {
    let mut engine = TransferEngine::new(sample_file(100));
    engine.command_sent();
    engine.on_ready_line("ok");
    let out = engine.on_transfer_line("echo: unknown command\r\n");
    assert!(out.is_none());
    assert_eq!(engine.state, TransferState::Transferring);
}

#[test]
fn not_ready_until_ok() {
    let mut engine = TransferEngine::new(sample_file(10));
    engine.command_sent();
    engine.on_ready_line("busy\r\n");
    assert_eq!(engine.state, TransferState::AwaitingReady);
    engine.on_ready_line("ok N:1\r\n");
    assert_eq!(engine.state, TransferState::Transferring);
}

#[test]
fn create_command_carries_size_and_name() {
    let engine = TransferEngine::new(sample_file(3000));
    let cmd = engine.create_file_command("part.gcode");
    assert_eq!(cmd, b"M828 P3000 U:part.gcode\n\n".to_vec());
}

#[test]
fn create_command_zero_size() {
    let engine = TransferEngine::new(Vec::new());
    let cmd = engine.create_file_command("a");
    assert_eq!(cmd, b"M828 P0 U:a\n\n".to_vec());
}
