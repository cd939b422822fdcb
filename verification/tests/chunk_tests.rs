use chunkwire::chunk::{parse_chunk_number, ChunkParseResult};

#[test]
fn test_parse_chunk_number() {
    let data = "N 1234 ok\r\n";
    let result = parse_chunk_number(data);
    assert_eq!(result, ChunkParseResult::Chunk(1234));
}

#[test]
fn parse_takes_leftmost_pattern() {
    let result = parse_chunk_number("x N 7 and N 9");
    assert_eq!(result, ChunkParseResult::Chunk(7));
}

#[test]
fn parse_zero_index() {
    assert_eq!(parse_chunk_number("N 0\r\n"), ChunkParseResult::Chunk(0));
}

#[test]
fn completed_takes_priority_over_chunk_pattern() {
    let result = parse_chunk_number("File transfer completed N 12\r\n");
    assert_eq!(result, ChunkParseResult::FileTransferCompleted);
}

#[test]
fn completed_takes_priority_over_error_text() {
    let result = parse_chunk_number("File transfer completed File transfer error");
    assert_eq!(result, ChunkParseResult::FileTransferCompleted);
}

#[test]
fn error_signal_recognised() {
    let result = parse_chunk_number("File transfer error\r\n");
    assert_eq!(result, ChunkParseResult::FileTransferError);
}

#[test]
fn unparseable_line_reports_failure() {
    let result = parse_chunk_number("resend last\r\n");
    assert_eq!(
        result,
        ChunkParseResult::Error(String::from("Failed to parse chunk"))
    );
}

#[test]
fn oversized_number_reports_overflow() {
    // twenty digits: more than any 64-bit value
    let result = parse_chunk_number("N 99999999999999999999\r\n");
    assert_eq!(
        result,
        ChunkParseResult::Error(String::from("number too large to fit in target type"))
    );
}

#[test]
fn largest_index_still_parses() {
    let line = format!("N {}\r\n", u64::MAX);
    assert_eq!(parse_chunk_number(&line), ChunkParseResult::Chunk(u64::MAX));
}

#[test]
fn pattern_needs_space_and_digit() {
    assert_eq!(
        parse_chunk_number("N x 4"),
        ChunkParseResult::Error(String::from("Failed to parse chunk"))
    );
    assert_eq!(
        parse_chunk_number("N5"),
        ChunkParseResult::Error(String::from("Failed to parse chunk"))
    );
}
