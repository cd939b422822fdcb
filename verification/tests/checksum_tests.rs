use chunkwire::xor8checksum;

#[test]
fn test_xor8checksum6() {
    let data = "Test\r\n".as_bytes();
    let checksum = xor8checksum(data);
    assert_eq!(checksum, 0x00);
}

#[test]
fn test_xor8checksum7() {
    let data = "Testq\r\n".as_bytes();
    let checksum = xor8checksum(data);
    assert_eq!(checksum, 0x00);
}

#[test]
fn test_xor8checksum8() {
    let data = "Testqw\r\n".as_bytes();
    let checksum = xor8checksum(data);
    assert_eq!(checksum, 0x00);
}

#[test]
fn test_xor8checksum9() {
    let data = "Testqwe\r\n".as_bytes();
    let checksum = xor8checksum(data);
    assert_eq!(checksum, 0x54);
}

#[test]
fn test_xor8checksum10() {
    let data = "Testqwer\r\n".as_bytes();
    let checksum = xor8checksum(data);
    assert_eq!(checksum, 0x31);
}

#[test]
fn test_xor8checksum11() {
    let data = "Testqwert\r\n".as_bytes();
    let checksum = xor8checksum(data);
    assert_eq!(checksum, 0x42);
}

#[test]
fn test_xor8checksum12() {
    let data = "Testqwerty\r\n".as_bytes();
    let checksum = xor8checksum(data);
    assert_eq!(checksum, 0x36);
}

#[test]
fn checksum_empty_is_zero() {
    assert_eq!(xor8checksum(&[]), 0x00);
}

#[test]
fn checksum_exactly_eight_is_zero() {
    assert_eq!(xor8checksum(&[0xff; 8]), 0x00);
}

#[test]
fn checksum_folds_only_prefix() {
    // nine bytes: only the first takes part in the fold
    let data = [0x5a, 1, 2, 3, 4, 5, 6, 7, 8];
    assert_eq!(xor8checksum(&data), 0x5a);
}
