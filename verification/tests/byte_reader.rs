//! The scalar reader exercised on each width, peeking and reading.

use dvious::byte_reader::{u24, ByteReader};

// Peek unsigned

#[test]
fn test_peek_u8_be() {
    let reader = get_reader(vec![0x42]);
    let result = reader.peek_be::<u8>().unwrap();

    assert_eq!(result, 0x42);
}

#[test]
fn test_peek_u16_be() {
    let reader = get_reader(vec![0xDE, 0xAD]);
    let result = reader.peek_be::<u16>().unwrap();

    assert_eq!(result, 0xDEAD);
}

#[test]
fn test_peek_u24_be() {
    let reader = get_reader(vec![0xDE, 0xAD, 0xBE]);
    let result = reader.peek_be::<u24>().unwrap();

    assert_eq!(result, u24::from(0xDEADBE));
}

#[test]
fn test_peek_u32_be() {
    let reader = get_reader(vec![0xDE, 0xAD, 0xBE, 0xEF]);
    let result = reader.peek_be::<u32>().unwrap();

    assert_eq!(result, 0xDEADBEEF);
}

// Read unsigned

#[test]
fn test_read_u8_be() {
    let mut reader = get_reader(vec![0x42]);
    let result = reader.read_be::<u8>().unwrap();

    assert_eq!(result, 0x42);
}

#[test]
fn test_read_u16_be() {
    let mut reader = get_reader(vec![0xDE, 0xAD]);
    let result = reader.read_be::<u16>().unwrap();

    assert_eq!(result, 0xDEAD);
}

#[test]
fn test_read_u24_be() {
    let mut reader = get_reader(vec![0xDE, 0xAD, 0xBE]);
    let result = reader.read_be::<u24>().unwrap();

    assert_eq!(result, u24::from(0xDEADBE));
}

#[test]
fn test_read_u32_be() {
    let mut reader = get_reader(vec![0xDE, 0xAD, 0xBE, 0xEF]);
    let result = reader.read_be::<u32>().unwrap();

    assert_eq!(result, 0xDEADBEEF);
}

#[test]
fn test_read_several_be() {
    let mut reader = get_reader(vec![0xAA, 0xBB, 0xBB, 0xCC, 0xCC, 0xCC, 0xCC]);

    assert!(reader.has_more(), "Expected that reader has more");
    assert_eq!(reader.read_be::<u8>().unwrap(), 0xAA);

    assert!(reader.has_more(), "Expected that reader has more");
    assert_eq!(reader.read_be::<u16>().unwrap(), 0xBBBB);

    assert!(reader.has_more(), "Expected that reader has more");
    assert_eq!(reader.read_be::<u32>().unwrap(), 0xCCCCCCCC);

    assert!(!reader.has_more(), "Expected that reader has no more");
    assert!(reader.read_be::<u32>().is_err(), "Expected that 'e' is Err");
}

#[test]
fn test_has_more() {
    let reader = get_reader(vec![0xDE, 0xAD]);

    assert!(reader.has_more(), "Expected that reader has more");
}

#[test]
fn test_has_no_more() {
    let mut reader = get_reader(vec![0xDE, 0xAD]);
    reader.read_be::<u16>().unwrap();

    assert!(!reader.has_more(), "Expected that reader has no more");
}

fn get_reader(bytes: Vec<u8>) -> ByteReader {
    ByteReader::new(bytes)
}
