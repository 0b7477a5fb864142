use wmb_scene::byte_stream::ByteReader;
use wmb_scene::error::DecodeError;

#[test]
fn little_endian_typed_reads() {
    let data = vec![
        0x01, 0x02, 0x03, 0x04, 0x05, 0x06, 0x07, 0x08, 0xFF, 0xFF, 0xFE, 0xFF, 0xFF, 0xFF, 0xFF,
        0xFF,
    ];
    let mut rd = ByteReader::new(data);
    assert_eq!(rd.read_u16().unwrap(), 0x0201);
    assert_eq!(rd.read_u32().unwrap(), 0x06050403);
    assert_eq!(rd.read_u8().unwrap(), 0x07);
    assert_eq!(rd.read_u8().unwrap(), 0x08);
    assert_eq!(rd.read_i16().unwrap(), -1);
    assert_eq!(rd.read_i16().unwrap(), -2);
    assert_eq!(rd.read_i32().unwrap(), -1);
}

#[test]
fn read_u64_and_i64() {
    let mut rd = ByteReader::new(vec![1, 0, 0, 0, 0, 0, 0, 0]);
    assert_eq!(rd.read_u64().unwrap(), 1);
    let mut rd2 = ByteReader::new(vec![0xFF; 8]);
    assert_eq!(rd2.read_i64().unwrap(), -1);
}

#[test]
fn seek_and_position() {
    let mut rd = ByteReader::new(vec![9, 8, 7, 6]);
    assert_eq!(rd.size(), 4);
    rd.seek(2).unwrap();
    assert_eq!(rd.position(), 2);
    assert_eq!(rd.read_u8().unwrap(), 7);
}

#[test]
fn short_read_fails_atomically() {
    let mut rd = ByteReader::new(vec![1, 2, 3]);
    rd.seek(2).unwrap();
    assert_eq!(rd.read_u32(), Err(DecodeError::ShortRead));
    // the cursor did not move on failure
    assert_eq!(rd.position(), 2);
    assert_eq!(rd.read_u8().unwrap(), 3);
}

#[test]
fn read_fixed_string_bytes() {
    let mut rd = ByteReader::new(b"WMB4rest".to_vec());
    assert_eq!(rd.read_string(4).unwrap(), b"WMB4".to_vec());
    assert_eq!(rd.position(), 4);
}

#[test]
fn read_zero_terminated_string() {
    let mut rd = ByteReader::new(b"abc\0def".to_vec());
    assert_eq!(rd.read_string_zero_term().unwrap(), b"abc".to_vec());
    // the terminator is consumed but not included
    assert_eq!(rd.position(), 4);
    // no terminator ahead: fail without consuming
    assert_eq!(rd.read_string_zero_term(), Err(DecodeError::ShortRead));
    assert_eq!(rd.position(), 4);
}
