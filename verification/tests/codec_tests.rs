use dtls::buffer::{BufReader, BufWriter};
use dtls::errors::DtlsError;

#[test]
fn test_u24_boundary_decode() {
    let zeros = [0u8, 0, 0];
    let mut reader = BufReader::new(&zeros);
    assert_eq!(reader.read_u24().unwrap(), 0);
    let ones = [0xFFu8, 0xFF, 0xFF];
    let mut reader = BufReader::new(&ones);
    assert_eq!(reader.read_u24().unwrap(), 16777215);
}

#[test]
fn test_u16_round_trip() {
    let mut writer = BufWriter::new();
    writer.write_u16(0xfefd);
    let bytes = writer.buf();
    assert_eq!(bytes, vec![0xfe, 0xfd]);
    let mut reader = BufReader::new(bytes.as_slice());
    assert_eq!(reader.read_u16().unwrap(), 0xfefd);
}

#[test]
fn test_u32_round_trip() {
    let mut writer = BufWriter::new();
    writer.write_u32(0xdeadbeef);
    let bytes = writer.buf();
    assert_eq!(bytes, vec![0xde, 0xad, 0xbe, 0xef]);
    let mut reader = BufReader::new(bytes.as_slice());
    assert_eq!(reader.read_u32().unwrap(), 0xdeadbeef);
}

#[test]
fn test_u48_crossing_2_32() {
    // a sequence number just past the 32-bit boundary survives unchanged
    let value: u64 = 0x1_0000_0001;
    let mut writer = BufWriter::new();
    writer.write_u48(value);
    let bytes = writer.buf();
    assert_eq!(bytes, vec![0x00, 0x01, 0x00, 0x00, 0x00, 0x01]);
    let mut reader = BufReader::new(bytes.as_slice());
    assert_eq!(reader.read_u48().unwrap(), value);

    let max: u64 = 0xFFFF_FFFF_FFFF;
    let mut writer = BufWriter::new();
    writer.write_u48(max);
    let bytes = writer.buf();
    let mut reader = BufReader::new(bytes.as_slice());
    assert_eq!(reader.read_u48().unwrap(), max);
}

#[test]
fn test_read_past_end() {
    let empty: [u8; 0] = [];
    let mut reader = BufReader::new(&empty);
    assert_eq!(reader.read_u8(), Err(DtlsError::OutOfRange));
    assert_eq!(reader.read_u16(), Err(DtlsError::OutOfRange));
    assert_eq!(reader.read_u24(), Err(DtlsError::OutOfRange));
    assert_eq!(reader.read_u32(), Err(DtlsError::OutOfRange));
    assert_eq!(reader.read_u48(), Err(DtlsError::OutOfRange));
    assert!(reader.read_exact(1).is_err());

    let short = [1u8, 2, 3];
    let mut reader = BufReader::new(&short);
    assert_eq!(reader.read_u32(), Err(DtlsError::OutOfRange));
    // the failed read did not move the cursor
    assert_eq!(reader.read_u24().unwrap(), 0x010203);
}

#[test]
fn test_write_bytes_appends() {
    let mut writer = BufWriter::new();
    writer.write_u8(1);
    writer.write_bytes(&[2, 3, 4]);
    assert_eq!(writer.buf(), vec![1, 2, 3, 4]);
}

#[test]
fn test_read_exact() {
    let data = [9u8, 8, 7, 6];
    let mut reader = BufReader::new(&data);
    assert_eq!(reader.read_exact(2).unwrap(), vec![9, 8]);
    assert_eq!(reader.read_exact(3), Err(DtlsError::OutOfRange));
    assert_eq!(reader.read_exact(2).unwrap(), vec![7, 6]);
}
