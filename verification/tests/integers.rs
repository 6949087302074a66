use rtps::cdr::integers::{put_u32, put_u64, try_get_u32, try_get_u64};
use rtps::cdr::DecodeError;
use rtps::messages::ByteOrder;

#[test]
fn put_u64_in_both_orders() {
    let mut buffer: Vec<u8> = vec![0xff];
    put_u64(&mut buffer, 0x0102_0304_0506_0708, ByteOrder::BigEndian);
    assert_eq!(buffer, vec![0xff, 1, 2, 3, 4, 5, 6, 7, 8]);
    let mut buffer: Vec<u8> = vec![0xff];
    put_u64(&mut buffer, 0x0102_0304_0506_0708, ByteOrder::LittleEndian);
    assert_eq!(buffer, vec![0xff, 8, 7, 6, 5, 4, 3, 2, 1]);
}

#[test]
fn put_u32_in_both_orders() {
    let mut buffer: Vec<u8> = Vec::new();
    put_u32(&mut buffer, 0x0a0b_0c0d, ByteOrder::BigEndian);
    put_u32(&mut buffer, 0x0a0b_0c0d, ByteOrder::LittleEndian);
    assert_eq!(buffer, vec![0x0a, 0x0b, 0x0c, 0x0d, 0x0d, 0x0c, 0x0b, 0x0a]);
}

#[test]
fn try_get_u64_in_both_orders() {
    let bytes: Vec<u8> = vec![1, 2, 3, 4, 5, 6, 7, 8, 9];
    let mut buffer = bytes.as_slice();
    assert_eq!(try_get_u64(&mut buffer, ByteOrder::BigEndian), Ok(0x0102_0304_0506_0708));
    assert_eq!(buffer, &[9]);
    let mut buffer = bytes.as_slice();
    assert_eq!(try_get_u64(&mut buffer, ByteOrder::LittleEndian), Ok(0x0807_0605_0403_0201));
    assert_eq!(buffer, &[9]);
}

#[test]
fn try_get_u32_in_both_orders() {
    let bytes: Vec<u8> = vec![1, 2, 3, 4, 5];
    let mut buffer = bytes.as_slice();
    assert_eq!(try_get_u32(&mut buffer, ByteOrder::BigEndian), Ok(0x0102_0304));
    assert_eq!(buffer, &[5]);
    let mut buffer = bytes.as_slice();
    assert_eq!(try_get_u32(&mut buffer, ByteOrder::LittleEndian), Ok(0x0403_0201));
    assert_eq!(buffer, &[5]);
}

#[test]
fn try_get_from_too_few_bytes() {
    let bytes: Vec<u8> = vec![1, 2, 3];
    for order in [ByteOrder::BigEndian, ByteOrder::LittleEndian] {
        let mut buffer = bytes.as_slice();
        assert_eq!(try_get_u32(&mut buffer, order), Err(DecodeError::Truncated));
        assert_eq!(buffer, &[1, 2, 3]);
        assert_eq!(try_get_u64(&mut buffer, order), Err(DecodeError::Truncated));
        assert_eq!(buffer, &[1, 2, 3]);
    }
}
