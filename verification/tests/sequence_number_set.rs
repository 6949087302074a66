use rtps::cdr::{DecodeError, FromCdrEndian, IntoCdrEndian, CDR};
use rtps::messages::submessage::elements::{OutOfBoundsError, SequenceNumberSet};
use rtps::messages::ByteOrder;

fn sample() -> SequenceNumberSet {
    let mut set = SequenceNumberSet::new(100);
    set.insert_offset(1);
    set.insert_offset(10);
    set.insert_offset(100);
    set
}

#[test]
fn insert_offset() {
    let mut set = SequenceNumberSet::new(100);
    assert_eq!(set.insert_offset(0), true);
}

#[test]
fn insert_offset_twice() {
    let mut set = SequenceNumberSet::new(100);
    assert!(set.insert_offset(7));
    assert!(!set.insert_offset(7));
    assert_eq!(set.offsets(), vec![7]);
}

#[test]
fn insert_value_valid() {
    let mut set = SequenceNumberSet::new(100);
    assert_eq!(set.insert_value(101), Ok(true));
    assert!(set.contains(101));
    assert_eq!(set.offsets(), vec![1]);
}

#[test]
fn insert_value_less_than_base() {
    let mut set = SequenceNumberSet::new(100);
    assert_eq!(set.insert_value(99), Err(OutOfBoundsError::LessThanBase));
    assert!(set.is_empty());
}

#[test]
fn insert_value_offset_too_large() {
    let mut set = SequenceNumberSet::new(100);
    assert_eq!(set.insert_value(1000), Err(OutOfBoundsError::OffsetTooLarge));
    assert!(set.is_empty());
}

#[test]
fn insert_value_at_the_edges() {
    let mut set = SequenceNumberSet::new(100);
    assert_eq!(set.insert_value(100), Ok(true));
    assert_eq!(set.insert_value(355), Ok(true));
    assert_eq!(set.insert_value(355), Ok(false));
    assert_eq!(set.insert_value(356), Err(OutOfBoundsError::OffsetTooLarge));
    assert_eq!(set.offsets(), vec![0, 255]);
    assert_eq!(set.max_offset(), 255);
}

#[test]
fn out_of_bounds_messages() {
    assert_eq!(
        OutOfBoundsError::LessThanBase.message(),
        "the provided number is less than the base value of the set"
    );
    assert_eq!(
        OutOfBoundsError::OffsetTooLarge.message(),
        "the provided number is too far from the offset"
    );
}

#[test]
fn empty_set() {
    let set = SequenceNumberSet::new(100);
    assert_eq!(set.base(), 100);
    assert_eq!(set.max_offset(), 0);
    assert_eq!(set.values(), Vec::<u64>::new());
    assert_eq!(set.offsets(), Vec::<u8>::new());
    assert!(set.is_empty());
}

#[test]
fn empty_and_offset_zero_share_max_offset() {
    let empty = SequenceNumberSet::new(100);
    let mut zero = SequenceNumberSet::new(100);
    zero.insert_offset(0);
    assert_eq!(empty.max_offset(), zero.max_offset());
    assert!(empty.is_empty());
    assert!(!zero.is_empty());
    assert_ne!(empty, zero);
}

#[test]
fn values_and_offsets_ascend() {
    let mut set = SequenceNumberSet::new(100);
    set.insert_offset(100);
    set.insert_offset(1);
    set.insert_offset(10);
    assert_eq!(set.offsets(), vec![1, 10, 100]);
    assert_eq!(set.values(), vec![101, 110, 200]);
    assert_eq!(set.max_offset(), 100);
}

#[test]
fn contains_values() {
    let set = sample();
    assert!(set.contains(101));
    assert!(set.contains(110));
    assert!(set.contains(200));
    assert!(!set.contains(100));
    assert!(!set.contains(99));
    assert!(!set.contains(0));
    assert!(!set.contains(1000));
    assert!(!set.contains(u64::MAX));
}

#[test]
fn equality_ignores_insertion_order() {
    let mut other = SequenceNumberSet::new(100);
    other.insert_offset(100);
    other.insert_offset(10);
    other.insert_offset(1);
    assert_eq!(sample(), other);
    other.insert_offset(2);
    assert_ne!(sample(), other);
    let mut moved = SequenceNumberSet::new(101);
    moved.insert_offset(1);
    moved.insert_offset(10);
    moved.insert_offset(100);
    assert_ne!(sample(), moved);
}

#[test]
fn clone_is_equal() {
    let set = sample();
    assert_eq!(set.clone(), set);
}

#[test]
fn round_trip_big_endian() {
    let expected = sample();
    let bytes = expected.as_bytes_endian(ByteOrder::BigEndian);
    let actual =
        SequenceNumberSet::from_bytes_endian(ByteOrder::BigEndian, bytes.as_slice()).unwrap();
    assert_eq!(expected, actual);
}

#[test]
fn round_trip_little_endian() {
    let expected = sample();
    let bytes = expected.as_bytes_endian(ByteOrder::LittleEndian);
    let actual =
        SequenceNumberSet::from_bytes_endian(ByteOrder::LittleEndian, bytes.as_slice()).unwrap();
    assert_eq!(expected, actual);
}

#[test]
fn round_trip_every_offset() {
    for order in [ByteOrder::BigEndian, ByteOrder::LittleEndian] {
        let mut expected = SequenceNumberSet::new(u64::MAX);
        for offset in 0..=255u8 {
            if offset % 3 == 0 || offset == 255 {
                expected.insert_offset(offset);
            }
        }
        let bytes = expected.as_bytes_endian(order);
        assert_eq!(bytes.len(), 12 + 8 * 4);
        assert_eq!(SequenceNumberSet::from_bytes_endian(order, &bytes), Ok(expected));
    }
}

#[test]
fn round_trip_empty() {
    let expected = SequenceNumberSet::new(1);
    let bytes = expected.as_bytes_be();
    assert_eq!(bytes, vec![0, 0, 0, 0, 0, 0, 0, 1, 0, 0, 0, 32, 0, 0, 0, 0]);
    assert_eq!(SequenceNumberSet::from_bytes_be(&bytes), Ok(expected));
}

#[test]
fn exact_bytes_big_endian() {
    let bytes = sample().as_bytes_be();
    let expected: Vec<u8> = vec![
        0, 0, 0, 0, 0, 0, 0, 100, // base
        0, 0, 0, 128, // bit count
        0, 0, 0x04, 0x02, // offsets 1 and 10
        0, 0, 0, 0, // offsets 32 to 63
        0, 0, 0, 0, // offsets 64 to 95
        0, 0, 0, 0x10, // offset 100
    ];
    assert_eq!(bytes, expected);
}

#[test]
fn exact_bytes_little_endian() {
    let bytes = sample().as_bytes_le();
    let expected: Vec<u8> = vec![
        100, 0, 0, 0, 0, 0, 0, 0, // base
        128, 0, 0, 0, // bit count
        0x02, 0x04, 0, 0, // offsets 1 and 10
        0, 0, 0, 0, // offsets 32 to 63
        0, 0, 0, 0, // offsets 64 to 95
        0x10, 0, 0, 0, // offset 100
    ];
    assert_eq!(bytes, expected);
}

#[test]
fn bit_count_rounds_up_to_words() {
    let mut set = SequenceNumberSet::new(5);
    set.insert_offset(31);
    assert_eq!(set.as_bytes_be().len(), 12 + 4);
    assert_eq!(&set.as_bytes_be()[8..], &[0, 0, 0, 32, 0x80, 0, 0, 0]);
    set.insert_offset(32);
    assert_eq!(set.as_bytes_be().len(), 12 + 8);
    assert_eq!(&set.as_bytes_be()[8..], &[0, 0, 0, 64, 0x80, 0, 0, 0, 0, 0, 0, 1]);
    set.insert_offset(255);
    assert_eq!(set.as_bytes_be().len(), 12 + 32);
    assert_eq!(&set.as_bytes_be()[8..12], &[0, 0, 1, 0]);
    assert_eq!(&set.as_bytes_be()[40..], &[0x80, 0, 0, 0]);
}

#[test]
fn to_buffer_appends() {
    let set = sample();
    let mut buffer: Vec<u8> = vec![0xaa, 0xbb];
    set.to_buffer_endian(ByteOrder::LittleEndian, &mut buffer);
    assert_eq!(&buffer[..2], &[0xaa, 0xbb]);
    assert_eq!(&buffer[2..], set.as_bytes_le().as_slice());
    let mut big: Vec<u8> = Vec::new();
    set.to_buffer_be(&mut big);
    assert_eq!(big, set.as_bytes_be());
    let mut little: Vec<u8> = Vec::new();
    set.to_buffer_le(&mut little);
    assert_eq!(little, set.as_bytes_le());
}

#[test]
fn cdr_goes_both_ways() {
    let set = sample();
    let bytes = CDR::as_bytes(&set, ByteOrder::BigEndian);
    assert_eq!(bytes, set.as_bytes_be());
    let back: Result<SequenceNumberSet, DecodeError> = CDR::from_bytes(ByteOrder::BigEndian, &bytes);
    assert_eq!(back, Ok(set));
}

#[test]
fn decode_ignores_what_follows() {
    let mut bytes = sample().as_bytes_le();
    bytes.extend_from_slice(&[1, 2, 3]);
    assert_eq!(SequenceNumberSet::from_bytes_le(&bytes), Ok(sample()));
}

#[test]
fn decode_bit_count_not_a_multiple_of_32() {
    // 40 bits are announced: one whole word is read.
    let bytes: Vec<u8> = vec![0, 0, 0, 0, 0, 0, 0, 9, 0, 0, 0, 40, 0, 0, 0, 5];
    let set = SequenceNumberSet::from_bytes_be(&bytes).unwrap();
    assert_eq!(set.base(), 9);
    assert_eq!(set.offsets(), vec![0, 2]);
    // 31 bits are announced: no word is read.
    let bytes: Vec<u8> = vec![0, 0, 0, 0, 0, 0, 0, 9, 0, 0, 0, 31];
    let set = SequenceNumberSet::from_bytes_be(&bytes).unwrap();
    assert!(set.is_empty());
}

#[test]
fn truncated_mid_word() {
    let mut set = SequenceNumberSet::new(100);
    set.insert_offset(40);
    let bytes = set.as_bytes_le();
    assert_eq!(bytes.len(), 20);
    let result = SequenceNumberSet::from_bytes_le(&bytes[..18]);
    assert_eq!(result, Err(DecodeError::Truncated));
}

#[test]
fn truncated_anywhere() {
    for order in [ByteOrder::BigEndian, ByteOrder::LittleEndian] {
        let bytes = sample().as_bytes_endian(order);
        for kept in 0..bytes.len() {
            assert_eq!(
                SequenceNumberSet::from_bytes_endian(order, &bytes[..kept]),
                Err(DecodeError::Truncated)
            );
        }
    }
}

#[test]
fn zero_base_is_rejected_as_soon_as_it_is_read() {
    let bytes: Vec<u8> = vec![0, 0, 0, 0, 0, 0, 0, 0];
    for order in [ByteOrder::BigEndian, ByteOrder::LittleEndian] {
        assert_eq!(
            SequenceNumberSet::from_bytes_endian(order, &bytes),
            Err(DecodeError::ZeroBase)
        );
        assert_eq!(
            SequenceNumberSet::from_bytes_endian(order, &bytes[..7]),
            Err(DecodeError::Truncated)
        );
    }
    // the base is zero and the words are cut short: the base is read first
    let bytes: Vec<u8> = vec![0, 0, 0, 0, 0, 0, 0, 0, 0, 0, 0, 32, 0, 0];
    assert_eq!(SequenceNumberSet::from_bytes_be(&bytes), Err(DecodeError::ZeroBase));
    let bytes: Vec<u8> = vec![0, 0, 0, 0, 0, 0, 0, 0, 0, 0];
    assert_eq!(SequenceNumberSet::from_bytes_le(&bytes), Err(DecodeError::ZeroBase));
    // with a base the same cuts are truncated
    let bytes: Vec<u8> = vec![0, 0, 0, 0, 0, 0, 0, 1, 0, 0, 0, 32, 0, 0];
    assert_eq!(SequenceNumberSet::from_bytes_be(&bytes), Err(DecodeError::Truncated));
    let bytes: Vec<u8> = vec![1, 0, 0, 0, 0, 0, 0, 0];
    assert_eq!(SequenceNumberSet::from_bytes_le(&bytes), Err(DecodeError::Truncated));
}

#[test]
fn wire_len_tells_where_the_set_ends() {
    for order in [ByteOrder::BigEndian, ByteOrder::LittleEndian] {
        let mut bytes = sample().as_bytes_endian(order);
        assert_eq!(bytes.len(), 28);
        assert_eq!(SequenceNumberSet::wire_len(order, &bytes), Some(28));
        for kept in 0..28 {
            assert_eq!(SequenceNumberSet::wire_len(order, &bytes[..kept]), None);
        }
        bytes.extend_from_slice(&[9, 9, 9]);
        assert_eq!(SequenceNumberSet::wire_len(order, &bytes), Some(28));
    }
    // a whole element with a zero base still has an end
    let bytes: Vec<u8> = vec![0, 0, 0, 0, 0, 0, 0, 0, 0, 0, 0, 32, 0, 0, 0, 1, 7];
    assert_eq!(SequenceNumberSet::wire_len(ByteOrder::BigEndian, &bytes), Some(16));
    // 31 bits are announced: no word follows
    let bytes: Vec<u8> = vec![0, 0, 0, 0, 0, 0, 0, 9, 0, 0, 0, 31];
    assert_eq!(SequenceNumberSet::wire_len(ByteOrder::BigEndian, &bytes), Some(12));
    // the largest bit count there is
    let bytes: Vec<u8> = vec![0, 0, 0, 0, 0, 0, 0, 9, 0xff, 0xff, 0xff, 0xff, 0, 0, 0, 0];
    assert_eq!(SequenceNumberSet::wire_len(ByteOrder::BigEndian, &bytes), None);
}

#[test]
fn sets_one_after_another() {
    let first = sample();
    let mut second = SequenceNumberSet::new(7);
    second.insert_offset(200);
    let mut bytes: Vec<u8> = Vec::new();
    first.to_buffer_le(&mut bytes);
    second.to_buffer_le(&mut bytes);
    let mut rest = bytes.as_slice();
    let len = SequenceNumberSet::wire_len(ByteOrder::LittleEndian, rest).unwrap();
    assert_eq!(SequenceNumberSet::from_bytes_le(rest), Ok(first));
    rest = &rest[len..];
    let len = SequenceNumberSet::wire_len(ByteOrder::LittleEndian, rest).unwrap();
    assert_eq!(SequenceNumberSet::from_bytes_le(rest), Ok(second));
    rest = &rest[len..];
    assert!(rest.is_empty());
    assert_eq!(SequenceNumberSet::wire_len(ByteOrder::LittleEndian, rest), None);
}

#[test]
fn zero_base() {
    let bytes: Vec<u8> = vec![0, 0, 0, 0, 0, 0, 0, 0, 0, 0, 0, 32, 0, 0, 0, 1];
    assert_eq!(SequenceNumberSet::from_bytes_be(&bytes), Err(DecodeError::ZeroBase));
    let bytes: Vec<u8> = vec![0, 0, 0, 0, 0, 0, 0, 0, 32, 0, 0, 0, 1, 0, 0, 0];
    assert_eq!(SequenceNumberSet::from_bytes_le(&bytes), Err(DecodeError::ZeroBase));
}

#[test]
fn offset_out_of_range() {
    // nine words, and bit 0 of the ninth stands for offset 256
    let mut bytes: Vec<u8> = vec![1, 0, 0, 0, 0, 0, 0, 0, 0x20, 1, 0, 0];
    bytes.extend_from_slice(&[0; 32]);
    bytes.extend_from_slice(&[1, 0, 0, 0]);
    assert_eq!(SequenceNumberSet::from_bytes_le(&bytes), Err(DecodeError::OffsetOutOfRange));
}

#[test]
fn empty_words_above_the_range_are_accepted() {
    let mut bytes: Vec<u8> = vec![1, 0, 0, 0, 0, 0, 0, 0, 0x20, 1, 0, 0];
    bytes.extend_from_slice(&[0; 31]);
    bytes.extend_from_slice(&[0x80]);
    bytes.extend_from_slice(&[0, 0, 0, 0]);
    let set = SequenceNumberSet::from_bytes_le(&bytes).unwrap();
    assert_eq!(set.offsets(), vec![255]);
}

#[test]
fn decode_error_messages() {
    assert_eq!(DecodeError::ZeroBase.message(), "the base of the sequence cannot be 0");
    assert_eq!(DecodeError::Truncated.message(), "not enough bytes left in the buffer");
    assert_eq!(
        DecodeError::OffsetOutOfRange.message(),
        "a bit is set for an offset above 255"
    );
    assert_eq!(
        DecodeError::NoSubmessages.message(),
        "a message holds at least one submessage"
    );
}
