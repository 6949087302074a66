use rtps::cdr::DecodeError;
use rtps::messages::framing::{frames, put_header, Frame};
use rtps::messages::header::extension::{Checksum, Parameter, Timestamp};
use rtps::messages::header::{Extension, Header};
use rtps::messages::message::HeaderExtension;
use rtps::messages::submessage::{self, Element, SubMessageKind};
use rtps::messages::{ByteOrder, Message, ProtocolId, SubMessage};
use rtps::structure::{ProtocolVersion, VendorId};

fn submessage(len: u16, flags: u8) -> SubMessage {
    SubMessage {
        header: submessage::Header { id: SubMessageKind::Acknack, len, flags },
        elements: vec![Element],
    }
}

#[test]
fn zero_length_marks_the_last_submessage() {
    assert!(submessage(0, 0).is_last());
    assert!(!submessage(20, 0).is_last());
    assert!(!submessage(u16::MAX, 0).is_last());
}

#[test]
fn bit_0_of_the_flags_tells_the_byte_order() {
    assert_eq!(submessage(0, 0x01).endianness(), ByteOrder::LittleEndian);
    assert_eq!(submessage(0, 0x00).endianness(), ByteOrder::BigEndian);
    assert_eq!(submessage(0, 0xff).endianness(), ByteOrder::LittleEndian);
    assert_eq!(submessage(0, 0xfe).endianness(), ByteOrder::BigEndian);
    for flags in 0..=255u8 {
        let expected =
            if flags & 1 == 1 { ByteOrder::LittleEndian } else { ByteOrder::BigEndian };
        assert_eq!(submessage(5, flags).endianness(), expected);
    }
}

#[test]
fn byte_order_defaults_to_big_endian() {
    assert_eq!(ByteOrder::default(), ByteOrder::BigEndian);
}

#[test]
fn protocol_id_spells_rtps() {
    assert_eq!(&ProtocolId::bytes(), b"RTPS");
}

fn header() -> Header {
    Header {
        protocol_id: ProtocolId,
        protocol_version: ProtocolVersion::Specified { major: 2, minor: 5 },
        vendor_id: VendorId::Known([1, 2]),
        guid_prefix: [7; 12],
    }
}

#[test]
fn message_holds_its_parts() {
    let submessages = vec![submessage(8, 1), submessage(0, 0)];
    let message = Message::new(header(), Some(HeaderExtension), submessages).unwrap();
    assert_eq!(message.header().guid_prefix, [7; 12]);
    assert_eq!(message.header().vendor_id, VendorId::Known([1, 2]));
    assert_eq!(message.header_extension(), Some(HeaderExtension));
    assert_eq!(message.submessages().len(), 2);
    assert_eq!(message.submessages()[0].header.len, 8);
    assert!(!message.submessages()[0].is_last());
    assert!(message.submessages()[1].is_last());
}

#[test]
fn message_without_submessages_is_refused() {
    let result = Message::new(header(), None, Vec::new());
    assert!(matches!(result, Err(DecodeError::NoSubmessages)));
    let one = Message::new(header(), None, vec![submessage(0, 0)]).unwrap();
    assert_eq!(one.header_extension(), None);
    assert_eq!(one.submessages().len(), 1);
}

#[test]
fn extension_builder() {
    let unset = Extension::builder().build();
    assert_eq!(unset.endianess, ByteOrder::BigEndian);
    assert_eq!(unset.length, None);
    assert_eq!(unset.sent_timestamp, None);
    assert_eq!(unset.checksum, None);
    assert!(unset.parameters.is_empty());

    let timestamp = Timestamp { seconds: 1_600_000_000, nanoseconds: 5 };
    let extension = Extension::builder()
        .endianess(ByteOrder::LittleEndian)
        .length(64)
        .sent_timestamp(timestamp)
        .checksum(Checksum)
        .parameter(Parameter)
        .parameter(Parameter)
        .build();
    assert_eq!(extension.endianess, ByteOrder::LittleEndian);
    assert_eq!(extension.length, Some(64));
    assert_eq!(extension.sent_timestamp, Some(timestamp));
    assert_eq!(extension.checksum, Some(Checksum));
    assert_eq!(extension.parameters.len(), 2);
}

#[test]
fn frames_of_two_submessages() {
    // big-endian, three bytes; then little-endian, two bytes
    let bytes: Vec<u8> = vec![0x15, 0x00, 0x00, 0x03, 1, 2, 3, 0x06, 0x01, 0x02, 0x00, 4, 5];
    let found = frames(&bytes).unwrap();
    assert_eq!(
        found,
        vec![
            Frame { kind: 0x15, flags: 0x00, len: 3, start: 4, end: 7 },
            Frame { kind: 0x06, flags: 0x01, len: 2, start: 11, end: 13 },
        ]
    );
    assert_eq!(found[0].endianness(), ByteOrder::BigEndian);
    assert_eq!(found[1].endianness(), ByteOrder::LittleEndian);
    assert!(!found[0].is_last());
    assert_eq!(&bytes[found[0].start..found[0].end], &[1, 2, 3]);
    assert_eq!(&bytes[found[1].start..found[1].end], &[4, 5]);
}

#[test]
fn zero_length_frame_takes_the_rest() {
    let bytes: Vec<u8> = vec![0x15, 0x01, 0x01, 0x00, 9, 0x07, 0x02, 0x00, 0x00, 1, 2, 3, 4, 5];
    let found = frames(&bytes).unwrap();
    assert_eq!(
        found,
        vec![
            Frame { kind: 0x15, flags: 0x01, len: 1, start: 4, end: 5 },
            Frame { kind: 0x07, flags: 0x02, len: 0, start: 9, end: 14 },
        ]
    );
    assert!(found[1].is_last());
    // a zero length before the end takes every byte that is left
    let bytes: Vec<u8> = vec![0x15, 0x00, 0x00, 0x00, 0x07, 0x00, 0x00, 0x01, 7];
    assert_eq!(
        frames(&bytes),
        Ok(vec![Frame { kind: 0x15, flags: 0x00, len: 0, start: 4, end: 9 }])
    );
    let bytes: Vec<u8> = vec![0x01, 0x00, 0x00, 0x00];
    assert_eq!(
        frames(&bytes),
        Ok(vec![Frame { kind: 0x01, flags: 0x00, len: 0, start: 4, end: 4 }])
    );
}

#[test]
fn frames_reject_what_is_cut_short() {
    assert_eq!(frames(&[]), Err(DecodeError::NoSubmessages));
    assert_eq!(frames(&[0x15]), Err(DecodeError::Truncated));
    assert_eq!(frames(&[0x15, 0, 0]), Err(DecodeError::Truncated));
    assert_eq!(frames(&[0x15, 0, 0, 3, 1, 2]), Err(DecodeError::Truncated));
    assert_eq!(frames(&[0x15, 0, 0, 1, 1, 0x06]), Err(DecodeError::Truncated));
    assert_eq!(frames(&[0x15, 0, 0, 1, 1, 0x06, 1, 2, 0, 1]), Err(DecodeError::Truncated));
    // the same length bytes read in the other order fit
    assert_eq!(frames(&[0x15, 1, 1, 0, 1]).map(|found| found.len()), Ok(1));
    assert_eq!(frames(&[0x15, 0, 1, 0, 1]), Err(DecodeError::Truncated));
}

#[test]
fn put_header_in_both_orders() {
    let mut buffer: Vec<u8> = vec![0xee];
    put_header(&mut buffer, 0x15, 0x00, 0x0102);
    assert_eq!(buffer, vec![0xee, 0x15, 0x00, 0x01, 0x02]);
    let mut buffer: Vec<u8> = Vec::new();
    put_header(&mut buffer, 0x15, 0x03, 0x0102);
    assert_eq!(buffer, vec![0x15, 0x03, 0x02, 0x01]);
}

#[test]
fn headers_that_are_put_are_found() {
    let mut buffer: Vec<u8> = Vec::new();
    put_header(&mut buffer, 0x09, 0x01, 300);
    buffer.extend_from_slice(&[0xab; 300]);
    put_header(&mut buffer, 0x15, 0x00, 0);
    buffer.extend_from_slice(&[0xcd; 5]);
    assert_eq!(
        frames(&buffer),
        Ok(vec![
            Frame { kind: 0x09, flags: 0x01, len: 300, start: 4, end: 304 },
            Frame { kind: 0x15, flags: 0x00, len: 0, start: 308, end: 313 },
        ])
    );
}
