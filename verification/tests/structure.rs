use rtps::cdr::{DecodeError, FromCdr, IntoCdr};
use rtps::structure::participant::Builder;
use rtps::structure::{
    Endpoint, Entity, Guid, Locator, Participant, ProtocolVersion, Publisher, ReliabilityKind,
    Subscriber, TopicKind, VendorId,
};

const PREFIX: [u8; 12] = [1, 2, 3, 4, 5, 6, 7, 8, 9, 10, 11, 12];

fn local(port: u16) -> Locator {
    Locator::Udpv4 { address: [127, 0, 0, 1], port }
}

#[test]
fn guid_parts() {
    let guid = Guid::new([0; 12], [0, 0, 0, 1]);
    assert_eq!(guid.prefix(), [0; 12]);
    assert_eq!(guid.entity_id(), [0, 0, 0, 1]);
}

#[test]
fn guid_equality() {
    let guid = Guid::new(PREFIX, [0, 0, 0, 1]);
    assert_eq!(guid, Guid::new(PREFIX, [0, 0, 0, 1]));
    assert_ne!(guid, Guid::new(PREFIX, [0, 0, 0, 2]));
    assert_ne!(guid, Guid::new([0; 12], [0, 0, 0, 1]));
    assert!(Guid::new(PREFIX, [0, 0, 0, 1]) < Guid::new(PREFIX, [0, 0, 0, 2]));
}

#[test]
fn guid_on_the_wire() {
    let guid = Guid::new(PREFIX, [13, 14, 15, 16]);
    let bytes = guid.as_bytes();
    assert_eq!(bytes, vec![1, 2, 3, 4, 5, 6, 7, 8, 9, 10, 11, 12, 13, 14, 15, 16]);
    assert_eq!(Guid::from_bytes(&bytes), Ok(guid));
    let mut buffer: Vec<u8> = vec![0];
    guid.to_buffer(&mut buffer);
    assert_eq!(buffer.len(), 17);
    assert_eq!(&buffer[1..], bytes.as_slice());
    assert_eq!(Guid::from_bytes(&buffer), Ok(Guid::new(
        [0, 1, 2, 3, 4, 5, 6, 7, 8, 9, 10, 11],
        [12, 13, 14, 15],
    )));
}

#[test]
fn guid_truncated() {
    let bytes = Guid::new(PREFIX, [13, 14, 15, 16]).as_bytes();
    for kept in 0..16 {
        assert_eq!(Guid::from_bytes(&bytes[..kept]), Err(DecodeError::Truncated));
        assert_eq!(Guid::wire_len(&bytes[..kept]), None);
    }
}

#[test]
fn guid_wire_len() {
    let mut bytes = Guid::new(PREFIX, [13, 14, 15, 16]).as_bytes();
    assert_eq!(Guid::wire_len(&bytes), Some(16));
    bytes.extend_from_slice(&[1, 2, 3]);
    assert_eq!(Guid::wire_len(&bytes), Some(16));
}

#[test]
fn participant_defaults() {
    let participant = Participant::new(PREFIX, [0, 0, 0, 1]);
    assert_eq!(participant.guid(), Guid::new(PREFIX, [0, 0, 0, 1]));
    assert_eq!(participant.guid_prefix(), PREFIX);
    assert_eq!(participant.entity_id(), [0, 0, 0, 1]);
    assert_eq!(participant.protocol_version(), ProtocolVersion::Latest);
    assert_eq!(participant.vendor_id(), VendorId::Unknown);
    assert!(participant.default_unicast_locators().is_empty());
    assert!(participant.default_multicast_locators().is_empty());
}

#[test]
fn participant_builder_sets_what_is_asked() {
    let builder: Builder = Participant::builder(PREFIX, [0, 0, 0, 1]);
    let participant = builder
        .vendor_id([0x12, 0x12])
        .default_unicast_locators(vec![local(8080)])
        .build();
    assert_eq!(participant.vendor_id(), VendorId::Known([0x12, 0x12]));
    assert_eq!(participant.protocol_version(), ProtocolVersion::Latest);
    assert_eq!(participant.default_unicast_locators(), &vec![local(8080)]);
    assert!(participant.default_multicast_locators().is_empty());

    let participant = Participant::builder(PREFIX, [0, 0, 0, 1])
        .protocol_version(2, 5)
        .default_multicast_locators(vec![local(1), local(2)])
        .default_multicast_locators(vec![local(3)])
        .build();
    assert_eq!(
        participant.protocol_version(),
        ProtocolVersion::Specified { major: 2, minor: 5 }
    );
    assert_eq!(participant.vendor_id(), VendorId::Unknown);
    assert!(participant.default_unicast_locators().is_empty());
    assert_eq!(participant.default_multicast_locators(), &vec![local(3)]);
}

#[test]
fn groups_share_the_prefix_of_their_participant() {
    let participant = Participant::new(PREFIX, [0, 0, 0, 1]);
    let publisher: Publisher = participant.publisher([0, 0, 0, 2]);
    assert_eq!(publisher.guid_prefix(), PREFIX);
    assert_eq!(publisher.entity_id(), [0, 0, 0, 2]);
    assert_eq!(publisher.guid(), Guid::new(PREFIX, [0, 0, 0, 2]));
    assert!(publisher.endpoints().is_empty());
    let subscriber: Subscriber = participant.subscriber([0, 0, 0, 3]);
    assert_eq!(subscriber.guid_prefix(), PREFIX);
    assert_eq!(subscriber.entity_id(), [0, 0, 0, 3]);
    assert!(subscriber.endpoints().is_empty());
    let group: Publisher = participant.group([0, 0, 0, 4]);
    assert_eq!(group.guid(), Guid::new(PREFIX, [0, 0, 0, 4]));
}

#[test]
fn endpoint_holds_what_it_was_given() {
    let guid = Guid::new(PREFIX, [0, 0, 1, 0]);
    let endpoint = Endpoint::new(
        guid,
        vec![local(7400)],
        Vec::new(),
        TopicKind::WithKey,
        ReliabilityKind::Reliable,
    );
    assert_eq!(endpoint.guid(), guid);
    assert_eq!(endpoint.guid_prefix(), PREFIX);
    assert_eq!(endpoint.entity_id(), [0, 0, 1, 0]);
    assert_eq!(endpoint.unicast_locators(), &vec![local(7400)]);
    assert!(endpoint.multicast_locators().is_empty());
    assert_eq!(endpoint.topic_kind(), TopicKind::WithKey);
    assert_eq!(endpoint.reliability_kind(), ReliabilityKind::Reliable);
    assert_ne!(TopicKind::WithKey, TopicKind::NoKey);
    assert_ne!(ReliabilityKind::BestEffort, ReliabilityKind::Reliable);
}

#[test]
fn locator_equality() {
    assert_eq!(local(1), local(1));
    assert_ne!(local(1), local(2));
    assert_ne!(local(1), Locator::Udpv4 { address: [127, 0, 0, 2], port: 1 });
    let v6 = Locator::Udpv6 { address: [0; 16], port: 1, flowinfo: 0, scope_id: 0 };
    assert_eq!(v6, Locator::Udpv6 { address: [0; 16], port: 1, flowinfo: 0, scope_id: 0 });
    assert_ne!(v6, Locator::Udpv6 { address: [0; 16], port: 1, flowinfo: 1, scope_id: 0 });
    assert_ne!(v6, Locator::Udpv6 { address: [0; 16], port: 1, flowinfo: 0, scope_id: 1 });
    assert_ne!(v6, Locator::Udpv6 { address: [1; 16], port: 1, flowinfo: 0, scope_id: 0 });
    assert_ne!(v6, local(1));
}

#[test]
fn defaults() {
    assert_eq!(ProtocolVersion::default(), ProtocolVersion::Latest);
    assert_eq!(VendorId::default(), VendorId::Unknown);
    assert_eq!(VendorId::Known([1, 2]), VendorId::Known([1, 2]));
    assert_ne!(VendorId::Known([1, 2]), VendorId::Known([1, 3]));
    assert_ne!(VendorId::Known([0, 0]), VendorId::Unknown);
}
