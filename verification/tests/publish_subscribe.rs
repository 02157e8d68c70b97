use bytes::{Bytes, BytesMut};
use hivemqtt::error::MQTTError;
use hivemqtt::fixed_header::FixedHeader;
use hivemqtt::packet::ack_properties::AckProperties;
use hivemqtt::packet::publish::Publish;
use hivemqtt::packet::publish_properties::PublishProperties;
use hivemqtt::packet::suback::SubAck;
use hivemqtt::packet::subscribe::Subscribe;
use hivemqtt::packet::subscribe_properties::SubscribeProperties;
use hivemqtt::packet::subscription_options::{RetainHandling, SubscriptionOptions};
use hivemqtt::packet::unsuback::UnSubAck;
use hivemqtt::packet::unsubscribe::UnSubscribe;
use hivemqtt::packet::unsubscribe_properties::UnSubscribeProperties;
use hivemqtt::packet_type::PacketType;
use hivemqtt::qos::QoS;
use hivemqtt::reason_code::{SubAckReasonCode, UnSubAckReasonCode};

#[test]
fn read_write_publish() {
    let packet = Publish {
        dup: true,
        retain: true,
        qos: QoS::One,
        topic: String::from("packagin_plant/#"),
        pkid: Some(8930),
        payload: Bytes::from(b"veryLarge payload".to_vec()),
        properties: PublishProperties {
            payload_format_indicator: Some(13),
            topic_alias: Some(02),
            ..Default::default()
        },
    };

    let mut buf = BytesMut::new();
    packet.write(&mut buf).unwrap();

    let expected = b";)\0\x10packagin_plant/#\"\xe2\x05\x01\r#\0\x02\0\x11veryLarge payloadveryLarge payload".to_vec();
    assert_eq!(buf.to_vec(), expected);

    let mut expected = Bytes::from_iter(
        b";)\0\x10packagin_plant/#\"\xe2\x05\x01\r#\0\x02\0\x11veryLarge payloadveryLarge payload".to_vec()[2..].to_vec(),
    );
    let created_packed =
        Publish::read_with_fixedheader(&mut expected, FixedHeader::new(PacketType::Publish, 0b1011, 9)).unwrap();
    assert_eq!(created_packed, packet);
}

#[test]
fn publish_at_qos_zero_has_no_packet_identifier() {
    let packet = Publish {
        topic: String::from("a/b"),
        payload: Bytes::from(b"hi".to_vec()),
        ..Default::default()
    };
    let mut buf = BytesMut::new();
    packet.write(&mut buf).unwrap();
    assert_eq!(buf.to_vec(), b"\x30\x08\0\x03a/b\0\0\x02hihi".to_vec());

    let mut read_buf = Bytes::from(buf.to_vec());
    let header = FixedHeader::read(&mut read_buf).unwrap();
    assert_eq!(header.flags, None);
    let read = Publish::read_with_fixedheader(&mut read_buf, header).unwrap();
    assert_eq!(read, packet);
    assert_eq!(read_buf.to_vec(), b"hi".to_vec());
}

#[test]
fn publish_at_qos_one_without_packet_identifier_is_refused() {
    let packet = Publish { qos: QoS::One, topic: String::from("t"), ..Default::default() };
    let mut buf = BytesMut::new();
    assert_eq!(packet.write(&mut buf), Err(MQTTError::PacketIdRequired));
    assert_eq!(buf.to_vec(), b"\x32\x04\0\x01t".to_vec());
}

#[test]
fn publish_with_qos_three_is_unsupported() {
    let mut body = Bytes::from(b"\0\x01t\0\x01\0\0\0".to_vec());
    let header = FixedHeader::new(PacketType::Publish, 0b0110, 8);
    assert_eq!(Publish::read_with_fixedheader(&mut body, header), Err(MQTTError::UnsupportedQoS(3)));
}

#[test]
fn publish_missing_its_packet_identifier_is_refused() {
    let mut body = Bytes::from(b"\0\x01t\x01".to_vec());
    let header = FixedHeader::new(PacketType::Publish, 0b0010, 4);
    assert_eq!(Publish::read_with_fixedheader(&mut body, header), Err(MQTTError::PacketIdRequired));
}

#[test]
fn read_write_suback() {
    let packet = SubAck::default();
    let mut buf = BytesMut::with_capacity(5);
    packet.write(&mut buf).unwrap();

    assert_eq!(buf.to_vec(), b"\x90\x03\0\0\0".to_vec());

    let mut read_buf = Bytes::from_iter(buf.to_vec());
    let fixed_header = FixedHeader::read(&mut read_buf).unwrap();
    assert_eq!(fixed_header.flags, None);
    assert_eq!(fixed_header.packet_type, PacketType::SubAck);
    assert_eq!(fixed_header.remaining_length, 3);
}

#[test]
fn read_write_suback_with_properties_and_payload() {
    let mut packet = SubAck::default();
    packet.packet_identifier = 0x3F;
    packet.payload = vec![
        SubAckReasonCode::GrantedQoS2,
        SubAckReasonCode::QuotaExceeded,
        SubAckReasonCode::UnspecifiedError,
        SubAckReasonCode::NotAuthorized,
    ];
    packet.properties = AckProperties {
        reason_string: Some("googoogReason".into()),
        user_property: vec![("keyAbc".into(), "valueAbc".into())],
    };

    let mut buf = BytesMut::with_capacity(5);
    packet.write(&mut buf).unwrap();

    let mut read_buf = Bytes::from_iter(buf.to_vec());
    let fixed_header = FixedHeader::read(&mut read_buf).unwrap();
    let read_packet = SubAck::read(&mut read_buf).unwrap();

    println!("xddddddd {:?}", buf);
    assert_eq!(
        buf.to_vec(),
        b"\x90*\0?#\x1f\0\rgoogoogReason&\0\x06keyAbc\0\x08valueAbc\x02\x97\x80\x87".to_vec()
    );
    assert_eq!(fixed_header.flags, None);
    assert_eq!(fixed_header.packet_type, PacketType::SubAck);
    assert_eq!(fixed_header.remaining_length, 42);
    assert_eq!(packet, read_packet);
}

#[test]
fn suback_with_an_unknown_reason_code_is_refused() {
    let mut body = Bytes::from(b"\0\x01\0\x01\x05".to_vec());
    assert_eq!(SubAck::read(&mut body), Err(MQTTError::UnknownData(5)));
}

#[test]
fn should_return_an_error_if_user_tries_to_write_subscribe_with_no_payload() {
    let mut packet = Subscribe::default();
    packet.properties = SubscribeProperties {
        subscription_id: Some(28293),
        user_property: vec![("key".into(), "value".into())],
    };
    packet.packet_identifier = 0x3F;

    let mut buf = BytesMut::with_capacity(5);
    let result = packet.write(&mut buf);

    assert_eq!(
        result.unwrap_err(),
        MQTTError::ProtocolError("Must contain at least one topic/subscription option pair")
    );
}

#[test]
fn should_return_an_error_when_reading_a_subscribe_packet_with_no_payload() {
    let mut received_bytes = Bytes::from_iter(b"\0?\x11\x0b\x85\xdd\x01&\0\x03key\0\x05value".to_vec());

    let body = Subscribe::read(&mut received_bytes);
    assert_eq!(
        body,
        Err(MQTTError::ProtocolError("Must contain at least one topic/subscription option pair"))
    );
}

#[test]
fn default_read_write_subscribe_packet() {
    let mut packet = Subscribe::default();
    packet.packet_identifier = 2378;
    packet.payload = vec![("autos".into(), SubscriptionOptions::default())];

    let mut buf = BytesMut::with_capacity(20);
    packet.write(&mut buf).unwrap();

    let mut read_buf = Bytes::from_iter(buf.to_vec());
    let fixed_header = FixedHeader::read(&mut read_buf).unwrap();

    assert_eq!(buf.to_vec(), b"\x82\x0b\tJ\0\0\x05autos\0".to_vec());
    assert_eq!(fixed_header.flags, Some(0b10));
    assert_eq!(fixed_header.packet_type, PacketType::Subscribe);
    let read_packet = Subscribe::read(&mut read_buf).unwrap();
    assert_eq!(packet, read_packet);
}

#[test]
fn subscription_options_pack_into_one_byte() {
    let options = SubscriptionOptions {
        qos: QoS::Two,
        no_local: true,
        retain_as_published: true,
        retain_handling: RetainHandling::DoNotSend,
    };
    assert_eq!(options.byte(), 0b10_1_1_10);
    assert_eq!(SubscriptionOptions::from_byte(0b10_1_1_10), Ok(options));
    assert_eq!(SubscriptionOptions::from_byte(0b0100_0000), Err(MQTTError::MalformedPacket));
    assert_eq!(SubscriptionOptions::from_byte(0b0011_0000), Err(MQTTError::MalformedPacket));
    assert_eq!(SubscriptionOptions::from_byte(0b0000_0011), Err(MQTTError::UnsupportedQoS(3)));
}

#[test]
fn read_write_unsubscribe_and_unsuback() {
    let packet = UnSubscribe {
        packet_identifier: 7,
        properties: UnSubscribeProperties { user_property: vec![] },
        payload: vec!["a/b".to_string(), "c".to_string()],
    };
    let mut buf = BytesMut::new();
    packet.write(&mut buf).unwrap();
    assert_eq!(buf.to_vec(), b"\xa2\x0b\0\x07\0\0\x03a/b\0\x01c".to_vec());
    let mut read_buf = Bytes::from(buf.to_vec());
    let header = FixedHeader::read(&mut read_buf).unwrap();
    assert_eq!(header.flags, Some(0b10));
    assert_eq!(UnSubscribe::read(&mut read_buf).unwrap(), packet);

    let ack = UnSubAck {
        packet_identifier: 7,
        payload: vec![UnSubAckReasonCode::Success, UnSubAckReasonCode::NoSubscriptionExisted],
        properties: AckProperties { reason_string: None, user_property: vec![] },
    };
    let mut buf = BytesMut::new();
    ack.write(&mut buf).unwrap();
    assert_eq!(buf.to_vec(), b"\xb0\x05\0\x07\0\0\x11".to_vec());
    let mut read_buf = Bytes::from(buf.to_vec()[2..].to_vec());
    assert_eq!(UnSubAck::read(&mut read_buf).unwrap(), ack);
}

#[test]
fn unsubscribe_without_topics_is_a_protocol_error() {
    let packet = UnSubscribe::default();
    let mut buf = BytesMut::new();
    assert_eq!(
        packet.write(&mut buf),
        Err(MQTTError::ProtocolError("Must contain at least one topic filter"))
    );
    assert!(buf.is_empty());
}

#[test]
fn the_length_of_a_qos0_publish_counts_its_topic() {
    let packet = Publish { qos: QoS::Zero, topic: "a".into(), payload: Bytes::from_static(b"xy"), ..Default::default() };
    assert_eq!(packet.length(), 6);
}
