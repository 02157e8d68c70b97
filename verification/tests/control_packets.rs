use bytes::{Bytes, BytesMut};
use hivemqtt::fixed_header::FixedHeader;
use hivemqtt::packet::ack::{PubComp, PubRec};
use hivemqtt::packet::ack_properties::AckProperties;
use hivemqtt::packet::disconnect::Disconnect;
use hivemqtt::packet::disconnect_properties::DisconnectProperties;
use hivemqtt::packet_type::PacketType;
use hivemqtt::reason_code::{DisconnectReasonCode, PubAckReasonCode, PubRelReasonCode};

#[test]
fn read_write_disconnect_without_properties_and_normal_reasoncode() {
    let packet = Disconnect::default();
    let mut buf = BytesMut::with_capacity(10);
    packet.write(&mut buf).unwrap();

    assert_eq!(buf, b"\xe0\0\0".to_vec());

    let mut read_buf = Bytes::from_iter(buf.to_vec());
    let fixed_header = FixedHeader::read(&mut read_buf).unwrap();

    assert_eq!(fixed_header.flags, None);
    assert_eq!(fixed_header.remaining_length, 0);
    assert_eq!(fixed_header.packet_type, PacketType::Disconnect);

    let read_packet = Disconnect::read(&mut read_buf).unwrap();
    assert_eq!(read_packet.reason_code, DisconnectReasonCode::NormalDisconnection);
}

#[test]
fn read_write_disconect_without_properties_other_reasoncode() {
    let mut packet = Disconnect::default();
    packet.reason_code = DisconnectReasonCode::MaximumConnectTime;

    let mut buf = BytesMut::with_capacity(10);
    packet.write(&mut buf).unwrap();

    assert_eq!(buf, b"\xe0\x02\xa0\0".to_vec());

    let mut read_buf = Bytes::from_iter(buf.to_vec());
    let fixed_header = FixedHeader::read(&mut read_buf).unwrap();

    assert_eq!(fixed_header.flags, None);
    assert_eq!(fixed_header.remaining_length, 2);
    assert_eq!(fixed_header.packet_type, PacketType::Disconnect);

    let read_packet = Disconnect::read(&mut read_buf).unwrap();
    assert_eq!(read_packet.reason_code, DisconnectReasonCode::MaximumConnectTime);
    assert_eq!(packet, read_packet);
}

#[test]
fn read_write_disconnect_packet_with_properties() {
    let mut packet = Disconnect::default();
    packet.reason_code = DisconnectReasonCode::MaximumConnectTime;
    packet.properties = DisconnectProperties {
        session_expiry_interval: Some(0x3A),
        reason_string: Some("aVery good string3898 &**".into()),
        user_property: vec![],
        server_reference: Some("mqtt5.0.dev".into()),
    };

    let mut buf = BytesMut::with_capacity(10);
    packet.write(&mut buf).unwrap();

    let expected =
        b"\xe01\xa0/\x11\0\0\0:\x1f\0\x19aVery good string3898 &**\x1c\0\x0bmqtt5.0.dev".to_vec();

    assert_eq!(buf, expected);

    let mut read_buf = Bytes::from_iter(expected.to_vec());
    let fixed_header = FixedHeader::read(&mut read_buf).unwrap();

    assert_eq!(fixed_header.flags, None);
    assert_eq!(fixed_header.remaining_length, 49);
    assert_eq!(fixed_header.packet_type, PacketType::Disconnect);

    let read_packet = Disconnect::read(&mut read_buf).unwrap();
    assert_eq!(read_packet.reason_code, DisconnectReasonCode::MaximumConnectTime);
    assert_eq!(packet, read_packet);
}

#[test]
fn read_write_with_no_properties() {
    let mut packet = PubComp::default();
    packet.reason_code = PubRelReasonCode::Success;

    let mut buf = BytesMut::with_capacity(20);
    packet.write(&mut buf).unwrap();

    assert_eq!(buf.to_vec(), b"p\x02\0\0".to_vec());

    let mut read_buf = Bytes::from_iter(buf.to_vec());
    let header = FixedHeader::read(&mut read_buf).unwrap();

    assert_eq!(header.remaining_length, 2);
    assert_eq!(header.packet_type, PacketType::PubComp);

    let received_packet = PubComp::read_with_fixedheader(&mut read_buf, header).unwrap();
    assert_eq!(packet, received_packet);
}

#[test]
fn read_write_with_neither_properties_nor_reasoncode() {
    let packet = PubComp::default();

    let mut buf = BytesMut::with_capacity(10);
    packet.write(&mut buf).unwrap();

    assert_eq!(buf.to_vec(), b"p\x02\0\0".to_vec());

    let mut read_buf = Bytes::from_iter(buf.to_vec());
    let fixed_header = FixedHeader::read(&mut read_buf).unwrap();

    assert_eq!(fixed_header.remaining_length, 2);
    assert_eq!(fixed_header.packet_type, PacketType::PubComp);

    let received_packet = PubComp::read_with_fixedheader(&mut read_buf, fixed_header).unwrap();
    assert_eq!(packet, received_packet);
    assert_eq!(packet.reason_code, PubRelReasonCode::Success);
}

#[test]
fn read_write_with_properties_and_reasoncode() {
    let mut packet = PubComp::default();
    packet.properties.reason_string = Some(String::from("thisIsAReasonStriing--andMoreAndMore"));
    packet.properties.user_property = vec![(String::from("notAuthorized"), String::from("value"))];
    packet.reason_code = PubRelReasonCode::PacketIdentifierNotFound;

    let mut buf = BytesMut::with_capacity(50);
    packet.write(&mut buf).unwrap();

    let expected = b"pB\0\0\x92>\x1f\0$thisIsAReasonStriing--andMoreAndMore&\0\rnotAuthorized\0\x05value".to_vec();
    assert_eq!(buf.to_vec(), expected);

    let mut read_buf = Bytes::from_iter(expected);
    let fixed_header = FixedHeader::read(&mut read_buf).unwrap();

    assert_eq!(fixed_header.packet_type, PacketType::PubComp);

    let received_packet = PubComp::read_with_fixedheader(&mut read_buf, fixed_header).unwrap();
    assert_eq!(packet, received_packet);
}

#[test]
fn mod_read_write_with_no_properties() {
    let mut packet = PubRec::default();
    packet.reason_code = PubAckReasonCode::Success;

    let mut buf = BytesMut::with_capacity(20);
    packet.write(&mut buf).unwrap();

    assert_eq!(buf.to_vec(), b"P\x02\0\0".to_vec());

    let mut read_buf = Bytes::from_iter(buf.to_vec());
    let header = FixedHeader::read(&mut read_buf).unwrap();

    assert_eq!(header.remaining_length, 2);
    assert_eq!(header.packet_type, PacketType::PubRec);

    let received_packet = PubRec::read_with_fixedheader(&mut read_buf, header).unwrap();
    assert_eq!(packet, received_packet);
}

#[test]
fn mod_read_write_with_properties_and_reasoncode() {
    let mut packet = PubRec::default();
    packet.properties.reason_string = Some(String::from("thisIsAReasonStriing--andMoreAndMore"));
    packet.properties.user_property = vec![(String::from("notAuthorized"), String::from("value"))];
    packet.reason_code = PubAckReasonCode::NotAuthorized;

    let mut buf = BytesMut::with_capacity(50);
    packet.write(&mut buf).unwrap();

    let expected = b"PB\0\0\x87>\x1f\0$thisIsAReasonStriing--andMoreAndMore&\0\rnotAuthorized\0\x05value".to_vec();

    assert_eq!(buf.to_vec(), expected);

    let mut read_buf = Bytes::from_iter(expected);
    let fixed_header = FixedHeader::read(&mut read_buf).unwrap();

    assert_eq!(fixed_header.packet_type, PacketType::PubRec);

    let received_packet = PubRec::read_with_fixedheader(&mut read_buf, fixed_header).unwrap();
    assert_eq!(packet, received_packet);
    let _ = AckProperties::default();
}
