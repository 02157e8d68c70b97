use bytes::{Bytes, BytesMut};
use hivemqtt::client::options::ConnectOptions;
use hivemqtt::error::MQTTError;
use hivemqtt::fixed_header::FixedHeader;
use hivemqtt::packet::auth::Auth;
use hivemqtt::packet::auth_properties::AuthProperties;
use hivemqtt::packet::connack::ConnAck;
use hivemqtt::packet::connack_properties::ConnAckProperties;
use hivemqtt::packet::connect::Connect;
use hivemqtt::packet::connect_flags::ConnectFlags;
use hivemqtt::packet::connect_properties::ConnectProperties;
use hivemqtt::packet::control::Packet;
use hivemqtt::packet::ping::{PingReq, PingResp};
use hivemqtt::packet::will::Will;
use hivemqtt::packet::will_properties::WillProperties;
use hivemqtt::packet_type::PacketType;
use hivemqtt::qos::QoS;
use hivemqtt::reason_code::{AuthReasonCode, ConnAckReasonCode};

fn connect() -> Connect {
    Connect {
        client_id: "id".to_string(),
        will: None,
        username: None,
        password: None,
        clean_start: true,
        keep_alive: 10,
        properties: ConnectProperties::default(),
    }
}

#[test]
fn connect_writes_the_protocol_name_version_and_flags() {
    let mut buf = BytesMut::new();
    connect().write(&mut buf).unwrap();
    assert_eq!(buf.to_vec(), b"\x10\x0f\0\x04MQTT\x05\x02\0\x0a\0\0\x02id".to_vec());
}

#[test]
fn connect_reads_back() {
    let mut c = connect();
    c.username = Some("user".to_string());
    c.password = Some("pw".to_string());
    c.will = Some(Will {
        properties: WillProperties { delay_interval: Some(5), ..Default::default() },
        topic: "last/words".to_string(),
        payload: Bytes::from(b"bye".to_vec()),
        qos: QoS::One,
        retain: true,
    });
    let mut buf = BytesMut::new();
    c.write(&mut buf).unwrap();
    assert_eq!(buf[9], 0b1110_1110);
    let mut read_buf = Bytes::from(buf.to_vec());
    match Packet::read(&mut read_buf).unwrap() {
        Packet::Connect(read) => assert_eq!(read, c),
        other => panic!("unexpected {:?}", other),
    }
}

#[test]
fn connect_with_another_protocol_is_refused() {
    let mut body = Bytes::from(b"\0\x04MQTX\x05\x02\0\x0a\0\0\x02id".to_vec());
    assert_eq!(Connect::read(&mut body), Err(MQTTError::MalformedPacket));
    let mut body = Bytes::from(b"\0\x04MQTT\x04\x02\0\x0a\0\0\x02id".to_vec());
    assert_eq!(Connect::read(&mut body), Err(MQTTError::VersionNotSupported(4)));
    let mut body = Bytes::from(b"\0\x04MQTT\x05\x03\0\x0a\0\0\x02id".to_vec());
    assert_eq!(Connect::read(&mut body), Err(MQTTError::MalformedPacket));
}

#[test]
fn connect_from_options_carries_them() {
    let options = ConnectOptions {
        client_id: "abc".to_string(),
        keep_alive: 30,
        username: Some("u".to_string()),
        ..Default::default()
    };
    let c = Connect::from_options(options);
    assert_eq!(c.client_id, "abc");
    assert_eq!(c.keep_alive, 30);
    assert_eq!(c.username, Some("u".to_string()));
    assert_eq!(c.properties.receive_maximum, Some(u16::MAX));
    assert_eq!(c.properties.topic_alias_maximum, Some(0));
    assert_eq!(c.properties.session_expiry_interval, Some(0));
}

#[test]
fn connect_flags_follow_the_layout() {
    let flags = ConnectFlags::new(true, true, false, true, true, QoS::One);
    assert_eq!(u8::from(flags), 0b1100_1110);
    assert_eq!(ConnectFlags::from_byte(0b1100_1110), Ok(flags));
    assert_eq!(ConnectFlags::from_byte(0b0001_1000), Err(MQTTError::UnsupportedQoS(3)));
    let no_will = ConnectFlags::new(false, false, true, false, false, QoS::Two);
    assert_eq!(no_will.to_byte(), 0b0011_0000);
}

#[test]
fn connack_reads_back() {
    let ack = ConnAck {
        session_present: true,
        reason: ConnAckReasonCode::Success,
        properties: ConnAckProperties { receive_maximum: Some(20), ..Default::default() },
    };
    let mut buf = BytesMut::new();
    ack.write(&mut buf).unwrap();
    assert_eq!(buf.to_vec(), b"\x20\x06\x01\x00\x03\x21\x00\x14".to_vec());
    let mut read_buf = Bytes::from(buf.to_vec());
    match Packet::read(&mut read_buf).unwrap() {
        Packet::ConnAck(read) => assert_eq!(read, ack),
        other => panic!("unexpected {:?}", other),
    }
    let mut bad = Bytes::from(b"\x02\x00\x00".to_vec());
    assert_eq!(ConnAck::read(&mut bad), Err(MQTTError::MalformedPacket));
    let mut bad_code = Bytes::from(b"\x00\x01\x00".to_vec());
    assert_eq!(ConnAck::read(&mut bad_code), Err(MQTTError::UnknownData(1)));
}

#[test]
fn auth_reads_back() {
    let auth = Auth {
        reason_code: AuthReasonCode::ContinueAuthentication,
        properties: AuthProperties { auth_method: Some("SCRAM".to_string()), ..Default::default() },
    };
    let mut buf = BytesMut::new();
    auth.write(&mut buf).unwrap();
    let mut read_buf = Bytes::from(buf.to_vec());
    let header = FixedHeader::read(&mut read_buf).unwrap();
    assert_eq!(header.packet_type, PacketType::Auth);
    assert_eq!(Auth::read(&mut read_buf).unwrap(), auth);
}

#[test]
fn pings_are_two_bytes() {
    let mut buf = BytesMut::new();
    Packet::PingReq(PingReq {}).write(&mut buf).unwrap();
    Packet::PingResp(PingResp {}).write(&mut buf).unwrap();
    assert_eq!(buf.to_vec(), b"\xc0\0\xd0\0".to_vec());
    let mut read_buf = Bytes::from(buf.to_vec());
    assert_eq!(Packet::read(&mut read_buf), Ok(Packet::PingReq(PingReq {})));
    assert_eq!(Packet::read(&mut read_buf), Ok(Packet::PingResp(PingResp {})));
    assert_eq!(Packet::read(&mut read_buf), Err(MQTTError::InsufficientBytes));
}

#[test]
fn connect_flags_round_trip_without_a_will_flag() {
    let flags = ConnectFlags::new(false, true, true, false, true, QoS::One);
    let byte = flags.to_byte();
    assert_eq!(byte, 0b0110_1010);
    assert_eq!(ConnectFlags::from_byte(byte), Ok(flags));
}

#[test]
fn packet_read_stops_at_the_remaining_length() {
    let mut buf = BytesMut::new();
    Packet::PingReq(PingReq {}).write(&mut buf).unwrap();
    let mut connack = BytesMut::new();
    Packet::ConnAck(ConnAck::default()).write(&mut connack).unwrap();
    buf.extend_from_slice(&connack);
    let mut read_buf = Bytes::from(buf.to_vec());
    assert_eq!(Packet::read(&mut read_buf), Ok(Packet::PingReq(PingReq {})));
    assert_eq!(read_buf.to_vec(), connack.to_vec());
    assert_eq!(Packet::read(&mut read_buf), Ok(Packet::ConnAck(ConnAck::default())));
    assert!(read_buf.is_empty());
}

#[test]
fn packet_read_refuses_a_body_shorter_than_its_remaining_length() {
    let mut read_buf = Bytes::from(b"\x20\x03\x00\x00".to_vec());
    assert_eq!(Packet::read(&mut read_buf), Err(MQTTError::IncompletePacket));
}
