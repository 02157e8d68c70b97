use hivemqtt::packet::unsuback::UnSubAck;
use hivemqtt::packet::unsubscribe::UnSubscribe;
use bytes::Bytes;
use hivemqtt::client::client::prepare_publish;
use hivemqtt::client::network::{handshake, on_received, Handshake, KeepAlive, Received, Tick};
use hivemqtt::packet::connack::ConnAck;
use hivemqtt::reason_code::ConnAckReasonCode;
use hivemqtt::client::options::ConnectOptions;
use hivemqtt::client::state::State;
use hivemqtt::error::MQTTError;
use hivemqtt::packet::ack::PubAck;
use hivemqtt::packet::control::Packet;
use hivemqtt::packet::disconnect::Disconnect;
use hivemqtt::packet::ping::PingResp;
use hivemqtt::packet_id::PacketIdManager;
use hivemqtt::qos::QoS;

#[test]
fn keep_alive_pings_then_times_out() {
    let mut k = KeepAlive::new(10);
    assert_eq!(k.tick(3), Tick::Wait);
    assert_eq!(k.tick(10), Tick::SendPing);
    assert!(k.expecting_pingresp);
    assert_eq!(k.tick(9), Tick::Wait);
    assert_eq!(k.max_timeout(), 10);
    assert_eq!(k.tick(10), Tick::TimedOut);
}

#[test]
fn a_zero_keep_alive_never_pings_until_a_packet_arrives() {
    let mut k = KeepAlive::new(0);
    assert!(!k.active);
    assert_eq!(k.tick(1000), Tick::Wait);
}

#[test]
fn pingresp_ends_the_wait() {
    let options = ConnectOptions { keep_alive: 5, server_receive_max: 4, client_receive_max: 4, ..Default::default() };
    let mut state = State::new(&options);
    let mut ids = PacketIdManager::new(4);
    let mut keep_alive = KeepAlive::new(options.keep_alive);
    assert_eq!(keep_alive.tick(5), Tick::SendPing);
    let mut p = Packet::PingResp(PingResp {});
    assert!(state.accepts_incoming(&p));
    assert!(matches!(on_received(&mut state, &mut ids, &mut keep_alive, &mut p), Ok(Received::Deliver(None))));
    assert!(!keep_alive.expecting_pingresp);
    let mut d = Packet::Disconnect(Disconnect::default());
    assert!(matches!(on_received(&mut state, &mut ids, &mut keep_alive, &mut d), Ok(Received::Closed)));
}

#[test]
fn a_published_message_is_acknowledged_through_the_session() {
    let options = ConnectOptions { server_receive_max: 4, client_receive_max: 4, ..Default::default() };
    let mut state = State::new(&options);
    let mut ids = PacketIdManager::new(4);
    let mut keep_alive = KeepAlive::new(options.keep_alive);
    let publish = prepare_publish("t/1".to_string(), QoS::One, false, Bytes::from(b"x".to_vec()), usize::MAX, &mut ids).unwrap();
    assert_eq!(publish.pkid, Some(0));
    let sent = Packet::Publish(publish);
    assert!(state.accepts_outgoing(&sent));
    assert_eq!(state.handle_outgoing_packet(sent), Ok(()));
    let mut ack = Packet::PubAck(PubAck { pkid: 0, ..Default::default() });
    assert!(matches!(on_received(&mut state, &mut ids, &mut keep_alive, &mut ack), Ok(Received::Deliver(None))));
    assert!(!ids.is_occupied(0));
    let mut again = Packet::PubAck(PubAck { pkid: 0, ..Default::default() });
    assert!(matches!(
        on_received(&mut state, &mut ids, &mut keep_alive, &mut again),
        Err(MQTTError::UnknownData(0))
    ));
}

#[test]
fn identifiers_beyond_the_receive_maximum_are_not_accepted() {
    let options = ConnectOptions { server_receive_max: 2, client_receive_max: 3, ..Default::default() };
    let state = State::new(&options);
    assert!(!state.accepts_incoming(&Packet::PubAck(PubAck { pkid: 2, ..Default::default() })));
    assert!(state.accepts_incoming(&Packet::PubAck(PubAck { pkid: 1, ..Default::default() })));
    assert!(!state.accepts_outgoing(&Packet::PubRel(hivemqtt::packet::ack::PubRel { pkid: 5, ..Default::default() })));
}

#[test]
fn qos0_messages_take_no_identifier() {
    let mut ids = PacketIdManager::new(1);
    let p = prepare_publish("a".to_string(), QoS::Zero, true, Bytes::new(), 100, &mut ids).unwrap();
    assert_eq!(p.pkid, None);
    assert!(p.retain);
    assert!(!p.dup);
    assert_eq!(ids.allocate(), Some(0));
}

#[test]
fn publishing_without_free_identifiers_is_refused() {
    let mut ids = PacketIdManager::new(1);
    while ids.allocate().is_some() {}
    let r = prepare_publish("a".to_string(), QoS::Two, false, Bytes::new(), 100, &mut ids);
    assert_eq!(r, Err(MQTTError::PacketIdGenerationError));
}

#[test]
fn a_successful_connack_without_receive_maximum_allows_a_hundred_identifiers() {
    let connack = ConnAck::default();
    assert_eq!(handshake(&Packet::ConnAck(connack)), Handshake::Accepted(100));
}

#[test]
fn a_successful_connack_gives_the_server_receive_maximum() {
    let mut connack = ConnAck::default();
    connack.properties.receive_maximum = Some(12);
    assert_eq!(handshake(&Packet::ConnAck(connack)), Handshake::Accepted(12));
}

#[test]
fn a_refusing_connack_gives_its_reason_code() {
    let connack = ConnAck { reason: ConnAckReasonCode::NotAuthorized, ..Default::default() };
    assert_eq!(handshake(&Packet::ConnAck(connack)), Handshake::Refused(0x87));
}

#[test]
fn any_other_first_packet_is_no_answer() {
    assert_eq!(handshake(&Packet::PingResp(PingResp {})), Handshake::NotConnAck);
}

#[test]
fn a_message_larger_than_the_maximum_packet_size_is_refused() {
    let mut ids = PacketIdManager::new(4);
    // topic "a" (3) + property length (1) + payload "xy" (2): Remaining Length 6;
    // written as 1 + 1 + 6 + 2 (identifier) + 2 + 2 = 14 bytes at QoS 1.
    let fits = prepare_publish("a".to_string(), QoS::One, false, Bytes::from_static(b"xy"), 14, &mut ids).unwrap();
    assert_eq!(fits.pkid, Some(0));
    let mut buf = bytes::BytesMut::new();
    fits.write(&mut buf).unwrap();
    assert_eq!(buf.len(), 14);
    let refused = prepare_publish("a".to_string(), QoS::One, false, Bytes::from_static(b"xy"), 13, &mut ids);
    assert_eq!(refused, Err(MQTTError::PayloadTooLong));
    assert!(ids.is_occupied(1));
    let qos0 = prepare_publish("a".to_string(), QoS::Zero, false, Bytes::from_static(b"xy"), 11, &mut ids);
    assert_eq!(qos0, Err(MQTTError::PayloadTooLong));
    assert!(prepare_publish("a".to_string(), QoS::Zero, false, Bytes::from_static(b"xy"), 12, &mut ids).is_ok());
}

#[test]
fn a_publish_after_unsuback_under_the_same_identifier_is_accepted() {
    let options = ConnectOptions { server_receive_max: 4, client_receive_max: 4, ..Default::default() };
    let mut state = State::new(&options);
    let mut ids = PacketIdManager::new(4);
    let id = ids.allocate().unwrap();
    let unsubscribe = UnSubscribe { packet_identifier: id, payload: vec!["t".to_string()], ..Default::default() };
    assert_eq!(state.handle_outgoing_packet(Packet::UnSubscribe(unsubscribe)), Ok(()));
    let ack = UnSubAck { packet_identifier: id, ..Default::default() };
    assert_eq!(state.handle_incoming_unsuback(&ack, &mut ids), Ok(None));
    assert!(!ids.is_occupied(id));
    let publish = prepare_publish("t/1".to_string(), QoS::One, false, Bytes::new(), usize::MAX, &mut ids).unwrap();
    assert_eq!(publish.pkid, Some(id));
    assert_eq!(state.handle_outgoing_packet(Packet::Publish(publish)), Ok(()));
}
