use bytes::Bytes;
use hivemqtt::client::options::ConnectOptions;
use hivemqtt::client::state::{Direction, State};
use hivemqtt::error::MQTTError;
use hivemqtt::packet::ack::{PubAck, PubComp, PubRec, PubRel};
use hivemqtt::packet::ack_properties::AckProperties;
use hivemqtt::packet::control::Packet;
use hivemqtt::packet::disconnect::Disconnect;
use hivemqtt::packet::publish::Publish;
use hivemqtt::packet::publish_properties::PublishProperties;
use hivemqtt::packet::suback::SubAck;
use hivemqtt::packet::subscribe::Subscribe;
use hivemqtt::packet::unsuback::UnSubAck;
use hivemqtt::packet::unsubscribe::UnSubscribe;
use hivemqtt::packet_id::PacketIdManager;
use hivemqtt::qos::QoS;
use hivemqtt::reason_code::{PubAckReasonCode, PubRelReasonCode};

fn options(manual_ack: bool) -> ConnectOptions {
    ConnectOptions {
        manual_ack,
        server_receive_max: 10,
        client_receive_max: 10,
        inbound_topic_alias_max: 3,
        outbound_topic_alias_max: 3,
        ..Default::default()
    }
}

fn publish(topic: &str, qos: QoS, pkid: Option<u16>, alias: Option<u16>) -> Publish {
    Publish {
        qos,
        topic: topic.to_string(),
        pkid,
        payload: Bytes::from(b"data".to_vec()),
        properties: PublishProperties { topic_alias: alias, ..Default::default() },
        ..Default::default()
    }
}

fn pubrec(pkid: u16, reason_code: PubAckReasonCode) -> PubRec {
    PubRec { pkid, reason_code, properties: AckProperties::default() }
}

fn pubrel(pkid: u16) -> PubRel {
    PubRel { pkid, ..Default::default() }
}

#[test]
fn default_options_match_the_documented_values() {
    let o = ConnectOptions::default();
    assert!(!o.manual_ack);
    assert!(o.clean_start);
    assert_eq!(o.session_expiry_interval, Some(0));
    assert_eq!(o.client_receive_max, u16::MAX);
    assert_eq!(o.server_receive_max, u16::MAX);
    assert_eq!(o.keep_alive, 69);
    assert_eq!(o.client_id, "UniqueClientId");
    assert_eq!(o.server_max_size, u32::MAX);
}

#[test]
fn qos1_publish_is_completed_by_puback_and_frees_the_id() {
    let mut state = State::new(&options(false));
    let mut ids = PacketIdManager::new(10);
    let id = ids.allocate().unwrap();
    assert_eq!(state.handle_outgoing_publish(publish("a/b", QoS::One, Some(id), None)), Ok(()));
    let ack = PubAck { pkid: id, ..Default::default() };
    assert_eq!(state.handle_incoming_puback(&ack, &mut ids), Ok(None));
    assert!(!ids.is_occupied(id));
    assert_eq!(ids.allocate(), Some(id));
    assert_eq!(state.handle_incoming_puback(&ack, &mut ids), Err(MQTTError::UnknownData(id)));
}

#[test]
fn qos2_publish_goes_through_pubrec_pubrel_pubcomp() {
    let mut state = State::new(&options(false));
    let mut ids = PacketIdManager::new(10);
    let id = ids.allocate().unwrap();
    assert_eq!(state.handle_outgoing_publish(publish("a/b", QoS::Two, Some(id), None)), Ok(()));
    let reply = state.handle_incoming_pubrec(&pubrec(id, PubAckReasonCode::Success)).unwrap();
    assert_eq!(reply, Some(Packet::PubRel(pubrel(id))));
    assert_eq!(state.handle_outgoing_pubrel(pubrel(id)), Ok(()));
    let comp = PubComp { pkid: id, ..Default::default() };
    assert_eq!(state.handle_incoming_pubcomp(&comp, &mut ids), Ok(None));
    assert!(!ids.is_occupied(id));
    assert_eq!(state.handle_incoming_pubcomp(&comp, &mut ids), Err(MQTTError::UnknownData(id)));
}

#[test]
fn a_failed_pubrec_ends_the_exchange_without_reply() {
    let mut state = State::new(&options(false));
    assert_eq!(state.handle_outgoing_publish(publish("a/b", QoS::Two, Some(4), None)), Ok(()));
    assert_eq!(state.handle_incoming_pubrec(&pubrec(4, PubAckReasonCode::QuotaExceeded)), Ok(None));
    assert_eq!(
        state.handle_incoming_pubrec(&pubrec(4, PubAckReasonCode::Success)),
        Err(MQTTError::UnknownData(4))
    );
}

#[test]
fn incoming_qos2_publish_is_answered_with_pubrec_then_pubcomp() {
    let mut state = State::new(&options(false));
    let mut p = publish("x", QoS::Two, Some(7), None);
    let reply = state.handle_incoming_publish(&mut p).unwrap();
    assert_eq!(reply, Some(Packet::PubRec(pubrec(7, PubAckReasonCode::Success))));
    let comp = state.handle_incoming_pubrel(&pubrel(7)).unwrap();
    assert_eq!(comp, Some(Packet::PubComp(PubComp { pkid: 7, ..Default::default() })));
    let again = state.handle_incoming_pubrel(&pubrel(7)).unwrap();
    assert_eq!(
        again,
        Some(Packet::PubComp(PubComp {
            pkid: 7,
            reason_code: PubRelReasonCode::PacketIdentifierNotFound,
            properties: AckProperties::default()
        }))
    );
}

#[test]
fn incoming_qos1_publish_is_answered_with_puback() {
    let mut state = State::new(&options(false));
    let mut p = publish("x", QoS::One, Some(2), None);
    let reply = state.handle_incoming_publish(&mut p).unwrap();
    assert_eq!(reply, Some(Packet::PubAck(PubAck { pkid: 2, ..Default::default() })));
    let mut p0 = publish("x", QoS::Zero, None, None);
    assert_eq!(state.handle_incoming_publish(&mut p0), Ok(None));
}

#[test]
fn manual_ack_sends_no_replies() {
    let mut state = State::new(&options(true));
    let mut p = publish("x", QoS::Two, Some(7), None);
    assert_eq!(state.handle_incoming_publish(&mut p), Ok(None));
    assert_eq!(state.handle_incoming_pubrel(&pubrel(7)), Ok(None));
    assert_eq!(state.handle_outgoing_publish(publish("a", QoS::Two, Some(1), None)), Ok(()));
    assert_eq!(state.handle_incoming_pubrec(&pubrec(1, PubAckReasonCode::Success)), Ok(None));
}

#[test]
fn an_id_in_flight_is_a_conflict() {
    let mut state = State::new(&options(true));
    let mut p = publish("x", QoS::Two, Some(7), None);
    assert_eq!(state.handle_outgoing_pubrec(pubrec(7, PubAckReasonCode::Success)), Ok(()));
    assert_eq!(state.handle_incoming_publish(&mut p), Err(MQTTError::PacketIdConflict(7)));
    assert_eq!(state.handle_outgoing_publish(publish("a", QoS::One, Some(3), None)), Ok(()));
    assert_eq!(
        state.handle_outgoing_publish(publish("a", QoS::One, Some(3), None)),
        Err(MQTTError::PacketIdConflict(3))
    );
}

#[test]
fn a_topic_alias_stands_for_the_topic_sent_with_it() {
    let mut state = State::new(&options(false));
    let mut first = publish("sensors/temp", QoS::Zero, None, Some(2));
    assert_eq!(state.handle_incoming_publish(&mut first), Ok(None));
    let mut second = publish("", QoS::Zero, None, Some(2));
    assert_eq!(state.handle_incoming_publish(&mut second), Ok(None));
    assert_eq!(second.topic, "sensors/temp");

    let out = publish("out/topic", QoS::Zero, None, Some(1));
    assert_eq!(state.parse_topic_and_try_update(&out, Direction::OutBound), Ok("out/topic".to_string()));
    let out_again = publish("", QoS::Zero, None, Some(1));
    assert_eq!(
        state.parse_topic_and_try_update(&out_again, Direction::OutBound),
        Ok("out/topic".to_string())
    );
    assert_eq!(
        state.parse_topic_and_try_update(&out_again, Direction::InBound),
        Err(MQTTError::UnknownData(1))
    );
}

#[test]
fn bad_topic_aliases_are_refused() {
    let mut state = State::new(&options(false));
    let p = publish("t", QoS::Zero, None, Some(0));
    assert_eq!(
        state.parse_topic_and_try_update(&p, Direction::InBound),
        Err(MQTTError::ProtocolError("Topic Alias invalid"))
    );
    let p = publish("t", QoS::Zero, None, Some(4));
    assert_eq!(
        state.parse_topic_and_try_update(&p, Direction::OutBound),
        Err(MQTTError::ProtocolError("Topic Alias invalid"))
    );
    let p = publish("", QoS::Zero, None, Some(3));
    assert_eq!(state.parse_topic_and_try_update(&p, Direction::InBound), Err(MQTTError::UnknownData(3)));
    let p = publish("", QoS::Zero, None, None);
    assert_eq!(state.parse_topic_and_try_update(&p, Direction::InBound), Err(MQTTError::UnknownData(0)));
}

#[test]
fn subscribe_and_unsubscribe_are_acknowledged() {
    let mut state = State::new(&options(false));
    let mut ids = PacketIdManager::new(10);
    let id = ids.allocate().unwrap();
    let sub = Subscribe { packet_identifier: id, ..Default::default() };
    assert_eq!(state.handle_outgoing_subscribe(sub), Ok(()));
    let ack = SubAck { packet_identifier: id, ..Default::default() };
    assert_eq!(state.handle_incoming_suback(&ack, &mut ids), Ok(None));
    assert_eq!(state.handle_incoming_suback(&ack, &mut ids), Err(MQTTError::UnknownData(id)));

    let id = ids.allocate().unwrap();
    let unsub = UnSubscribe { packet_identifier: id, ..Default::default() };
    assert_eq!(state.handle_outgoing_unsubscribe(unsub), Ok(()));
    let unack = UnSubAck { packet_identifier: id, ..Default::default() };
    assert_eq!(state.handle_incoming_unsuback(&unack, &mut ids), Ok(None));
    assert!(!ids.is_occupied(id));
    let other = UnSubAck { packet_identifier: 9, ..Default::default() };
    assert_eq!(state.handle_incoming_unsuback(&other, &mut ids), Err(MQTTError::UnknownData(9)));
}

#[test]
fn packets_are_dispatched_by_type() {
    let mut state = State::new(&options(false));
    let mut ids = PacketIdManager::new(10);
    let mut p = Packet::Publish(publish("x", QoS::One, Some(1), None));
    assert_eq!(
        state.handle_incoming_packet(&mut p, &mut ids),
        Ok(Some(Packet::PubAck(PubAck { pkid: 1, ..Default::default() })))
    );
    let mut d = Packet::Disconnect(Disconnect::default());
    assert_eq!(state.handle_incoming_packet(&mut d, &mut ids), Err(MQTTError::UnsupportedQoS(0)));
    assert_eq!(state.handle_outgoing_packet(Packet::Disconnect(Disconnect::default())), Ok(()));
    assert_eq!(state.handle_outgoing_packet(Packet::Publish(publish("y", QoS::One, Some(2), None))), Ok(()));
    let mut ack = Packet::PubAck(PubAck { pkid: 2, ..Default::default() });
    assert_eq!(state.handle_incoming_packet(&mut ack, &mut ids), Ok(None));
}

#[test]
fn a_pubrec_beyond_the_slots_is_unknown_data() {
    let mut state = State::new(&options(false));
    assert_eq!(state.handle_incoming_pubrec(&pubrec(10, PubAckReasonCode::Success)), Err(MQTTError::UnknownData(10)));
}

#[test]
fn a_topic_alias_is_inserted_and_moves_the_later_entries() {
    let mut state = State::new(&options(false));
    let x = publish("x", QoS::Zero, None, Some(2));
    assert_eq!(state.parse_topic_and_try_update(&x, Direction::OutBound), Ok("x".to_string()));
    let y = publish("y", QoS::Zero, None, Some(1));
    assert_eq!(state.parse_topic_and_try_update(&y, Direction::OutBound), Ok("y".to_string()));
    let by_one = publish("", QoS::Zero, None, Some(1));
    assert_eq!(state.parse_topic_and_try_update(&by_one, Direction::OutBound), Ok("y".to_string()));
    let by_two = publish("", QoS::Zero, None, Some(2));
    assert_eq!(state.parse_topic_and_try_update(&by_two, Direction::OutBound), Err(MQTTError::UnknownData(2)));
    let by_three = publish("", QoS::Zero, None, Some(3));
    assert_eq!(state.parse_topic_and_try_update(&by_three, Direction::OutBound), Ok("x".to_string()));
}

#[test]
fn both_alias_tables_start_with_the_outbound_maximum() {
    let opts = ConnectOptions { inbound_topic_alias_max: 5, outbound_topic_alias_max: 2, ..options(false) };
    let state = State::new(&opts);
    assert!(state.alias_in_table(&"t".to_string(), Some(3), Direction::InBound));
    assert!(!state.alias_in_table(&"t".to_string(), Some(4), Direction::InBound));
    assert!(state.alias_in_table(&String::new(), Some(2), Direction::InBound));
    assert!(!state.alias_in_table(&String::new(), Some(3), Direction::InBound));
    let far = Packet::Publish(publish("t", QoS::Zero, None, Some(5)));
    assert!(!state.accepts_incoming(&far));
}
