//! The session state of the client: the topic aliases in each direction, and
//! the packet identifiers of the exchanges in flight, with the packet each one
//! waits on. Each handler takes one packet, sent or received, updates the
//! state, and tells which acknowledgement (if any) to send back.
use vstd::prelude::*;

use crate::client::options::ConnectOptions;
use crate::error::MQTTError;
use crate::packet::ack::{PubAck, PubComp, PubRec, PubRel};
use crate::packet::control::{outcome_is, reply_packet, Packet, Reply};
use crate::packet::disconnect::Disconnect;
use crate::packet::publish::{Publish, PublishV};
use crate::packet::suback::SubAck;
use crate::packet::subscribe::Subscribe;
use crate::packet::unsuback::UnSubAck;
use crate::packet::unsubscribe::UnSubscribe;
use crate::packet_id::{released, PacketIdManager};
use crate::packet_type::PacketType;
use crate::qos::QoS;
use crate::reason_code::{PubAckReasonCode, PubRelReasonCode};

verus! {

/// Whether a packet comes from the server or goes to it.
#[derive(Debug, Clone, Copy, PartialEq, Eq, Structural)]
pub enum Direction {
    InBound,
    OutBound,
}

#[derive(Debug)]
pub struct State {
    inbound_topic_alias_max: u16,
    outbound_topic_alias_max: u16,
    /// Topic alias `a` reads entry `a - 1`; a name given to it is inserted
    /// there, moving the entries after it up by one.
    incoming_aliases: Vec<Option<String>>,
    outgoing_aliases: Vec<Option<String>>,
    /// Whether the user acknowledges by hand.
    manual_ack: bool,
    clean_start: bool,
    /// The identifiers chosen by the server, by the packet each exchange waits on.
    server: Vec<Option<PacketType>>,
    /// The identifiers chosen by the client, by the packet each exchange waits on.
    client: Vec<Option<PacketType>>,
    /// The QoS 1 and 2 messages sent and not yet acknowledged, by identifier.
    unacked_publish: Vec<Option<Publish>>,
}

#[verifier::ext_equal]
pub struct StateV {
    pub inbound_topic_alias_max: u16,
    pub outbound_topic_alias_max: u16,
    pub incoming_aliases: Seq<Option<Seq<char>>>,
    pub outgoing_aliases: Seq<Option<Seq<char>>>,
    pub manual_ack: bool,
    pub clean_start: bool,
    pub server: Seq<Option<PacketType>>,
    pub client: Seq<Option<PacketType>>,
    pub unacked: Seq<Option<PublishV>>,
}

pub open spec fn opt_string(o: Option<String>) -> Option<Seq<char>> {
    match o {
        Some(s) => Some(s@),
        None => None,
    }
}

pub open spec fn opt_publish(o: Option<Publish>) -> Option<PublishV> {
    match o {
        Some(p) => Some(p@),
        None => None,
    }
}

impl View for State {
    type V = StateV;

    closed spec fn view(&self) -> StateV {
        StateV {
            inbound_topic_alias_max: self.inbound_topic_alias_max,
            outbound_topic_alias_max: self.outbound_topic_alias_max,
            incoming_aliases: self.incoming_aliases@.map_values(|o: Option<String>| opt_string(o)),
            outgoing_aliases: self.outgoing_aliases@.map_values(|o: Option<String>| opt_string(o)),
            manual_ack: self.manual_ack,
            clean_start: self.clean_start,
            server: self.server@,
            client: self.client@,
            unacked: self.unacked_publish@.map_values(|o: Option<Publish>| opt_publish(o)),
        }
    }
}

/// A well-formed state: each alias table holds at least the
/// `outbound_topic_alias_max` entries it started with, and there is one
/// unacknowledged-message entry per client identifier.
pub open spec fn state_wf(s: StateV) -> bool {
    &&& s.incoming_aliases.len() >= s.outbound_topic_alias_max
    &&& s.outgoing_aliases.len() >= s.outbound_topic_alias_max
    &&& s.unacked.len() == s.client.len()
}

/// The state of a new session: no alias known, both alias tables holding
/// `outbound_topic_alias_max` empty entries, no exchange in flight; the
/// server may start `client_receive_max` exchanges and the client `server_receive_max`.
pub open spec fn initial_state(o: ConnectOptions) -> StateV {
    StateV {
        inbound_topic_alias_max: o.inbound_topic_alias_max,
        outbound_topic_alias_max: o.outbound_topic_alias_max,
        incoming_aliases: Seq::new(o.outbound_topic_alias_max as nat, |i: int| None),
        outgoing_aliases: Seq::new(o.outbound_topic_alias_max as nat, |i: int| None),
        manual_ack: o.manual_ack,
        clean_start: o.clean_start,
        server: Seq::new(o.client_receive_max as nat, |i: int| None),
        client: Seq::new(o.server_receive_max as nat, |i: int| None),
        unacked: Seq::new(o.server_receive_max as nat, |i: int| None),
    }
}

pub open spec fn alias_max(s: StateV, d: Direction) -> u16 {
    match d {
        Direction::InBound => s.inbound_topic_alias_max,
        Direction::OutBound => s.outbound_topic_alias_max,
    }
}

pub open spec fn alias_record(s: StateV, d: Direction) -> Seq<Option<Seq<char>>> {
    match d {
        Direction::InBound => s.incoming_aliases,
        Direction::OutBound => s.outgoing_aliases,
    }
}

/// The direction opposite to `d`.
pub open spec fn other_direction(d: Direction) -> Direction {
    match d {
        Direction::InBound => Direction::OutBound,
        Direction::OutBound => Direction::InBound,
    }
}

/// The state with `t` inserted as alias entry `i` of direction `d`: the
/// entries from `i` on move one place up.
pub open spec fn with_alias(s: StateV, d: Direction, i: int, t: Seq<char>) -> StateV {
    match d {
        Direction::InBound => StateV { incoming_aliases: s.incoming_aliases.insert(i, Some(t)), ..s },
        Direction::OutBound => StateV { outgoing_aliases: s.outgoing_aliases.insert(i, Some(t)), ..s },
    }
}

/// Whether resolving a topic through `alias` in direction `d` stays within
/// the alias table: a name is inserted at most at the end of the table, and
/// an empty topic name reads an entry of it. A topic alias of 0 or above the
/// maximum is refused before the table is touched.
pub open spec fn alias_fits(s: StateV, topic: Seq<char>, alias: Option<u16>, d: Direction) -> bool {
    match alias {
        Some(a) => 1 <= a <= alias_max(s, d) ==> if topic.len() > 0 {
            a - 1 <= alias_record(s, d).len()
        } else {
            a - 1 < alias_record(s, d).len()
        },
        None => true,
    }
}

/// The error for a topic alias of 0 or above the maximum.
pub open spec fn alias_error() -> MQTTError {
    MQTTError::ProtocolError("Topic Alias invalid")
}

/// The topic of a PUBLISH, resolved through its topic alias: a topic name
/// with an alias records the name under the alias; an empty topic name takes
/// the name recorded under the alias; with neither there is no topic.
pub open spec fn spec_resolve_topic(s: StateV, topic: Seq<char>, alias: Option<u16>, d: Direction) -> (
    StateV,
    Result<Seq<char>, MQTTError>,
) {
    match alias {
        None => if topic.len() > 0 {
            (s, Ok(topic))
        } else {
            (s, Err(MQTTError::UnknownData(0)))
        },
        Some(a) => if a == 0 || a > alias_max(s, d) {
            (s, Err(alias_error()))
        } else if topic.len() > 0 {
            (with_alias(s, d, a - 1, topic), Ok(topic))
        } else {
            match alias_record(s, d)[a - 1] {
                Some(t) => (s, Ok(t)),
                None => (s, Err(MQTTError::UnknownData(a))),
            }
        },
    }
}

/// Whether a slot of the client holds a QoS 1 or QoS 2 message in flight:
/// one waiting for its PUBACK or PUBREC, or for its PUBCOMP.
pub open spec fn publish_in_flight(t: Option<PacketType>) -> bool {
    t == Some(PacketType::Publish) || t == Some(PacketType::PubRel)
}

/// Sending a PUBLISH: an identifier under which a QoS 1 or QoS 2 message is
/// still in flight is a conflict; else the topic alias is taken, and a QoS 1
/// or 2 message waits for its acknowledgement under its identifier.
pub open spec fn spec_outgoing_publish(s: StateV, p: PublishV) -> (StateV, Result<(), MQTTError>) {
    if p.pkid is Some && publish_in_flight(s.client[p.pkid->0 as int]) {
        (s, Err(MQTTError::PacketIdConflict(p.pkid->0)))
    } else {
        match spec_resolve_topic(s, p.topic, p.properties.topic_alias, Direction::OutBound) {
            (s1, Err(e)) => (s1, Err(e)),
            (s1, Ok(_)) => if p.qos != QoS::Zero {
                let id = p.pkid->0 as int;
                (
                    StateV {
                        client: s1.client.update(id, Some(PacketType::Publish)),
                        unacked: s1.unacked.update(id, Some(p)),
                        ..s1
                    },
                    Ok(()),
                )
            } else {
                (s1, Ok(()))
            },
        }
    }
}

/// Receiving a PUBLISH: the topic is resolved (and set on the message); an
/// identifier with an exchange in flight is a conflict; QoS 0 needs no reply;
/// else, unless acknowledging by hand, QoS 1 is answered with PUBACK and QoS 2
/// with PUBREC, the exchange then waiting for PUBREL.
pub open spec fn spec_incoming_publish(s: StateV, p: PublishV) -> (
    StateV,
    Result<Option<Reply>, MQTTError>,
    PublishV,
) {
    match spec_resolve_topic(s, p.topic, p.properties.topic_alias, Direction::InBound) {
        (s1, Err(e)) => (s1, Err(e), p),
        (s1, Ok(t)) => {
            let p1 = PublishV { topic: t, ..p };
            if p.pkid is Some && s1.server[p.pkid->0 as int] is Some {
                (s1, Err(MQTTError::PacketIdConflict(p.pkid->0)), p1)
            } else if p.qos == QoS::Zero {
                (s1, Ok(None), p1)
            } else {
                let id = p.pkid->0;
                let s2 = if p.qos == QoS::Two && !s1.manual_ack {
                    StateV { server: s1.server.update(id as int, Some(PacketType::PubRec)), ..s1 }
                } else {
                    s1
                };
                let reply = if s1.manual_ack {
                    None
                } else if p.qos == QoS::One {
                    Some(Reply::PubAck(id))
                } else {
                    Some(Reply::PubRec(id))
                };
                (s2, Ok(reply), p1)
            }
        },
    }
}

/// Receiving PUBACK: ends the QoS 1 exchange of its identifier, which is
/// released; with no such exchange it is `UnknownData`.
pub open spec fn spec_incoming_puback(s: StateV, id: u16, ids: Seq<usize>) -> (
    StateV,
    Result<Option<Reply>, MQTTError>,
    Seq<usize>,
) {
    if s.client[id as int] == Some(PacketType::Publish) {
        (
            StateV {
                client: s.client.update(id as int, None),
                unacked: s.unacked.update(id as int, None),
                ..s
            },
            Ok(None),
            released(ids, id),
        )
    } else {
        (s, Err(MQTTError::UnknownData(id)), ids)
    }
}

/// Receiving PUBREC for a QoS 2 message sent: on success (or no matching
/// subscribers) the exchange waits for PUBCOMP and PUBREL is sent (unless
/// acknowledging by hand); on another code the exchange ends. With no such
/// exchange (or an identifier beyond the slots) it is `UnknownData`.
pub open spec fn spec_incoming_pubrec(s: StateV, id: u16, rc: PubAckReasonCode) -> (
    StateV,
    Result<Option<Reply>, MQTTError>,
) {
    if id < s.client.len() && s.client[id as int] == Some(PacketType::Publish) {
        if rc == PubAckReasonCode::Success || rc == PubAckReasonCode::NoMatchingSubscribers {
            (
                StateV { client: s.client.update(id as int, Some(PacketType::PubRel)), ..s },
                Ok(
                    if s.manual_ack {
                        None
                    } else {
                        Some(Reply::PubRel(id))
                    },
                ),
            )
        } else {
            (StateV { client: s.client.update(id as int, None), ..s }, Ok(None))
        }
    } else {
        (s, Err(MQTTError::UnknownData(id)))
    }
}

/// Receiving PUBREL for a QoS 2 message received: the exchange ends, and
/// PUBCOMP is sent (unless acknowledging by hand), with the code
/// `PacketIdentifierNotFound` when no exchange waited for it.
pub open spec fn spec_incoming_pubrel(s: StateV, id: u16) -> (StateV, Result<Option<Reply>, MQTTError>) {
    let found = s.server[id as int] == Some(PacketType::PubRec);
    let s1 = if found {
        StateV { server: s.server.update(id as int, None), ..s }
    } else {
        s
    };
    if s.manual_ack {
        (s1, Ok(None))
    } else if !found {
        (s1, Ok(Some(Reply::PubComp(id, PubRelReasonCode::PacketIdentifierNotFound))))
    } else {
        (s1, Ok(Some(Reply::PubComp(id, PubRelReasonCode::Success))))
    }
}

/// Receiving an acknowledgement that ends the exchange of `id` waiting on
/// `waiting`: the identifier is released; with no such exchange it is `UnknownData`.
pub open spec fn spec_incoming_end(s: StateV, id: u16, waiting: PacketType, ids: Seq<usize>) -> (
    StateV,
    Result<Option<Reply>, MQTTError>,
    Seq<usize>,
) {
    if s.client[id as int] == Some(waiting) {
        (StateV { client: s.client.update(id as int, None), ..s }, Ok(None), released(ids, id))
    } else {
        (s, Err(MQTTError::UnknownData(id)), ids)
    }
}

/// Receiving UNSUBACK: the identifier is released when any exchange is in
/// flight under it (which stays recorded); else it is `UnknownData`.
pub open spec fn spec_incoming_unsuback(s: StateV, id: u16, ids: Seq<usize>) -> (
    StateV,
    Result<Option<Reply>, MQTTError>,
    Seq<usize>,
) {
    if s.client[id as int] is Some {
        (s, Ok(None), released(ids, id))
    } else {
        (s, Err(MQTTError::UnknownData(id)), ids)
    }
}

/// The state with the server's exchange `id` waiting on `t`.
pub open spec fn with_server(s: StateV, id: u16, t: PacketType) -> StateV {
    StateV { server: s.server.update(id as int, Some(t)), ..s }
}

/// The state with the client's exchange `id` waiting on `t`.
pub open spec fn with_client(s: StateV, id: u16, t: PacketType) -> StateV {
    StateV { client: s.client.update(id as int, Some(t)), ..s }
}

/// The identifiers that handling a received packet indexes the state by are in range.
pub open spec fn incoming_in_range(s: StateV, p: Packet) -> bool {
    match p {
        Packet::Publish(q) => (q.pkid matches Some(id) ==> id < s.server.len()) && (q.qos != QoS::Zero
            ==> q.pkid is Some) && alias_fits(s, q.topic@, q.properties.topic_alias, Direction::InBound),
        Packet::PubAck(a) => a.pkid < s.client.len(),
        Packet::PubRel(a) => a.pkid < s.server.len(),
        Packet::PubComp(a) => a.pkid < s.client.len(),
        Packet::SubAck(a) => a.packet_identifier < s.client.len(),
        Packet::UnSubAck(a) => a.packet_identifier < s.client.len(),
        _ => true,
    }
}

/// Handling a received packet: the new state, the reply or error, and the
/// packet identifiers after any release. A packet that the client does not
/// take is refused with `UnsupportedQoS(0)`.
pub open spec fn spec_incoming_packet(s: StateV, p: Packet, ids: Seq<usize>) -> (
    StateV,
    Result<Option<Reply>, MQTTError>,
    Seq<usize>,
) {
    match p {
        Packet::Publish(q) => {
            let (s1, r, _) = spec_incoming_publish(s, q@);
            (s1, r, ids)
        },
        Packet::PubAck(a) => spec_incoming_puback(s, a.pkid, ids),
        Packet::PubRec(a) => {
            let (s1, r) = spec_incoming_pubrec(s, a.pkid, a.reason_code);
            (s1, r, ids)
        },
        Packet::PubRel(a) => {
            let (s1, r) = spec_incoming_pubrel(s, a.pkid);
            (s1, r, ids)
        },
        Packet::PubComp(a) => spec_incoming_end(s, a.pkid, PacketType::PubRel, ids),
        Packet::SubAck(a) => spec_incoming_end(s, a.packet_identifier, PacketType::Subscribe, ids),
        Packet::UnSubAck(a) => spec_incoming_unsuback(s, a.packet_identifier, ids),
        _ => (s, Err(MQTTError::UnsupportedQoS(0)), ids),
    }
}

/// The identifiers that handling a packet to be sent indexes the state by are in range.
pub open spec fn outgoing_in_range(s: StateV, p: Packet) -> bool {
    match p {
        Packet::Publish(q) => (q.pkid matches Some(id) ==> id < s.client.len()) && (q.qos != QoS::Zero
            ==> q.pkid is Some) && (!(q.pkid matches Some(id) && publish_in_flight(s.client[id as int]))
            ==> alias_fits(s, q.topic@, q.properties.topic_alias, Direction::OutBound)),
        Packet::PubRec(a) => a.pkid < s.server.len(),
        Packet::PubRel(a) => a.pkid < s.client.len(),
        Packet::Subscribe(a) => a.packet_identifier < s.client.len(),
        Packet::UnSubscribe(a) => a.packet_identifier < s.client.len(),
        _ => true,
    }
}

/// Handling a packet to be sent: the new state and the outcome. A packet
/// that the client does not send is refused with `UnsupportedQoS(0)`.
pub open spec fn spec_outgoing_packet(s: StateV, p: Packet) -> (StateV, Result<(), MQTTError>) {
    match p {
        Packet::Publish(q) => spec_outgoing_publish(s, q@),
        Packet::PubAck(_) => (s, Ok(())),
        Packet::PubRec(a) => (with_server(s, a.pkid, PacketType::PubRec), Ok(())),
        Packet::PubRel(a) => (with_client(s, a.pkid, PacketType::PubRel), Ok(())),
        Packet::PubComp(_) => (s, Ok(())),
        Packet::Subscribe(a) => (with_client(s, a.packet_identifier, PacketType::Subscribe), Ok(())),
        Packet::UnSubscribe(a) => (with_client(s, a.packet_identifier, PacketType::UnSubscribe), Ok(())),
        Packet::Disconnect(_) => (s, Ok(())),
        _ => (s, Err(MQTTError::UnsupportedQoS(0))),
    }
}

impl State {
    pub closed spec fn wf(&self) -> bool {
        &&& state_wf(self@)
        &&& self.unacked_publish.len() == self.client.len()
    }

    /// A well-formed session has a well-formed state, so the laws over
    /// session states apply to it.
    pub proof fn lemma_wf(&self)
        requires
            self.wf(),
        ensures
            state_wf(self@),
    {
    }

    /// A new session for the given options.
    pub fn new(options: &ConnectOptions) -> (r: Self)
        ensures
            r.wf(),
            r@ == initial_state(*options),
    {
        let r = State {
            inbound_topic_alias_max: options.inbound_topic_alias_max,
            outbound_topic_alias_max: options.outbound_topic_alias_max,
            incoming_aliases: none_strings(options.outbound_topic_alias_max as usize),
            outgoing_aliases: none_strings(options.outbound_topic_alias_max as usize),
            manual_ack: options.manual_ack,
            clean_start: options.clean_start,
            server: none_types(options.client_receive_max as usize),
            client: none_types(options.server_receive_max as usize),
            unacked_publish: none_publishes(options.server_receive_max as usize),
        };
        assert(r@ =~= initial_state(*options));
        r
    }

    /// Resolves the topic of `packet` through its topic alias, in the given direction.
    pub fn parse_topic_and_try_update(&mut self, packet: &Publish, direction: Direction) -> (r: Result<String, MQTTError>)
        requires
            old(self).wf(),
            alias_fits(old(self)@, packet.topic@, packet.properties.topic_alias, direction),
        ensures
            final(self).wf(),
            final(self)@ == spec_resolve_topic(old(self)@, packet.topic@, packet.properties.topic_alias, direction).0,
            match (r, spec_resolve_topic(old(self)@, packet.topic@, packet.properties.topic_alias, direction).1) {
                (Ok(t), Ok(u)) => t@ == u,
                (Err(e), Err(f)) => e == f,
                _ => false,
            },
    {
        let ghost s = self@;
        let topic_empty = packet.topic.as_str().is_empty();
        match packet.properties.topic_alias {
            None => {
                if !topic_empty {
                    Ok(packet.topic.clone())
                } else {
                    Err(MQTTError::UnknownData(0))
                }
            },
            Some(a) => {
                let max = match direction {
                    Direction::InBound => self.inbound_topic_alias_max,
                    Direction::OutBound => self.outbound_topic_alias_max,
                };
                if a == 0 || a > max {
                    return Err(MQTTError::ProtocolError("Topic Alias invalid"));
                }
                let i = (a - 1) as usize;
                if !topic_empty {
                    match direction {
                        Direction::InBound => {
                            self.incoming_aliases.insert(i, Some(packet.topic.clone()));
                        },
                        Direction::OutBound => {
                            self.outgoing_aliases.insert(i, Some(packet.topic.clone()));
                        },
                    }
                    assert(self@ =~= with_alias(s, direction, i as int, packet.topic@));
                    Ok(packet.topic.clone())
                } else {
                    let found = match direction {
                        Direction::InBound => &self.incoming_aliases[i],
                        Direction::OutBound => &self.outgoing_aliases[i],
                    };
                    match found {
                        Some(t) => Ok(t.clone()),
                        None => Err(MQTTError::UnknownData(a)),
                    }
                }
            },
        }
    }

    /// Takes a PUBLISH about to be sent.
    pub fn handle_outgoing_publish(&mut self, packet: Publish) -> (r: Result<(), MQTTError>)
        requires
            old(self).wf(),
            packet.pkid matches Some(id) ==> id < old(self)@.client.len(),
            packet.qos != QoS::Zero ==> packet.pkid is Some,
            !(packet.pkid matches Some(id) && publish_in_flight(old(self)@.client[id as int])) ==> alias_fits(
                old(self)@,
                packet.topic@,
                packet.properties.topic_alias,
                Direction::OutBound,
            ),
        ensures
            final(self).wf(),
            (final(self)@, r) == spec_outgoing_publish(old(self)@, packet@),
    {
        if let Some(pid) = packet.pkid {
            match self.client[pid as usize] {
                Some(PacketType::Publish) | Some(PacketType::PubRel) => {
                    return Err(MQTTError::PacketIdConflict(pid));
                },
                _ => {},
            }
        }
        if let Err(e) = self.parse_topic_and_try_update(&packet, Direction::OutBound) {
            return Err(e);
        }
        if packet.qos != QoS::Zero {
            let id = match packet.pkid {
                Some(id) => id as usize,
                None => 0,
            };
            let ghost s1 = self@;
            let ghost p = packet@;
            self.client.set(id, Some(PacketType::Publish));
            self.unacked_publish.set(id, Some(packet));
            assert(self@ =~= StateV {
                client: s1.client.update(id as int, Some(PacketType::Publish)),
                unacked: s1.unacked.update(id as int, Some(p)),
                ..s1
            });
        }
        Ok(())
    }

    /// Takes a PUBLISH received, setting its topic to the one its alias stands for.
    pub fn handle_incoming_publish(&mut self, packet: &mut Publish) -> (r: Result<Option<Packet>, MQTTError>)
        requires
            old(self).wf(),
            old(packet).pkid matches Some(id) ==> id < old(self)@.server.len(),
            old(packet).qos != QoS::Zero ==> old(packet).pkid is Some,
            alias_fits(old(self)@, old(packet).topic@, old(packet).properties.topic_alias, Direction::InBound),
        ensures
            final(self).wf(),
            final(self)@ == spec_incoming_publish(old(self)@, old(packet)@).0,
            outcome_is(r, spec_incoming_publish(old(self)@, old(packet)@).1),
            final(packet)@ == spec_incoming_publish(old(self)@, old(packet)@).2,
    {
        let topic = match self.parse_topic_and_try_update(packet, Direction::InBound) {
            Ok(t) => t,
            Err(e) => return Err(e),
        };
        packet.topic = topic;
        if let Some(pid) = packet.pkid {
            if self.server[pid as usize].is_some() {
                return Err(MQTTError::PacketIdConflict(pid));
            }
        }
        if packet.qos == QoS::Zero {
            return Ok(None);
        }
        let pkid = match packet.pkid {
            Some(id) => id,
            None => 0,
        };
        if packet.qos == QoS::Two && !self.manual_ack {
            self.server.set(pkid as usize, Some(PacketType::PubRec));
        }
        if self.manual_ack {
            Ok(None)
        } else if packet.qos == QoS::One {
            Ok(Some(reply_packet(&Reply::PubAck(pkid))))
        } else {
            Ok(Some(reply_packet(&Reply::PubRec(pkid))))
        }
    }

    /// Sending PUBACK changes nothing.
    pub fn handle_outgoing_puback(&mut self, packet: PubAck) -> (r: Result<(), MQTTError>)
        ensures
            final(self)@ == old(self)@,
            r == Ok::<(), MQTTError>(()),
    {
        Ok(())
    }

    /// Takes a PUBACK received.
    pub fn handle_incoming_puback(&mut self, packet: &PubAck, ids: &mut PacketIdManager) -> (r: Result<Option<Packet>, MQTTError>)
        requires
            old(self).wf(),
            old(ids).wf(),
            packet.pkid < old(self)@.client.len(),
        ensures
            final(self).wf(),
            final(ids).wf(),
            final(ids).max_packets() == old(ids).max_packets(),
            final(self)@ == spec_incoming_puback(old(self)@, packet.pkid, old(ids)@).0,
            outcome_is(r, spec_incoming_puback(old(self)@, packet.pkid, old(ids)@).1),
            final(ids)@ == spec_incoming_puback(old(self)@, packet.pkid, old(ids)@).2,
    {
        let i = packet.pkid as usize;
        if i >= self.client.len() {
            return Err(MQTTError::UnknownData(packet.pkid));
        }
        match self.client[i] {
            Some(PacketType::Publish) => {},
            _ => return Err(MQTTError::UnknownData(packet.pkid)),
        }
        let ghost s = self@;
        self.client.set(i, None);
        ids.release(packet.pkid);
        self.unacked_publish.set(i, None);
        assert(self@ =~= StateV {
            client: s.client.update(i as int, None),
            unacked: s.unacked.update(i as int, None),
            ..s
        });
        Ok(None)
    }

    /// Sending PUBREC: the exchange waits for PUBREL.
    pub fn handle_outgoing_pubrec(&mut self, packet: PubRec) -> (r: Result<(), MQTTError>)
        requires
            old(self).wf(),
            packet.pkid < old(self)@.server.len(),
        ensures
            final(self).wf(),
            final(self)@ == with_server(old(self)@, packet.pkid, PacketType::PubRec),
            r == Ok::<(), MQTTError>(()),
    {
        self.server.set(packet.pkid as usize, Some(PacketType::PubRec));
        assert(self@ =~= with_server(old(self)@, packet.pkid, PacketType::PubRec));
        Ok(())
    }

    /// Takes a PUBREC received.
    pub fn handle_incoming_pubrec(&mut self, packet: &PubRec) -> (r: Result<Option<Packet>, MQTTError>)
        requires
            old(self).wf(),
        ensures
            final(self).wf(),
            final(self)@ == spec_incoming_pubrec(old(self)@, packet.pkid, packet.reason_code).0,
            outcome_is(r, spec_incoming_pubrec(old(self)@, packet.pkid, packet.reason_code).1),
    {
        let i = packet.pkid as usize;
        if i >= self.client.len() {
            return Err(MQTTError::UnknownData(packet.pkid));
        }
        match self.client[i] {
            Some(PacketType::Publish) => {},
            _ => return Err(MQTTError::UnknownData(packet.pkid)),
        }
        let ghost s = self@;
        if packet.reason_code == PubAckReasonCode::NoMatchingSubscribers || packet.reason_code
            == PubAckReasonCode::Success {
            self.client.set(i, Some(PacketType::PubRel));
        } else {
            self.client.set(i, None);
            assert(self@ =~= StateV { client: s.client.update(i as int, None), ..s });
            return Ok(None);
        }
        assert(self@ =~= StateV { client: s.client.update(i as int, Some(PacketType::PubRel)), ..s });
        if self.manual_ack {
            return Ok(None);
        }
        Ok(Some(reply_packet(&Reply::PubRel(packet.pkid))))
    }

    /// Sending PUBREL: the exchange waits for PUBCOMP.
    pub fn handle_outgoing_pubrel(&mut self, packet: PubRel) -> (r: Result<(), MQTTError>)
        requires
            old(self).wf(),
            packet.pkid < old(self)@.client.len(),
        ensures
            final(self).wf(),
            final(self)@ == with_client(old(self)@, packet.pkid, PacketType::PubRel),
            r == Ok::<(), MQTTError>(()),
    {
        self.client.set(packet.pkid as usize, Some(PacketType::PubRel));
        assert(self@ =~= with_client(old(self)@, packet.pkid, PacketType::PubRel));
        Ok(())
    }

    /// Takes a PUBREL received.
    pub fn handle_incoming_pubrel(&mut self, packet: &PubRel) -> (r: Result<Option<Packet>, MQTTError>)
        requires
            old(self).wf(),
            packet.pkid < old(self)@.server.len(),
        ensures
            final(self).wf(),
            final(self)@ == spec_incoming_pubrel(old(self)@, packet.pkid).0,
            outcome_is(r, spec_incoming_pubrel(old(self)@, packet.pkid).1),
    {
        let i = packet.pkid as usize;
        let ghost s = self@;
        let found = match self.server[i] {
            Some(PacketType::PubRec) => true,
            _ => false,
        };
        if found {
            self.server.set(i, None);
            assert(self@ =~= StateV { server: s.server.update(i as int, None), ..s });
        }
        if self.manual_ack {
            return Ok(None);
        }
        if !found {
            return Ok(Some(reply_packet(&Reply::PubComp(packet.pkid, PubRelReasonCode::PacketIdentifierNotFound))));
        }
        Ok(Some(reply_packet(&Reply::PubComp(packet.pkid, PubRelReasonCode::Success))))
    }

    /// Sending PUBCOMP changes nothing.
    pub fn handle_outgoing_pubcomp(&mut self, packet: PubComp) -> (r: Result<(), MQTTError>)
        ensures
            final(self)@ == old(self)@,
            r == Ok::<(), MQTTError>(()),
    {
        Ok(())
    }

    /// Ends the client's exchange `id` if it waits on `waiting`, releasing the identifier.
    fn end_exchange(&mut self, id: u16, waiting: PacketType, ids: &mut PacketIdManager) -> (r: Result<Option<Packet>, MQTTError>)
        requires
            old(self).wf(),
            old(ids).wf(),
            id < old(self)@.client.len(),
        ensures
            final(self).wf(),
            final(ids).wf(),
            final(ids).max_packets() == old(ids).max_packets(),
            final(self)@ == spec_incoming_end(old(self)@, id, waiting, old(ids)@).0,
            outcome_is(r, spec_incoming_end(old(self)@, id, waiting, old(ids)@).1),
            final(ids)@ == spec_incoming_end(old(self)@, id, waiting, old(ids)@).2,
    {
        let i = id as usize;
        let matches = match self.client[i] {
            Some(t) => t == waiting,
            None => false,
        };
        if !matches {
            return Err(MQTTError::UnknownData(id));
        }
        let ghost s = self@;
        self.client.set(i, None);
        assert(self@ =~= StateV { client: s.client.update(i as int, None), ..s });
        ids.release(id);
        Ok(None)
    }

    /// Takes a PUBCOMP received.
    pub fn handle_incoming_pubcomp(&mut self, packet: &PubComp, ids: &mut PacketIdManager) -> (r: Result<Option<Packet>, MQTTError>)
        requires
            old(self).wf(),
            old(ids).wf(),
            packet.pkid < old(self)@.client.len(),
        ensures
            final(self).wf(),
            final(ids).wf(),
            final(ids).max_packets() == old(ids).max_packets(),
            final(self)@ == spec_incoming_end(old(self)@, packet.pkid, PacketType::PubRel, old(ids)@).0,
            outcome_is(r, spec_incoming_end(old(self)@, packet.pkid, PacketType::PubRel, old(ids)@).1),
            final(ids)@ == spec_incoming_end(old(self)@, packet.pkid, PacketType::PubRel, old(ids)@).2,
    {
        self.end_exchange(packet.pkid, PacketType::PubRel, ids)
    }

    /// Sending SUBSCRIBE: the exchange waits for SUBACK.
    pub fn handle_outgoing_subscribe(&mut self, packet: Subscribe) -> (r: Result<(), MQTTError>)
        requires
            old(self).wf(),
            packet.packet_identifier < old(self)@.client.len(),
        ensures
            final(self).wf(),
            final(self)@ == with_client(old(self)@, packet.packet_identifier, PacketType::Subscribe),
            r == Ok::<(), MQTTError>(()),
    {
        self.client.set(packet.packet_identifier as usize, Some(PacketType::Subscribe));
        assert(self@ =~= with_client(old(self)@, packet.packet_identifier, PacketType::Subscribe));
        Ok(())
    }

    /// Takes a SUBACK received.
    pub fn handle_incoming_suback(&mut self, packet: &SubAck, ids: &mut PacketIdManager) -> (r: Result<Option<Packet>, MQTTError>)
        requires
            old(self).wf(),
            old(ids).wf(),
            packet.packet_identifier < old(self)@.client.len(),
        ensures
            final(self).wf(),
            final(ids).wf(),
            final(ids).max_packets() == old(ids).max_packets(),
            final(self)@ == spec_incoming_end(old(self)@, packet.packet_identifier, PacketType::Subscribe, old(ids)@).0,
            outcome_is(r, spec_incoming_end(old(self)@, packet.packet_identifier, PacketType::Subscribe, old(ids)@).1),
            final(ids)@ == spec_incoming_end(old(self)@, packet.packet_identifier, PacketType::Subscribe, old(ids)@).2,
    {
        self.end_exchange(packet.packet_identifier, PacketType::Subscribe, ids)
    }

    /// Sending UNSUBSCRIBE: the exchange waits for UNSUBACK.
    pub fn handle_outgoing_unsubscribe(&mut self, packet: UnSubscribe) -> (r: Result<(), MQTTError>)
        requires
            old(self).wf(),
            packet.packet_identifier < old(self)@.client.len(),
        ensures
            final(self).wf(),
            final(self)@ == with_client(old(self)@, packet.packet_identifier, PacketType::UnSubscribe),
            r == Ok::<(), MQTTError>(()),
    {
        self.client.set(packet.packet_identifier as usize, Some(PacketType::UnSubscribe));
        assert(self@ =~= with_client(old(self)@, packet.packet_identifier, PacketType::UnSubscribe));
        Ok(())
    }

    /// Takes an UNSUBACK received.
    pub fn handle_incoming_unsuback(&mut self, packet: &UnSubAck, ids: &mut PacketIdManager) -> (r: Result<Option<Packet>, MQTTError>)
        requires
            old(self).wf(),
            old(ids).wf(),
            packet.packet_identifier < old(self)@.client.len(),
        ensures
            final(self).wf(),
            final(ids).wf(),
            final(ids).max_packets() == old(ids).max_packets(),
            final(self)@ == spec_incoming_unsuback(old(self)@, packet.packet_identifier, old(ids)@).0,
            outcome_is(r, spec_incoming_unsuback(old(self)@, packet.packet_identifier, old(ids)@).1),
            final(ids)@ == spec_incoming_unsuback(old(self)@, packet.packet_identifier, old(ids)@).2,
    {
        if self.client[packet.packet_identifier as usize].is_none() {
            return Err(MQTTError::UnknownData(packet.packet_identifier));
        }
        ids.release(packet.packet_identifier);
        Ok(None)
    }

    /// Sending DISCONNECT changes nothing.
    pub fn handle_outgoing_disconnect(&mut self, packet: Disconnect) -> (r: Result<(), MQTTError>)
        ensures
            final(self)@ == old(self)@,
            r == Ok::<(), MQTTError>(()),
    {
        Ok(())
    }

    /// Takes a packet received; a PUBLISH gets the topic its alias stands for.
    pub fn handle_incoming_packet(&mut self, packet: &mut Packet, ids: &mut PacketIdManager) -> (r: Result<Option<Packet>, MQTTError>)
        requires
            old(self).wf(),
            old(ids).wf(),
            incoming_in_range(old(self)@, *old(packet)),
        ensures
            final(self).wf(),
            final(ids).wf(),
            final(ids).max_packets() == old(ids).max_packets(),
            final(self)@ == spec_incoming_packet(old(self)@, *old(packet), old(ids)@).0,
            outcome_is(r, spec_incoming_packet(old(self)@, *old(packet), old(ids)@).1),
            final(ids)@ == spec_incoming_packet(old(self)@, *old(packet), old(ids)@).2,
            match *old(packet) {
                Packet::Publish(q) => *final(packet) matches Packet::Publish(q2) && q2@
                    == spec_incoming_publish(old(self)@, q@).2,
                _ => *final(packet) == *old(packet),
            },
    {
        match packet {
            Packet::Publish(p) => self.handle_incoming_publish(p),
            Packet::PubAck(p) => self.handle_incoming_puback(p, ids),
            Packet::PubRec(p) => self.handle_incoming_pubrec(p),
            Packet::PubRel(p) => self.handle_incoming_pubrel(p),
            Packet::PubComp(p) => self.handle_incoming_pubcomp(p, ids),
            Packet::SubAck(p) => self.handle_incoming_suback(p, ids),
            Packet::UnSubAck(p) => self.handle_incoming_unsuback(p, ids),
            _ => Err(MQTTError::UnsupportedQoS(0)),
        }
    }

    /// Whether the identifier of a received packet falls within the slots of
    /// this session, so that it may be handed to `handle_incoming_packet`.
    pub fn accepts_incoming(&self, packet: &Packet) -> (r: bool)
        ensures
            r == incoming_in_range(self@, *packet),
    {
        let ns = self.server.len();
        let nc = self.client.len();
        match packet {
            Packet::Publish(q) => {
                let fits = match q.pkid {
                    Some(id) => (id as usize) < ns,
                    None => true,
                };
                fits && (q.qos == QoS::Zero || q.pkid.is_some()) && self.alias_in_table(
                    &q.topic,
                    q.properties.topic_alias,
                    Direction::InBound,
                )
            },
            Packet::PubAck(a) => (a.pkid as usize) < nc,
            Packet::PubRel(a) => (a.pkid as usize) < ns,
            Packet::PubComp(a) => (a.pkid as usize) < nc,
            Packet::SubAck(a) => (a.packet_identifier as usize) < nc,
            Packet::UnSubAck(a) => (a.packet_identifier as usize) < nc,
            _ => true,
        }
    }

    /// Whether resolving `topic` through `alias` in direction `d` stays within
    /// the alias table.
    pub fn alias_in_table(&self, topic: &String, alias: Option<u16>, d: Direction) -> (r: bool)
        ensures
            r == alias_fits(self@, topic@, alias, d),
    {
        match alias {
            None => true,
            Some(a) => {
                let (max, len) = match d {
                    Direction::InBound => (self.inbound_topic_alias_max, self.incoming_aliases.len()),
                    Direction::OutBound => (self.outbound_topic_alias_max, self.outgoing_aliases.len()),
                };
                if a == 0 || a > max {
                    true
                } else if !topic.as_str().is_empty() {
                    (a - 1) as usize <= len
                } else {
                    ((a - 1) as usize) < len
                }
            },
        }
    }

    /// Whether the identifier of a packet about to be sent falls within the
    /// slots of this session, so that it may be handed to `handle_outgoing_packet`.
    pub fn accepts_outgoing(&self, packet: &Packet) -> (r: bool)
        ensures
            r == outgoing_in_range(self@, *packet),
    {
        let nc = self.client.len();
        match packet {
            Packet::Publish(q) => {
                let (fits, in_flight) = match q.pkid {
                    Some(id) => if (id as usize) < nc {
                        (true, match self.client[id as usize] {
                            Some(PacketType::Publish) | Some(PacketType::PubRel) => true,
                            _ => false,
                        })
                    } else {
                        (false, false)
                    },
                    None => (true, false),
                };
                fits && (q.qos == QoS::Zero || q.pkid.is_some()) && (in_flight || self.alias_in_table(
                    &q.topic,
                    q.properties.topic_alias,
                    Direction::OutBound,
                ))
            },
            Packet::PubRec(a) => (a.pkid as usize) < self.server.len(),
            Packet::PubRel(a) => (a.pkid as usize) < nc,
            Packet::Subscribe(a) => (a.packet_identifier as usize) < nc,
            Packet::UnSubscribe(a) => (a.packet_identifier as usize) < nc,
            _ => true,
        }
    }

    /// Takes a packet about to be sent.
    pub fn handle_outgoing_packet(&mut self, packet: Packet) -> (r: Result<(), MQTTError>)
        requires
            old(self).wf(),
            outgoing_in_range(old(self)@, packet),
        ensures
            final(self).wf(),
            (final(self)@, r) == spec_outgoing_packet(old(self)@, packet),
    {
        match packet {
            Packet::Publish(p) => self.handle_outgoing_publish(p),
            Packet::PubAck(p) => self.handle_outgoing_puback(p),
            Packet::PubRec(p) => self.handle_outgoing_pubrec(p),
            Packet::PubRel(p) => self.handle_outgoing_pubrel(p),
            Packet::PubComp(p) => self.handle_outgoing_pubcomp(p),
            Packet::Subscribe(p) => self.handle_outgoing_subscribe(p),
            Packet::UnSubscribe(p) => self.handle_outgoing_unsubscribe(p),
            Packet::Disconnect(p) => self.handle_outgoing_disconnect(p),
            _ => Err(MQTTError::UnsupportedQoS(0)),
        }
    }
}

fn none_strings(n: usize) -> (r: Vec<Option<String>>)
    ensures
        r@.len() == n,
        forall|i: int| 0 <= i < n ==> r@[i] is None,
{
    let mut v: Vec<Option<String>> = Vec::new();
    while v.len() < n
        invariant
            v@.len() <= n,
            forall|i: int| 0 <= i < v@.len() ==> v@[i] is None,
        decreases n - v@.len(),
    {
        v.push(None);
    }
    v
}

fn none_types(n: usize) -> (r: Vec<Option<PacketType>>)
    ensures
        r@ == Seq::new(n as nat, |i: int| None::<PacketType>),
{
    let mut v: Vec<Option<PacketType>> = Vec::new();
    while v.len() < n
        invariant
            v@.len() <= n,
            forall|i: int| 0 <= i < v@.len() ==> v@[i] is None,
        decreases n - v@.len(),
    {
        v.push(None);
    }
    assert(v@ =~= Seq::new(n as nat, |i: int| None::<PacketType>));
    v
}

fn none_publishes(n: usize) -> (r: Vec<Option<Publish>>)
    ensures
        r@.len() == n,
        forall|i: int| 0 <= i < n ==> r@[i] is None,
{
    let mut v: Vec<Option<Publish>> = Vec::new();
    while v.len() < n
        invariant
            v@.len() <= n,
            forall|i: int| 0 <= i < v@.len() ==> v@[i] is None,
        decreases n - v@.len(),
    {
        v.push(None);
    }
    v
}

} // verus!
