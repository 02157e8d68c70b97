//! What the session guarantees over whole exchanges, stated over the
//! handlers' specifications.
use vstd::prelude::*;

use crate::client::state::{
    alias_fits, alias_max, alias_record, other_direction, publish_in_flight, spec_incoming_end, spec_incoming_unsuback, spec_incoming_publish, spec_incoming_puback,
    spec_incoming_pubrec, spec_incoming_pubrel, spec_outgoing_publish, spec_resolve_topic,
    initial_state, spec_incoming_packet, spec_outgoing_packet, state_wf, with_client, Direction, StateV,
};
use crate::client::options::ConnectOptions;
use crate::error::MQTTError;
use crate::packet::control::{reply_of, Packet, Reply};
use crate::packet::ack::{PubComp, PubRec, PubRel};
use crate::packet::suback::SubAck;
use crate::packet::subscribe::Subscribe;
use crate::packet::unsuback::UnSubAck;
use crate::packet::unsubscribe::UnSubscribe;
use crate::packet::publish::PublishV;
use crate::packet_id::{allocated_at, released, spec_bits};
use crate::packet_id::shard::with_bit;
use crate::packet_type::PacketType;
use crate::qos::QoS;
use crate::reason_code::{PubAckReasonCode, PubRelReasonCode};

verus! {

/// A topic name sent with a topic alias is what a later empty topic name
/// with that alias stands for, in either direction.
pub proof fn lemma_alias_roundtrip(s: StateV, d: Direction, t: Seq<char>, a: u16)
    requires
        state_wf(s),
        t.len() > 0,
        1 <= a <= alias_max(s, d),
        alias_fits(s, t, Some(a), d),
    ensures
        spec_resolve_topic(s, t, Some(a), d).1 == Ok::<Seq<char>, MQTTError>(t),
        spec_resolve_topic(spec_resolve_topic(s, t, Some(a), d).0, Seq::empty(), Some(a), d) == (
            spec_resolve_topic(s, t, Some(a), d).0,
            Ok::<Seq<char>, MQTTError>(t),
        ),
{
}

/// The state after resolving the topics of the given PUBLISH packets one
/// after the other: each call is a topic name, a topic alias and a direction.
pub open spec fn resolve_all(s: StateV, calls: Seq<(Seq<char>, Option<u16>, Direction)>) -> StateV
    decreases calls.len(),
{
    if calls.len() == 0 {
        s
    } else {
        resolve_all(spec_resolve_topic(s, calls[0].0, calls[0].1, calls[0].2).0, calls.drop_first())
    }
}

/// Whether each of the calls, made one after the other from `s`, stays
/// within its alias table (the calls that the session takes).
pub open spec fn calls_fit(s: StateV, calls: Seq<(Seq<char>, Option<u16>, Direction)>) -> bool
    decreases calls.len(),
{
    if calls.len() == 0 {
        true
    } else {
        &&& alias_fits(s, calls[0].0, calls[0].1, calls[0].2)
        &&& calls_fit(spec_resolve_topic(s, calls[0].0, calls[0].1, calls[0].2).0, calls.drop_first())
    }
}

/// Whether a call names topic alias `a` of direction `d` or a lower one: a
/// name is inserted into the table, which moves the entries from there on.
pub open spec fn names_alias(c: (Seq<char>, Option<u16>, Direction), d: Direction, a: u16) -> bool {
    c.2 == d && (c.1 matches Some(b) && b <= a) && c.0.len() > 0
}

proof fn lemma_alias_kept(s: StateV, d: Direction, t: Seq<char>, a: u16, calls: Seq<(Seq<char>, Option<u16>, Direction)>)
    requires
        state_wf(s),
        1 <= a <= alias_max(s, d),
        a - 1 < alias_record(s, d).len(),
        alias_record(s, d)[a - 1] == Some(t),
        calls_fit(s, calls),
        forall|i: int| 0 <= i < calls.len() ==> !names_alias(#[trigger] calls[i], d, a),
    ensures
        state_wf(resolve_all(s, calls)),
        alias_max(resolve_all(s, calls), d) == alias_max(s, d),
        a - 1 < alias_record(resolve_all(s, calls), d).len(),
        alias_record(resolve_all(s, calls), d)[a - 1] == Some(t),
    decreases calls.len(),
{
    if calls.len() > 0 {
        let c = calls[0];
        assert(!names_alias(calls[0], d, a));
        let s1 = spec_resolve_topic(s, c.0, c.1, c.2).0;
        assert(state_wf(s1));
        assert(a - 1 < alias_record(s1, d).len());
        assert(alias_record(s1, d)[a - 1] == Some(t));
        assert forall|i: int| 0 <= i < calls.drop_first().len() implies !names_alias(
            #[trigger] calls.drop_first()[i],
            d,
            a,
        ) by {
            assert(calls.drop_first()[i] == calls[i + 1]);
        }
        lemma_alias_kept(s1, d, t, a, calls.drop_first());
    }
}

/// A topic name sent with topic alias `a` in direction `d` is inserted into
/// the table of `d` as the entry of `a`; the aliases of the other direction
/// keep their names. Whatever PUBLISH packets the session then takes, in
/// either direction, as long as none names `a` of `d` or a lower alias of
/// `d` (whose insertion would move it), an empty topic name with alias `a`
/// stands for it.
pub proof fn lemma_alias_lasts(
    s: StateV,
    d: Direction,
    t: Seq<char>,
    a: u16,
    later: Seq<(Seq<char>, Option<u16>, Direction)>,
)
    requires
        state_wf(s),
        t.len() > 0,
        1 <= a <= alias_max(s, d),
        alias_fits(s, t, Some(a), d),
        calls_fit(spec_resolve_topic(s, t, Some(a), d).0, later),
        forall|i: int| 0 <= i < later.len() ==> !names_alias(#[trigger] later[i], d, a),
    ensures
        ({
            let (s1, r1) = spec_resolve_topic(s, t, Some(a), d);
            let s2 = resolve_all(s1, later);
            &&& r1 == Ok::<Seq<char>, MQTTError>(t)
            &&& alias_record(s1, d) == alias_record(s, d).insert(a - 1, Some(t))
            &&& alias_record(s1, other_direction(d)) == alias_record(s, other_direction(d))
            &&& spec_resolve_topic(s2, Seq::empty(), Some(a), d) == (s2, Ok::<Seq<char>, MQTTError>(t))
        }),
{
    let s1 = spec_resolve_topic(s, t, Some(a), d).0;
    lemma_alias_kept(s1, d, t, a, later);
}

/// A QoS 1 message sent under a free identifier waits for its PUBACK; the
/// PUBACK ends the exchange, forgets the message and releases the identifier.
pub proof fn lemma_qos1_flow(s: StateV, p: PublishV, ids: Seq<usize>)
    requires
        state_wf(s),
        p.qos == QoS::One,
        p.pkid matches Some(id) && id < s.client.len() && s.client[id as int] is None,
        spec_resolve_topic(s, p.topic, p.properties.topic_alias, Direction::OutBound).1 is Ok,
    ensures
        ({
            let id = p.pkid->0;
            let (s1, r1) = spec_outgoing_publish(s, p);
            let (s2, r2, ids2) = spec_incoming_puback(s1, id, ids);
            &&& r1 == Ok::<(), MQTTError>(())
            &&& s1.client[id as int] == Some(PacketType::Publish)
            &&& s1.unacked[id as int] == Some(p)
            &&& r2 == Ok::<Option<Reply>, MQTTError>(None)
            &&& s2.client == s.client
            &&& s2.unacked == s.unacked.update(id as int, None)
            &&& ids2 == released(ids, id)
        }),
{
    let id = p.pkid->0;
    let s1 = spec_outgoing_publish(s, p).0;
    let s2 = spec_incoming_puback(s1, id, ids).0;
    assert(s2.client =~= s.client);
    assert(s2.unacked =~= s.unacked.update(id as int, None));
}

/// When the identifier of a QoS 1 message was the one just allocated, the
/// PUBACK leaves the identifiers as they were before the allocation.
pub proof fn lemma_qos1_flow_frees_identifier(
    s: StateV,
    p: PublishV,
    before: Seq<usize>,
    k: int,
    b: usize,
)
    requires
        state_wf(s),
        before.len() * spec_bits() <= 65536,
        allocated_at(before, k, b),
        p.qos == QoS::One,
        p.pkid == Some((k * spec_bits() + b) as u16),
        k * spec_bits() + b < s.client.len(),
        s.client[k * spec_bits() + b] is None,
        spec_resolve_topic(s, p.topic, p.properties.topic_alias, Direction::OutBound).1 is Ok,
    ensures
        spec_incoming_puback(
            spec_outgoing_publish(s, p).0,
            p.pkid->0,
            before.update(k, with_bit(before[k], b)),
        ).2 == before,
{
    crate::packet_id::lemma_release_after_allocate(before, k, b);
    lemma_qos1_flow(s, p, before.update(k, with_bit(before[k], b)));
}

/// A QoS 2 message sent under a free identifier: a successful PUBREC is
/// answered with PUBREL (unless acknowledging by hand) and the exchange waits
/// for PUBCOMP; sending PUBREL keeps it so; PUBCOMP ends the exchange and
/// releases the identifier.
pub proof fn lemma_qos2_outgoing_flow(s: StateV, p: PublishV, ids: Seq<usize>)
    requires
        state_wf(s),
        p.qos == QoS::Two,
        p.pkid matches Some(id) && id < s.client.len() && s.client[id as int] is None,
        spec_resolve_topic(s, p.topic, p.properties.topic_alias, Direction::OutBound).1 is Ok,
    ensures
        ({
            let id = p.pkid->0;
            let (s1, r1) = spec_outgoing_publish(s, p);
            let (s2, r2) = spec_incoming_pubrec(s1, id, PubAckReasonCode::Success);
            let s3 = with_client(s2, id, PacketType::PubRel);
            let (s4, r4, ids4) = spec_incoming_end(s3, id, PacketType::PubRel, ids);
            &&& r1 == Ok::<(), MQTTError>(())
            &&& r2 == Ok::<Option<Reply>, MQTTError>(
                if s.manual_ack {
                    None
                } else {
                    Some(Reply::PubRel(id))
                },
            )
            &&& s2.client[id as int] == Some(PacketType::PubRel)
            &&& s3 == s2
            &&& r4 == Ok::<Option<Reply>, MQTTError>(None)
            &&& s4.client == s.client
            &&& ids4 == released(ids, id)
        }),
{
    let id = p.pkid->0;
    let s1 = spec_outgoing_publish(s, p).0;
    let s2 = spec_incoming_pubrec(s1, id, PubAckReasonCode::Success).0;
    let s3 = with_client(s2, id, PacketType::PubRel);
    assert(s3.client =~= s2.client);
    assert(s3 =~= s2);
    let s4 = spec_incoming_end(s3, id, PacketType::PubRel, ids).0;
    assert(s4.client =~= s.client);
}

/// A QoS 2 message received under a free identifier, acknowledging on its
/// own: it is answered with PUBREC and the exchange waits for PUBREL; the
/// PUBREL is answered with a successful PUBCOMP and ends the exchange; a
/// second PUBREL is answered with `PacketIdentifierNotFound`.
pub proof fn lemma_qos2_incoming_flow(s: StateV, p: PublishV)
    requires
        state_wf(s),
        !s.manual_ack,
        p.qos == QoS::Two,
        p.pkid matches Some(id) && id < s.server.len() && s.server[id as int] is None,
        spec_resolve_topic(s, p.topic, p.properties.topic_alias, Direction::InBound).1 is Ok,
    ensures
        ({
            let id = p.pkid->0;
            let (s1, r1, _) = spec_incoming_publish(s, p);
            let (s2, r2) = spec_incoming_pubrel(s1, id);
            let (s3, r3) = spec_incoming_pubrel(s2, id);
            &&& r1 == Ok::<Option<Reply>, MQTTError>(Some(Reply::PubRec(id)))
            &&& s1.server[id as int] == Some(PacketType::PubRec)
            &&& r2 == Ok::<Option<Reply>, MQTTError>(Some(Reply::PubComp(id, PubRelReasonCode::Success)))
            &&& s2.server == s.server
            &&& r3 == Ok::<Option<Reply>, MQTTError>(
                Some(Reply::PubComp(id, PubRelReasonCode::PacketIdentifierNotFound)),
            )
            &&& s3 == s2
        }),
{
    let id = p.pkid->0;
    let s1 = spec_incoming_publish(s, p).0;
    let s2 = spec_incoming_pubrel(s1, id).0;
    assert(s2.server =~= s.server);
}

/// A message received under an identifier whose exchange is still in flight
/// is refused as a conflict, and so is one sent under such an identifier.
pub proof fn lemma_identifier_conflict(s: StateV, p: PublishV)
    requires
        state_wf(s),
        p.pkid matches Some(id) && id < s.server.len() && s.server[id as int] is Some,
        spec_resolve_topic(s, p.topic, p.properties.topic_alias, Direction::InBound).1 is Ok,
    ensures
        spec_incoming_publish(s, p).1 == Err::<Option<Reply>, MQTTError>(MQTTError::PacketIdConflict(p.pkid->0)),
        p.pkid->0 < s.client.len() && publish_in_flight(s.client[p.pkid->0 as int]) ==> spec_outgoing_publish(s, p) == (
            s,
            Err::<(), MQTTError>(MQTTError::PacketIdConflict(p.pkid->0)),
        ),
{
}

/// An UNSUBSCRIBE answered by its UNSUBACK releases its identifier and takes
/// nothing from a later message: a QoS 1 or QoS 2 message sent under that
/// identifier once it is handed out again is accepted and waits for its
/// acknowledgement.
pub proof fn lemma_publish_after_unsuback(s: StateV, p: PublishV, ids: Seq<usize>)
    requires
        state_wf(s),
        p.qos != QoS::Zero,
        p.pkid matches Some(id) && id < s.client.len() && s.client[id as int] == Some(PacketType::UnSubscribe),
        spec_resolve_topic(s, p.topic, p.properties.topic_alias, Direction::OutBound).1 is Ok,
    ensures
        ({
            let id = p.pkid->0;
            let (s1, r1, ids1) = spec_incoming_unsuback(s, id, ids);
            let (s2, r2) = spec_outgoing_publish(s1, p);
            &&& r1 == Ok::<Option<Reply>, MQTTError>(None)
            &&& ids1 == released(ids, id)
            &&& r2 == Ok::<(), MQTTError>(())
            &&& s2.client[id as int] == Some(PacketType::Publish)
            &&& s2.unacked[id as int] == Some(p)
        }),
{
}

/// An acknowledgement for an identifier with no matching exchange is
/// refused as unknown and changes nothing.
pub proof fn lemma_unknown_acknowledgement(s: StateV, id: u16, ids: Seq<usize>)
    requires
        state_wf(s),
        id < s.client.len(),
        s.client[id as int] is None,
    ensures
        spec_incoming_puback(s, id, ids) == (s, Err::<Option<Reply>, MQTTError>(MQTTError::UnknownData(id)), ids),
        spec_incoming_pubrec(s, id, PubAckReasonCode::Success) == (
            s,
            Err::<Option<Reply>, MQTTError>(MQTTError::UnknownData(id)),
        ),
        spec_incoming_end(s, id, PacketType::PubRel, ids) == (
            s,
            Err::<Option<Reply>, MQTTError>(MQTTError::UnknownData(id)),
            ids,
        ),
        spec_incoming_end(s, id, PacketType::Subscribe, ids) == (
            s,
            Err::<Option<Reply>, MQTTError>(MQTTError::UnknownData(id)),
            ids,
        ),
{
}

/// A PUBREC answers a QoS 2 message in flight under its identifier. A
/// reason code below 0x80 (Success, No matching subscribers) means that the
/// server took the message: the exchange goes on to wait for PUBCOMP and,
/// unless acknowledging by hand, PUBREL is sent under the same identifier.
/// A code of 0x80 or above ends the exchange with no reply. Nothing else of
/// the session changes.
pub proof fn lemma_pubrec_reason_codes(s: StateV, id: u16, rc: PubAckReasonCode)
    requires
        state_wf(s),
        id < s.client.len(),
        s.client[id as int] == Some(PacketType::Publish),
    ensures
        ({
            let (s1, r) = spec_incoming_pubrec(s, id, rc);
            &&& rc.spec_code() < 0x80 ==> {
                &&& s1.client == s.client.update(id as int, Some(PacketType::PubRel))
                &&& r == Ok::<Option<Reply>, MQTTError>(
                    if s.manual_ack {
                        None
                    } else {
                        Some(Reply::PubRel(id))
                    },
                )
            }
            &&& rc.spec_code() >= 0x80 ==> {
                &&& s1.client == s.client.update(id as int, None)
                &&& r == Ok::<Option<Reply>, MQTTError>(None)
            }
            &&& s1.server == s.server
            &&& s1.unacked == s.unacked
            &&& s1.incoming_aliases == s.incoming_aliases
            &&& s1.outgoing_aliases == s.outgoing_aliases
        }),
        spec_incoming_pubrec(s, id, PubAckReasonCode::NoMatchingSubscribers) == spec_incoming_pubrec(
            s,
            id,
            PubAckReasonCode::Success,
        ),
{
    let s1 = spec_incoming_pubrec(s, id, rc).0;
    if rc.spec_code() < 0x80 {
        assert(s1.client =~= s.client.update(id as int, Some(PacketType::PubRel)));
    } else {
        assert(s1.client =~= s.client.update(id as int, None));
    }
}

/// Receiving a QoS 0 or QoS 1 PUBLISH reserves no identifier of the
/// server's: its table is as before, so the server may reuse an identifier
/// at once. A QoS 1 PUBLISH under a free identifier is answered with PUBACK
/// under that identifier (unless acknowledging by hand), and the same PUBLISH
/// received again is answered the same way. Only a QoS 2 PUBLISH
/// acknowledged on its own marks its identifier, as waiting for PUBREL.
pub proof fn lemma_qos1_publish_reserves_nothing(s: StateV, p: PublishV)
    requires
        state_wf(s),
        p.qos == QoS::One,
        p.pkid matches Some(id) && id < s.server.len() && s.server[id as int] is None,
        spec_resolve_topic(s, p.topic, p.properties.topic_alias, Direction::InBound).1 is Ok,
    ensures
        ({
            let id = p.pkid->0;
            let (s1, r1, _) = spec_incoming_publish(s, p);
            let (s2, r2, _) = spec_incoming_publish(s1, p);
            &&& s1.server == s.server
            &&& r1 == Ok::<Option<Reply>, MQTTError>(
                if s.manual_ack {
                    None
                } else {
                    Some(Reply::PubAck(id))
                },
            )
            &&& s2.server == s.server
            &&& r2 == r1
        }),
{
    let s1 = spec_incoming_publish(s, p).0;
    assert(s1.manual_ack == s.manual_ack);
    assert(alias_max(s1, Direction::InBound) == alias_max(s, Direction::InBound));
    if p.topic.len() == 0 {
        assert(s1 == s);
    }
}

/// Whatever the QoS, a PUBLISH received leaves the server's identifiers as
/// they were unless it is a QoS 2 message acknowledged on its own, which
/// marks its identifier as waiting for PUBREL.
pub proof fn lemma_incoming_publish_server_table(s: StateV, p: PublishV)
    requires
        state_wf(s),
        p.pkid matches Some(id) ==> id < s.server.len(),
        p.qos != QoS::Zero ==> p.pkid is Some,
    ensures
        ({
            let (s1, r, _) = spec_incoming_publish(s, p);
            &&& (p.qos != QoS::Two || s.manual_ack || r is Err) ==> s1.server == s.server
            &&& (p.qos == QoS::Two && !s.manual_ack && r is Ok) ==> s1.server == s.server.update(
                p.pkid->0 as int,
                Some(PacketType::PubRec),
            )
        }),
{
}

/// A SUBSCRIBE sent under a free identifier waits for its SUBACK; the SUBACK
/// ends the exchange with no reply and releases the identifier. An UNSUBSCRIBE
/// waits likewise, and its UNSUBACK releases the identifier. A SUBACK for an
/// identifier that waits on anything else is `UnknownData` and changes nothing.
pub proof fn lemma_subscribe_flows(s: StateV, sub: Subscribe, ack: SubAck, unsub: UnSubscribe, unack: UnSubAck, ids: Seq<usize>)
    requires
        state_wf(s),
        sub.packet_identifier == ack.packet_identifier,
        sub.packet_identifier < s.client.len(),
        unsub.packet_identifier == unack.packet_identifier,
        unsub.packet_identifier < s.client.len(),
    ensures
        ({
            let id = sub.packet_identifier;
            let (s1, r1) = spec_outgoing_packet(s, Packet::Subscribe(sub));
            let (s2, r2, ids2) = spec_incoming_packet(s1, Packet::SubAck(ack), ids);
            &&& r1 == Ok::<(), MQTTError>(())
            &&& s1.client == s.client.update(id as int, Some(PacketType::Subscribe))
            &&& r2 == Ok::<Option<Reply>, MQTTError>(None)
            &&& s2.client == s.client.update(id as int, None)
            &&& ids2 == released(ids, id)
        }),
        ({
            let id = unsub.packet_identifier;
            let (s1, r1) = spec_outgoing_packet(s, Packet::UnSubscribe(unsub));
            let (s2, r2, ids2) = spec_incoming_packet(s1, Packet::UnSubAck(unack), ids);
            &&& r1 == Ok::<(), MQTTError>(())
            &&& s1.client == s.client.update(id as int, Some(PacketType::UnSubscribe))
            &&& r2 == Ok::<Option<Reply>, MQTTError>(None)
            &&& ids2 == released(ids, id)
        }),
        s.client[ack.packet_identifier as int] != Some(PacketType::Subscribe) ==> spec_incoming_packet(
            s,
            Packet::SubAck(ack),
            ids,
        ) == (s, Err::<Option<Reply>, MQTTError>(MQTTError::UnknownData(ack.packet_identifier)), ids),
{
    let id = sub.packet_identifier;
    let s1 = spec_outgoing_packet(s, Packet::Subscribe(sub)).0;
    let s2 = spec_incoming_packet(s1, Packet::SubAck(ack), ids).0;
    assert(s2.client =~= s.client.update(id as int, None));
}

/// A PUBREL is always answered with a PUBCOMP under its identifier (unless
/// acknowledging by hand): with reason code Success when a QoS 2 message
/// received under it waited for the PUBREL, which ends that exchange, and
/// with Packet identifier not found (0x92) otherwise, changing nothing.
pub proof fn lemma_pubrel_answer(s: StateV, id: u16)
    requires
        state_wf(s),
        id < s.server.len(),
    ensures
        ({
            let (s1, r) = spec_incoming_pubrel(s, id);
            &&& s.server[id as int] == Some(PacketType::PubRec) ==> {
                &&& s1.server == s.server.update(id as int, None)
                &&& r == Ok::<Option<Reply>, MQTTError>(
                    if s.manual_ack {
                        None
                    } else {
                        Some(Reply::PubComp(id, PubRelReasonCode::Success))
                    },
                )
            }
            &&& s.server[id as int] != Some(PacketType::PubRec) ==> {
                &&& s1 == s
                &&& r == Ok::<Option<Reply>, MQTTError>(
                    if s.manual_ack {
                        None
                    } else {
                        Some(Reply::PubComp(id, PubRelReasonCode::PacketIdentifierNotFound))
                    },
                )
            }
            &&& PubRelReasonCode::PacketIdentifierNotFound.spec_code() == 0x92
            &&& s1.client == s.client
        }),
{
}

/// Each reply is the acknowledgement packet of its name, under its
/// identifier, with no properties: PUBACK, PUBREC and PUBREL with reason code
/// Success, PUBCOMP with the reason code it carries.
pub proof fn lemma_reply_shapes(p: Packet)
    ensures
        reply_of(p) matches Some(Reply::PubAck(id)) ==> p matches Packet::PubAck(a) && a.pkid == id
            && a.reason_code == PubAckReasonCode::Success,
        reply_of(p) matches Some(Reply::PubRec(id)) ==> p matches Packet::PubRec(a) && a.pkid == id
            && a.reason_code == PubAckReasonCode::Success,
        reply_of(p) matches Some(Reply::PubRel(id)) ==> p matches Packet::PubRel(a) && a.pkid == id
            && a.reason_code == PubRelReasonCode::Success,
        reply_of(p) matches Some(Reply::PubComp(id, rc)) ==> p matches Packet::PubComp(a) && a.pkid == id
            && a.reason_code == rc,
        reply_of(p) is Some ==> match p {
            Packet::PubAck(a) => a.properties@.reason_string is None && a.properties@.user_property.len() == 0,
            Packet::PubRec(a) => a.properties@.reason_string is None && a.properties@.user_property.len() == 0,
            Packet::PubRel(a) => a.properties@.reason_string is None && a.properties@.user_property.len() == 0,
            Packet::PubComp(a) => a.properties@.reason_string is None && a.properties@.user_property.len() == 0,
            _ => false,
        },
{
}

/// Acknowledging QoS 2 by hand: a PUBREC the client sends for a message
/// received makes the exchange wait for the server's PUBREL, which is then
/// taken (with no reply, the user answering). A PUBREL the client sends for
/// a message sent makes the exchange wait for PUBCOMP, which ends it and
/// releases the identifier.
pub proof fn lemma_manual_qos2_flows(s: StateV, rec: PubRec, rel: PubRel, comp: PubComp, ids: Seq<usize>)
    requires
        state_wf(s),
        s.manual_ack,
        rec.pkid < s.server.len(),
        rel.pkid == comp.pkid,
        rel.pkid < s.client.len(),
    ensures
        ({
            let id = rec.pkid;
            let (s1, r1) = spec_outgoing_packet(s, Packet::PubRec(rec));
            let (s2, r2) = spec_incoming_pubrel(s1, id);
            &&& r1 == Ok::<(), MQTTError>(())
            &&& s1.server == s.server.update(id as int, Some(PacketType::PubRec))
            &&& r2 == Ok::<Option<Reply>, MQTTError>(None)
            &&& s2.server == s.server.update(id as int, None)
        }),
        ({
            let id = rel.pkid;
            let (s1, r1) = spec_outgoing_packet(s, Packet::PubRel(rel));
            let (s2, r2, ids2) = spec_incoming_packet(s1, Packet::PubComp(comp), ids);
            &&& r1 == Ok::<(), MQTTError>(())
            &&& s1.client == s.client.update(id as int, Some(PacketType::PubRel))
            &&& r2 == Ok::<Option<Reply>, MQTTError>(None)
            &&& s2.client == s.client.update(id as int, None)
            &&& ids2 == released(ids, id)
        }),
{
    let s1 = spec_outgoing_packet(s, Packet::PubRec(rec)).0;
    let s2 = spec_incoming_pubrel(s1, rec.pkid).0;
    assert(s2.server =~= s.server.update(rec.pkid as int, None));
    let t1 = spec_outgoing_packet(s, Packet::PubRel(rel)).0;
    let t2 = spec_incoming_packet(t1, Packet::PubComp(comp), ids).0;
    assert(t2.client =~= s.client.update(rel.pkid as int, None));
}

/// A PUBLISH received takes the topic that its name or alias resolves to.
/// At QoS 0 it is answered with nothing and changes no identifier; at QoS 1
/// and 2 under an identifier whose exchange is still in flight on the
/// server's side it is refused as a conflict.
pub proof fn lemma_incoming_publish_answers(s: StateV, p: PublishV)
    requires
        state_wf(s),
        p.pkid matches Some(id) ==> id < s.server.len(),
        p.qos != QoS::Zero ==> p.pkid is Some,
        spec_resolve_topic(s, p.topic, p.properties.topic_alias, Direction::InBound).1 is Ok,
    ensures
        ({
            let (s1, r, q) = spec_incoming_publish(s, p);
            let t = spec_resolve_topic(s, p.topic, p.properties.topic_alias, Direction::InBound).1->Ok_0;
            &&& q == PublishV { topic: t, ..p }
            &&& p.qos == QoS::Zero && p.pkid is None ==> r == Ok::<Option<Reply>, MQTTError>(None) && s1.server
                == s.server && s1.client == s.client
            &&& (p.pkid matches Some(id) && s.server[id as int] is Some) ==> r == Err::<Option<Reply>, MQTTError>(
                MQTTError::PacketIdConflict(p.pkid->0),
            )
        }),
{
}

/// A new session holds no exchange: the server may run `client_receive_max`
/// exchanges at once and the client `server_receive_max`, every slot free;
/// no topic alias is known in either direction, and both tables start with
/// `outbound_topic_alias_max` entries.
pub proof fn lemma_initial_session(o: ConnectOptions)
    ensures
        ({
            let s = initial_state(o);
            &&& state_wf(s)
            &&& s.server.len() == o.client_receive_max
            &&& s.client.len() == o.server_receive_max
            &&& forall|i: int| 0 <= i < s.server.len() ==> #[trigger] s.server[i] is None
            &&& forall|i: int| 0 <= i < s.client.len() ==> #[trigger] s.client[i] is None
            &&& forall|i: int| 0 <= i < s.unacked.len() ==> #[trigger] s.unacked[i] is None
            &&& s.incoming_aliases.len() == o.outbound_topic_alias_max
            &&& s.outgoing_aliases.len() == o.outbound_topic_alias_max
            &&& forall|i: int| 0 <= i < s.incoming_aliases.len() ==> #[trigger] s.incoming_aliases[i] is None
            &&& forall|i: int| 0 <= i < s.outgoing_aliases.len() ==> #[trigger] s.outgoing_aliases[i] is None
            &&& s.manual_ack == o.manual_ack
            &&& s.inbound_topic_alias_max == o.inbound_topic_alias_max
            &&& s.outbound_topic_alias_max == o.outbound_topic_alias_max
        }),
{
}

} // verus!
