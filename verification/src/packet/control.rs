//! A control packet of any type.
use bytes::{Bytes, BytesMut};
use vstd::prelude::*;

use crate::buffer::{bytes_len, bytes_mut_view, bytes_split_to, bytes_view};
use crate::error::MQTTError;
use crate::fixed_header::{flag_bits, parse_fixed_header, spec_first_byte, spec_header_bytes, FixedHeader};
use crate::packet::ack::{
    ack_header, ack_remaining_length, parse_ack, spec_write_ack, valid_pub_ack_code, valid_pub_rel_code, PubAck, PubComp,
    PubRec, PubRel,
};
use crate::packet::auth::{auth_header, auth_remaining_length, parse_auth, spec_write_auth, Auth};
use crate::packet::connack::{connack_header, connack_remaining_length, parse_connack, spec_write_connack, ConnAck};
use crate::packet::connect::{connect_header, connect_write_bound, parse_connect, spec_write_connect, Connect};
use crate::packet::disconnect::{disconnect_header, disconnect_remaining_length, parse_disconnect, spec_write_disconnect};
use crate::packet::publish::{lemma_publish_flags, parse_publish, publish_flags, publish_header, publish_write_bound, spec_write_publish};
use crate::packet::suback::{parse_suback, suback_header, spec_write_suback, suback_remaining_length};
use crate::packet::subscribe::{parse_subscribe, subscribe_header, spec_write_subscribe, subscribe_remaining_length};
use crate::packet::unsuback::{parse_unsuback, unsuback_header, spec_write_unsuback, unsuback_remaining_length};
use crate::packet::unsubscribe::{parse_unsubscribe, unsubscribe_header, spec_write_unsubscribe, unsubscribe_remaining_length};
use crate::packet_type::PacketType;
use crate::packet::ack_properties::AckProperties;
use crate::packet::disconnect::Disconnect;
use crate::packet::ping::{PingReq, PingResp};
use crate::packet::publish::Publish;
use crate::packet::suback::SubAck;
use crate::packet::subscribe::Subscribe;
use crate::packet::unsuback::UnSubAck;
use crate::packet::unsubscribe::UnSubscribe;
use crate::properties::PropertySet;
use crate::reason_code::{PubAckReasonCode, PubRelReasonCode};

verus! {

#[derive(Debug, Clone, PartialEq, Eq)]
pub enum Packet {
    Connect(Connect),
    ConnAck(ConnAck),
    Publish(Publish),
    PubAck(PubAck),
    PubRec(PubRec),
    PubRel(PubRel),
    PubComp(PubComp),
    Subscribe(Subscribe),
    SubAck(SubAck),
    UnSubscribe(UnSubscribe),
    UnSubAck(UnSubAck),
    PingReq(PingReq),
    PingResp(PingResp),
    Disconnect(Disconnect),
    Auth(Auth),
}

/// An acknowledgement that the session sends on its own: the packet
/// identifier, the reason code where it is not success, and no properties.
#[derive(Debug, Clone, Copy, PartialEq, Eq, Structural)]
pub enum Reply {
    PubAck(u16),
    PubRec(u16),
    PubRel(u16),
    PubComp(u16, PubRelReasonCode),
}

/// The reply that a packet is, if it is one.
pub open spec fn reply_of(p: Packet) -> Option<Reply> {
    match p {
        Packet::PubAck(a) => if a.reason_code == PubAckReasonCode::Success && a.properties@
            == AckProperties::spec_empty() {
            Some(Reply::PubAck(a.pkid))
        } else {
            None
        },
        Packet::PubRec(a) => if a.reason_code == PubAckReasonCode::Success && a.properties@
            == AckProperties::spec_empty() {
            Some(Reply::PubRec(a.pkid))
        } else {
            None
        },
        Packet::PubRel(a) => if a.reason_code == PubRelReasonCode::Success && a.properties@
            == AckProperties::spec_empty() {
            Some(Reply::PubRel(a.pkid))
        } else {
            None
        },
        Packet::PubComp(a) => if a.properties@ == AckProperties::spec_empty() {
            Some(Reply::PubComp(a.pkid, a.reason_code))
        } else {
            None
        },
        _ => None,
    }
}

/// The packet `r` is the reply `x` (both absent, or both present and the same).
pub open spec fn is_reply(r: Option<Packet>, x: Option<Reply>) -> bool {
    match (r, x) {
        (None, None) => true,
        (Some(p), Some(y)) => reply_of(p) == Some(y),
        _ => false,
    }
}

/// The outcome `r` of handling a packet is `x`: the same reply, or the same error.
pub open spec fn outcome_is(r: Result<Option<Packet>, MQTTError>, x: Result<Option<Reply>, MQTTError>) -> bool {
    match (r, x) {
        (Ok(p), Ok(y)) => is_reply(p, y),
        (Err(e), Err(f)) => e == f,
        _ => false,
    }
}

/// Builds the packet for a reply.
pub fn reply_packet(x: &Reply) -> (r: Packet)
    ensures
        reply_of(r) == Some(*x),
{
    match x {
        Reply::PubAck(id) => Packet::PubAck(
            PubAck { pkid: *id, reason_code: PubAckReasonCode::Success, properties: AckProperties::empty() },
        ),
        Reply::PubRec(id) => Packet::PubRec(
            PubRec { pkid: *id, reason_code: PubAckReasonCode::Success, properties: AckProperties::empty() },
        ),
        Reply::PubRel(id) => Packet::PubRel(
            PubRel { pkid: *id, reason_code: PubRelReasonCode::Success, properties: AckProperties::empty() },
        ),
        Reply::PubComp(id, rc) => Packet::PubComp(
            PubComp { pkid: *id, reason_code: *rc, properties: AckProperties::empty() },
        ),
    }
}

/// What writing a packet gives: the outcome and the bytes, by its type.
pub open spec fn spec_write_packet(p: Packet) -> (Result<(), MQTTError>, Seq<u8>) {
    match p {
        Packet::Connect(c) => spec_write_connect(c@),
        Packet::ConnAck(a) => spec_write_connack(a.session_present, a.reason.spec_code(), a.properties@),
        Packet::Publish(q) => spec_write_publish(q@),
        Packet::PubAck(a) => spec_write_ack(PacketType::PubAck, 0u8, a.pkid, a.reason_code.spec_code(), a.properties@),
        Packet::PubRec(a) => spec_write_ack(PacketType::PubRec, 0u8, a.pkid, a.reason_code.spec_code(), a.properties@),
        Packet::PubRel(a) => spec_write_ack(PacketType::PubRel, 2u8, a.pkid, a.reason_code.spec_code(), a.properties@),
        Packet::PubComp(a) => spec_write_ack(PacketType::PubComp, 0u8, a.pkid, a.reason_code.spec_code(), a.properties@),
        Packet::Subscribe(a) => spec_write_subscribe(a.packet_identifier, a.spec_entries(), a.properties@),
        Packet::SubAck(a) => spec_write_suback(a.packet_identifier, a.payload@, a.properties@),
        Packet::UnSubscribe(a) => spec_write_unsubscribe(a.packet_identifier, a.spec_entries(), a.properties@),
        Packet::UnSubAck(a) => spec_write_unsuback(a.packet_identifier, a.payload@, a.properties@),
        Packet::PingReq(_) => (Ok(()), seq![0xC0u8, 0x00u8]),
        Packet::PingResp(_) => (Ok(()), seq![0xD0u8, 0x00u8]),
        Packet::Disconnect(d) => spec_write_disconnect(d.reason_code.spec_code(), d.properties@),
        Packet::Auth(a) => spec_write_auth(a.reason_code.spec_code(), a.properties@),
    }
}

/// A bound on the bytes that writing a packet adds.
pub open spec fn packet_write_bound(p: Packet) -> nat {
    match p {
        Packet::Connect(c) => connect_write_bound(c@),
        Packet::ConnAck(a) => connack_remaining_length(a.properties@) + 12,
        Packet::Publish(q) => publish_write_bound(q@),
        Packet::PubAck(a) => ack_remaining_length(a.reason_code.spec_code(), a.properties@) + 12,
        Packet::PubRec(a) => ack_remaining_length(a.reason_code.spec_code(), a.properties@) + 12,
        Packet::PubRel(a) => ack_remaining_length(a.reason_code.spec_code(), a.properties@) + 12,
        Packet::PubComp(a) => ack_remaining_length(a.reason_code.spec_code(), a.properties@) + 12,
        Packet::Subscribe(a) => subscribe_remaining_length(a.spec_entries(), a.properties@) + 12,
        Packet::SubAck(a) => suback_remaining_length(a.payload@, a.properties@) + 12,
        Packet::UnSubscribe(a) => unsubscribe_remaining_length(a.spec_entries(), a.properties@) + 12,
        Packet::UnSubAck(a) => unsuback_remaining_length(a.payload@, a.properties@) + 12,
        Packet::PingReq(_) => 2,
        Packet::PingResp(_) => 2,
        Packet::Disconnect(d) => disconnect_remaining_length(d.reason_code.spec_code(), d.properties@) + 12,
        Packet::Auth(a) => auth_remaining_length(a.reason_code.spec_code(), a.properties@) + 12,
    }
}

/// `r` is what reading the body `b` of a packet with fixed header `h` gives:
/// the packet that the parse of its type gives, or its error.
pub open spec fn body_read(r: Result<Packet, MQTTError>, b: Seq<u8>, h: FixedHeader) -> bool {
    match h.packet_type {
        PacketType::Connect => match (r, parse_connect(b)) {
            (Ok(Packet::Connect(c)), (Ok(v), k)) => c@ == v,
            (Err(e), (Err(f), k)) => e == f,
            _ => false,
        },
        PacketType::ConnAck => match (r, parse_connack(b)) {
            (Ok(Packet::ConnAck(c)), (Ok((sp, rc, pv)), k)) => c.session_present == sp && c.reason == rc
                && c.properties@ == pv,
            (Err(e), (Err(f), k)) => e == f,
            _ => false,
        },
        PacketType::Publish => match (r, parse_publish(b, flag_bits(h.flags))) {
            (Ok(Packet::Publish(q)), (Ok(v), k)) => q@ == v,
            (Err(e), (Err(f), k)) => e == f,
            _ => false,
        },
        PacketType::PubAck => match (r, parse_ack(b, h.remaining_length, |x: u8| valid_pub_ack_code(x))) {
            (Ok(Packet::PubAck(a)), (Ok((pkid, rc, pv)), k)) => a.pkid == pkid && a.reason_code.spec_code() == rc
                && a.properties@ == pv,
            (Err(e), (Err(f), k)) => e == f,
            _ => false,
        },
        PacketType::PubRec => match (r, parse_ack(b, h.remaining_length, |x: u8| valid_pub_ack_code(x))) {
            (Ok(Packet::PubRec(a)), (Ok((pkid, rc, pv)), k)) => a.pkid == pkid && a.reason_code.spec_code() == rc
                && a.properties@ == pv,
            (Err(e), (Err(f), k)) => e == f,
            _ => false,
        },
        PacketType::PubRel => match (r, parse_ack(b, h.remaining_length, |x: u8| valid_pub_rel_code(x))) {
            (Ok(Packet::PubRel(a)), (Ok((pkid, rc, pv)), k)) => a.pkid == pkid && a.reason_code.spec_code() == rc
                && a.properties@ == pv,
            (Err(e), (Err(f), k)) => e == f,
            _ => false,
        },
        PacketType::PubComp => match (r, parse_ack(b, h.remaining_length, |x: u8| valid_pub_rel_code(x))) {
            (Ok(Packet::PubComp(a)), (Ok((pkid, rc, pv)), k)) => a.pkid == pkid && a.reason_code.spec_code() == rc
                && a.properties@ == pv,
            (Err(e), (Err(f), k)) => e == f,
            _ => false,
        },
        PacketType::Subscribe => match (r, parse_subscribe(b)) {
            (Ok(Packet::Subscribe(a)), (Ok((pkid, pv, es)), k)) => a.packet_identifier == pkid && a.properties@ == pv
                && a.spec_entries() == es,
            (Err(e), (Err(f), k)) => e == f,
            _ => false,
        },
        PacketType::SubAck => match (r, parse_suback(b)) {
            (Ok(Packet::SubAck(a)), (Ok((pkid, pv, cs)), k)) => a.packet_identifier == pkid && a.properties@ == pv
                && a.payload@ == cs,
            (Err(e), (Err(f), k)) => e == f,
            _ => false,
        },
        PacketType::UnSubscribe => match (r, parse_unsubscribe(b)) {
            (Ok(Packet::UnSubscribe(a)), (Ok((pkid, pv, es)), k)) => a.packet_identifier == pkid && a.properties@
                == pv && a.spec_entries() == es,
            (Err(e), (Err(f), k)) => e == f,
            _ => false,
        },
        PacketType::UnSubAck => match (r, parse_unsuback(b)) {
            (Ok(Packet::UnSubAck(a)), (Ok((pkid, pv, cs)), k)) => a.packet_identifier == pkid && a.properties@ == pv
                && a.payload@ == cs,
            (Err(e), (Err(f), k)) => e == f,
            _ => false,
        },
        PacketType::PingReq => r == Ok::<Packet, MQTTError>(Packet::PingReq(PingReq {})),
        PacketType::PingResp => r == Ok::<Packet, MQTTError>(Packet::PingResp(PingResp {})),
        PacketType::Disconnect => match (r, parse_disconnect(b)) {
            (Ok(Packet::Disconnect(d)), (Ok((rc, pv)), k)) => d.reason_code == rc && d.properties@ == pv
               ,
            (Err(e), (Err(f), k)) => e == f,
            _ => false,
        },
        PacketType::Auth => match (r, parse_auth(b)) {
            (Ok(Packet::Auth(a)), (Ok((rc, pv)), k)) => a.reason_code == rc && a.properties@ == pv
               ,
            (Err(e), (Err(f), k)) => e == f,
            _ => false,
        },
    }
}

/// What reading a packet from `s` gives (`r`, with `rest` left): its fixed
/// header, then a body of exactly Remaining Length bytes, read by its type;
/// the bytes after the body are left for the next packet. Input that stops
/// before the end of the body is `IncompletePacket`.
pub open spec fn packet_read(r: Result<Packet, MQTTError>, s: Seq<u8>, rest: Seq<u8>) -> bool {
    match parse_fixed_header(s) {
        (Err(e), n) => r == Err::<Packet, MQTTError>(e) && rest == s.skip(n as int),
        (Ok(h), n) => if s.len() - n < h.remaining_length {
            r == Err::<Packet, MQTTError>(MQTTError::IncompletePacket) && rest == s.skip(n as int)
        } else {
            &&& body_read(r, s.skip(n as int).take(h.remaining_length as int), h)
            &&& rest == s.skip(n + h.remaining_length)
        },
    }
}

impl Packet {
    /// Writes the packet, by its type.
    pub fn write(&self, buf: &mut BytesMut) -> (r: Result<(), MQTTError>)
        requires
            bytes_mut_view(*old(buf)).len() + packet_write_bound(*self) <= isize::MAX,
        ensures
            r == spec_write_packet(*self).0,
            bytes_mut_view(*final(buf)) == bytes_mut_view(*old(buf)) + spec_write_packet(*self).1,
    {
        match self {
            Packet::Connect(p) => p.write(buf),
            Packet::ConnAck(p) => p.write(buf),
            Packet::Publish(p) => p.write(buf),
            Packet::PubAck(p) => p.write(buf),
            Packet::PubRec(p) => p.write(buf),
            Packet::PubRel(p) => p.write(buf),
            Packet::PubComp(p) => p.write(buf),
            Packet::Subscribe(p) => p.write(buf),
            Packet::SubAck(p) => p.write(buf),
            Packet::UnSubscribe(p) => p.write(buf),
            Packet::UnSubAck(p) => p.write(buf),
            Packet::PingReq(p) => p.write(buf),
            Packet::PingResp(p) => p.write(buf),
            Packet::Disconnect(p) => p.write(buf),
            Packet::Auth(p) => p.write(buf),
        }
    }

    /// Reads a fixed header, then the body of a packet of its type.
    #[verifier::spinoff_prover]
    pub fn read(buf: &mut Bytes) -> (r: Result<Packet, MQTTError>)
        ensures
            packet_read(r, bytes_view(*old(buf)), bytes_view(*final(buf))),
    {
        let ghost s0 = bytes_view(*buf);
        let header = match FixedHeader::read(buf) {
            Ok(h) => h,
            Err(e) => return Err(e),
        };
        if header.remaining_length > bytes_len(buf) {
            return Err(MQTTError::IncompletePacket);
        }
        let ghost after_header = bytes_view(*buf);
        let mut body = bytes_split_to(buf, header.remaining_length);
        proof {
            let n = parse_fixed_header(s0).1;
            crate::varint::lemma_parse_varint_len(s0.skip(1));
            assert(n <= s0.len());
            assert(after_header =~= s0.skip(n as int));
            assert(bytes_view(*buf) == after_header.skip(header.remaining_length as int));
            assert(after_header.skip(header.remaining_length as int) =~= s0.skip(n + header.remaining_length));
        }
        match header.packet_type {
            PacketType::Connect => match Connect::read(&mut body) {
                Ok(p) => Ok(Packet::Connect(p)),
                Err(e) => Err(e),
            },
            PacketType::ConnAck => match ConnAck::read(&mut body) {
                Ok(p) => Ok(Packet::ConnAck(p)),
                Err(e) => Err(e),
            },
            PacketType::Publish => match Publish::read_with_fixedheader(&mut body, header) {
                Ok(p) => Ok(Packet::Publish(p)),
                Err(e) => Err(e),
            },
            PacketType::PubAck => match PubAck::read_with_fixedheader(&mut body, header) {
                Ok(p) => Ok(Packet::PubAck(p)),
                Err(e) => Err(e),
            },
            PacketType::PubRec => match PubRec::read_with_fixedheader(&mut body, header) {
                Ok(p) => Ok(Packet::PubRec(p)),
                Err(e) => Err(e),
            },
            PacketType::PubRel => match PubRel::read_with_fixedheader(&mut body, header) {
                Ok(p) => Ok(Packet::PubRel(p)),
                Err(e) => Err(e),
            },
            PacketType::PubComp => match PubComp::read_with_fixedheader(&mut body, header) {
                Ok(p) => Ok(Packet::PubComp(p)),
                Err(e) => Err(e),
            },
            PacketType::Subscribe => match Subscribe::read(&mut body) {
                Ok(p) => Ok(Packet::Subscribe(p)),
                Err(e) => Err(e),
            },
            PacketType::SubAck => match SubAck::read(&mut body) {
                Ok(p) => Ok(Packet::SubAck(p)),
                Err(e) => Err(e),
            },
            PacketType::UnSubscribe => match UnSubscribe::read(&mut body) {
                Ok(p) => Ok(Packet::UnSubscribe(p)),
                Err(e) => Err(e),
            },
            PacketType::UnSubAck => match UnSubAck::read(&mut body) {
                Ok(p) => Ok(Packet::UnSubAck(p)),
                Err(e) => Err(e),
            },
            PacketType::PingReq => match PingReq::read(&mut body) {
                Ok(p) => Ok(Packet::PingReq(p)),
                Err(e) => Err(e),
            },
            PacketType::PingResp => match PingResp::read(&mut body) {
                Ok(p) => Ok(Packet::PingResp(p)),
                Err(e) => Err(e),
            },
            PacketType::Disconnect => match Disconnect::read(&mut body) {
                Ok(p) => Ok(Packet::Disconnect(p)),
                Err(e) => Err(e),
            },
            PacketType::Auth => match Auth::read(&mut body) {
                Ok(p) => Ok(Packet::Auth(p)),
                Err(e) => Err(e),
            },
        }
    }
}

/// An acknowledgement goes out with its MQTT 5 first byte, whatever its
/// identifier, reason code and properties: PUBACK 0x40, PUBREC 0x50, PUBREL
/// 0x62 (type 6 with the flags 0010 that PUBREL must carry), PUBCOMP 0x70;
/// PINGREQ and PINGRESP are 0xC0 0x00 and 0xD0 0x00.
pub proof fn lemma_acknowledgement_first_byte(p: Packet)
    ensures
        p is PubAck ==> spec_write_packet(p).1.len() > 0 && spec_write_packet(p).1[0] == 0x40u8,
        p is PubRec ==> spec_write_packet(p).1.len() > 0 && spec_write_packet(p).1[0] == 0x50u8,
        p is PubRel ==> spec_write_packet(p).1.len() > 0 && spec_write_packet(p).1[0] == 0x62u8,
        p is PubComp ==> spec_write_packet(p).1.len() > 0 && spec_write_packet(p).1[0] == 0x70u8,
        p is PingReq ==> spec_write_packet(p).1 == seq![0xC0u8, 0x00u8],
        p is PingResp ==> spec_write_packet(p).1 == seq![0xD0u8, 0x00u8],
{
    assert(0x40u8 | 0u8 == 0x40u8) by (bit_vector);
    assert(0x50u8 | 0u8 == 0x50u8) by (bit_vector);
    assert(0x60u8 | 2u8 == 0x62u8) by (bit_vector);
    assert(0x70u8 | 0u8 == 0x70u8) by (bit_vector);
    match p {
        Packet::PubAck(a) => {
            let h = ack_header(PacketType::PubAck, 0u8, a.reason_code.spec_code(), a.properties@);
            assert(spec_header_bytes(h)[0] == spec_first_byte(h));
        },
        Packet::PubRec(a) => {
            let h = ack_header(PacketType::PubRec, 0u8, a.reason_code.spec_code(), a.properties@);
            assert(spec_header_bytes(h)[0] == spec_first_byte(h));
        },
        Packet::PubRel(a) => {
            let h = ack_header(PacketType::PubRel, 2u8, a.reason_code.spec_code(), a.properties@);
            assert(spec_header_bytes(h)[0] == spec_first_byte(h));
        },
        Packet::PubComp(a) => {
            let h = ack_header(PacketType::PubComp, 0u8, a.reason_code.spec_code(), a.properties@);
            assert(spec_header_bytes(h)[0] == spec_first_byte(h));
        },
        _ => {},
    }
}

/// Every packet goes out with its MQTT 5 first byte (section 2.1.2): its
/// control packet type number in the high four bits, and in the low four
/// the flags the type fixes (0010 for PUBREL, SUBSCRIBE and UNSUBSCRIBE, 0000
/// for the others but PUBLISH), or, for PUBLISH, DUP (bit 3), QoS (bits 2-1)
/// and RETAIN (bit 0).
#[verifier::spinoff_prover]
#[verifier::rlimit(60)]
pub proof fn lemma_first_byte(p: Packet)
    ensures
        spec_write_packet(p).1.len() > 0 ==> spec_write_packet(p).1[0] == match p {
            Packet::Connect(_) => 0x10u8,
            Packet::ConnAck(_) => 0x20u8,
            Packet::Publish(q) => (0x30 + (if q.dup {
                8int
            } else {
                0int
            }) + 2 * q.qos.spec_code() + (if q.retain {
                1int
            } else {
                0int
            })) as u8,
            Packet::PubAck(_) => 0x40u8,
            Packet::PubRec(_) => 0x50u8,
            Packet::PubRel(_) => 0x62u8,
            Packet::PubComp(_) => 0x70u8,
            Packet::Subscribe(_) => 0x82u8,
            Packet::SubAck(_) => 0x90u8,
            Packet::UnSubscribe(_) => 0xA2u8,
            Packet::UnSubAck(_) => 0xB0u8,
            Packet::PingReq(_) => 0xC0u8,
            Packet::PingResp(_) => 0xD0u8,
            Packet::Disconnect(_) => 0xE0u8,
            Packet::Auth(_) => 0xF0u8,
        },
{
    lemma_acknowledgement_first_byte(p);
    assert(0x10u8 | 0u8 == 0x10u8) by (bit_vector);
    assert(0x20u8 | 0u8 == 0x20u8) by (bit_vector);
    assert(0x80u8 | 2u8 == 0x82u8) by (bit_vector);
    assert(0x90u8 | 0u8 == 0x90u8) by (bit_vector);
    assert(0xA0u8 | 2u8 == 0xA2u8) by (bit_vector);
    assert(0xB0u8 | 0u8 == 0xB0u8) by (bit_vector);
    assert(0xE0u8 | 0u8 == 0xE0u8) by (bit_vector);
    assert(0xF0u8 | 0u8 == 0xF0u8) by (bit_vector);
    match p {
        Packet::Connect(c) => {
            reveal(spec_write_connect);
            let h = connect_header(c@);
            assert(spec_header_bytes(h)[0] == spec_first_byte(h));
        },
        Packet::ConnAck(a) => {
            let h = connack_header(a.properties@);
            assert(spec_header_bytes(h)[0] == spec_first_byte(h));
        },
        Packet::Publish(q) => {
            reveal(spec_write_publish);
            let v = q@;
            let h = publish_header(v);
            lemma_publish_flags(v.dup, v.qos, v.retain);
            let f = publish_flags(v.dup, v.qos, v.retain);
            assert(0x30u8 | f == (0x30 + f) as u8) by (bit_vector)
                requires
                    f < 16,
            ;
            assert(flag_bits(h.flags) == f);
            assert(spec_header_bytes(h)[0] == spec_first_byte(h));
        },
        Packet::Subscribe(a) => {
            let h = subscribe_header(a.spec_entries(), a.properties@);
            assert(spec_header_bytes(h)[0] == spec_first_byte(h));
        },
        Packet::SubAck(a) => {
            let h = suback_header(a.payload@, a.properties@);
            assert(spec_header_bytes(h)[0] == spec_first_byte(h));
        },
        Packet::UnSubscribe(a) => {
            let h = unsubscribe_header(a.spec_entries(), a.properties@);
            assert(spec_header_bytes(h)[0] == spec_first_byte(h));
        },
        Packet::UnSubAck(a) => {
            let h = unsuback_header(a.payload@, a.properties@);
            assert(spec_header_bytes(h)[0] == spec_first_byte(h));
        },
        Packet::Disconnect(d) => {
            let h = disconnect_header(d.reason_code.spec_code(), d.properties@);
            assert(spec_header_bytes(h)[0] == spec_first_byte(h));
        },
        Packet::Auth(a) => {
            let h = auth_header(a.reason_code.spec_code(), a.properties@);
            assert(spec_header_bytes(h)[0] == spec_first_byte(h));
        },
        _ => {},
    }
}

/// A packet read is the one whose control packet type number stands in the
/// high four bits of the first byte: 1 CONNECT, 2 CONNACK, 3 PUBLISH, 4
/// PUBACK, 5 PUBREC, 6 PUBREL, 7 PUBCOMP, 8 SUBSCRIBE, 9 SUBACK, 10
/// UNSUBSCRIBE, 11 UNSUBACK, 12 PINGREQ, 13 PINGRESP, 14 DISCONNECT, 15 AUTH.
#[verifier::spinoff_prover]
#[verifier::rlimit(60)]
pub proof fn lemma_read_packet_type(r: Result<Packet, MQTTError>, s: Seq<u8>, rest: Seq<u8>)
    requires
        packet_read(r, s, rest),
        r is Ok,
    ensures
        s.len() >= 2,
        s[0] / 16 == match r->Ok_0 {
            Packet::Connect(_) => 1int,
            Packet::ConnAck(_) => 2,
            Packet::Publish(_) => 3,
            Packet::PubAck(_) => 4,
            Packet::PubRec(_) => 5,
            Packet::PubRel(_) => 6,
            Packet::PubComp(_) => 7,
            Packet::Subscribe(_) => 8,
            Packet::SubAck(_) => 9,
            Packet::UnSubscribe(_) => 10,
            Packet::UnSubAck(_) => 11,
            Packet::PingReq(_) => 12,
            Packet::PingResp(_) => 13,
            Packet::Disconnect(_) => 14,
            Packet::Auth(_) => 15,
        },
{
    let b = s[0];
    let c = b & 0xF0u8;
    crate::packet_type::lemma_type_numbers(c);
    assert(c / 16 == b / 16) by (bit_vector)
        requires
            c == b & 0xF0u8,
    ;
}

} // verus!
