//! CONNACK (section 3.2): the Connect Acknowledge Flags (bit 0 Session
//! Present, the other bits reserved), a reason code and properties.
use bytes::{Bytes, BytesMut};
use vstd::prelude::*;

use crate::buffer::{bytes_mut_view, bytes_view};
use crate::codec::{parse_u8, read_u8, write_u8, Parsed};
use crate::error::MQTTError;
use crate::fixed_header::{
    header_fits, lemma_fixed_header_roundtrip, parse_fixed_header, spec_first_byte,
    spec_header_bytes, FixedHeader,
};
use crate::packet::connack_properties::{ConnAckProperties, ConnAckPropertiesV};
use crate::packet_type::PacketType;
use crate::properties::{
    entries_fit, entries_size, lemma_parse_properties_len, lemma_write_properties_len,
    parse_properties, spec_write_properties, PropertySet,
};
use crate::reason_code::ConnAckReasonCode;
use crate::varint::{lemma_varint_len, spec_variable_length, variable_length, varint, VARINT_MAX};

verus! {

#[derive(Debug, Clone, PartialEq, Eq)]
pub struct ConnAck {
    pub session_present: bool,
    pub reason: ConnAckReasonCode,
    pub properties: ConnAckProperties,
}

/// The Remaining Length: the flags, the reason code and the property list.
pub open spec fn connack_remaining_length(props: ConnAckPropertiesV) -> nat {
    let pl = entries_size(ConnAckProperties::spec_entries(props));
    2 + pl + spec_variable_length(pl)
}

pub open spec fn connack_header(props: ConnAckPropertiesV) -> FixedHeader {
    FixedHeader {
        packet_type: PacketType::ConnAck,
        flags: None,
        remaining_length: connack_remaining_length(props) as usize,
        header_len: 0,
    }
}

/// What writing a CONNACK gives: the outcome and the bytes.
pub open spec fn spec_write_connack(session_present: bool, rc: u8, props: ConnAckPropertiesV) -> (
    Result<(), MQTTError>,
    Seq<u8>,
) {
    let h = connack_header(props);
    if connack_remaining_length(props) > VARINT_MAX {
        (Err(MQTTError::PayloadTooLong), seq![spec_first_byte(h)])
    } else {
        let w = spec_write_properties(ConnAckProperties::spec_entries(props));
        (
            w.0,
            spec_header_bytes(h) + seq![
                if session_present {
                    1u8
                } else {
                    0u8
                },
                rc,
            ] + w.1,
        )
    }
}

/// Reading the body of a CONNACK: the flags (a reserved bit set is
/// `MalformedPacket`), the reason code (an unknown one is `UnknownData`),
/// the properties.
pub open spec fn parse_connack(s: Seq<u8>) -> Parsed<(bool, ConnAckReasonCode, ConnAckPropertiesV)> {
    match parse_u8(s) {
        (Err(e), n) => (Err(e), n),
        (Ok(f), _) => if f / 2 != 0 {
            (Err(MQTTError::MalformedPacket), 1)
        } else {
            match parse_u8(s.skip(1)) {
                (Err(e), n) => (Err(e), 1 + n),
                (Ok(b), _) => match ConnAckReasonCode::spec_from_code(b) {
                    None => (Err(MQTTError::UnknownData(b as u16)), 2),
                    Some(rc) => match parse_properties::<ConnAckProperties>(s.skip(2), "") {
                        (Err(e), k) => (Err(e), 2 + k),
                        (Ok(p), k) => (Ok((f == 1, rc, p)), 2 + k),
                    },
                },
            }
        },
    }
}

/// Reading a CONNACK body (MQTT 5 section 3.2.2): the first byte holds only
/// Session Present, in bit 0, and any other bit set is `MalformedPacket`;
/// the second byte is the reason code.
pub proof fn lemma_connack_body_layout(s: Seq<u8>)
    ensures
        s.len() >= 1 && s[0] >= 2 ==> parse_connack(s).0 == Err::<(bool, ConnAckReasonCode, ConnAckPropertiesV), MQTTError>(
            MQTTError::MalformedPacket,
        ),
        parse_connack(s).0 matches Ok((sp, rc, _)) ==> s.len() >= 2 && s[0] <= 1 && sp == (s[0] == 1)
            && rc.spec_code() == s[1],
{
    if parse_connack(s).0 is Ok {
        ConnAckReasonCode::lemma_code_roundtrip(ConnAckReasonCode::spec_from_code(s[1]).unwrap());
        crate::reason_code::lemma_conn_ack_reason_code_numbers(s[1]);
    }
}

/// A CONNACK goes out as its fixed header, then (MQTT 5 section 3.2.2) the
/// acknowledge flags (1 when a session is present, else 0), the reason code,
/// and the properties.
pub proof fn lemma_connack_layout(session_present: bool, rc: u8, props: ConnAckPropertiesV)
    requires
        spec_write_connack(session_present, rc, props).0 is Ok,
    ensures
        ({
            let b = spec_write_connack(session_present, rc, props).1;
            let hn = 1 + varint(connack_remaining_length(props)).len();
            &&& b.take(hn as int) == spec_header_bytes(connack_header(props))
            &&& b.skip(hn as int) == seq![if session_present { 1u8 } else { 0u8 }, rc] + spec_write_properties(
                ConnAckProperties::spec_entries(props),
            ).1
        }),
{
    let b = spec_write_connack(session_present, rc, props).1;
    let h = connack_header(props);
    let hn = 1 + varint(connack_remaining_length(props)).len();
    assert(spec_header_bytes(h).len() == hn);
    assert(b.take(hn as int) =~= spec_header_bytes(h));
    assert(b.skip(hn as int) =~= seq![if session_present { 1u8 } else { 0u8 }, rc] + spec_write_properties(
        ConnAckProperties::spec_entries(props),
    ).1);
}

impl ConnAck {
    /// The Remaining Length.
    pub fn length(&self) -> (r: usize)
        requires
            connack_remaining_length(self.properties@) <= usize::MAX,
        ensures
            r == connack_remaining_length(self.properties@),
    {
        let pl = self.properties.length();
        2 + pl + variable_length(pl)
    }

    /// Writes the fixed header, the flags, the reason code and the properties.
    pub fn write(&self, buf: &mut BytesMut) -> (r: Result<(), MQTTError>)
        requires
            bytes_mut_view(*old(buf)).len() + connack_remaining_length(self.properties@) + 12 <= isize::MAX,
        ensures
            r == spec_write_connack(self.session_present, self.reason.spec_code(), self.properties@).0,
            bytes_mut_view(*final(buf)) == bytes_mut_view(*old(buf)) + spec_write_connack(
                self.session_present,
                self.reason.spec_code(),
                self.properties@,
            ).1,
    {
        let ghost start = bytes_mut_view(*buf);
        let len = self.length();
        proof {
            if len <= VARINT_MAX {
                lemma_varint_len(len as nat);
            }
        }
        if let Err(e) = FixedHeader::new(PacketType::ConnAck, 0, len).write(buf) {
            return Err(e);
        }
        write_u8(buf, if self.session_present {
            1
        } else {
            0
        });
        write_u8(buf, self.reason.code());
        let r = self.properties.write(buf);
        assert(bytes_mut_view(*buf) =~= start + spec_write_connack(
            self.session_present,
            self.reason.spec_code(),
            self.properties@,
        ).1);
        r
    }

    /// Reads the body of a CONNACK (after its fixed header).
    pub fn read(buf: &mut Bytes) -> (r: Result<Self, MQTTError>)
        ensures
            match (r, parse_connack(bytes_view(*old(buf))).0) {
                (Ok(p), Ok((sp, rc, pv))) => p.session_present == sp && p.reason == rc && p.properties@ == pv,
                (Err(e), Err(f)) => e == f,
                _ => false,
            },
            bytes_view(*final(buf)) == bytes_view(*old(buf)).skip(parse_connack(bytes_view(*old(buf))).1 as int),
    {
        let ghost s = bytes_view(*buf);
        let f = match read_u8(buf) {
            Ok(f) => f,
            Err(e) => return Err(e),
        };
        if f / 2 != 0 {
            return Err(MQTTError::MalformedPacket);
        }
        let ghost s1 = bytes_view(*buf);
        let b = match read_u8(buf) {
            Ok(b) => b,
            Err(e) => {
                assert(bytes_view(*buf) =~= s.skip((1 + parse_u8(s1).1) as int));
                return Err(e);
            },
        };
        assert(bytes_view(*buf) =~= s.skip(2));
        let reason = match ConnAckReasonCode::from_code(b) {
            Some(rc) => rc,
            None => return Err(MQTTError::UnknownData(b as u16)),
        };
        let ghost s2 = bytes_view(*buf);
        proof {
            lemma_parse_properties_len::<ConnAckProperties>(s2, "");
        }
        let properties = match ConnAckProperties::read(buf) {
            Ok(p) => p,
            Err(e) => {
                assert(bytes_view(*buf) =~= s.skip((2 + parse_properties::<ConnAckProperties>(s2, "").1) as int));
                return Err(e);
            },
        };
        assert(bytes_view(*buf) =~= s.skip((2 + parse_properties::<ConnAckProperties>(s2, "").1) as int));
        Ok(ConnAck { session_present: f == 1, reason, properties })
    }

    /// Reading a written CONNACK gives it back: its fixed header, then its
    /// body, which takes every byte after the header.
    #[verifier::spinoff_prover]
    pub proof fn lemma_write_read(session_present: bool, reason: ConnAckReasonCode, props: ConnAckPropertiesV)
        requires
            entries_fit(ConnAckProperties::spec_entries(props)),
            entries_size(ConnAckProperties::spec_entries(props)) <= VARINT_MAX,
            connack_remaining_length(props) <= VARINT_MAX,
        ensures
            ({
                let (r, b) = spec_write_connack(session_present, reason.spec_code(), props);
                let rl = connack_remaining_length(props);
                let hn = 1 + varint(rl).len();
                &&& r == Ok::<(), MQTTError>(())
                &&& parse_fixed_header(b) == (Ok::<FixedHeader, MQTTError>(
                    FixedHeader { header_len: varint(rl).len() as usize, ..connack_header(props) },
                ), hn)
                &&& b.len() == hn + rl
                &&& parse_connack(b.skip(hn as int)) == (Ok::<
                    (bool, ConnAckReasonCode, ConnAckPropertiesV),
                    MQTTError,
                >((session_present, reason, props)), rl)
            }),
    {
        let h = connack_header(props);
        let rl = connack_remaining_length(props);
        let ps = ConnAckProperties::spec_entries(props);
        let w = spec_write_properties(ps).1;
        let fb: u8 = if session_present {
            1
        } else {
            0
        };
        lemma_varint_len(rl);
        lemma_varint_len(entries_size(ps));
        ConnAckProperties::lemma_write_read(props, Seq::empty());
        lemma_write_properties_len(ps);
        ConnAckReasonCode::lemma_code_roundtrip(reason);
        assert(header_fits(h));
        let body = seq![fb, reason.spec_code()] + w;
        assert(spec_write_connack(session_present, reason.spec_code(), props).1 =~= spec_header_bytes(h) + body);
        lemma_fixed_header_roundtrip(h, body);
        let hn = 1 + varint(rl).len();
        assert(spec_write_connack(session_present, reason.spec_code(), props).1.skip(hn as int) =~= body);
        assert(body.skip(1)[0] == reason.spec_code());
        assert(body.skip(2) =~= w + Seq::<u8>::empty());
    }
}

impl Default for ConnAck {
    fn default() -> (r: Self)
        ensures
            !r.session_present,
            r.reason == ConnAckReasonCode::Success,
            r.properties@ == ConnAckProperties::spec_empty(),
    {
        ConnAck { session_present: false, reason: ConnAckReasonCode::Success, properties: ConnAckProperties::empty() }
    }
}

} // verus!
