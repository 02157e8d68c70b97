//! DISCONNECT (section 3.14): a reason code and properties. The reason code
//! is always written; the Remaining Length is 0 when the code is a normal
//! disconnection with no properties, and the properties are then left out.
use bytes::{Bytes, BytesMut};
use vstd::prelude::*;

use crate::buffer::{bytes_len, bytes_mut_view, bytes_view};
use crate::codec::{parse_u8, read_u8, write_u8, Parsed};
use crate::error::MQTTError;
use crate::fixed_header::{
    header_fits, lemma_fixed_header_roundtrip, parse_fixed_header, spec_first_byte,
    spec_header_bytes, FixedHeader,
};
use crate::packet::disconnect_properties::{DisconnectProperties, DisconnectPropertiesV};
use crate::packet_type::PacketType;
use crate::properties::{
    entries_fit, entries_size, lemma_parse_properties_len, lemma_write_properties_len,
    parse_properties, spec_write_properties, PropertySet,
};
use crate::reason_code::DisconnectReasonCode;
use crate::varint::{lemma_varint_len, spec_variable_length, variable_length, varint, VARINT_MAX};

verus! {

#[derive(Debug, Clone, PartialEq, Eq)]
pub struct Disconnect {
    pub reason_code: DisconnectReasonCode,
    pub properties: DisconnectProperties,
}

/// The Remaining Length: 0 for a normal disconnection with no properties,
/// else the code byte and the property list.
pub open spec fn disconnect_remaining_length(rc: u8, props: DisconnectPropertiesV) -> nat {
    let pl = entries_size(DisconnectProperties::spec_entries(props));
    if rc == 0 && pl == 0 {
        0
    } else {
        pl + spec_variable_length(pl) + 1
    }
}

pub open spec fn disconnect_header(rc: u8, props: DisconnectPropertiesV) -> FixedHeader {
    FixedHeader {
        packet_type: PacketType::Disconnect,
        flags: None,
        remaining_length: disconnect_remaining_length(rc, props) as usize,
        header_len: 0,
    }
}

/// What writing a DISCONNECT gives: the outcome and the bytes.
pub open spec fn spec_write_disconnect(rc: u8, props: DisconnectPropertiesV) -> (Result<(), MQTTError>, Seq<u8>) {
    let h = disconnect_header(rc, props);
    let pl = entries_size(DisconnectProperties::spec_entries(props));
    if disconnect_remaining_length(rc, props) > VARINT_MAX {
        (Err(MQTTError::PayloadTooLong), seq![spec_first_byte(h)])
    } else if rc == 0 && pl == 0 {
        (Ok(()), spec_header_bytes(h).push(rc))
    } else {
        let w = spec_write_properties(DisconnectProperties::spec_entries(props));
        (w.0, spec_header_bytes(h).push(rc) + w.1)
    }
}

/// Reading the body of a DISCONNECT: a reason code, then, if any byte is
/// left, the properties.
pub open spec fn parse_disconnect(s: Seq<u8>) -> Parsed<(DisconnectReasonCode, DisconnectPropertiesV)> {
    match parse_u8(s) {
        (Err(e), n) => (Err(e), n),
        (Ok(b), _) => match DisconnectReasonCode::spec_from_code(b) {
            None => (Err(MQTTError::UnknownData(b as u16)), 1),
            Some(rc) => if s.len() > 1 {
                match parse_properties::<DisconnectProperties>(s.skip(1), "") {
                    (Err(e), m) => (Err(e), 1 + m),
                    (Ok(p), m) => (Ok((rc, p)), 1 + m),
                }
            } else {
                (Ok((rc, DisconnectProperties::spec_empty())), 1)
            },
        },
    }
}

impl Disconnect {
    /// The Remaining Length.
    pub fn length(&self) -> (r: usize)
        requires
            disconnect_remaining_length(self.reason_code.spec_code(), self.properties@) <= isize::MAX,
        ensures
            r == disconnect_remaining_length(self.reason_code.spec_code(), self.properties@),
    {
        let pl = self.properties.length();
        if self.reason_code.code() == 0 && pl == 0 {
            0
        } else {
            pl + variable_length(pl) + 1
        }
    }

    /// Writes the fixed header and the reason code, then (unless it is a
    /// normal disconnection with no properties) the properties.
    pub fn write(&self, buf: &mut BytesMut) -> (r: Result<(), MQTTError>)
        requires
            bytes_mut_view(*old(buf)).len() + disconnect_remaining_length(
                self.reason_code.spec_code(),
                self.properties@,
            ) + 12 <= isize::MAX,
        ensures
            r == spec_write_disconnect(self.reason_code.spec_code(), self.properties@).0,
            bytes_mut_view(*final(buf)) == bytes_mut_view(*old(buf)) + spec_write_disconnect(
                self.reason_code.spec_code(),
                self.properties@,
            ).1,
    {
        let ghost start = bytes_mut_view(*buf);
        let len = self.length();
        proof {
            if len <= VARINT_MAX {
                lemma_varint_len(len as nat);
            }
        }
        if let Err(e) = FixedHeader::new(PacketType::Disconnect, 0, len).write(buf) {
            return Err(e);
        }
        let rc = self.reason_code.code();
        write_u8(buf, rc);
        if rc == 0 && self.properties.length() == 0 {
            return Ok(());
        }
        let r = self.properties.write(buf);
        assert(bytes_mut_view(*buf) =~= start + spec_write_disconnect(rc, self.properties@).1);
        r
    }

    /// Reads the body of a DISCONNECT (after its fixed header).
    pub fn read(buf: &mut Bytes) -> (r: Result<Self, MQTTError>)
        ensures
            match (r, parse_disconnect(bytes_view(*old(buf))).0) {
                (Ok(p), Ok((rc, pv))) => p.reason_code == rc && p.properties@ == pv,
                (Err(e), Err(f)) => e == f,
                _ => false,
            },
            bytes_view(*final(buf)) == bytes_view(*old(buf)).skip(
                parse_disconnect(bytes_view(*old(buf))).1 as int,
            ),
    {
        let ghost s = bytes_view(*buf);
        let b = match read_u8(buf) {
            Ok(b) => b,
            Err(e) => return Err(e),
        };
        let reason_code = match DisconnectReasonCode::from_code(b) {
            Some(c) => c,
            None => return Err(MQTTError::UnknownData(b as u16)),
        };
        if bytes_len(buf) > 0 {
            let ghost s1 = bytes_view(*buf);
            proof {
                lemma_parse_properties_len::<DisconnectProperties>(s1, "");
            }
            let properties = match DisconnectProperties::read(buf) {
                Ok(p) => p,
                Err(e) => {
                    assert(bytes_view(*buf) =~= s.skip(
                        1 + parse_properties::<DisconnectProperties>(s1, "").1 as int,
                    ));
                    return Err(e);
                },
            };
            assert(bytes_view(*buf) =~= s.skip(
                1 + parse_properties::<DisconnectProperties>(s1, "").1 as int,
            ));
            Ok(Disconnect { reason_code, properties })
        } else {
            Ok(Disconnect { reason_code, properties: DisconnectProperties::empty() })
        }
    }

    /// Reading a written DISCONNECT (the whole of the input) gives back its
    /// reason code and properties, and takes every byte after the fixed header.
    pub proof fn lemma_write_read(rc: DisconnectReasonCode, props: DisconnectPropertiesV)
        requires
            entries_fit(DisconnectProperties::spec_entries(props)),
            entries_size(DisconnectProperties::spec_entries(props)) <= VARINT_MAX,
            disconnect_remaining_length(rc.spec_code(), props) <= VARINT_MAX,
        ensures
            ({
                let (r, b) = spec_write_disconnect(rc.spec_code(), props);
                let rl = disconnect_remaining_length(rc.spec_code(), props);
                &&& r == Ok::<(), MQTTError>(())
                &&& parse_fixed_header(b) == (Ok::<FixedHeader, MQTTError>(
                    FixedHeader { header_len: varint(rl).len() as usize, ..disconnect_header(rc.spec_code(), props) },
                ), 1 + varint(rl).len())
                &&& parse_disconnect(b.skip(1 + varint(rl).len() as int)) == (Ok::<
                    (DisconnectReasonCode, DisconnectPropertiesV),
                    MQTTError,
                >((rc, props)), (b.len() - 1 - varint(rl).len()) as nat)
            }),
    {
        let code = rc.spec_code();
        DisconnectReasonCode::lemma_code_roundtrip(rc);
        let (r, b) = spec_write_disconnect(code, props);
        let h = disconnect_header(code, props);
        let rl = disconnect_remaining_length(code, props);
        let ps = DisconnectProperties::spec_entries(props);
        let pl = entries_size(ps);
        lemma_varint_len(rl);
        lemma_varint_len(pl);
        assert(header_fits(h));
        let hb = spec_header_bytes(h);
        let hn = 1 + varint(rl).len();
        if code == 0 && pl == 0 {
            lemma_fixed_header_roundtrip(h, seq![code]);
            assert(b =~= hb + seq![code]);
            assert(b.skip(hn as int) =~= seq![code]);
            lemma_empty_props(props);
        } else {
            DisconnectProperties::lemma_write_read(props, Seq::empty());
            let w = spec_write_properties(ps);
            lemma_write_properties_len(ps);
            let body = seq![code] + w.1;
            assert(b =~= hb + body);
            lemma_fixed_header_roundtrip(h, body);
            assert(b.skip(hn as int) =~= body);
            assert(body.skip(1) =~= w.1);
            assert(w.1 + Seq::<u8>::empty() =~= w.1);
            assert(w.1.len() > 0);
        }
    }
}

/// Properties that add up to no bytes are the empty set.
proof fn lemma_empty_props(props: DisconnectPropertiesV)
    requires
        entries_fit(DisconnectProperties::spec_entries(props)),
        entries_size(DisconnectProperties::spec_entries(props)) == 0,
    ensures
        props == DisconnectProperties::spec_empty(),
{
    let ps = DisconnectProperties::spec_entries(props);
    crate::properties::lemma_entries_size_zero(ps);
    if props.session_expiry_interval is Some || props.reason_string is Some || props.server_reference is Some {
        assert(ps.len() >= 1);
    }
    if props.user_property.len() > 0 {
        assert(ps.len() >= props.user_property.len());
    }
    assert(props =~= DisconnectProperties::spec_empty());
}

impl Default for Disconnect {
    fn default() -> (r: Self)
        ensures
            r.reason_code == DisconnectReasonCode::NormalDisconnection,
            r.properties@ == DisconnectProperties::spec_empty(),
    {
        Disconnect {
            reason_code: DisconnectReasonCode::NormalDisconnection,
            properties: DisconnectProperties::empty(),
        }
    }
}

} // verus!
