//! The acknowledgements of the publish flows: PUBACK (3.4), PUBREC (3.5),
//! PUBREL (3.6) and PUBCOMP (3.7). Each holds a packet identifier, a reason
//! code and properties; the reason code and the properties are left out when
//! the code is 0 (success) and there are no properties.
use bytes::{Bytes, BytesMut};
use vstd::prelude::*;

use crate::buffer::{bytes_mut_view, bytes_view};
use crate::codec::{
    be16, lemma_u16_roundtrip, parse_u16, parse_u8, read_u16, read_u8, write_u16, write_u8, Parsed,
};
use crate::error::MQTTError;
use crate::fixed_header::{
    header_fits, lemma_fixed_header_roundtrip, parse_fixed_header, spec_first_byte,
    spec_header_bytes, FixedHeader,
};
use crate::packet::ack_properties::{AckProperties, AckPropertiesV};
use crate::packet_type::PacketType;
use crate::properties::{
    entries_fit, entries_size, lemma_properties_roundtrip, parse_properties,
    spec_write_properties, PropertySet,
};
use crate::reason_code::{PubAckReasonCode, PubRelReasonCode};
use crate::varint::{lemma_varint_len, spec_variable_length, variable_length, varint, VARINT_MAX};

verus! {

/// The Remaining Length of an acknowledgement: the packet identifier, and,
/// unless the code is success with no properties, the code and the properties.
pub open spec fn ack_remaining_length(rc: u8, props: AckPropertiesV) -> nat {
    let pl = entries_size(AckProperties::spec_entries(props));
    if rc == 0 && pl == 0 {
        2
    } else {
        3 + pl + spec_variable_length(pl)
    }
}

/// The fixed header that an acknowledgement is written with.
pub open spec fn ack_header(ptype: PacketType, flags: u8, rc: u8, props: AckPropertiesV) -> FixedHeader {
    FixedHeader {
        packet_type: ptype,
        flags: if flags != 0 {
            Some(flags)
        } else {
            None
        },
        remaining_length: ack_remaining_length(rc, props) as usize,
        header_len: 0,
    }
}

/// What writing an acknowledgement gives: the outcome and the bytes.
pub open spec fn spec_write_ack(ptype: PacketType, flags: u8, pkid: u16, rc: u8, props: AckPropertiesV) -> (
    Result<(), MQTTError>,
    Seq<u8>,
) {
    let h = ack_header(ptype, flags, rc, props);
    let pl = entries_size(AckProperties::spec_entries(props));
    if ack_remaining_length(rc, props) > VARINT_MAX {
        (Err(MQTTError::PayloadTooLong), seq![spec_first_byte(h)])
    } else if rc == 0 && pl == 0 {
        (Ok(()), spec_header_bytes(h) + be16(pkid))
    } else {
        let w = spec_write_properties(AckProperties::spec_entries(props));
        (w.0, (spec_header_bytes(h) + be16(pkid)).push(rc) + w.1)
    }
}

/// Reading the packet identifier, and, unless the Remaining Length is 2, the reason code byte.
pub open spec fn parse_ack_head(s: Seq<u8>, remaining_length: usize) -> Parsed<(u16, Option<u8>)> {
    match parse_u16(s) {
        (Err(e), n) => (Err(e), n),
        (Ok(pkid), _) => if remaining_length == 2 {
            (Ok((pkid, None)), 2)
        } else {
            match parse_u8(s.skip(2)) {
                (Err(e), n) => (Err(e), 2 + n),
                (Ok(rc), _) => (Ok((pkid, Some(rc))), 3),
            }
        },
    }
}

/// Reading the body of an acknowledgement (after its fixed header): packet
/// identifier, then (unless the Remaining Length is 2) a reason code, which
/// must be one that `valid` accepts, then the properties. With a Remaining
/// Length of 2 the code is success and there are no properties.
pub open spec fn parse_ack(s: Seq<u8>, remaining_length: usize, valid: spec_fn(u8) -> bool) -> Parsed<
    (u16, u8, AckPropertiesV),
> {
    match parse_ack_head(s, remaining_length) {
        (Err(e), n) => (Err(e), n),
        (Ok((pkid, None)), n) => (Ok((pkid, 0u8, AckProperties::spec_empty())), n),
        (Ok((pkid, Some(rc))), n) => if !valid(rc) {
            (Err(MQTTError::UnknownData(rc as u16)), n)
        } else {
            match parse_properties::<AckProperties>(s.skip(3), "") {
                (Err(e), m) => (Err(e), 3 + m),
                (Ok(p), m) => (Ok((pkid, rc, p)), 3 + m),
            }
        },
    }
}

/// Reading an acknowledgement body (MQTT 5 section 3.4.2): the packet
/// identifier is the first two bytes, most significant first. With a
/// Remaining Length of 2 that is all, and the reason code is Success (0x00)
/// with no properties; otherwise the third byte is the reason code, and one
/// that the packet type does not define is `UnknownData` with that byte.
pub proof fn lemma_ack_body_layout(s: Seq<u8>, remaining_length: usize, valid: spec_fn(u8) -> bool)
    requires
        s.len() >= 2,
    ensures
        remaining_length == 2 ==> parse_ack(s, remaining_length, valid) == (Ok::<(u16, u8, AckPropertiesV), MQTTError>(
            ((s[0] * 256 + s[1]) as u16, 0u8, AckProperties::spec_empty()),
        ), 2nat),
        remaining_length != 2 && s.len() >= 3 && !valid(s[2]) ==> parse_ack(s, remaining_length, valid).0
            == Err::<(u16, u8, AckPropertiesV), MQTTError>(MQTTError::UnknownData(s[2] as u16)),
        remaining_length != 2 ==> (parse_ack(s, remaining_length, valid).0 matches Ok((id, rc, _)) ==> s.len()
            >= 3 && rc == s[2] && id == s[0] * 256 + s[1]),
{
}

/// Properties that write without failing and read back as themselves.
pub open spec fn ack_props_fit(props: AckPropertiesV) -> bool {
    &&& entries_fit(AckProperties::spec_entries(props))
    &&& entries_size(AckProperties::spec_entries(props)) <= VARINT_MAX
}

/// Reading a written acknowledgement gives back its packet type, flags,
/// packet identifier, reason code and properties; its Remaining Length is the
/// number of bytes after the fixed header.
pub proof fn lemma_ack_roundtrip(
    ptype: PacketType,
    flags: u8,
    pkid: u16,
    rc: u8,
    props: AckPropertiesV,
    valid: spec_fn(u8) -> bool,
    rest: Seq<u8>,
)
    requires
        flags < 16,
        valid(rc),
        ack_props_fit(props),
        ack_remaining_length(rc, props) <= VARINT_MAX,
    ensures
        ({
            let (r, b) = spec_write_ack(ptype, flags, pkid, rc, props);
            let h = ack_header(ptype, flags, rc, props);
            let rl = ack_remaining_length(rc, props);
            &&& r == Ok::<(), MQTTError>(())
            &&& parse_fixed_header(b + rest) == (Ok::<FixedHeader, MQTTError>(
                FixedHeader { header_len: varint(rl).len() as usize, ..h },
            ), 1 + varint(rl).len())
            &&& b.len() == 1 + varint(rl).len() + rl
            &&& parse_ack((b + rest).skip(1 + varint(rl).len() as int), rl as usize, valid) == (Ok::<
                (u16, u8, AckPropertiesV),
                MQTTError,
            >((pkid, rc, props)), rl)
        }),
{
    let h = ack_header(ptype, flags, rc, props);
    let rl = ack_remaining_length(rc, props);
    let ps = AckProperties::spec_entries(props);
    let pl = entries_size(ps);
    assert(header_fits(h));
    lemma_varint_len(rl);
    if rc == 0 && pl == 0 {
        lemma_ack_roundtrip_short(ptype, flags, pkid, props, valid, rest);
    } else {
        lemma_ack_roundtrip_long(ptype, flags, pkid, rc, props, valid, rest);
    }
}

#[verifier::spinoff_prover]
proof fn lemma_ack_roundtrip_short(
    ptype: PacketType,
    flags: u8,
    pkid: u16,
    props: AckPropertiesV,
    valid: spec_fn(u8) -> bool,
    rest: Seq<u8>,
)
    requires
        flags < 16,
        ack_props_fit(props),
        entries_size(AckProperties::spec_entries(props)) == 0,
    ensures
        ({
            let (r, b) = spec_write_ack(ptype, flags, pkid, 0, props);
            let h = ack_header(ptype, flags, 0, props);
            &&& r == Ok::<(), MQTTError>(())
            &&& parse_fixed_header(b + rest) == (Ok::<FixedHeader, MQTTError>(
                FixedHeader { header_len: 1, ..h },
            ), 2nat)
            &&& b.len() == 4
            &&& parse_ack((b + rest).skip(2), 2, valid) == (Ok::<
                (u16, u8, AckPropertiesV),
                MQTTError,
            >((pkid, 0u8, props)), 2nat)
        }),
{
    let (r, b) = spec_write_ack(ptype, flags, pkid, 0, props);
    let h = ack_header(ptype, flags, 0, props);
    assert(h.remaining_length == 2);
    reveal_with_fuel(varint, 2);
    let hb = spec_header_bytes(h);
    assert(b + rest =~= hb + (be16(pkid) + rest));
    lemma_fixed_header_roundtrip(h, be16(pkid) + rest);
    assert((b + rest).skip(2) =~= be16(pkid) + rest);
    lemma_u16_roundtrip(pkid, rest);
    lemma_ack_props_empty(props);
}

/// Properties that add up to no bytes are the empty set.
proof fn lemma_ack_props_empty(props: AckPropertiesV)
    requires
        ack_props_fit(props),
        entries_size(AckProperties::spec_entries(props)) == 0,
    ensures
        props == AckProperties::spec_empty(),
{
    let ps = AckProperties::spec_entries(props);
    if ps.len() > 0 {
        lemma_entries_size_pos(ps);
    }
    if props.reason_string is Some {
        assert(ps.len() >= 1);
    }
    if props.user_property.len() > 0 {
        assert(ps.len() >= props.user_property.len());
    }
    assert(props =~= AckProperties::spec_empty());
}

#[verifier::spinoff_prover]
#[verifier::rlimit(80)]
proof fn lemma_ack_roundtrip_long(
    ptype: PacketType,
    flags: u8,
    pkid: u16,
    rc: u8,
    props: AckPropertiesV,
    valid: spec_fn(u8) -> bool,
    rest: Seq<u8>,
)
    requires
        flags < 16,
        valid(rc),
        ack_props_fit(props),
        !(rc == 0 && entries_size(AckProperties::spec_entries(props)) == 0),
        ack_remaining_length(rc, props) <= VARINT_MAX,
    ensures
        ({
            let (r, b) = spec_write_ack(ptype, flags, pkid, rc, props);
            let h = ack_header(ptype, flags, rc, props);
            let rl = ack_remaining_length(rc, props);
            &&& r == Ok::<(), MQTTError>(())
            &&& parse_fixed_header(b + rest) == (Ok::<FixedHeader, MQTTError>(
                FixedHeader { header_len: varint(rl).len() as usize, ..h },
            ), 1 + varint(rl).len())
            &&& b.len() == 1 + varint(rl).len() + rl
            &&& parse_ack((b + rest).skip(1 + varint(rl).len() as int), rl as usize, valid) == (Ok::<
                (u16, u8, AckPropertiesV),
                MQTTError,
            >((pkid, rc, props)), rl)
        }),
{
    let (r, b) = spec_write_ack(ptype, flags, pkid, rc, props);
    let h = ack_header(ptype, flags, rc, props);
    let rl = ack_remaining_length(rc, props);
    let ps = AckProperties::spec_entries(props);
    let pl = entries_size(ps);
    lemma_varint_len(rl);
    let hb = spec_header_bytes(h);
    let hn = 1 + varint(rl).len();
    AckProperties::lemma_entries_merge(props);
    let w = spec_write_properties(ps);
    lemma_properties_roundtrip::<AckProperties>(props, rest, "");
    crate::properties::lemma_write_properties_len(ps);
    lemma_varint_len(pl);
    assert(w.1.len() + 3 == rl);
    assert(b == (hb + be16(pkid)).push(rc) + w.1);
    let body = (be16(pkid).push(rc) + w.1) + rest;
    assert(b + rest =~= hb + body);
    lemma_fixed_header_roundtrip(h, body);
    assert((b + rest).skip(hn as int) =~= body);
    lemma_ack_body(pkid, rc, w.1, rest, valid, props, rl as usize);
}

proof fn lemma_ack_body(
    pkid: u16,
    rc: u8,
    w: Seq<u8>,
    rest: Seq<u8>,
    valid: spec_fn(u8) -> bool,
    props: AckPropertiesV,
    rl: usize,
)
    requires
        valid(rc),
        rl != 2,
        parse_properties::<AckProperties>(w + rest, "") == (Ok::<AckPropertiesV, MQTTError>(props), w.len()),
    ensures
        parse_ack((be16(pkid).push(rc) + w) + rest, rl, valid) == (Ok::<
            (u16, u8, AckPropertiesV),
            MQTTError,
        >((pkid, rc, props)), 3 + w.len()),
{
    let body = (be16(pkid).push(rc) + w) + rest;
    assert(body =~= be16(pkid) + body.skip(2));
    lemma_u16_roundtrip(pkid, body.skip(2));
    assert(body.skip(2)[0] == rc);
    assert(body.skip(3) =~= w + rest);
    assert(body.skip(2).skip(1) =~= body.skip(3));
    assert(parse_ack_head(body, rl) == (Ok::<(u16, Option<u8>), MQTTError>((pkid, Some(rc))), 3nat));
}

proof fn lemma_entries_size_pos(ps: Seq<crate::property::PropertyV>)
    requires
        ps.len() > 0,
        entries_fit(ps),
    ensures
        entries_size(ps) > 0,
{
    crate::property::lemma_property_roundtrip(ps[0], Seq::empty());
    assert(crate::property::property_fits(ps[0]));
}

/// The Remaining Length of an acknowledgement with reason byte `rc` and `props`.
fn ack_length(rc: u8, props: &AckProperties) -> (r: usize)
    requires
        ack_remaining_length(rc, props@) <= isize::MAX,
    ensures
        r == ack_remaining_length(rc, props@),
{
    let pl = props.length();
    if rc == 0 && pl == 0 {
        2
    } else {
        3 + pl + variable_length(pl)
    }
}

/// Writes an acknowledgement: fixed header, packet identifier, then (unless
/// `rc` is 0 with no properties) the reason byte and the properties.
fn write_ack(buf: &mut BytesMut, ptype: PacketType, flags: u8, pkid: u16, rc: u8, props: &AckProperties) -> (r:
    Result<(), MQTTError>)
    requires
        bytes_mut_view(*old(buf)).len() + ack_remaining_length(rc, props@) + 12 <= isize::MAX,
    ensures
        r == spec_write_ack(ptype, flags, pkid, rc, props@).0,
        bytes_mut_view(*final(buf)) == bytes_mut_view(*old(buf)) + spec_write_ack(
            ptype,
            flags,
            pkid,
            rc,
            props@,
        ).1,
{
    let ghost start = bytes_mut_view(*buf);
    let len = ack_length(rc, props);
    let h = FixedHeader::new(ptype, flags, len);
    proof {
        if len <= VARINT_MAX {
            lemma_varint_len(len as nat);
        }
    }
    if let Err(e) = h.write(buf) {
        return Err(e);
    }
    write_u16(buf, pkid);
    let pl = props.length();
    if rc == 0 && pl == 0 {
        return Ok(());
    }
    write_u8(buf, rc);
    let ghost mid = bytes_mut_view(*buf);
    let r = props.write(buf);
    assert(bytes_mut_view(*buf) =~= start + spec_write_ack(ptype, flags, pkid, rc, props@).1);
    r
}

/// Reads the packet identifier and, unless the Remaining Length is 2, the reason byte.
fn read_ack_head(buf: &mut Bytes, remaining_length: usize) -> (r: Result<(u16, Option<u8>), MQTTError>)
    ensures
        r == parse_ack_head(bytes_view(*old(buf)), remaining_length).0,
        bytes_view(*final(buf)) == bytes_view(*old(buf)).skip(
            parse_ack_head(bytes_view(*old(buf)), remaining_length).1 as int,
        ),
{
    let ghost s = bytes_view(*buf);
    let pkid = match read_u16(buf) {
        Ok(v) => v,
        Err(e) => return Err(e),
    };
    if remaining_length == 2 {
        return Ok((pkid, None));
    }
    let ghost s2 = bytes_view(*buf);
    let rc = match read_u8(buf) {
        Ok(v) => v,
        Err(e) => {
            assert(bytes_view(*buf) =~= s.skip(2 + parse_u8(s2).1 as int));
            return Err(e);
        },
    };
    assert(bytes_view(*buf) =~= s.skip(3));
    Ok((pkid, Some(rc)))
}

pub open spec fn valid_pub_ack_code(b: u8) -> bool {
    PubAckReasonCode::spec_from_code(b) is Some
}

pub open spec fn valid_pub_rel_code(b: u8) -> bool {
    PubRelReasonCode::spec_from_code(b) is Some
}


/// PUBACK (3.4): acknowledges a QoS 1 PUBLISH.
#[derive(Debug, Clone, PartialEq, Eq)]
pub struct PubAck {
    pub pkid: u16,
    pub reason_code: PubAckReasonCode,
    pub properties: AckProperties,
}

impl PubAck {
    /// The Remaining Length: the packet identifier, and, unless the code is
    /// success with no properties, the code and the properties.
    pub fn length(&self) -> (r: usize)
        requires
            ack_remaining_length(self.reason_code.spec_code(), self.properties@) <= isize::MAX,
        ensures
            r == ack_remaining_length(self.reason_code.spec_code(), self.properties@),
    {
        ack_length(self.reason_code.code(), &self.properties)
    }

    /// Writes the packet.
    pub fn write(&self, buf: &mut BytesMut) -> (r: Result<(), MQTTError>)
        requires
            bytes_mut_view(*old(buf)).len() + ack_remaining_length(
                self.reason_code.spec_code(),
                self.properties@,
            ) + 12 <= isize::MAX,
        ensures
            r == spec_write_ack(PacketType::PubAck, 0u8, self.pkid, self.reason_code.spec_code(), self.properties@).0,
            bytes_mut_view(*final(buf)) == bytes_mut_view(*old(buf)) + spec_write_ack(
                PacketType::PubAck,
                0u8,
                self.pkid,
                self.reason_code.spec_code(),
                self.properties@,
            ).1,
    {
        write_ack(buf, PacketType::PubAck, 0u8, self.pkid, self.reason_code.code(), &self.properties)
    }

    /// Reads the packet body that follows `header`.
    pub fn read_with_fixedheader(buf: &mut Bytes, header: FixedHeader) -> (r: Result<Self, MQTTError>)
        ensures
            match (r, parse_ack(bytes_view(*old(buf)), header.remaining_length, |b: u8| valid_pub_ack_code(b)).0) {
                (Ok(p), Ok((pkid, rc, pv))) => p.pkid == pkid && p.reason_code.spec_code() == rc
                    && p.properties@ == pv,
                (Err(e), Err(f)) => e == f,
                _ => false,
            },
            bytes_view(*final(buf)) == bytes_view(*old(buf)).skip(
                parse_ack(bytes_view(*old(buf)), header.remaining_length, |b: u8| valid_pub_ack_code(b)).1 as int,
            ),
    {
        let ghost s = bytes_view(*buf);
        let (pkid, rc) = match read_ack_head(buf, header.remaining_length) {
            Ok(v) => v,
            Err(e) => return Err(e),
        };
        let rc = match rc {
            None => {
                return Ok(PubAck { pkid, reason_code: PubAckReasonCode::Success, properties: AckProperties::empty() });
            },
            Some(b) => b,
        };
        let reason_code = match PubAckReasonCode::from_code(rc) {
            Some(c) => c,
            None => return Err(MQTTError::UnknownData(rc as u16)),
        };
        let ghost s3 = bytes_view(*buf);
        assert(s3 == s.skip(3));
        proof {
            crate::properties::lemma_parse_properties_len::<AckProperties>(s3, "");
        }
        let properties = match AckProperties::read(buf) {
            Ok(p) => p,
            Err(e) => {
                assert(bytes_view(*buf) =~= s.skip(3 + parse_properties::<AckProperties>(s3, "").1 as int));
                return Err(e);
            },
        };
        assert(bytes_view(*buf) =~= s.skip(3 + parse_properties::<AckProperties>(s3, "").1 as int));
        Ok(PubAck { pkid, reason_code, properties })
    }

    /// Reading a written PubAck gives back its packet identifier, reason code and properties.
    pub proof fn lemma_write_read(pkid: u16, reason_code: PubAckReasonCode, props: AckPropertiesV, rest: Seq<u8>)
        requires
            ack_props_fit(props),
            ack_remaining_length(reason_code.spec_code(), props) <= VARINT_MAX,
        ensures
            ({
                let (r, b) = spec_write_ack(PacketType::PubAck, 0u8, pkid, reason_code.spec_code(), props);
                let rl = ack_remaining_length(reason_code.spec_code(), props);
                &&& r == Ok::<(), MQTTError>(())
                &&& parse_fixed_header(b + rest).0 == Ok::<FixedHeader, MQTTError>(FixedHeader {
                    packet_type: PacketType::PubAck,
                    flags: None,
                    remaining_length: rl as usize,
                    header_len: varint(rl).len() as usize,
                })
                &&& parse_ack((b + rest).skip(parse_fixed_header(b + rest).1 as int), rl as usize, |b: u8| valid_pub_ack_code(b))
                    == (Ok::<(u16, u8, AckPropertiesV), MQTTError>((pkid, reason_code.spec_code(), props)), rl)
            }),
    {
        PubAckReasonCode::lemma_code_roundtrip(reason_code);
        lemma_ack_roundtrip(PacketType::PubAck, 0u8, pkid, reason_code.spec_code(), props, |b: u8| valid_pub_ack_code(b), rest);
    }
}

impl Default for PubAck {
    fn default() -> (r: Self)
        ensures
            r.pkid == 0,
            r.reason_code == PubAckReasonCode::Success,
            r.properties@ == AckProperties::spec_empty(),
    {
        PubAck { pkid: 0, reason_code: PubAckReasonCode::Success, properties: AckProperties::empty() }
    }
}

/// PUBREC (3.5): the first answer to a QoS 2 PUBLISH.
#[derive(Debug, Clone, PartialEq, Eq)]
pub struct PubRec {
    pub pkid: u16,
    pub reason_code: PubAckReasonCode,
    pub properties: AckProperties,
}

impl PubRec {
    /// The Remaining Length: the packet identifier, and, unless the code is
    /// success with no properties, the code and the properties.
    pub fn length(&self) -> (r: usize)
        requires
            ack_remaining_length(self.reason_code.spec_code(), self.properties@) <= isize::MAX,
        ensures
            r == ack_remaining_length(self.reason_code.spec_code(), self.properties@),
    {
        ack_length(self.reason_code.code(), &self.properties)
    }

    /// Writes the packet.
    pub fn write(&self, buf: &mut BytesMut) -> (r: Result<(), MQTTError>)
        requires
            bytes_mut_view(*old(buf)).len() + ack_remaining_length(
                self.reason_code.spec_code(),
                self.properties@,
            ) + 12 <= isize::MAX,
        ensures
            r == spec_write_ack(PacketType::PubRec, 0u8, self.pkid, self.reason_code.spec_code(), self.properties@).0,
            bytes_mut_view(*final(buf)) == bytes_mut_view(*old(buf)) + spec_write_ack(
                PacketType::PubRec,
                0u8,
                self.pkid,
                self.reason_code.spec_code(),
                self.properties@,
            ).1,
    {
        write_ack(buf, PacketType::PubRec, 0u8, self.pkid, self.reason_code.code(), &self.properties)
    }

    /// Reads the packet body that follows `header`.
    pub fn read_with_fixedheader(buf: &mut Bytes, header: FixedHeader) -> (r: Result<Self, MQTTError>)
        ensures
            match (r, parse_ack(bytes_view(*old(buf)), header.remaining_length, |b: u8| valid_pub_ack_code(b)).0) {
                (Ok(p), Ok((pkid, rc, pv))) => p.pkid == pkid && p.reason_code.spec_code() == rc
                    && p.properties@ == pv,
                (Err(e), Err(f)) => e == f,
                _ => false,
            },
            bytes_view(*final(buf)) == bytes_view(*old(buf)).skip(
                parse_ack(bytes_view(*old(buf)), header.remaining_length, |b: u8| valid_pub_ack_code(b)).1 as int,
            ),
    {
        let ghost s = bytes_view(*buf);
        let (pkid, rc) = match read_ack_head(buf, header.remaining_length) {
            Ok(v) => v,
            Err(e) => return Err(e),
        };
        let rc = match rc {
            None => {
                return Ok(PubRec { pkid, reason_code: PubAckReasonCode::Success, properties: AckProperties::empty() });
            },
            Some(b) => b,
        };
        let reason_code = match PubAckReasonCode::from_code(rc) {
            Some(c) => c,
            None => return Err(MQTTError::UnknownData(rc as u16)),
        };
        let ghost s3 = bytes_view(*buf);
        assert(s3 == s.skip(3));
        proof {
            crate::properties::lemma_parse_properties_len::<AckProperties>(s3, "");
        }
        let properties = match AckProperties::read(buf) {
            Ok(p) => p,
            Err(e) => {
                assert(bytes_view(*buf) =~= s.skip(3 + parse_properties::<AckProperties>(s3, "").1 as int));
                return Err(e);
            },
        };
        assert(bytes_view(*buf) =~= s.skip(3 + parse_properties::<AckProperties>(s3, "").1 as int));
        Ok(PubRec { pkid, reason_code, properties })
    }

    /// Reading a written PubRec gives back its packet identifier, reason code and properties.
    pub proof fn lemma_write_read(pkid: u16, reason_code: PubAckReasonCode, props: AckPropertiesV, rest: Seq<u8>)
        requires
            ack_props_fit(props),
            ack_remaining_length(reason_code.spec_code(), props) <= VARINT_MAX,
        ensures
            ({
                let (r, b) = spec_write_ack(PacketType::PubRec, 0u8, pkid, reason_code.spec_code(), props);
                let rl = ack_remaining_length(reason_code.spec_code(), props);
                &&& r == Ok::<(), MQTTError>(())
                &&& parse_fixed_header(b + rest).0 == Ok::<FixedHeader, MQTTError>(FixedHeader {
                    packet_type: PacketType::PubRec,
                    flags: None,
                    remaining_length: rl as usize,
                    header_len: varint(rl).len() as usize,
                })
                &&& parse_ack((b + rest).skip(parse_fixed_header(b + rest).1 as int), rl as usize, |b: u8| valid_pub_ack_code(b))
                    == (Ok::<(u16, u8, AckPropertiesV), MQTTError>((pkid, reason_code.spec_code(), props)), rl)
            }),
    {
        PubAckReasonCode::lemma_code_roundtrip(reason_code);
        lemma_ack_roundtrip(PacketType::PubRec, 0u8, pkid, reason_code.spec_code(), props, |b: u8| valid_pub_ack_code(b), rest);
    }
}

impl Default for PubRec {
    fn default() -> (r: Self)
        ensures
            r.pkid == 0,
            r.reason_code == PubAckReasonCode::Success,
            r.properties@ == AckProperties::spec_empty(),
    {
        PubRec { pkid: 0, reason_code: PubAckReasonCode::Success, properties: AckProperties::empty() }
    }
}

/// PUBREL (3.6): the answer to a PUBREC; its fixed header flags are 0b0010.
#[derive(Debug, Clone, PartialEq, Eq)]
pub struct PubRel {
    pub pkid: u16,
    pub reason_code: PubRelReasonCode,
    pub properties: AckProperties,
}

impl PubRel {
    /// The Remaining Length: the packet identifier, and, unless the code is
    /// success with no properties, the code and the properties.
    pub fn length(&self) -> (r: usize)
        requires
            ack_remaining_length(self.reason_code.spec_code(), self.properties@) <= isize::MAX,
        ensures
            r == ack_remaining_length(self.reason_code.spec_code(), self.properties@),
    {
        ack_length(self.reason_code.code(), &self.properties)
    }

    /// Writes the packet.
    pub fn write(&self, buf: &mut BytesMut) -> (r: Result<(), MQTTError>)
        requires
            bytes_mut_view(*old(buf)).len() + ack_remaining_length(
                self.reason_code.spec_code(),
                self.properties@,
            ) + 12 <= isize::MAX,
        ensures
            r == spec_write_ack(PacketType::PubRel, 2u8, self.pkid, self.reason_code.spec_code(), self.properties@).0,
            bytes_mut_view(*final(buf)) == bytes_mut_view(*old(buf)) + spec_write_ack(
                PacketType::PubRel,
                2u8,
                self.pkid,
                self.reason_code.spec_code(),
                self.properties@,
            ).1,
    {
        write_ack(buf, PacketType::PubRel, 2u8, self.pkid, self.reason_code.code(), &self.properties)
    }

    /// Reads the packet body that follows `header`.
    pub fn read_with_fixedheader(buf: &mut Bytes, header: FixedHeader) -> (r: Result<Self, MQTTError>)
        ensures
            match (r, parse_ack(bytes_view(*old(buf)), header.remaining_length, |b: u8| valid_pub_rel_code(b)).0) {
                (Ok(p), Ok((pkid, rc, pv))) => p.pkid == pkid && p.reason_code.spec_code() == rc
                    && p.properties@ == pv,
                (Err(e), Err(f)) => e == f,
                _ => false,
            },
            bytes_view(*final(buf)) == bytes_view(*old(buf)).skip(
                parse_ack(bytes_view(*old(buf)), header.remaining_length, |b: u8| valid_pub_rel_code(b)).1 as int,
            ),
    {
        let ghost s = bytes_view(*buf);
        let (pkid, rc) = match read_ack_head(buf, header.remaining_length) {
            Ok(v) => v,
            Err(e) => return Err(e),
        };
        let rc = match rc {
            None => {
                return Ok(PubRel { pkid, reason_code: PubRelReasonCode::Success, properties: AckProperties::empty() });
            },
            Some(b) => b,
        };
        let reason_code = match PubRelReasonCode::from_code(rc) {
            Some(c) => c,
            None => return Err(MQTTError::UnknownData(rc as u16)),
        };
        let ghost s3 = bytes_view(*buf);
        assert(s3 == s.skip(3));
        proof {
            crate::properties::lemma_parse_properties_len::<AckProperties>(s3, "");
        }
        let properties = match AckProperties::read(buf) {
            Ok(p) => p,
            Err(e) => {
                assert(bytes_view(*buf) =~= s.skip(3 + parse_properties::<AckProperties>(s3, "").1 as int));
                return Err(e);
            },
        };
        assert(bytes_view(*buf) =~= s.skip(3 + parse_properties::<AckProperties>(s3, "").1 as int));
        Ok(PubRel { pkid, reason_code, properties })
    }

    /// Reading a written PubRel gives back its packet identifier, reason code and properties.
    pub proof fn lemma_write_read(pkid: u16, reason_code: PubRelReasonCode, props: AckPropertiesV, rest: Seq<u8>)
        requires
            ack_props_fit(props),
            ack_remaining_length(reason_code.spec_code(), props) <= VARINT_MAX,
        ensures
            ({
                let (r, b) = spec_write_ack(PacketType::PubRel, 2u8, pkid, reason_code.spec_code(), props);
                let rl = ack_remaining_length(reason_code.spec_code(), props);
                &&& r == Ok::<(), MQTTError>(())
                &&& parse_fixed_header(b + rest).0 == Ok::<FixedHeader, MQTTError>(FixedHeader {
                    packet_type: PacketType::PubRel,
                    flags: Some(2u8),
                    remaining_length: rl as usize,
                    header_len: varint(rl).len() as usize,
                })
                &&& parse_ack((b + rest).skip(parse_fixed_header(b + rest).1 as int), rl as usize, |b: u8| valid_pub_rel_code(b))
                    == (Ok::<(u16, u8, AckPropertiesV), MQTTError>((pkid, reason_code.spec_code(), props)), rl)
            }),
    {
        PubRelReasonCode::lemma_code_roundtrip(reason_code);
        lemma_ack_roundtrip(PacketType::PubRel, 2u8, pkid, reason_code.spec_code(), props, |b: u8| valid_pub_rel_code(b), rest);
    }
}

impl Default for PubRel {
    fn default() -> (r: Self)
        ensures
            r.pkid == 0,
            r.reason_code == PubRelReasonCode::Success,
            r.properties@ == AckProperties::spec_empty(),
    {
        PubRel { pkid: 0, reason_code: PubRelReasonCode::Success, properties: AckProperties::empty() }
    }
}

/// PUBCOMP (3.7): the answer to a PUBREL, ending a QoS 2 flow.
#[derive(Debug, Clone, PartialEq, Eq)]
pub struct PubComp {
    pub pkid: u16,
    pub reason_code: PubRelReasonCode,
    pub properties: AckProperties,
}

impl PubComp {
    /// The Remaining Length: the packet identifier, and, unless the code is
    /// success with no properties, the code and the properties.
    pub fn length(&self) -> (r: usize)
        requires
            ack_remaining_length(self.reason_code.spec_code(), self.properties@) <= isize::MAX,
        ensures
            r == ack_remaining_length(self.reason_code.spec_code(), self.properties@),
    {
        ack_length(self.reason_code.code(), &self.properties)
    }

    /// Writes the packet.
    pub fn write(&self, buf: &mut BytesMut) -> (r: Result<(), MQTTError>)
        requires
            bytes_mut_view(*old(buf)).len() + ack_remaining_length(
                self.reason_code.spec_code(),
                self.properties@,
            ) + 12 <= isize::MAX,
        ensures
            r == spec_write_ack(PacketType::PubComp, 0u8, self.pkid, self.reason_code.spec_code(), self.properties@).0,
            bytes_mut_view(*final(buf)) == bytes_mut_view(*old(buf)) + spec_write_ack(
                PacketType::PubComp,
                0u8,
                self.pkid,
                self.reason_code.spec_code(),
                self.properties@,
            ).1,
    {
        write_ack(buf, PacketType::PubComp, 0u8, self.pkid, self.reason_code.code(), &self.properties)
    }

    /// Reads the packet body that follows `header`.
    pub fn read_with_fixedheader(buf: &mut Bytes, header: FixedHeader) -> (r: Result<Self, MQTTError>)
        ensures
            match (r, parse_ack(bytes_view(*old(buf)), header.remaining_length, |b: u8| valid_pub_rel_code(b)).0) {
                (Ok(p), Ok((pkid, rc, pv))) => p.pkid == pkid && p.reason_code.spec_code() == rc
                    && p.properties@ == pv,
                (Err(e), Err(f)) => e == f,
                _ => false,
            },
            bytes_view(*final(buf)) == bytes_view(*old(buf)).skip(
                parse_ack(bytes_view(*old(buf)), header.remaining_length, |b: u8| valid_pub_rel_code(b)).1 as int,
            ),
    {
        let ghost s = bytes_view(*buf);
        let (pkid, rc) = match read_ack_head(buf, header.remaining_length) {
            Ok(v) => v,
            Err(e) => return Err(e),
        };
        let rc = match rc {
            None => {
                return Ok(PubComp { pkid, reason_code: PubRelReasonCode::Success, properties: AckProperties::empty() });
            },
            Some(b) => b,
        };
        let reason_code = match PubRelReasonCode::from_code(rc) {
            Some(c) => c,
            None => return Err(MQTTError::UnknownData(rc as u16)),
        };
        let ghost s3 = bytes_view(*buf);
        assert(s3 == s.skip(3));
        proof {
            crate::properties::lemma_parse_properties_len::<AckProperties>(s3, "");
        }
        let properties = match AckProperties::read(buf) {
            Ok(p) => p,
            Err(e) => {
                assert(bytes_view(*buf) =~= s.skip(3 + parse_properties::<AckProperties>(s3, "").1 as int));
                return Err(e);
            },
        };
        assert(bytes_view(*buf) =~= s.skip(3 + parse_properties::<AckProperties>(s3, "").1 as int));
        Ok(PubComp { pkid, reason_code, properties })
    }

    /// Reading a written PubComp gives back its packet identifier, reason code and properties.
    pub proof fn lemma_write_read(pkid: u16, reason_code: PubRelReasonCode, props: AckPropertiesV, rest: Seq<u8>)
        requires
            ack_props_fit(props),
            ack_remaining_length(reason_code.spec_code(), props) <= VARINT_MAX,
        ensures
            ({
                let (r, b) = spec_write_ack(PacketType::PubComp, 0u8, pkid, reason_code.spec_code(), props);
                let rl = ack_remaining_length(reason_code.spec_code(), props);
                &&& r == Ok::<(), MQTTError>(())
                &&& parse_fixed_header(b + rest).0 == Ok::<FixedHeader, MQTTError>(FixedHeader {
                    packet_type: PacketType::PubComp,
                    flags: None,
                    remaining_length: rl as usize,
                    header_len: varint(rl).len() as usize,
                })
                &&& parse_ack((b + rest).skip(parse_fixed_header(b + rest).1 as int), rl as usize, |b: u8| valid_pub_rel_code(b))
                    == (Ok::<(u16, u8, AckPropertiesV), MQTTError>((pkid, reason_code.spec_code(), props)), rl)
            }),
    {
        PubRelReasonCode::lemma_code_roundtrip(reason_code);
        lemma_ack_roundtrip(PacketType::PubComp, 0u8, pkid, reason_code.spec_code(), props, |b: u8| valid_pub_rel_code(b), rest);
    }
}

impl Default for PubComp {
    fn default() -> (r: Self)
        ensures
            r.pkid == 0,
            r.reason_code == PubRelReasonCode::Success,
            r.properties@ == AckProperties::spec_empty(),
    {
        PubComp { pkid: 0, reason_code: PubRelReasonCode::Success, properties: AckProperties::empty() }
    }
}

/// An acknowledgement goes out as its fixed header, then (MQTT 5 section
/// 3.4.2) the packet identifier, most significant byte first; the reason
/// code and the properties follow unless the code is Success (0x00) and
/// there are no properties, in which case the Remaining Length is 2.
pub proof fn lemma_ack_layout(ptype: PacketType, flags: u8, pkid: u16, rc: u8, props: AckPropertiesV)
    requires
        spec_write_ack(ptype, flags, pkid, rc, props).0 is Ok,
    ensures
        ({
            let b = spec_write_ack(ptype, flags, pkid, rc, props).1;
            let hn = 1 + varint(ack_remaining_length(rc, props)).len();
            let short = rc == 0 && entries_size(AckProperties::spec_entries(props)) == 0;
            &&& b.take(hn as int) == spec_header_bytes(ack_header(ptype, flags, rc, props))
            &&& b.skip(hn as int) == seq![(pkid / 256) as u8, (pkid % 256) as u8] + if short {
                Seq::<u8>::empty()
            } else {
                seq![rc] + spec_write_properties(AckProperties::spec_entries(props)).1
            }
            &&& short ==> ack_remaining_length(rc, props) == 2
        }),
{
    let b = spec_write_ack(ptype, flags, pkid, rc, props).1;
    let h = ack_header(ptype, flags, rc, props);
    let hn = 1 + varint(ack_remaining_length(rc, props)).len();
    assert(spec_header_bytes(h).len() == hn);
    assert(b.take(hn as int) =~= spec_header_bytes(h));
    let short = rc == 0 && entries_size(AckProperties::spec_entries(props)) == 0;
    assert(b.skip(hn as int) =~= seq![(pkid / 256) as u8, (pkid % 256) as u8] + if short {
        Seq::<u8>::empty()
    } else {
        seq![rc] + spec_write_properties(AckProperties::spec_entries(props)).1
    });
}

} // verus!
