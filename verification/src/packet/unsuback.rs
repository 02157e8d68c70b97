//! UNSUBACK (section 3.11): a packet identifier, properties, and a payload
//! of one reason code per topic filter of the request, read to the end of the packet.
use bytes::{Bytes, BytesMut};
use vstd::prelude::*;

use crate::buffer::{bytes_len, bytes_mut_view, bytes_view};
use crate::codec::{be16, lemma_u16_roundtrip, parse_u16, read_u16, read_u8, write_u16, write_u8, Parsed};
use crate::error::MQTTError;
use crate::fixed_header::{
    header_fits, lemma_fixed_header_roundtrip, parse_fixed_header, spec_first_byte,
    spec_header_bytes, FixedHeader,
};
use crate::packet::ack_properties::{AckProperties, AckPropertiesV};
use crate::packet_type::PacketType;
use crate::properties::{
    entries_fit, entries_size, lemma_parse_properties_len, lemma_properties_roundtrip, lemma_write_properties_bound,
    lemma_write_properties_len, parse_properties, spec_write_properties, PropertySet,
};
use crate::reason_code::UnSubAckReasonCode;
use crate::varint::{lemma_varint_len, spec_variable_length, variable_length, varint, VARINT_MAX};

verus! {

#[derive(Debug, Clone, PartialEq, Eq)]
pub struct UnSubAck {
    pub packet_identifier: u16,
    pub payload: Vec<UnSubAckReasonCode>,
    pub properties: AckProperties,
}

/// The reason codes as bytes.
pub open spec fn unsuback_codes_bytes(codes: Seq<UnSubAckReasonCode>) -> Seq<u8> {
    codes.map_values(|c: UnSubAckReasonCode| c.spec_code())
}

/// The Remaining Length: the packet identifier, the property list and the codes.
pub open spec fn unsuback_remaining_length(codes: Seq<UnSubAckReasonCode>, props: AckPropertiesV) -> nat {
    let pl = entries_size(AckProperties::spec_entries(props));
    2 + codes.len() + pl + spec_variable_length(pl)
}

pub open spec fn unsuback_header(codes: Seq<UnSubAckReasonCode>, props: AckPropertiesV) -> FixedHeader {
    FixedHeader {
        packet_type: PacketType::UnSubAck,
        flags: None,
        remaining_length: unsuback_remaining_length(codes, props) as usize,
        header_len: 0,
    }
}

/// What writing the packet gives: the outcome and the bytes.
pub open spec fn spec_write_unsuback(pkid: u16, codes: Seq<UnSubAckReasonCode>, props: AckPropertiesV) -> (
    Result<(), MQTTError>,
    Seq<u8>,
) {
    let h = unsuback_header(codes, props);
    if unsuback_remaining_length(codes, props) > VARINT_MAX {
        (Err(MQTTError::PayloadTooLong), seq![spec_first_byte(h)])
    } else {
        let w = spec_write_properties(AckProperties::spec_entries(props));
        match w.0 {
            Err(e) => (Err(e), spec_header_bytes(h) + be16(pkid) + w.1),
            Ok(_) => (Ok(()), spec_header_bytes(h) + be16(pkid) + w.1 + unsuback_codes_bytes(codes)),
        }
    }
}

/// Reading reason codes up to the end of the input; a byte that is no
/// reason code of this packet is `UnknownData`.
pub open spec fn parse_unsuback_codes(s: Seq<u8>) -> Parsed<Seq<UnSubAckReasonCode>>
    decreases s.len(),
{
    if s.len() == 0 {
        (Ok(Seq::empty()), 0)
    } else {
        match UnSubAckReasonCode::spec_from_code(s[0]) {
            None => (Err(MQTTError::UnknownData(s[0] as u16)), 1),
            Some(c) => match parse_unsuback_codes(s.skip(1)) {
                (Err(e), n) => (Err(e), 1 + n),
                (Ok(cs), n) => (Ok(seq![c] + cs), 1 + n),
            },
        }
    }
}

/// Reading the body of the packet (after its fixed header): the packet
/// identifier, the properties, then reason codes to the end of the input.
pub open spec fn parse_unsuback(s: Seq<u8>) -> Parsed<(u16, AckPropertiesV, Seq<UnSubAckReasonCode>)> {
    match parse_u16(s) {
        (Err(e), n) => (Err(e), n),
        (Ok(pkid), _) => match parse_properties::<AckProperties>(s.skip(2), "") {
            (Err(e), k) => (Err(e), 2 + k),
            (Ok(props), k) => match parse_unsuback_codes(s.skip((2 + k) as int)) {
                (Err(e), j) => (Err(e), 2 + k + j),
                (Ok(codes), j) => (Ok((pkid, props, codes)), 2 + k + j),
            },
        },
    }
}

proof fn lemma_parse_codes_len(s: Seq<u8>)
    ensures
        parse_unsuback_codes(s).1 <= s.len(),
    decreases s.len(),
{
    if s.len() > 0 {
        lemma_parse_codes_len(s.skip(1));
    }
}

/// Reading written reason codes gives them back.
proof fn lemma_codes_roundtrip(codes: Seq<UnSubAckReasonCode>)
    ensures
        parse_unsuback_codes(unsuback_codes_bytes(codes)) == (Ok::<Seq<UnSubAckReasonCode>, MQTTError>(codes), codes.len()),
    decreases codes.len(),
{
    let b = unsuback_codes_bytes(codes);
    if codes.len() > 0 {
        UnSubAckReasonCode::lemma_code_roundtrip(codes[0]);
        assert(b.skip(1) =~= unsuback_codes_bytes(codes.drop_first()));
        lemma_codes_roundtrip(codes.drop_first());
        assert(seq![codes[0]] + codes.drop_first() =~= codes);
    } else {
        assert(b.len() == 0);
        assert(codes =~= Seq::<UnSubAckReasonCode>::empty());
    }
}

/// Reads reason codes until the input is empty.
fn read_codes(buf: &mut Bytes) -> (r: Result<Vec<UnSubAckReasonCode>, MQTTError>)
    ensures
        match (r, parse_unsuback_codes(bytes_view(*old(buf))).0) {
            (Ok(v), Ok(cs)) => v@ == cs,
            (Err(e), Err(f)) => e == f,
            _ => false,
        },
        bytes_view(*final(buf)) == bytes_view(*old(buf)).skip(parse_unsuback_codes(bytes_view(*old(buf))).1 as int),
{
    let ghost s = bytes_view(*buf);
    let mut codes: Vec<UnSubAckReasonCode> = Vec::new();
    let ghost mut n: nat = 0;
    assert(s.skip(0) =~= s);
    while bytes_len(buf) > 0
        invariant
            s == bytes_view(*old(buf)),
            n <= s.len(),
            bytes_view(*buf) == s.skip(n as int),
            match parse_unsuback_codes(s.skip(n as int)) {
                (Ok(rest), m) => parse_unsuback_codes(s) == (Ok::<Seq<UnSubAckReasonCode>, MQTTError>(codes@ + rest), n + m),
                (Err(e), m) => parse_unsuback_codes(s) == (Err::<Seq<UnSubAckReasonCode>, MQTTError>(e), n + m),
            },
        decreases s.len() - n,
    {
        let ghost cur = bytes_view(*buf);
        let b = match read_u8(buf) {
            Ok(b) => b,
            Err(e) => return Err(e),
        };
        assert(cur.skip(1) =~= s.skip((n + 1) as int));
        match UnSubAckReasonCode::from_code(b) {
            Some(c) => {
                proof {
                    match parse_unsuback_codes(cur.skip(1)) {
                        (Ok(rest), m) => {
                            assert(codes@.push(c) + rest =~= codes@ + (seq![c] + rest));
                        },
                        (Err(e), m) => {},
                    }
                }
                codes.push(c);
                proof {
                    n = n + 1;
                }
            },
            None => {
                assert(parse_unsuback_codes(cur) == (Err::<Seq<UnSubAckReasonCode>, MQTTError>(MQTTError::UnknownData(b as u16)), 1nat));
                return Err(MQTTError::UnknownData(b as u16));
            },
        }
    }
    assert(codes@ + Seq::<UnSubAckReasonCode>::empty() =~= codes@);
    Ok(codes)
}

impl UnSubAck {
    /// The Remaining Length.
    pub fn length(&self) -> (r: usize)
        requires
            unsuback_remaining_length(self.payload@, self.properties@) <= usize::MAX,
        ensures
            r == unsuback_remaining_length(self.payload@, self.properties@),
    {
        let pl = self.properties.length();
        2 + self.payload.len() + pl + variable_length(pl)
    }

    /// Writes the fixed header, the packet identifier, the properties and the reason codes.
    pub fn write(&self, buf: &mut BytesMut) -> (r: Result<(), MQTTError>)
        requires
            bytes_mut_view(*old(buf)).len() + unsuback_remaining_length(self.payload@, self.properties@) + 12 <= isize::MAX,
        ensures
            r == spec_write_unsuback(self.packet_identifier, self.payload@, self.properties@).0,
            bytes_mut_view(*final(buf)) == bytes_mut_view(*old(buf)) + spec_write_unsuback(
                self.packet_identifier,
                self.payload@,
                self.properties@,
            ).1,
    {
        let ghost start = bytes_mut_view(*buf);
        let len = self.length();
        proof {
            if len <= VARINT_MAX {
                lemma_varint_len(len as nat);
            }
            lemma_write_properties_bound(AckProperties::spec_entries(self.properties@));
        }
        if let Err(e) = FixedHeader::new(PacketType::UnSubAck, 0, len).write(buf) {
            return Err(e);
        }
        write_u16(buf, self.packet_identifier);
        let r = self.properties.write(buf);
        if r.is_err() {
            return r;
        }
        let ghost mid = bytes_mut_view(*buf);
        let mut i: usize = 0;
        while i < self.payload.len()
            invariant
                i <= self.payload.len(),
                bytes_mut_view(*buf) == mid + unsuback_codes_bytes(self.payload@.take(i as int)),
                mid.len() + self.payload.len() <= isize::MAX,
            decreases self.payload.len() - i,
        {
            write_u8(buf, self.payload[i].code());
            assert(unsuback_codes_bytes(self.payload@.take(i + 1)) =~= unsuback_codes_bytes(self.payload@.take(i as int)).push(
                self.payload@[i as int].spec_code(),
            ));
            i = i + 1;
        }
        assert(self.payload@.take(i as int) =~= self.payload@);
        Ok(())
    }

    /// Reads the body of the packet (after its fixed header) up to the end of `buf`.
    pub fn read(buf: &mut Bytes) -> (r: Result<Self, MQTTError>)
        ensures
            match (r, parse_unsuback(bytes_view(*old(buf))).0) {
                (Ok(p), Ok((pkid, props, codes))) => p.packet_identifier == pkid && p.properties@ == props
                    && p.payload@ == codes,
                (Err(e), Err(f)) => e == f,
                _ => false,
            },
            bytes_view(*final(buf)) == bytes_view(*old(buf)).skip(parse_unsuback(bytes_view(*old(buf))).1 as int),
    {
        let ghost s = bytes_view(*buf);
        let packet_identifier = match read_u16(buf) {
            Ok(v) => v,
            Err(e) => return Err(e),
        };
        let ghost s1 = bytes_view(*buf);
        proof {
            lemma_parse_properties_len::<AckProperties>(s1, "");
        }
        let properties = match AckProperties::read(buf) {
            Ok(p) => p,
            Err(e) => {
                assert(bytes_view(*buf) =~= s.skip((2 + parse_properties::<AckProperties>(s1, "").1) as int));
                return Err(e);
            },
        };
        let ghost k = parse_properties::<AckProperties>(s1, "").1;
        assert(bytes_view(*buf) =~= s.skip((2 + k) as int));
        let ghost s2 = bytes_view(*buf);
        proof {
            lemma_parse_codes_len(s2);
        }
        let payload = match read_codes(buf) {
            Ok(v) => v,
            Err(e) => {
                assert(bytes_view(*buf) =~= s.skip((2 + k + parse_unsuback_codes(s2).1) as int));
                return Err(e);
            },
        };
        assert(bytes_view(*buf) =~= s.skip((2 + k + parse_unsuback_codes(s2).1) as int));
        Ok(UnSubAck { packet_identifier, payload, properties })
    }

    /// Reading a written packet gives it back: its fixed header, then its
    /// body, which takes every byte after the header.
    #[verifier::spinoff_prover]
    #[verifier::rlimit(60)]
    pub proof fn lemma_write_read(pkid: u16, codes: Seq<UnSubAckReasonCode>, props: AckPropertiesV)
        requires
            entries_fit(AckProperties::spec_entries(props)),
            entries_size(AckProperties::spec_entries(props)) <= VARINT_MAX,
            unsuback_remaining_length(codes, props) <= VARINT_MAX,
        ensures
            ({
                let (r, b) = spec_write_unsuback(pkid, codes, props);
                let rl = unsuback_remaining_length(codes, props);
                let hn = 1 + varint(rl).len();
                &&& r == Ok::<(), MQTTError>(())
                &&& parse_fixed_header(b) == (Ok::<FixedHeader, MQTTError>(
                    FixedHeader { header_len: varint(rl).len() as usize, ..unsuback_header(codes, props) },
                ), hn)
                &&& b.len() == hn + rl
                &&& parse_unsuback(b.skip(hn as int)) == (Ok::<(u16, AckPropertiesV, Seq<UnSubAckReasonCode>), MQTTError>(
                    (pkid, props, codes),
                ), rl)
            }),
    {
        let h = unsuback_header(codes, props);
        let rl = unsuback_remaining_length(codes, props);
        let ps = AckProperties::spec_entries(props);
        let w = spec_write_properties(ps).1;
        let cb = unsuback_codes_bytes(codes);
        lemma_varint_len(rl);
        lemma_varint_len(entries_size(ps));
        AckProperties::lemma_entries_merge(props);
        lemma_properties_roundtrip::<AckProperties>(props, cb, "");
        lemma_write_properties_len(ps);
        assert(header_fits(h));
        let body = be16(pkid) + w + cb;
        assert(spec_write_unsuback(pkid, codes, props).1 =~= spec_header_bytes(h) + body);
        lemma_fixed_header_roundtrip(h, body);
        let hn = 1 + varint(rl).len();
        assert(spec_write_unsuback(pkid, codes, props).1.skip(hn as int) =~= body);
        lemma_u16_roundtrip(pkid, w + cb);
        assert(body =~= be16(pkid) + (w + cb));
        assert(body.skip(2) =~= w + cb);
        assert((w + cb).skip(w.len() as int) =~= cb);
        assert(body.skip((2 + w.len()) as int) =~= cb);
        lemma_codes_roundtrip(codes);
    }
}

impl Default for UnSubAck {
    fn default() -> (r: Self)
        ensures
            r.packet_identifier == 0,
            r.payload@ == Seq::<UnSubAckReasonCode>::empty(),
            r.properties@ == AckProperties::spec_empty(),
    {
        UnSubAck { packet_identifier: 0, payload: Vec::new(), properties: AckProperties::empty() }
    }
}

/// A UNSUBACK goes out as its fixed header, then the packet identifier (most
/// significant byte first), the properties, and one reason code byte per
/// entry, in order.
pub proof fn lemma_unsuback_layout(pkid: u16, codes: Seq<UnSubAckReasonCode>, props: AckPropertiesV)
    ensures
        spec_write_unsuback(pkid, codes, props).0 is Ok ==> {
            let b = spec_write_unsuback(pkid, codes, props).1;
            let hn = 1 + varint(unsuback_remaining_length(codes, props)).len();
            let w = spec_write_properties(AckProperties::spec_entries(props)).1;
            &&& b.take(hn as int) == spec_header_bytes(unsuback_header(codes, props))
            &&& b.skip(hn as int).take(2) == seq![(pkid / 256) as u8, (pkid % 256) as u8]
            &&& b.skip(hn as int).subrange(2, 2 + w.len() as int) == w
            &&& b.len() == hn + 2 + w.len() + codes.len()
            &&& forall|i: int| 0 <= i < codes.len() ==> b[hn + 2 + w.len() + i] == #[trigger] codes[i].spec_code()
        },
{
    let b = spec_write_unsuback(pkid, codes, props).1;
    let h = unsuback_header(codes, props);
    let hn = 1 + varint(unsuback_remaining_length(codes, props)).len();
    let w = spec_write_properties(AckProperties::spec_entries(props)).1;
    if spec_write_unsuback(pkid, codes, props).0 is Ok {
        assert(spec_header_bytes(h).len() == hn);
        assert(b =~= spec_header_bytes(h) + seq![(pkid / 256) as u8, (pkid % 256) as u8] + w + unsuback_codes_bytes(codes));
        assert(b.take(hn as int) =~= spec_header_bytes(h));
        assert(b.skip(hn as int).take(2) =~= seq![(pkid / 256) as u8, (pkid % 256) as u8]);
        assert(b.skip(hn as int).subrange(2, 2 + w.len() as int) =~= w);
        assert forall|i: int| 0 <= i < codes.len() implies b[hn + 2 + w.len() + i] == #[trigger] codes[i].spec_code() by {
            assert(unsuback_codes_bytes(codes)[i] == codes[i].spec_code());
        }
    }
}

} // verus!
