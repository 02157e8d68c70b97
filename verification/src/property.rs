//! A single MQTT 5 property (section 2.2.2.2): an identifier byte, then a
//! value whose representation the identifier fixes.
use bytes::{Bytes, BytesMut};
use vstd::prelude::*;
use vstd::utf8::encode_utf8;

use crate::buffer::{bytes_as_slice, bytes_len, bytes_mut_view, bytes_view};
use crate::codec::{
    binary_field, be16, be32, lemma_binary_roundtrip, lemma_u16_roundtrip, lemma_u32_roundtrip,
    lemma_utf8_roundtrip, parse_binary, parse_u16, parse_u32, parse_u8, parse_utf8, read_binary,
    read_string, read_u16, read_u32, read_u8, utf8_field, utf8_fits, utf8_len, write_binary,
    write_string, write_u16, write_u32, write_u8, Parsed,
};
use crate::error::MQTTError;
use crate::varint::{
    decode_variable_integer, encode_variable_integer, lemma_varint_len, lemma_varint_roundtrip,
    parse_varint, spec_variable_length, variable_length, varint, VARINT_MAX,
};

verus! {

broadcast use vstd::utf8::group_utf8_lib;

pub const PAYLOAD_FORMAT_INDICATOR: u8 = 1;
pub const MESSAGE_EXPIRY_INTERVAL: u8 = 2;
pub const CONTENT_TYPE: u8 = 3;
pub const RESPONSE_TOPIC: u8 = 8;
pub const CORRELATION_DATA: u8 = 9;
pub const SUBSCRIPTION_IDENTIFIER: u8 = 11;
pub const SESSION_EXPIRY_INTERVAL: u8 = 17;
pub const ASSIGNED_CLIENT_IDENTIFIER: u8 = 18;
pub const SERVER_KEEP_ALIVE: u8 = 19;
pub const AUTHENTICATION_METHOD: u8 = 21;
pub const AUTHENTICATION_DATA: u8 = 22;
pub const REQUEST_PROBLEM_INFORMATION: u8 = 23;
pub const WILL_DELAY_INTERVAL: u8 = 24;
pub const REQUEST_RESPONSE_INFORMATION: u8 = 25;
pub const RESPONSE_INFORMATION: u8 = 26;
pub const SERVER_REFERENCE: u8 = 28;
pub const REASON_STRING: u8 = 31;
pub const RECEIVE_MAXIMUM: u8 = 33;
pub const TOPIC_ALIAS_MAXIMUM: u8 = 34;
pub const TOPIC_ALIAS: u8 = 35;
pub const MAXIMUM_QOS: u8 = 36;
pub const RETAIN_AVAILABLE: u8 = 37;
pub const USER_PROPERTY: u8 = 38;
pub const MAXIMUM_PACKET_SIZE: u8 = 39;
pub const WILDCARD_SUBSCRIPTION_AVAILABLE: u8 = 40;
pub const SUBSCRIPTION_IDENTIFIER_AVAILABLE: u8 = 41;
pub const SHARED_SUBSCRIPTION_AVAILABLE: u8 = 42;

/// How a property value is represented on the wire.
#[derive(Debug, Clone, Copy, PartialEq, Eq, Structural)]
pub enum PropertyKind {
    Byte,
    TwoByte,
    FourByte,
    VarInt,
    Utf8,
    Binary,
    Pair,
}

/// The representation that identifier `id` uses; `None` for an identifier
/// MQTT 5 does not define.
pub open spec fn spec_kind_of(id: u8) -> Option<PropertyKind> {
    if id == 1 || id == 23 || id == 25 || id == 36 || id == 37 || id == 40 || id == 41 || id == 42 {
        Some(PropertyKind::Byte)
    } else if id == 19 || id == 33 || id == 34 || id == 35 {
        Some(PropertyKind::TwoByte)
    } else if id == 2 || id == 17 || id == 24 || id == 39 {
        Some(PropertyKind::FourByte)
    } else if id == 11 {
        Some(PropertyKind::VarInt)
    } else if id == 3 || id == 8 || id == 18 || id == 21 || id == 26 || id == 28 || id == 31 {
        Some(PropertyKind::Utf8)
    } else if id == 9 || id == 22 {
        Some(PropertyKind::Binary)
    } else if id == 38 {
        Some(PropertyKind::Pair)
    } else {
        None
    }
}

/// The representation of each property's value, as MQTT 5 gives it
/// (section 2.2.2.2): a byte for the payload format indicator (1), request
/// problem information (23), request response information (25), maximum QoS
/// (36), retain available (37) and the three "available" flags (40, 41, 42);
/// two bytes for server keep alive (19), receive maximum (33), topic alias
/// maximum (34) and topic alias (35); four bytes for message expiry (2),
/// session expiry (17), will delay (24) and maximum packet size (39); a
/// Variable Byte Integer for the subscription identifier (11); a string for
/// content type (3), response topic (8), assigned client identifier (18),
/// authentication method (21), response information (26), server reference
/// (28) and reason string (31); binary data for correlation data (9) and
/// authentication data (22); a string pair for a user property (38). No
/// other identifier is a property.
pub proof fn lemma_property_kinds(id: u8)
    ensures
        spec_kind_of(id) == Some(PropertyKind::Byte) <==> (id == 1 || id == 23 || id == 25 || id == 36 || id == 37
            || id == 40 || id == 41 || id == 42),
        spec_kind_of(id) == Some(PropertyKind::TwoByte) <==> (id == 19 || id == 33 || id == 34 || id == 35),
        spec_kind_of(id) == Some(PropertyKind::FourByte) <==> (id == 2 || id == 17 || id == 24 || id == 39),
        spec_kind_of(id) == Some(PropertyKind::VarInt) <==> id == 11,
        spec_kind_of(id) == Some(PropertyKind::Utf8) <==> (id == 3 || id == 8 || id == 18 || id == 21 || id == 26
            || id == 28 || id == 31),
        spec_kind_of(id) == Some(PropertyKind::Binary) <==> (id == 9 || id == 22),
        spec_kind_of(id) == Some(PropertyKind::Pair) <==> id == 38,
{
}

pub fn kind_of(id: u8) -> (r: Option<PropertyKind>)
    ensures
        r == spec_kind_of(id),
{
    if id == 1 || id == 23 || id == 25 || id == 36 || id == 37 || id == 40 || id == 41 || id == 42 {
        Some(PropertyKind::Byte)
    } else if id == 19 || id == 33 || id == 34 || id == 35 {
        Some(PropertyKind::TwoByte)
    } else if id == 2 || id == 17 || id == 24 || id == 39 {
        Some(PropertyKind::FourByte)
    } else if id == 11 {
        Some(PropertyKind::VarInt)
    } else if id == 3 || id == 8 || id == 18 || id == 21 || id == 26 || id == 28 || id == 31 {
        Some(PropertyKind::Utf8)
    } else if id == 9 || id == 22 {
        Some(PropertyKind::Binary)
    } else if id == 38 {
        Some(PropertyKind::Pair)
    } else {
        None
    }
}

/// A property value.
#[derive(Debug, Clone, PartialEq, Eq)]
pub enum PropertyValue {
    Byte(u8),
    TwoByte(u16),
    FourByte(u32),
    VarInt(usize),
    Utf8(String),
    Binary(Bytes),
    Pair(String, String),
}

/// The mathematical value of a property value: strings as characters, binary data as bytes.
pub enum ValueV {
    Byte(u8),
    TwoByte(u16),
    FourByte(u32),
    VarInt(usize),
    Utf8(Seq<char>),
    Binary(Seq<u8>),
    Pair(Seq<char>, Seq<char>),
}

impl View for PropertyValue {
    type V = ValueV;

    open spec fn view(&self) -> ValueV {
        match self {
            PropertyValue::Byte(b) => ValueV::Byte(*b),
            PropertyValue::TwoByte(v) => ValueV::TwoByte(*v),
            PropertyValue::FourByte(v) => ValueV::FourByte(*v),
            PropertyValue::VarInt(v) => ValueV::VarInt(*v),
            PropertyValue::Utf8(s) => ValueV::Utf8(s@),
            PropertyValue::Binary(b) => ValueV::Binary(bytes_view(*b)),
            PropertyValue::Pair(k, v) => ValueV::Pair(k@, v@),
        }
    }
}

/// A property: its identifier and its value.
#[derive(Debug, Clone, PartialEq, Eq)]
pub struct Property {
    pub id: u8,
    pub value: PropertyValue,
}

/// The mathematical value of a property.
pub type PropertyV = (u8, ValueV);

impl View for Property {
    type V = PropertyV;

    open spec fn view(&self) -> PropertyV {
        (self.id, self.value@)
    }
}

pub open spec fn value_kind(v: ValueV) -> PropertyKind {
    match v {
        ValueV::Byte(_) => PropertyKind::Byte,
        ValueV::TwoByte(_) => PropertyKind::TwoByte,
        ValueV::FourByte(_) => PropertyKind::FourByte,
        ValueV::VarInt(_) => PropertyKind::VarInt,
        ValueV::Utf8(_) => PropertyKind::Utf8,
        ValueV::Binary(_) => PropertyKind::Binary,
        ValueV::Pair(_, _) => PropertyKind::Pair,
    }
}

/// The encoding of a value.
pub open spec fn value_bytes(v: ValueV) -> Seq<u8> {
    match v {
        ValueV::Byte(b) => seq![b],
        ValueV::TwoByte(x) => be16(x),
        ValueV::FourByte(x) => be32(x),
        ValueV::VarInt(n) => varint(n as nat),
        ValueV::Utf8(s) => utf8_field(s),
        ValueV::Binary(b) => binary_field(b),
        ValueV::Pair(k, x) => utf8_field(k) + utf8_field(x),
    }
}

/// The encoding of a property: identifier, then value.
pub open spec fn property_bytes(p: PropertyV) -> Seq<u8> {
    seq![p.0] + value_bytes(p.1)
}

/// The number of bytes a property is counted as (the length that the
/// property lengths of the packets add up). It is the length of its encoding
/// whenever the property fits.
pub open spec fn property_size(p: PropertyV) -> nat {
    match p.1 {
        ValueV::VarInt(n) => 1 + spec_variable_length(n as nat),
        _ => property_bytes(p).len(),
    }
}

/// A property that reads back as itself: the identifier fixes the value's
/// representation, strings and binary data fit a two byte length, and a
/// Variable Byte Integer fits its four bytes.
pub open spec fn property_fits(p: PropertyV) -> bool {
    &&& spec_kind_of(p.0) == Some(value_kind(p.1))
    &&& match p.1 {
        ValueV::VarInt(n) => n <= VARINT_MAX,
        ValueV::Utf8(s) => utf8_fits(s),
        ValueV::Binary(b) => b.len() <= 65535,
        ValueV::Pair(k, x) => utf8_fits(k) && utf8_fits(x),
        _ => true,
    }
}

/// Parsing a value of the given representation.
pub open spec fn parse_value(kind: PropertyKind, s: Seq<u8>) -> Parsed<ValueV> {
    match kind {
        PropertyKind::Byte => match parse_u8(s) {
            (Ok(b), n) => (Ok(ValueV::Byte(b)), n),
            (Err(e), n) => (Err(e), n),
        },
        PropertyKind::TwoByte => match parse_u16(s) {
            (Ok(x), n) => (Ok(ValueV::TwoByte(x)), n),
            (Err(e), n) => (Err(e), n),
        },
        PropertyKind::FourByte => match parse_u32(s) {
            (Ok(x), n) => (Ok(ValueV::FourByte(x)), n),
            (Err(e), n) => (Err(e), n),
        },
        PropertyKind::VarInt => match parse_varint(s) {
            (Ok((x, _)), n) => (Ok(ValueV::VarInt(x)), n),
            (Err(e), n) => (Err(e), n),
        },
        PropertyKind::Utf8 => match parse_utf8(s) {
            (Ok(x), n) => (Ok(ValueV::Utf8(x)), n),
            (Err(e), n) => (Err(e), n),
        },
        PropertyKind::Binary => match parse_binary(s) {
            (Ok(x), n) => (Ok(ValueV::Binary(x)), n),
            (Err(e), n) => (Err(e), n),
        },
        PropertyKind::Pair => match parse_utf8(s) {
            (Err(e), n) => (Err(e), n),
            (Ok(k), n) => match parse_utf8(s.skip(n as int)) {
                (Err(e), m) => (Err(e), n + m),
                (Ok(x), m) => (Ok(ValueV::Pair(k, x)), n + m),
            },
        },
    }
}

/// Parsing a property: the identifier, then a value of the representation it fixes.
pub open spec fn parse_property(s: Seq<u8>) -> Parsed<PropertyV> {
    match parse_u8(s) {
        (Err(e), n) => (Err(e), n),
        (Ok(id), _) => match spec_kind_of(id) {
            None => (Err(MQTTError::UnknownProperty(id)), 1),
            Some(kind) => match parse_value(kind, s.skip(1)) {
                (Err(e), n) => (Err(e), 1 + n),
                (Ok(v), n) => (Ok((id, v)), 1 + n),
            },
        },
    }
}

/// Reading a written value of its own representation gives it back and
/// takes exactly its bytes.
#[verifier::spinoff_prover]
#[verifier::rlimit(60)]
proof fn lemma_value_roundtrip(v: ValueV, rest: Seq<u8>)
    requires
        match v {
            ValueV::VarInt(n) => n <= VARINT_MAX,
            ValueV::Utf8(s) => utf8_fits(s),
            ValueV::Binary(b) => b.len() <= 65535,
            ValueV::Pair(k, x) => utf8_fits(k) && utf8_fits(x),
            _ => true,
        },
    ensures
        parse_value(value_kind(v), value_bytes(v) + rest) == (Ok::<ValueV, MQTTError>(v), value_bytes(v).len()),
        v matches ValueV::VarInt(n) ==> value_bytes(v).len() == spec_variable_length(n as nat),
{
    match v {
        ValueV::Byte(b) => {
            assert((seq![b] + rest)[0] == b);
        },
        ValueV::TwoByte(x) => {
            lemma_u16_roundtrip(x, rest);
        },
        ValueV::FourByte(x) => {
            lemma_u32_roundtrip(x, rest);
        },
        ValueV::VarInt(n) => {
            lemma_varint_roundtrip(n as nat, rest);
            lemma_varint_len(n as nat);
        },
        ValueV::Utf8(c) => {
            lemma_utf8_roundtrip(c, rest);
        },
        ValueV::Binary(b) => {
            lemma_binary_roundtrip(b, rest);
        },
        ValueV::Pair(k, x) => {
            assert(value_bytes(v) + rest =~= utf8_field(k) + (utf8_field(x) + rest));
            lemma_utf8_roundtrip(k, utf8_field(x) + rest);
            assert((utf8_field(k) + (utf8_field(x) + rest)).skip(utf8_field(k).len() as int)
                =~= utf8_field(x) + rest);
            lemma_utf8_roundtrip(x, rest);
        },
    }
}

/// Reading a written property gives back the property and takes exactly its bytes.
#[verifier::spinoff_prover]
#[verifier::rlimit(40)]
pub proof fn lemma_property_roundtrip(p: PropertyV, rest: Seq<u8>)
    requires
        property_fits(p),
    ensures
        parse_property(property_bytes(p) + rest) == (Ok::<PropertyV, MQTTError>(p), property_bytes(
            p,
        ).len()),
        property_size(p) == property_bytes(p).len(),
{
    let s = property_bytes(p) + rest;
    assert(s[0] == p.0);
    assert(s.skip(1) =~= value_bytes(p.1) + rest);
    lemma_value_roundtrip(p.1, rest);
}

impl Property {
    /// The number of bytes the property is counted as.
    pub fn length(&self) -> (r: usize)
        requires
            property_size(self@) <= usize::MAX,
        ensures
            r == property_size(self@),
    {
        match &self.value {
            PropertyValue::Byte(_) => 2,
            PropertyValue::TwoByte(_) => 3,
            PropertyValue::FourByte(_) => 5,
            PropertyValue::VarInt(n) => 1 + variable_length(*n),
            PropertyValue::Utf8(s) => 3 + utf8_len(s),
            PropertyValue::Binary(b) => 3 + bytes_len(b),
            PropertyValue::Pair(k, v) => 5 + utf8_len(k) + utf8_len(v),
        }
    }

    /// Writes the identifier, then the value. A Variable Byte Integer value
    /// above 268,435,455 is refused with `PayloadTooLong` after the identifier.
    pub fn write(&self, buf: &mut BytesMut) -> (r: Result<(), MQTTError>)
        requires
            bytes_mut_view(*old(buf)).len() + property_size(self@) <= isize::MAX,
        ensures
            (match self.value {
                PropertyValue::VarInt(n) => n > VARINT_MAX,
                _ => false,
            }) ==> r == Err::<(), MQTTError>(MQTTError::PayloadTooLong) && bytes_mut_view(
                *final(buf),
            ) == bytes_mut_view(*old(buf)).push(self.id),
            !(match self.value {
                PropertyValue::VarInt(n) => n > VARINT_MAX,
                _ => false,
            }) ==> r == Ok::<(), MQTTError>(()) && bytes_mut_view(*final(buf)) == bytes_mut_view(
                *old(buf),
            ) + property_bytes(self@),
    {
        let ghost start = bytes_mut_view(*buf);
        write_u8(buf, self.id);
        let ghost mid = bytes_mut_view(*buf);
        match &self.value {
            PropertyValue::Byte(b) => write_u8(buf, *b),
            PropertyValue::TwoByte(v) => write_u16(buf, *v),
            PropertyValue::FourByte(v) => write_u32(buf, *v),
            PropertyValue::VarInt(n) => {
                let r = encode_variable_integer(buf, *n);
                if r.is_err() {
                    return r;
                }
                proof {
                    lemma_varint_len(*n as nat);
                }
            },
            PropertyValue::Utf8(s) => write_string(buf, s),
            PropertyValue::Binary(b) => write_binary(buf, bytes_as_slice(b)),
            PropertyValue::Pair(k, v) => {
                write_string(buf, k);
                write_string(buf, v);
                assert(bytes_mut_view(*buf) =~= mid + (utf8_field(k@) + utf8_field(v@)));
            },
        }
        assert(bytes_mut_view(*buf) =~= start + property_bytes(self@));
        Ok(())
    }

    /// Reads one property off the front of `buf`.
    #[verifier::spinoff_prover]
    #[verifier::rlimit(60)]
    pub fn read(buf: &mut Bytes) -> (r: Result<Property, MQTTError>)
        ensures
            match (r, parse_property(bytes_view(*old(buf))).0) {
                (Ok(p), Ok(v)) => p@ == v,
                (Err(e), Err(f)) => e == f,
                _ => false,
            },
            bytes_view(*final(buf)) == bytes_view(*old(buf)).skip(
                parse_property(bytes_view(*old(buf))).1 as int,
            ),
    {
        let ghost s = bytes_view(*buf);
        let id = match read_u8(buf) {
            Ok(id) => id,
            Err(e) => return Err(e),
        };
        let ghost s1 = bytes_view(*buf);
        assert(s1 == s.skip(1));
        let kind = match kind_of(id) {
            Some(k) => k,
            None => return Err(MQTTError::UnknownProperty(id)),
        };
        let value = match kind {
            PropertyKind::Byte => match read_u8(buf) {
                Ok(b) => PropertyValue::Byte(b),
                Err(e) => {
                    assert(bytes_view(*buf) =~= s.skip(1 + parse_u8(s1).1 as int));
                    return Err(e);
                },
            },
            PropertyKind::TwoByte => match read_u16(buf) {
                Ok(b) => PropertyValue::TwoByte(b),
                Err(e) => {
                    assert(bytes_view(*buf) =~= s.skip(1 + parse_u16(s1).1 as int));
                    return Err(e);
                },
            },
            PropertyKind::FourByte => match read_u32(buf) {
                Ok(b) => PropertyValue::FourByte(b),
                Err(e) => {
                    assert(bytes_view(*buf) =~= s.skip(1 + parse_u32(s1).1 as int));
                    return Err(e);
                },
            },
            PropertyKind::VarInt => match decode_variable_integer(buf) {
                Ok((v, _)) => PropertyValue::VarInt(v),
                Err(e) => {
                    proof {
                        crate::varint::lemma_parse_varint_len(s1);
                    }
                    assert(bytes_view(*buf) =~= s.skip(1 + parse_varint(s1).1 as int));
                    return Err(e);
                },
            },
            PropertyKind::Utf8 => match read_string(buf) {
                Ok(v) => PropertyValue::Utf8(v),
                Err(e) => {
                    proof {
                        lemma_parse_utf8_len(s1);
                    }
                    assert(bytes_view(*buf) =~= s.skip(1 + parse_utf8(s1).1 as int));
                    return Err(e);
                },
            },
            PropertyKind::Binary => match read_binary(buf) {
                Ok(v) => PropertyValue::Binary(v),
                Err(e) => {
                    proof {
                        lemma_parse_utf8_len(s1);
                    }
                    assert(bytes_view(*buf) =~= s.skip(1 + parse_binary(s1).1 as int));
                    return Err(e);
                },
            },
            PropertyKind::Pair => {
                proof {
                    lemma_parse_utf8_len(s1);
                }
                let k = match read_string(buf) {
                    Ok(v) => v,
                    Err(e) => {
                        assert(bytes_view(*buf) =~= s.skip(1 + parse_utf8(s1).1 as int));
                        return Err(e);
                    },
                };
                let ghost s2 = bytes_view(*buf);
                proof {
                    lemma_parse_utf8_len(s2);
                }
                let v = match read_string(buf) {
                    Ok(v) => v,
                    Err(e) => {
                        assert(bytes_view(*buf) =~= s.skip(
                            1 + parse_utf8(s1).1 + parse_utf8(s2).1 as int,
                        ));
                        return Err(e);
                    },
                };
                assert(bytes_view(*buf) =~= s.skip(1 + parse_utf8(s1).1 + parse_utf8(s2).1 as int));
                PropertyValue::Pair(k, v)
            },
        };
        proof {
            lemma_parse_value_len(kind, s1);
        }
        assert(bytes_view(*buf) =~= s.skip(1 + parse_value(kind, s1).1 as int));
        Ok(Property { id, value })
    }
}

/// A string or binary parse takes no more bytes than there are.
pub proof fn lemma_parse_utf8_len(s: Seq<u8>)
    ensures
        parse_utf8(s).1 <= s.len(),
        parse_binary(s).1 <= s.len(),
        parse_utf8(s).1 == parse_binary(s).1,
{
}

/// A value parse takes no more bytes than there are.
pub proof fn lemma_parse_value_len(kind: PropertyKind, s: Seq<u8>)
    ensures
        parse_value(kind, s).1 <= s.len(),
{
    crate::varint::lemma_parse_varint_len(s);
    lemma_parse_utf8_len(s);
    if kind == PropertyKind::Pair {
        if let (Ok(_), n) = parse_utf8(s) {
            lemma_parse_utf8_len(s.skip(n as int));
        }
    }
}

/// A property parse takes no more bytes than there are, and at least one when it succeeds.
pub proof fn lemma_parse_property_len(s: Seq<u8>)
    ensures
        parse_property(s).1 <= s.len(),
        parse_property(s).0 is Ok ==> parse_property(s).1 >= 1,
{
    if s.len() >= 1 {
        if let Some(kind) = spec_kind_of(s[0]) {
            lemma_parse_value_len(kind, s.skip(1));
            crate::varint::lemma_parse_varint_len(s.skip(1));
        }
    }
}

} // verus!
