//! The fixed header at the start of every control packet (section 2.1):
//! the packet type and its flags in one byte, then the Remaining Length as a
//! Variable Byte Integer.
use bytes::{Bytes, BytesMut};
use vstd::prelude::*;

use crate::buffer::{bytes_get_u8, bytes_len, bytes_mut_put_u8, bytes_mut_view, bytes_view};
use crate::codec::Parsed;
use crate::error::MQTTError;
use crate::packet_type::PacketType;
use crate::varint::{
    decode_variable_integer, encode_variable_integer, lemma_varint_len, lemma_varint_roundtrip,
    parse_varint, varint, VARINT_MAX,
};

verus! {

#[derive(Debug, Clone, Copy, PartialEq, Eq, Structural)]
pub struct FixedHeader {
    pub packet_type: PacketType,
    /// The low four bits of the first byte; `None` when they are all zero.
    pub flags: Option<u8>,
    /// The number of bytes in the Variable Header and the Payload.
    pub remaining_length: usize,
    /// How many bytes the Remaining Length took on the wire (0 for a header built locally).
    pub header_len: usize,
}

/// The flag bits that a header carries, zero when it has none.
pub open spec fn flag_bits(flags: Option<u8>) -> u8 {
    match flags {
        Some(f) => f,
        None => 0,
    }
}

/// The first byte of the header.
pub open spec fn spec_first_byte(h: FixedHeader) -> u8 {
    h.packet_type.spec_code() | flag_bits(h.flags)
}

/// The flags of a first byte: its low four bits, `None` when zero.
pub open spec fn spec_flags_of(b: u8) -> Option<u8> {
    if b & 0x0F != 0 {
        Some(b & 0x0F)
    } else {
        None
    }
}

/// A header that reads back as itself: its flags fit the low four bits (and
/// are not a present zero), its Remaining Length fits a Variable Byte Integer.
pub open spec fn header_fits(h: FixedHeader) -> bool {
    &&& match h.flags {
        Some(f) => 0 < f < 16,
        None => true,
    }
    &&& h.remaining_length <= VARINT_MAX
}

/// The bytes that `write` produces.
pub open spec fn spec_header_bytes(h: FixedHeader) -> Seq<u8> {
    seq![spec_first_byte(h)] + varint(h.remaining_length as nat)
}

/// Parsing a fixed header: at least two bytes, a known packet type in the
/// high nibble, a Remaining Length.
pub open spec fn parse_fixed_header(s: Seq<u8>) -> Parsed<FixedHeader> {
    if s.len() < 2 {
        (Err(MQTTError::InsufficientBytes), 0)
    } else {
        let b = s[0];
        match PacketType::spec_from_code(b & 0xF0) {
            None => (Err(MQTTError::UnknownData((b & 0xF0) as u16)), 1),
            Some(t) => match parse_varint(s.skip(1)) {
                (Err(e), n) => (Err(e), 1 + n),
                (Ok((rl, hl)), n) => (
                    Ok(
                        FixedHeader {
                            packet_type: t,
                            flags: spec_flags_of(b),
                            remaining_length: rl,
                            header_len: hl,
                        },
                    ),
                    1 + n,
                ),
            },
        }
    }
}

proof fn lemma_first_byte_split(c: u8, f: u8)
    requires
        c == 0x10 || c == 0x20 || c == 0x30 || c == 0x40 || c == 0x50 || c == 0x60 || c == 0x70
            || c == 0x80 || c == 0x90 || c == 0xA0 || c == 0xB0 || c == 0xC0 || c == 0xD0 || c
            == 0xE0 || c == 0xF0,
        f < 16,
    ensures
        (c | f) & 0xF0 == c,
        (c | f) & 0x0F == f,
{
    assert((c | f) & 0xF0 == c && (c | f) & 0x0F == f) by (bit_vector)
        requires
            c == 0x10 || c == 0x20 || c == 0x30 || c == 0x40 || c == 0x50 || c == 0x60 || c == 0x70
                || c == 0x80 || c == 0x90 || c == 0xA0 || c == 0xB0 || c == 0xC0 || c == 0xD0 || c
                == 0xE0 || c == 0xF0,
            f < 16,
    ;
}

/// Reading a written header gives back the header, its `header_len` being the
/// length of the written Remaining Length.
pub proof fn lemma_fixed_header_roundtrip(h: FixedHeader, rest: Seq<u8>)
    requires
        header_fits(h),
    ensures
        parse_fixed_header(spec_header_bytes(h) + rest) == (Ok::<FixedHeader, MQTTError>(
            FixedHeader { header_len: varint(h.remaining_length as nat).len() as usize, ..h },
        ), 1 + varint(h.remaining_length as nat).len()),
{
    let s = spec_header_bytes(h) + rest;
    let c = h.packet_type.spec_code();
    let f = flag_bits(h.flags);
    lemma_first_byte_split(c, f);
    PacketType::lemma_code_roundtrip(h.packet_type);
    lemma_varint_len(h.remaining_length as nat);
    lemma_varint_roundtrip(h.remaining_length as nat, rest);
    assert(s.skip(1) =~= varint(h.remaining_length as nat) + rest);
    assert(s[0] == spec_first_byte(h));
}

impl FixedHeader {
    /// A header for a packet about to be written; a zero `flags` is stored as `None`.
    pub fn new(packet_type: PacketType, flags: u8, remaining_length: usize) -> (r: Self)
        ensures
            r.packet_type == packet_type,
            r.flags == (if flags != 0 {
                Some(flags)
            } else {
                None
            }),
            r.remaining_length == remaining_length,
            r.header_len == 0,
    {
        FixedHeader {
            packet_type,
            flags: if flags != 0 {
                Some(flags)
            } else {
                None
            },
            remaining_length,
            header_len: 0,
        }
    }

    /// A copy of the header with `header_len` set.
    pub fn with_len(&self, header_len: usize) -> (r: Self)
        ensures
            r == (FixedHeader { header_len, ..*self }),
    {
        FixedHeader { header_len, ..*self }
    }

    /// The Remaining Length.
    pub fn length(&self) -> (r: usize)
        ensures
            r == self.remaining_length,
    {
        self.remaining_length
    }

    /// Writes the first byte, then the Remaining Length. A Remaining Length
    /// above 268,435,455 is refused with `PayloadTooLong` after the first byte.
    pub fn write(&self, buf: &mut BytesMut) -> (r: Result<(), MQTTError>)
        requires
            bytes_mut_view(*old(buf)).len() + 1 + crate::varint::spec_variable_length(
                self.remaining_length as nat,
            ) <= isize::MAX,
        ensures
            self.remaining_length <= VARINT_MAX ==> r == Ok::<(), MQTTError>(()) && bytes_mut_view(
                *final(buf),
            ) == bytes_mut_view(*old(buf)) + spec_header_bytes(*self),
            self.remaining_length > VARINT_MAX ==> r == Err::<(), MQTTError>(
                MQTTError::PayloadTooLong,
            ) && bytes_mut_view(*final(buf)) == bytes_mut_view(*old(buf)).push(
                spec_first_byte(*self),
            ),
    {
        let f = match self.flags {
            Some(f) => f,
            None => 0,
        };
        bytes_mut_put_u8(buf, self.packet_type.code() | f);
        let r = encode_variable_integer(buf, self.remaining_length);
        assert(bytes_mut_view(*old(buf)).push(spec_first_byte(*self)) + varint(
            self.remaining_length as nat,
        ) =~= bytes_mut_view(*old(buf)) + spec_header_bytes(*self));
        r
    }

    /// Reads a fixed header off the front of `buf`.
    pub fn read(buf: &mut Bytes) -> (r: Result<Self, MQTTError>)
        ensures
            r == parse_fixed_header(bytes_view(*old(buf))).0,
            bytes_view(*final(buf)) == bytes_view(*old(buf)).skip(
                parse_fixed_header(bytes_view(*old(buf))).1 as int,
            ),
    {
        let ghost s = bytes_view(*buf);
        if bytes_len(buf) < 2 {
            assert(s.skip(0) =~= s);
            return Err(MQTTError::InsufficientBytes);
        }
        let byte0 = bytes_get_u8(buf);
        let packet = byte0 & 0xF0;
        let packet_type = match PacketType::from_code(packet) {
            Some(t) => t,
            None => return Err(MQTTError::UnknownData(packet as u16)),
        };
        let ghost s1 = bytes_view(*buf);
        proof {
            crate::varint::lemma_parse_varint_len(s1);
            assert(s1 == s.skip(1));
        }
        let (remaining_length, header_len) = match decode_variable_integer(buf) {
            Ok(v) => v,
            Err(e) => {
                assert(s1.skip(parse_varint(s1).1 as int) =~= s.skip(1 + parse_varint(s1).1 as int));
                return Err(e);
            },
        };
        assert(s1.skip(parse_varint(s1).1 as int) =~= s.skip(1 + parse_varint(s1).1 as int));
        let low = byte0 & 0x0F;
        Ok(FixedHeader {
            packet_type,
            flags: if low != 0 {
                Some(low)
            } else {
                None
            },
            remaining_length,
            header_len,
        })
    }
}

} // verus!
