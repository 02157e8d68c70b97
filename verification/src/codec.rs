//! The MQTT data representations of section 1.5: one, two and four byte
//! integers, UTF-8 encoded strings and binary data, each with its encoding,
//! its parse, and the proof that a parse gives back what an encoding wrote.
use std::string::FromUtf8Error;

use bytes::{Bytes, BytesMut};
use vstd::prelude::*;
use vstd::utf8::*;

use crate::buffer::{
    bytes_as_slice, bytes_get_u16, bytes_get_u32, bytes_get_u8, bytes_len, bytes_mut_extend, bytes_mut_len, bytes_mut_new,
    bytes_mut_put_u16, bytes_mut_put_u32, bytes_mut_put_u8, bytes_mut_view, bytes_split_to, bytes_view,
};
use crate::error::MQTTError;

verus! {

broadcast use vstd::utf8::group_utf8_lib;

/// What a parse gives: the outcome, and how many bytes it took off the front
/// of the input (on failure too).
pub type Parsed<T> = (Result<T, MQTTError>, nat);

/// Two Byte Integer: big-endian.
pub open spec fn be16(v: u16) -> Seq<u8> {
    seq![(v / 256) as u8, (v % 256) as u8]
}

/// Four Byte Integer: big-endian.
pub open spec fn be32(v: u32) -> Seq<u8> {
    seq![(v / 16777216) as u8, (v / 65536 % 256) as u8, (v / 256 % 256) as u8, (v % 256) as u8]
}

/// UTF-8 Encoded String: the byte length as a Two Byte Integer (taken modulo
/// 2^16, as the writer does), then the UTF-8 bytes.
pub open spec fn utf8_field(s: Seq<char>) -> Seq<u8> {
    be16((encode_utf8(s).len() % 65536) as u16) + encode_utf8(s)
}

/// Binary Data: the length as a Two Byte Integer (modulo 2^16), then the bytes.
pub open spec fn binary_field(b: Seq<u8>) -> Seq<u8> {
    be16((b.len() % 65536) as u16) + b
}

/// A string can be written so that it reads back: it fits a two byte length.
pub open spec fn utf8_fits(s: Seq<char>) -> bool {
    encode_utf8(s).len() <= 65535
}

pub open spec fn parse_u8(s: Seq<u8>) -> Parsed<u8> {
    if s.len() < 1 {
        (Err(MQTTError::IncompleteData("u8", 1, 0)), 0)
    } else {
        (Ok(s[0]), 1)
    }
}

pub open spec fn parse_u16(s: Seq<u8>) -> Parsed<u16> {
    if s.len() < 2 {
        (Err(MQTTError::IncompleteData("u16", 2, s.len() as usize)), 0)
    } else {
        (Ok((s[0] * 256 + s[1]) as u16), 2)
    }
}

pub open spec fn parse_u32(s: Seq<u8>) -> Parsed<u32> {
    if s.len() < 4 {
        (Err(MQTTError::IncompleteData("u32", 4, s.len() as usize)), 0)
    } else {
        (Ok((s[0] * 16777216 + s[1] * 65536 + s[2] * 256 + s[3]) as u32), 4)
    }
}

/// The length prefix, then that many bytes.
pub open spec fn parse_binary(s: Seq<u8>) -> Parsed<Seq<u8>> {
    match parse_u16(s) {
        (Err(e), n) => (Err(e), n),
        (Ok(len), _) => if s.len() - 2 < len {
            (Err(MQTTError::IncompleteData("binary", len as usize, (s.len() - 2) as usize)), 2)
        } else {
            (Ok(s.subrange(2, 2 + len)), (2 + len) as nat)
        },
    }
}

/// The length prefix, then that many bytes, which must be valid UTF-8.
pub open spec fn parse_utf8(s: Seq<u8>) -> Parsed<Seq<char>> {
    match parse_binary(s) {
        (Err(e), n) => (Err(e), n),
        (Ok(b), n) => if valid_utf8(b) {
            (Ok(decode_utf8(b)), n)
        } else {
            (Err(MQTTError::Utf8Error(utf8_error(b))), n)
        },
    }
}

/// Reading a two byte integer gives back what was written.
pub proof fn lemma_u16_roundtrip(v: u16, rest: Seq<u8>)
    ensures
        parse_u16(be16(v) + rest) == (Ok::<u16, MQTTError>(v), 2nat),
{
    let s = be16(v) + rest;
    assert(s[0] == (v / 256) as u8 && s[1] == (v % 256) as u8);
}

/// Reading a four byte integer gives back what was written.
pub proof fn lemma_u32_roundtrip(v: u32, rest: Seq<u8>)
    ensures
        parse_u32(be32(v) + rest) == (Ok::<u32, MQTTError>(v), 4nat),
{
    let s = be32(v) + rest;
    assert(s[0] == (v / 16777216) as u8);
    assert(s[1] == (v / 65536 % 256) as u8);
    assert(s[2] == (v / 256 % 256) as u8);
    assert(s[3] == (v % 256) as u8);
}

/// Reading binary data gives back what was written, when it fits the length prefix.
pub proof fn lemma_binary_roundtrip(b: Seq<u8>, rest: Seq<u8>)
    requires
        b.len() <= 65535,
    ensures
        parse_binary(binary_field(b) + rest) == (Ok::<Seq<u8>, MQTTError>(b), 2 + b.len()),
{
    let len = (b.len() % 65536) as u16;
    let s = binary_field(b) + rest;
    assert(s == be16(len) + (b + rest));
    lemma_u16_roundtrip(len, b + rest);
    assert(s.subrange(2, 2 + b.len() as int) =~= b);
}

/// Reading a string gives back what was written, when it fits the length prefix.
pub proof fn lemma_utf8_roundtrip(c: Seq<char>, rest: Seq<u8>)
    requires
        utf8_fits(c),
    ensures
        parse_utf8(utf8_field(c) + rest) == (Ok::<Seq<char>, MQTTError>(c), 2 + encode_utf8(c).len()),
{
    lemma_binary_roundtrip(encode_utf8(c), rest);
}

#[verifier::external_type_specification]
#[verifier::external_body]
pub struct ExFromUtf8Error(std::string::FromUtf8Error);

/// `<FromUtf8Error as Clone>::clone` (derived by std): an equal error.
pub assume_specification[ <FromUtf8Error as Clone>::clone ](e: &FromUtf8Error) -> (r: FromUtf8Error)
    ensures
        r == *e,
;

/// The error that `String::from_utf8` gives for the bytes `b`: it holds the
/// bytes and where their UTF-8 goes wrong, both fixed by the bytes alone.
pub uninterp spec fn utf8_error(b: Seq<u8>) -> FromUtf8Error;

/// `String::from_utf8`: succeeds exactly on valid UTF-8, and then holds the
/// characters that the bytes encode; on other bytes its error is the one
/// those bytes give.
#[verifier::external_body]
fn string_from_utf8(v: Vec<u8>) -> (r: Result<String, FromUtf8Error>)
    ensures
        r is Ok <==> valid_utf8(v@),
        r matches Ok(s) ==> s@ == decode_utf8(v@),
        r matches Err(e) ==> e == utf8_error(v@),
{
    String::from_utf8(v)
}

/// A new, empty buffer to write packets into.
pub fn new_buffer() -> (r: BytesMut)
    ensures
        bytes_mut_view(r) == Seq::<u8>::empty(),
{
    bytes_mut_new()
}

/// The number of bytes written into `buf` so far, against which the
/// writers' room on the buffer is checked.
pub fn buffer_len(buf: &BytesMut) -> (r: usize)
    ensures
        r == bytes_mut_view(*buf).len(),
{
    bytes_mut_len(buf)
}

/// The byte length of a string's UTF-8 encoding.
pub fn utf8_len(s: &String) -> (r: usize)
    ensures
        r == encode_utf8(s@).len(),
{
    s.as_str().as_bytes().len()
}

pub fn write_u8(buf: &mut BytesMut, v: u8)
    requires
        bytes_mut_view(*old(buf)).len() + 1 <= isize::MAX,
    ensures
        bytes_mut_view(*final(buf)) == bytes_mut_view(*old(buf)).push(v),
{
    bytes_mut_put_u8(buf, v);
}

pub fn write_u16(buf: &mut BytesMut, v: u16)
    requires
        bytes_mut_view(*old(buf)).len() + 2 <= isize::MAX,
    ensures
        bytes_mut_view(*final(buf)) == bytes_mut_view(*old(buf)) + be16(v),
{
    bytes_mut_put_u16(buf, v);
}

pub fn write_u32(buf: &mut BytesMut, v: u32)
    requires
        bytes_mut_view(*old(buf)).len() + 4 <= isize::MAX,
    ensures
        bytes_mut_view(*final(buf)) == bytes_mut_view(*old(buf)) + be32(v),
{
    bytes_mut_put_u32(buf, v);
}

/// Writes `s` as a UTF-8 Encoded String. A string longer than 65535 bytes has
/// its length written modulo 2^16.
pub fn write_string(buf: &mut BytesMut, s: &String)
    requires
        bytes_mut_view(*old(buf)).len() + utf8_field(s@).len() <= isize::MAX,
    ensures
        bytes_mut_view(*final(buf)) == bytes_mut_view(*old(buf)) + utf8_field(s@),
{
    let b = s.as_str().as_bytes();
    let len = b.len();
    bytes_mut_put_u16(buf, (len % 65536) as u16);
    bytes_mut_extend(buf, b);
    assert(bytes_mut_view(*buf) =~= bytes_mut_view(*old(buf)) + utf8_field(s@));
}

/// Writes `b` as Binary Data. More than 65535 bytes have their length written modulo 2^16.
pub fn write_binary(buf: &mut BytesMut, b: &[u8])
    requires
        bytes_mut_view(*old(buf)).len() + binary_field(b@).len() <= isize::MAX,
    ensures
        bytes_mut_view(*final(buf)) == bytes_mut_view(*old(buf)) + binary_field(b@),
{
    let len = b.len();
    bytes_mut_put_u16(buf, (len % 65536) as u16);
    bytes_mut_extend(buf, b);
    assert(bytes_mut_view(*buf) =~= bytes_mut_view(*old(buf)) + binary_field(b@));
}

/// Writes a `Bytes` value as Binary Data.
pub fn write_bytes(buf: &mut BytesMut, b: &Bytes)
    requires
        bytes_mut_view(*old(buf)).len() + binary_field(bytes_view(*b)).len() <= isize::MAX,
    ensures
        bytes_mut_view(*final(buf)) == bytes_mut_view(*old(buf)) + binary_field(bytes_view(*b)),
{
    write_binary(buf, bytes_as_slice(b));
}

pub fn read_u8(buf: &mut Bytes) -> (r: Result<u8, MQTTError>)
    ensures
        r == parse_u8(bytes_view(*old(buf))).0,
        bytes_view(*final(buf)) == bytes_view(*old(buf)).skip(parse_u8(bytes_view(*old(buf))).1 as int),
{
    if bytes_len(buf) < 1 {
        assert(bytes_view(*buf).skip(0) =~= bytes_view(*buf));
        return Err(MQTTError::IncompleteData("u8", 1, 0));
    }
    Ok(bytes_get_u8(buf))
}

pub fn read_u16(buf: &mut Bytes) -> (r: Result<u16, MQTTError>)
    ensures
        r == parse_u16(bytes_view(*old(buf))).0,
        bytes_view(*final(buf)) == bytes_view(*old(buf)).skip(parse_u16(bytes_view(*old(buf))).1 as int),
{
    let len = bytes_len(buf);
    if len < 2 {
        assert(bytes_view(*buf).skip(0) =~= bytes_view(*buf));
        return Err(MQTTError::IncompleteData("u16", 2, len));
    }
    Ok(bytes_get_u16(buf))
}

pub fn read_u32(buf: &mut Bytes) -> (r: Result<u32, MQTTError>)
    ensures
        r == parse_u32(bytes_view(*old(buf))).0,
        bytes_view(*final(buf)) == bytes_view(*old(buf)).skip(parse_u32(bytes_view(*old(buf))).1 as int),
{
    let len = bytes_len(buf);
    if len < 4 {
        assert(bytes_view(*buf).skip(0) =~= bytes_view(*buf));
        return Err(MQTTError::IncompleteData("u32", 4, len));
    }
    Ok(bytes_get_u32(buf))
}

/// Reads Binary Data into a new `Bytes`.
pub fn read_binary(buf: &mut Bytes) -> (r: Result<Bytes, MQTTError>)
    ensures
        match (r, parse_binary(bytes_view(*old(buf))).0) {
            (Ok(b), Ok(v)) => bytes_view(b) == v,
            (Err(e), Err(f)) => e == f,
            _ => false,
        },
        bytes_view(*final(buf)) == bytes_view(*old(buf)).skip(parse_binary(bytes_view(*old(buf))).1 as int),
{
    let ghost s = bytes_view(*buf);
    let len = match read_u16(buf) {
        Ok(len) => len,
        Err(e) => return Err(e),
    };
    let rem = bytes_len(buf);
    if rem < len as usize {
        assert(bytes_view(*buf) =~= s.skip(2));
        return Err(MQTTError::IncompleteData("binary", len as usize, rem));
    }
    let data = bytes_split_to(buf, len as usize);
    assert(bytes_view(data) =~= s.subrange(2, 2 + len));
    assert(bytes_view(*buf) =~= s.skip(2 + len));
    Ok(data)
}

/// Reads a UTF-8 Encoded String.
pub fn read_string(buf: &mut Bytes) -> (r: Result<String, MQTTError>)
    ensures
        match (r, parse_utf8(bytes_view(*old(buf))).0) {
            (Ok(s), Ok(v)) => s@ == v,
            (Err(e), Err(f)) => e == f,
            _ => false,
        },
        bytes_view(*final(buf)) == bytes_view(*old(buf)).skip(parse_utf8(bytes_view(*old(buf))).1 as int),
{
    let data = match read_binary(buf) {
        Ok(d) => d,
        Err(e) => return Err(e),
    };
    let v = vstd::slice::slice_to_vec(bytes_as_slice(&data));
    match string_from_utf8(v) {
        Ok(s) => Ok(s),
        Err(e) => Err(MQTTError::Utf8Error(e)),
    }
}

} // verus!
