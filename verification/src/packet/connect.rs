//! CONNECT (section 3.1): the protocol name "MQTT", the protocol version 5,
//! the Connect Flags, the keep alive and the properties in the variable
//! header; the client identifier, the Will, the user name and the password
//! in the payload.
use bytes::{Bytes, BytesMut};
use vstd::prelude::*;
use vstd::utf8::*;

use crate::buffer::{bytes_mut_extend, bytes_mut_view, bytes_view};
use crate::client::options::ConnectOptions;
use crate::codec::{
    be16, lemma_u16_roundtrip, lemma_utf8_roundtrip, parse_u16, parse_u8, parse_utf8, read_string,
    read_u16, read_u8, utf8_field, utf8_fits, utf8_len, write_string, write_u16, write_u8, Parsed,
};
use crate::error::MQTTError;
use crate::fixed_header::{
    header_fits, lemma_fixed_header_roundtrip, parse_fixed_header, spec_first_byte,
    spec_header_bytes, FixedHeader,
};
use crate::packet::connect_flags::ConnectFlags;
use crate::packet::connect_properties::{ConnectProperties, ConnectPropertiesV};
use crate::packet::will::{
    lemma_parse_will_len, lemma_will_roundtrip, lemma_write_will_bound, parse_will, spec_write_will, will_fits, will_length, Will,
    WillV,
};
use crate::packet_type::PacketType;
use crate::properties::{
    entries_fit, entries_size, lemma_parse_properties_len, lemma_write_properties_bound,
    lemma_write_properties_len, parse_properties, spec_write_properties, PropertySet,
};
use crate::property::lemma_parse_utf8_len;
use crate::qos::QoS;
use crate::varint::{lemma_varint_len, spec_variable_length, variable_length, varint, VARINT_MAX};

verus! {

#[derive(Debug, Clone, PartialEq, Eq)]
pub struct Connect {
    /// 3.1.3.1
    pub client_id: String,
    /// 3.1.3.2
    pub will: Option<Will>,
    pub username: Option<String>,
    pub password: Option<String>,
    /// 3.1.2.4
    pub clean_start: bool,
    /// 3.1.2.10
    pub keep_alive: u16,
    /// 3.1.2.11
    pub properties: ConnectProperties,
}

#[verifier::ext_equal]
pub struct ConnectV {
    pub client_id: Seq<char>,
    pub will: Option<WillV>,
    pub username: Option<Seq<char>>,
    pub password: Option<Seq<char>>,
    pub clean_start: bool,
    pub keep_alive: u16,
    pub properties: ConnectPropertiesV,
}

pub open spec fn opt_will(o: Option<Will>) -> Option<WillV> {
    match o {
        Some(w) => Some(w@),
        None => None,
    }
}

pub open spec fn opt_chars(o: Option<String>) -> Option<Seq<char>> {
    match o {
        Some(s) => Some(s@),
        None => None,
    }
}

impl View for Connect {
    type V = ConnectV;

    open spec fn view(&self) -> ConnectV {
        ConnectV {
            client_id: self.client_id@,
            will: opt_will(self.will),
            username: opt_chars(self.username),
            password: opt_chars(self.password),
            clean_start: self.clean_start,
            keep_alive: self.keep_alive,
            properties: self.properties@,
        }
    }
}

/// The protocol name "MQTT" as a UTF-8 Encoded String.
pub open spec fn protocol_name() -> Seq<u8> {
    seq![0u8, 4u8, 0x4Du8, 0x51u8, 0x54u8, 0x54u8]
}

/// The Connect Flags of a CONNECT: which optional fields it holds, and the
/// Will's QoS and retain flag.
pub open spec fn connect_flags(c: ConnectV) -> ConnectFlags {
    ConnectFlags {
        username: c.username is Some,
        password: c.password is Some,
        will_retain: match c.will {
            Some(w) => w.retain,
            None => false,
        },
        will_qos: match c.will {
            Some(w) => w.qos,
            None => QoS::Zero,
        },
        will_flag: c.will is Some,
        clean_start: c.clean_start,
    }
}

/// An optional string field: its encoding when present.
pub open spec fn opt_field(o: Option<Seq<char>>) -> Seq<u8> {
    match o {
        Some(s) => utf8_field(s),
        None => Seq::empty(),
    }
}

pub open spec fn opt_field_len(o: Option<Seq<char>>) -> nat {
    match o {
        Some(s) => encode_utf8(s).len() + 2,
        None => 0,
    }
}

/// The Remaining Length: protocol name, version, flags and keep alive (10
/// bytes), the property list, then the payload.
pub open spec fn connect_remaining_length(c: ConnectV) -> nat {
    let pl = entries_size(ConnectProperties::spec_entries(c.properties));
    10 + pl + spec_variable_length(pl) + (match c.will {
        Some(w) => will_length(w),
        None => 0,
    }) + (encode_utf8(c.client_id).len() + 2) + opt_field_len(c.username) + opt_field_len(c.password)
}

pub open spec fn connect_header(c: ConnectV) -> FixedHeader {
    FixedHeader {
        packet_type: PacketType::Connect,
        flags: None,
        remaining_length: connect_remaining_length(c) as usize,
        header_len: 0,
    }
}

/// What writing a CONNECT gives: the outcome and the bytes.
#[verifier::opaque]
pub open spec fn spec_write_connect(c: ConnectV) -> (Result<(), MQTTError>, Seq<u8>) {
    let h = connect_header(c);
    if connect_remaining_length(c) > VARINT_MAX {
        (Err(MQTTError::PayloadTooLong), seq![spec_first_byte(h)])
    } else {
        let b1 = spec_header_bytes(h) + protocol_name() + seq![5u8, connect_flags(c).spec_to_byte()] + be16(
            c.keep_alive,
        );
        let tail = opt_field(c.username) + opt_field(c.password);
        match spec_write_properties(ConnectProperties::spec_entries(c.properties)) {
            (Err(e), pb) => (Err(e), b1 + pb),
            (Ok(_), pb) => {
                let b2 = b1 + pb + utf8_field(c.client_id);
                match c.will {
                    None => (Ok(()), b2 + tail),
                    Some(w) => match spec_write_will(w) {
                        (Err(e), wb) => (Err(e), b2 + wb),
                        (Ok(_), wb) => (Ok(()), b2 + wb + tail),
                    },
                }
            },
        }
    }
}

/// A parse result with `n` more bytes taken.
pub open spec fn after<T>(r: Parsed<T>, n: nat) -> Parsed<T> {
    (r.0, n + r.1)
}

/// The protocol name's characters "MQTT".
pub open spec fn mqtt() -> Seq<u8> {
    seq![0x4Du8, 0x51u8, 0x54u8, 0x54u8]
}

/// Reading the first ten bytes of the variable header: the protocol name
/// (other than "MQTT" is `MalformedPacket`), the version (other than 5 is
/// `VersionNotSupported`), the Connect Flags (a set reserved bit is
/// `MalformedPacket`) and the keep alive.
#[verifier::opaque]
pub open spec fn parse_connect_head(s: Seq<u8>) -> Parsed<(ConnectFlags, u16)> {
    match crate::codec::parse_binary(s) {
        (Err(e), n) => (Err(e), n),
        (Ok(name), n) => if name != mqtt() {
            (Err(MQTTError::MalformedPacket), n)
        } else {
            match parse_u8(s.skip(n as int)) {
                (Err(e), m) => (Err(e), n + m),
                (Ok(v), _) => if v != 5 {
                    (Err(MQTTError::VersionNotSupported(v)), n + 1)
                } else {
                    match parse_u8(s.skip((n + 1) as int)) {
                        (Err(e), m) => (Err(e), n + 1 + m),
                        (Ok(b), _) => if b % 2 == 1 {
                            (Err(MQTTError::MalformedPacket), n + 2)
                        } else {
                            match ConnectFlags::spec_from_byte(b) {
                                Err(e) => (Err(e), n + 2),
                                Ok(f) => match parse_u16(s.skip((n + 2) as int)) {
                                    (Err(e), m) => (Err(e), n + 2 + m),
                                    (Ok(ka), _) => (Ok((f, ka)), n + 4),
                                },
                            }
                        }
                    }
                },
            }
        },
    }
}

/// Reading a Will when the flags say there is one.
pub open spec fn parse_opt_will(u: Seq<u8>, f: ConnectFlags) -> Parsed<Option<WillV>> {
    if f.will_flag {
        match parse_will(u, f.will_qos, f.will_retain) {
            (Err(e), n) => (Err(e), n),
            (Ok(w), n) => (Ok(Some(w)), n),
        }
    } else {
        (Ok(None), 0)
    }
}

/// Reading a string when the flags say there is one.
pub open spec fn parse_opt_string(u: Seq<u8>, present: bool) -> Parsed<Option<Seq<char>>> {
    if present {
        match parse_utf8(u) {
            (Err(e), n) => (Err(e), n),
            (Ok(t), n) => (Ok(Some(t)), n),
        }
    } else {
        (Ok(None), 0)
    }
}

/// Reading the payload of a CONNECT: the Will, the user name and the
/// password, each when the flags say it is there.
#[verifier::opaque]
pub open spec fn parse_connect_payload(
    u: Seq<u8>,
    f: ConnectFlags,
    keep_alive: u16,
    properties: ConnectPropertiesV,
    client_id: Seq<char>,
) -> Parsed<ConnectV> {
    match parse_opt_will(u, f) {
        (Err(e), n) => (Err(e), n),
        (Ok(will), n) => match parse_opt_string(u.skip(n as int), f.username) {
            (Err(e), m) => (Err(e), n + m),
            (Ok(username), m) => match parse_opt_string(u.skip((n + m) as int), f.password) {
                (Err(e), k) => (Err(e), n + m + k),
                (Ok(password), k) => (
                    Ok(
                        ConnectV {
                            client_id,
                            will,
                            username,
                            password,
                            clean_start: f.clean_start,
                            keep_alive,
                            properties,
                        },
                    ),
                    n + m + k,
                ),
            },
        },
    }
}

/// Reading the properties and the client identifier, then the rest of the payload.
#[verifier::opaque]
pub open spec fn parse_connect_rest(t: Seq<u8>, f: ConnectFlags, keep_alive: u16) -> Parsed<ConnectV> {
    match parse_properties::<ConnectProperties>(t, "") {
        (Err(e), n) => (Err(e), n),
        (Ok(properties), n) => match parse_utf8(t.skip(n as int)) {
            (Err(e), m) => (Err(e), n + m),
            (Ok(client_id), m) => after(
                parse_connect_payload(t.skip((n + m) as int), f, keep_alive, properties, client_id),
                n + m,
            ),
        },
    }
}

/// Reading the body of a CONNECT (after its fixed header).
#[verifier::opaque]
pub open spec fn parse_connect(s: Seq<u8>) -> Parsed<ConnectV> {
    match parse_connect_head(s) {
        (Err(e), n) => (Err(e), n),
        (Ok((f, keep_alive)), n) => after(parse_connect_rest(s.skip(n as int), f, keep_alive), n),
    }
}

/// A CONNECT that writes without failing and reads back as itself.
pub open spec fn connect_fits(c: ConnectV) -> bool {
    &&& utf8_fits(c.client_id)
    &&& (c.username matches Some(u) ==> utf8_fits(u))
    &&& (c.password matches Some(p) ==> utf8_fits(p))
    &&& (c.will matches Some(w) ==> will_fits(w))
    &&& entries_fit(ConnectProperties::spec_entries(c.properties))
    &&& entries_size(ConnectProperties::spec_entries(c.properties)) <= VARINT_MAX
    &&& connect_remaining_length(c) <= VARINT_MAX
}

/// A bound on the bytes that writing a CONNECT adds.
pub open spec fn connect_write_bound(c: ConnectV) -> nat {
    connect_remaining_length(c) + 16
}

fn write_opt_string(buf: &mut BytesMut, o: &Option<String>)
    requires
        bytes_mut_view(*old(buf)).len() + opt_field_len(opt_chars(*o)) <= isize::MAX,
    ensures
        bytes_mut_view(*final(buf)) == bytes_mut_view(*old(buf)) + opt_field(opt_chars(*o)),
{
    match o {
        Some(s) => write_string(buf, s),
        None => {
            assert(bytes_mut_view(*buf) =~= bytes_mut_view(*old(buf)) + Seq::<u8>::empty());
        },
    }
}

fn opt_string_len(o: &Option<String>) -> (r: usize)
    requires
        opt_field_len(opt_chars(*o)) <= usize::MAX,
    ensures
        r == opt_field_len(opt_chars(*o)),
{
    match o {
        Some(s) => utf8_len(s) + 2,
        None => 0,
    }
}

fn read_connect_head(buf: &mut Bytes) -> (r: Result<(ConnectFlags, u16), MQTTError>)
    ensures
        r == parse_connect_head(bytes_view(*old(buf))).0,
        bytes_view(*final(buf)) == bytes_view(*old(buf)).skip(parse_connect_head(bytes_view(*old(buf))).1 as int),
{
    reveal(parse_connect_head);
    let ghost s = bytes_view(*buf);
    let name = match crate::codec::read_binary(buf) {
        Ok(b) => b,
        Err(e) => return Err(e),
    };
    let ghost n = crate::codec::parse_binary(s).1;
    let sl = crate::buffer::bytes_as_slice(&name);
    let is_mqtt = sl.len() == 4 && sl[0] == 0x4D && sl[1] == 0x51 && sl[2] == 0x54 && sl[3] == 0x54;
    assert(is_mqtt <==> sl@ == mqtt()) by {
        if sl@ == mqtt() {
            assert(sl@[0] == 0x4D && sl@[1] == 0x51 && sl@[2] == 0x54 && sl@[3] == 0x54);
        }
        if is_mqtt {
            assert(sl@ =~= mqtt());
        }
    }
    if !is_mqtt {
        return Err(MQTTError::MalformedPacket);
    }
    let ghost s1 = bytes_view(*buf);
    let v = match read_u8(buf) {
        Ok(v) => v,
        Err(e) => {
            assert(bytes_view(*buf) =~= s.skip((n + parse_u8(s1).1) as int));
            return Err(e);
        },
    };
    assert(bytes_view(*buf) =~= s.skip((n + 1) as int));
    if v != 5 {
        return Err(MQTTError::VersionNotSupported(v));
    }
    let ghost s2 = bytes_view(*buf);
    let b = match read_u8(buf) {
        Ok(b) => b,
        Err(e) => {
            assert(bytes_view(*buf) =~= s.skip((n + 1 + parse_u8(s2).1) as int));
            return Err(e);
        },
    };
    assert(bytes_view(*buf) =~= s.skip((n + 2) as int));
    if b % 2 == 1 {
        return Err(MQTTError::MalformedPacket);
    }
    let f = match ConnectFlags::from_byte(b) {
        Ok(f) => f,
        Err(e) => return Err(e),
    };
    let ghost s3 = bytes_view(*buf);
    let ka = match read_u16(buf) {
        Ok(k) => k,
        Err(e) => {
            assert(bytes_view(*buf) =~= s.skip((n + 2 + parse_u16(s3).1) as int));
            return Err(e);
        },
    };
    assert(bytes_view(*buf) =~= s.skip((n + 4) as int));
    Ok((f, ka))
}

fn read_opt_string(buf: &mut Bytes, present: bool) -> (r: Result<Option<String>, MQTTError>)
    ensures
        match (r, parse_opt_string(bytes_view(*old(buf)), present).0) {
            (Ok(o), Ok(v)) => opt_chars(o) == v,
            (Err(e), Err(f)) => e == f,
            _ => false,
        },
        bytes_view(*final(buf)) == bytes_view(*old(buf)).skip(parse_opt_string(bytes_view(*old(buf)), present).1 as int),
{
    if !present {
        assert(bytes_view(*buf).skip(0) =~= bytes_view(*buf));
        return Ok(None);
    }
    match read_string(buf) {
        Ok(t) => Ok(Some(t)),
        Err(e) => Err(e),
    }
}

fn read_opt_will(buf: &mut Bytes, f: ConnectFlags) -> (r: Result<Option<Will>, MQTTError>)
    ensures
        match (r, parse_opt_will(bytes_view(*old(buf)), f).0) {
            (Ok(o), Ok(v)) => opt_will(o) == v,
            (Err(e), Err(g)) => e == g,
            _ => false,
        },
        bytes_view(*final(buf)) == bytes_view(*old(buf)).skip(parse_opt_will(bytes_view(*old(buf)), f).1 as int),
{
    if !f.will_flag {
        assert(bytes_view(*buf).skip(0) =~= bytes_view(*buf));
        return Ok(None);
    }
    match Will::read(buf, f.will_qos, f.will_retain) {
        Ok(w) => Ok(Some(w)),
        Err(e) => Err(e),
    }
}

#[verifier::spinoff_prover]
#[verifier::rlimit(60)]
fn read_connect_payload(
    buf: &mut Bytes,
    f: ConnectFlags,
    keep_alive: u16,
    properties: ConnectProperties,
    client_id: String,
) -> (r: Result<Connect, MQTTError>)
    ensures
        match (r, parse_connect_payload(bytes_view(*old(buf)), f, keep_alive, properties@, client_id@).0) {
            (Ok(c), Ok(v)) => c@ == v,
            (Err(e), Err(g)) => e == g,
            _ => false,
        },
        bytes_view(*final(buf)) == bytes_view(*old(buf)).skip(
            parse_connect_payload(bytes_view(*old(buf)), f, keep_alive, properties@, client_id@).1 as int,
        ),
{
    let ghost u = bytes_view(*buf);
    let ghost pv = properties@;
    let ghost cv = client_id@;
    proof {
        lemma_parse_opt_will_len(u, f);
    }
    let will = match read_opt_will(buf, f) {
        Ok(w) => w,
        Err(e) => {
            assert(parse_connect_payload(u, f, keep_alive, pv, cv) == (Err::<ConnectV, MQTTError>(e), parse_opt_will(u, f).1)) by {
                reveal(parse_connect_payload);
            }
            return Err(e);
        },
    };
    let ghost a = parse_opt_will(u, f).1;
    let ghost u1 = bytes_view(*buf);
    proof {
        lemma_parse_opt_string_len(u1, f.username);
    }
    let username = match read_opt_string(buf, f.username) {
        Ok(x) => x,
        Err(e) => {
            assert(u1 =~= u.skip(a as int));
            assert(parse_connect_payload(u, f, keep_alive, pv, cv) == (Err::<ConnectV, MQTTError>(e), a + parse_opt_string(u1, f.username).1)) by {
                reveal(parse_connect_payload);
            }
            assert(bytes_view(*buf) =~= u.skip((a + parse_opt_string(u1, f.username).1) as int));
            return Err(e);
        },
    };
    let ghost b = parse_opt_string(u1, f.username).1;
    let ghost u2 = bytes_view(*buf);
    assert(u1 =~= u.skip(a as int));
    assert(u2 =~= u.skip((a + b) as int));
    let password = match read_opt_string(buf, f.password) {
        Ok(x) => x,
        Err(e) => {
            assert(parse_connect_payload(u, f, keep_alive, pv, cv) == (Err::<ConnectV, MQTTError>(e), a + b + parse_opt_string(u2, f.password).1)) by {
                reveal(parse_connect_payload);
            }
            assert(bytes_view(*buf) =~= u.skip((a + b + parse_opt_string(u2, f.password).1) as int));
            return Err(e);
        },
    };
    let ghost c = parse_opt_string(u2, f.password).1;
    let r = Connect { client_id, will, username, password, clean_start: f.clean_start, keep_alive, properties };
    assert(parse_connect_payload(u, f, keep_alive, pv, cv) == (Ok::<ConnectV, MQTTError>(r@), a + b + c)) by {
        reveal(parse_connect_payload);
    }
    assert(bytes_view(*buf) =~= u.skip((a + b + c) as int));
    Ok(r)
}

proof fn lemma_parse_connect_payload_len(
    u: Seq<u8>,
    f: ConnectFlags,
    keep_alive: u16,
    properties: ConnectPropertiesV,
    client_id: Seq<char>,
)
    ensures
        parse_connect_payload(u, f, keep_alive, properties, client_id).1 <= u.len(),
{
    reveal(parse_connect_payload);
    lemma_parse_opt_will_len(u, f);
    let a = parse_opt_will(u, f).1;
    lemma_parse_opt_string_len(u.skip(a as int), f.username);
    let b = parse_opt_string(u.skip(a as int), f.username).1;
    lemma_parse_opt_string_len(u.skip((a + b) as int), f.password);
}

proof fn lemma_parse_connect_head_len(s: Seq<u8>)
    ensures
        parse_connect_head(s).1 <= s.len(),
{
    reveal(parse_connect_head);
    lemma_parse_utf8_len(s);
}

proof fn lemma_parse_opt_string_len(u: Seq<u8>, present: bool)
    ensures
        parse_opt_string(u, present).1 <= u.len(),
{
    lemma_parse_utf8_len(u);
}

proof fn lemma_parse_opt_will_len(u: Seq<u8>, f: ConnectFlags)
    ensures
        parse_opt_will(u, f).1 <= u.len(),
{
    lemma_parse_will_len(u, f.will_qos, f.will_retain);
}

impl Connect {
    /// The Remaining Length.
    pub fn length(&self) -> (r: usize)
        requires
            connect_remaining_length(self@) <= usize::MAX,
        ensures
            r == connect_remaining_length(self@),
    {
        let pl = self.properties.length();
        let mut len: usize = 10 + pl + variable_length(pl);
        match &self.will {
            Some(w) => {
                len = len + w.length();
            },
            None => {},
        }
        len = len + (utf8_len(&self.client_id) + 2);
        len = len + opt_string_len(&self.username);
        len = len + opt_string_len(&self.password);
        len
    }

    /// The Connect Flags.
    pub fn flags(&self) -> (r: ConnectFlags)
        ensures
            r == connect_flags(self@),
    {
        let (will_retain, will_qos) = match &self.will {
            Some(w) => (w.retain, w.qos),
            None => (false, QoS::Zero),
        };
        ConnectFlags::new(
            self.username.is_some(),
            self.password.is_some(),
            will_retain,
            self.will.is_some(),
            self.clean_start,
            will_qos,
        )
    }

    /// Writes the fixed header, the variable header and the payload.
    #[verifier::spinoff_prover]
    #[verifier::rlimit(100)]
    pub fn write(&self, buf: &mut BytesMut) -> (r: Result<(), MQTTError>)
        requires
            bytes_mut_view(*old(buf)).len() + connect_write_bound(self@) <= isize::MAX,
        ensures
            r == spec_write_connect(self@).0,
            bytes_mut_view(*final(buf)) == bytes_mut_view(*old(buf)) + spec_write_connect(self@).1,
    {
        reveal(spec_write_connect);
        let ghost start = bytes_mut_view(*buf);
        let ghost c = self@;
        let len = self.length();
        proof {
            if len <= VARINT_MAX {
                lemma_varint_len(len as nat);
            }
            lemma_write_properties_bound(ConnectProperties::spec_entries(c.properties));
            if let Some(w) = c.will {
                lemma_write_will_bound(w);
            }
        }
        if let Err(e) = FixedHeader::new(PacketType::Connect, 0, len).write(buf) {
            return Err(e);
        }
        let name: [u8; 6] = [0u8, 4u8, 0x4Du8, 0x51u8, 0x54u8, 0x54u8];
        bytes_mut_extend(buf, &name);
        write_u8(buf, 5);
        write_u8(buf, self.flags().to_byte());
        write_u16(buf, self.keep_alive);
        let ghost b1 = bytes_mut_view(*buf);
        assert(b1 =~= start + spec_header_bytes(connect_header(c)) + protocol_name() + seq![
            5u8,
            connect_flags(c).spec_to_byte(),
        ] + be16(c.keep_alive));
        let r = self.properties.write(buf);
        if r.is_err() {
            assert(bytes_mut_view(*buf) =~= start + spec_write_connect(c).1);
            return r;
        }
        write_string(buf, &self.client_id);
        match &self.will {
            Some(w) => {
                let rw = w.write(buf);
                if rw.is_err() {
                    assert(bytes_mut_view(*buf) =~= start + spec_write_connect(c).1);
                    return rw;
                }
            },
            None => {},
        }
        write_opt_string(buf, &self.username);
        write_opt_string(buf, &self.password);
        assert(bytes_mut_view(*buf) =~= start + spec_write_connect(c).1);
        Ok(())
    }

    /// Reads the body of a CONNECT (after its fixed header).
    #[verifier::spinoff_prover]
    #[verifier::rlimit(60)]
    pub fn read(buf: &mut Bytes) -> (r: Result<Self, MQTTError>)
        ensures
            match (r, parse_connect(bytes_view(*old(buf))).0) {
                (Ok(c), Ok(v)) => c@ == v,
                (Err(e), Err(f)) => e == f,
                _ => false,
            },
            bytes_view(*final(buf)) == bytes_view(*old(buf)).skip(parse_connect(bytes_view(*old(buf))).1 as int),
    {
        let ghost s = bytes_view(*buf);
        let (f, keep_alive) = match read_connect_head(buf) {
            Ok(v) => v,
            Err(e) => {
                assert(parse_connect(s) == (Err::<ConnectV, MQTTError>(e), parse_connect_head(s).1)) by {
                    reveal(parse_connect);
                }
                return Err(e);
            },
        };
        let ghost n = parse_connect_head(s).1;
        let ghost t = bytes_view(*buf);
        proof {
            lemma_parse_connect_head_len(s);
        }
        assert(parse_connect(s) == after(parse_connect_rest(t, f, keep_alive), n)) by {
            reveal(parse_connect);
        }
        proof {
            lemma_parse_properties_len::<ConnectProperties>(t, "");
        }
        let properties = match ConnectProperties::read(buf) {
            Ok(p) => p,
            Err(e) => {
                assert(parse_connect_rest(t, f, keep_alive) == (Err::<ConnectV, MQTTError>(e), parse_properties::<ConnectProperties>(t, "").1)) by {
                    reveal(parse_connect_rest);
                }
                assert(bytes_view(*buf) =~= s.skip((n + parse_properties::<ConnectProperties>(t, "").1) as int));
                return Err(e);
            },
        };
        let ghost k = parse_properties::<ConnectProperties>(t, "").1;
        let ghost t1 = bytes_view(*buf);
        proof {
            lemma_parse_utf8_len(t1);
        }
        let client_id = match read_string(buf) {
            Ok(c) => c,
            Err(e) => {
                assert(parse_connect_rest(t, f, keep_alive) == (Err::<ConnectV, MQTTError>(e), k + parse_utf8(t1).1)) by {
                    reveal(parse_connect_rest);
                }
                assert(bytes_view(*buf) =~= s.skip((n + k + parse_utf8(t1).1) as int));
                return Err(e);
            },
        };
        let ghost m = parse_utf8(t1).1;
        let ghost u = bytes_view(*buf);
        assert(u =~= t.skip((k + m) as int));
        assert(parse_connect_rest(t, f, keep_alive) == after(parse_connect_payload(u, f, keep_alive, properties@, client_id@), k + m)) by {
            reveal(parse_connect_rest);
        }
        let ghost pv = properties@;
        let ghost cv = client_id@;
        proof {
            lemma_parse_connect_payload_len(u, f, keep_alive, pv, cv);
        }
        let r = read_connect_payload(buf, f, keep_alive, properties, client_id);
        assert(bytes_view(*buf) =~= s.skip((n + k + m + parse_connect_payload(u, f, keep_alive, pv, cv).1) as int));
        r
    }

    /// The CONNECT that opens a session with the given options: their client
    /// identifier, Will, credentials, clean start and keep alive, and as
    /// properties their session expiry interval, receive maximum, maximum
    /// packet size, topic alias maximum, information requests, user
    /// properties and authentication.
    pub fn from_options(o: ConnectOptions) -> (r: Connect)
        ensures
            r.client_id == o.client_id,
            r.will == o.will,
            r.username == o.username,
            r.password == o.password,
            r.clean_start == o.clean_start,
            r.keep_alive == o.keep_alive,
            r.properties == (ConnectProperties {
                session_expiry_interval: o.session_expiry_interval,
                receive_maximum: Some(o.client_receive_max),
                maximum_packet_size: Some(o.client_max_size),
                topic_alias_maximum: Some(o.inbound_topic_alias_max),
                request_response_information: o.request_response_information,
                request_problem_information: o.request_problem_information,
                user_property: o.user_property,
                authentication_method: o.authentication_method,
                authentication_data: o.authentication_data,
            }),
    {
        Connect {
            client_id: o.client_id,
            will: o.will,
            username: o.username,
            password: o.password,
            clean_start: o.clean_start,
            keep_alive: o.keep_alive,
            properties: ConnectProperties {
                session_expiry_interval: o.session_expiry_interval,
                receive_maximum: Some(o.client_receive_max),
                maximum_packet_size: Some(o.client_max_size),
                topic_alias_maximum: Some(o.inbound_topic_alias_max),
                request_response_information: o.request_response_information,
                request_problem_information: o.request_problem_information,
                user_property: o.user_property,
                authentication_method: o.authentication_method,
                authentication_data: o.authentication_data,
            },
        }
    }
}


/// The payload bytes of a CONNECT after its client identifier.
pub open spec fn connect_payload_bytes(c: ConnectV) -> Seq<u8> {
    (match c.will {
        Some(w) => spec_write_will(w).1,
        None => Seq::<u8>::empty(),
    }) + opt_field(c.username) + opt_field(c.password)
}

/// The bytes after the fixed header of a CONNECT that writes without failing.
pub open spec fn connect_body(c: ConnectV) -> Seq<u8> {
    protocol_name() + seq![5u8, connect_flags(c).spec_to_byte()] + be16(c.keep_alive) + spec_write_properties(
        ConnectProperties::spec_entries(c.properties),
    ).1 + utf8_field(c.client_id) + connect_payload_bytes(c)
}

proof fn lemma_skip_concat(a: Seq<u8>, b: Seq<u8>)
    ensures
        (a + b).skip(a.len() as int) == b,
{
    assert((a + b).skip(a.len() as int) =~= b);
}

proof fn lemma_flags_even(f: ConnectFlags)
    ensures
        f.spec_to_byte() % 2 == 0,
{
    match f.will_qos {
        QoS::Zero => {},
        QoS::One => {},
        QoS::Two => {},
    }
}

#[verifier::spinoff_prover]
#[verifier::rlimit(60)]
proof fn lemma_connect_bytes(c: ConnectV)
    requires
        connect_fits(c),
    ensures
        spec_write_connect(c) == (Ok::<(), MQTTError>(()), spec_header_bytes(connect_header(c)) + connect_body(c)),
{
    reveal(spec_write_connect);
    ConnectProperties::lemma_write_read(c.properties, Seq::empty());
    if let Some(w) = c.will {
        lemma_will_roundtrip(w, Seq::empty());
    }
    let b1 = spec_header_bytes(connect_header(c)) + protocol_name() + seq![5u8, connect_flags(c).spec_to_byte()] + be16(
        c.keep_alive,
    );
    let pb = spec_write_properties(ConnectProperties::spec_entries(c.properties)).1;
    let tail = opt_field(c.username) + opt_field(c.password);
    let b2 = b1 + pb + utf8_field(c.client_id);
    match c.will {
        None => {
            assert(b2 + tail =~= spec_header_bytes(connect_header(c)) + connect_body(c));
        },
        Some(w) => {
            assert(b2 + spec_write_will(w).1 + tail =~= spec_header_bytes(connect_header(c)) + connect_body(c));
        },
    }
}

proof fn lemma_head_roundtrip(c: ConnectV, rest: Seq<u8>)
    ensures
        parse_connect_head(protocol_name() + seq![5u8, connect_flags(c).spec_to_byte()] + be16(c.keep_alive) + rest)
            == (Ok::<(ConnectFlags, u16), MQTTError>((connect_flags(c), c.keep_alive)), 10nat),
{
    let f = connect_flags(c);
    let fb = f.spec_to_byte();
    let s = protocol_name() + seq![5u8, fb] + be16(c.keep_alive) + rest;
    lemma_flags_even(f);
    ConnectFlags::lemma_byte_roundtrip(f);
    assert(s =~= crate::codec::binary_field(mqtt()) + (seq![5u8, fb] + be16(c.keep_alive) + rest));
    crate::codec::lemma_binary_roundtrip(mqtt(), seq![5u8, fb] + be16(c.keep_alive) + rest);
    assert(s.skip(6) =~= seq![5u8, fb] + be16(c.keep_alive) + rest);
    assert(s.skip(7)[0] == fb);
    assert(s.skip(8) =~= be16(c.keep_alive) + rest);
    lemma_u16_roundtrip(c.keep_alive, rest);
    reveal(parse_connect_head);
}

proof fn lemma_opt_string_roundtrip(o: Option<Seq<char>>, rest: Seq<u8>)
    requires
        o matches Some(x) ==> utf8_fits(x),
    ensures
        parse_opt_string(opt_field(o) + rest, o is Some) == (Ok::<Option<Seq<char>>, MQTTError>(o), opt_field(o).len()),
        (opt_field(o) + rest).skip(opt_field(o).len() as int) == rest,
{
    if let Some(x) = o {
        lemma_utf8_roundtrip(x, rest);
    } else {
        assert(opt_field(o) + rest =~= rest);
    }
    lemma_skip_concat(opt_field(o), rest);
}

proof fn lemma_opt_will_roundtrip(c: ConnectV, rest: Seq<u8>)
    requires
        c.will matches Some(w) ==> will_fits(w),
    ensures
        ({
            let wb = match c.will {
                Some(w) => spec_write_will(w).1,
                None => Seq::<u8>::empty(),
            };
            &&& parse_opt_will(wb + rest, connect_flags(c)) == (Ok::<Option<WillV>, MQTTError>(c.will), wb.len())
            &&& (wb + rest).skip(wb.len() as int) == rest
        }),
{
    let wb = match c.will {
        Some(w) => spec_write_will(w).1,
        None => Seq::<u8>::empty(),
    };
    if let Some(w) = c.will {
        lemma_will_roundtrip(w, rest);
    } else {
        assert(wb + rest =~= rest);
    }
    lemma_skip_concat(wb, rest);
}

proof fn lemma_payload_roundtrip(c: ConnectV, rest: Seq<u8>)
    requires
        c.will matches Some(w) ==> will_fits(w),
        c.username matches Some(x) ==> utf8_fits(x),
        c.password matches Some(x) ==> utf8_fits(x),
    ensures
        parse_connect_payload(connect_payload_bytes(c) + rest, connect_flags(c), c.keep_alive, c.properties, c.client_id) == (
            Ok::<ConnectV, MQTTError>(c),
            connect_payload_bytes(c).len(),
        ),
{
    let f = connect_flags(c);
    let wb = match c.will {
        Some(w) => spec_write_will(w).1,
        None => Seq::<u8>::empty(),
    };
    let ub = opt_field(c.username);
    let pb = opt_field(c.password);
    let u = connect_payload_bytes(c) + rest;
    assert(u =~= wb + (ub + (pb + rest)));
    lemma_opt_will_roundtrip(c, ub + (pb + rest));
    lemma_opt_string_roundtrip(c.username, pb + rest);
    lemma_opt_string_roundtrip(c.password, rest);
    assert(u.skip((wb.len() + ub.len()) as int) =~= pb + rest);
    let v = ConnectV {
        client_id: c.client_id,
        will: c.will,
        username: c.username,
        password: c.password,
        clean_start: f.clean_start,
        keep_alive: c.keep_alive,
        properties: c.properties,
    };
    assert(v =~= c);
    assert(parse_connect_payload(u, f, c.keep_alive, c.properties, c.client_id) == (
        Ok::<ConnectV, MQTTError>(v),
        wb.len() + ub.len() + pb.len(),
    )) by {
        reveal(parse_connect_payload);
    }
}

proof fn lemma_rest_roundtrip(c: ConnectV)
    requires
        connect_fits(c),
    ensures
        parse_connect_rest(
            spec_write_properties(ConnectProperties::spec_entries(c.properties)).1 + utf8_field(c.client_id)
                + connect_payload_bytes(c),
            connect_flags(c),
            c.keep_alive,
        ) == (
            Ok::<ConnectV, MQTTError>(c),
            spec_write_properties(ConnectProperties::spec_entries(c.properties)).1.len() + utf8_field(c.client_id).len()
                + connect_payload_bytes(c).len(),
        ),
{
    let w = spec_write_properties(ConnectProperties::spec_entries(c.properties)).1;
    let idf = utf8_field(c.client_id);
    let pay = connect_payload_bytes(c);
    let t = w + idf + pay;
    assert(t =~= w + (idf + pay));
    ConnectProperties::lemma_write_read(c.properties, idf + pay);
    lemma_skip_concat(w, idf + pay);
    lemma_utf8_roundtrip(c.client_id, pay);
    assert(t.skip((w.len() + idf.len()) as int) =~= pay + Seq::<u8>::empty());
    lemma_payload_roundtrip(c, Seq::empty());
    reveal(parse_connect_rest);
}

/// A CONNECT goes out as MQTT 5 lays it out (section 3.1.2): after the
/// fixed header, the protocol name "MQTT" with its two byte length, the
/// protocol version 5, the Connect Flags (user name and password set exactly
/// when they are given, the will flag exactly when there is a Will, with the
/// Will's QoS and retain flag, and clean start), and the keep alive, most
/// significant byte first.
#[verifier::spinoff_prover]
#[verifier::rlimit(60)]
pub proof fn lemma_connect_variable_header(c: ConnectV)
    requires
        connect_fits(c),
    ensures
        ({
            let b = spec_write_connect(c).1;
            let hn: int = (1 + varint(connect_remaining_length(c)).len()) as int;
            let f = connect_flags(c);
            &&& b.len() >= hn + 10
            &&& b.subrange(hn, hn + 6) == seq![0u8, 4u8, 0x4Du8, 0x51u8, 0x54u8, 0x54u8]
            &&& b[hn + 6] == 5u8
            &&& b[hn + 7] == f.spec_to_byte()
            &&& b[hn + 8] == (c.keep_alive / 256) as u8
            &&& b[hn + 9] == (c.keep_alive % 256) as u8
            &&& f.username == c.username is Some
            &&& f.password == c.password is Some
            &&& f.will_flag == c.will is Some
            &&& f.clean_start == c.clean_start
            &&& (c.will matches Some(w) ==> f.will_qos == w.qos && f.will_retain == w.retain)
        }),
{
    lemma_connect_bytes(c);
    let h = connect_header(c);
    let rl = connect_remaining_length(c);
    let hn: int = (1 + varint(rl).len()) as int;
    assert(spec_header_bytes(h).len() == hn);
    let body = connect_body(c);
    let head = protocol_name() + seq![5u8, connect_flags(c).spec_to_byte()] + be16(c.keep_alive);
    assert(head.len() == 10);
    let rest = spec_write_properties(ConnectProperties::spec_entries(c.properties)).1 + utf8_field(c.client_id)
        + connect_payload_bytes(c);
    assert(body =~= head + rest);
    let b = spec_write_connect(c).1;
    assert(b =~= spec_header_bytes(h) + (head + rest));
    assert(b.subrange(hn, hn + 6) =~= protocol_name());
    assert(b[hn + 6] == head[6]);
    assert(b[hn + 7] == head[7]);
    assert(b[hn + 8] == head[8]);
    assert(b[hn + 9] == head[9]);
}

/// Reading a CONNECT checks its variable header (MQTT 5 section 3.1.2): a
/// body that begins 00 04 'M' 'Q' 'T' 'T' and the version 5 goes on to the
/// Connect Flags; the same protocol name with another version is
/// `VersionNotSupported` with that version; a four byte name other than
/// "MQTT" is `MalformedPacket`; a set reserved flag bit (bit 0) is
/// `MalformedPacket`.
pub proof fn lemma_connect_head_checks(s: Seq<u8>)
    requires
        s.len() >= 10,
        s[0] == 0,
        s[1] == 4,
    ensures
        s.subrange(2, 6) != seq![0x4Du8, 0x51u8, 0x54u8, 0x54u8] ==> parse_connect(s).0
            == Err::<ConnectV, MQTTError>(MQTTError::MalformedPacket),
        s.subrange(2, 6) == seq![0x4Du8, 0x51u8, 0x54u8, 0x54u8] && s[6] != 5 ==> parse_connect(s).0
            == Err::<ConnectV, MQTTError>(MQTTError::VersionNotSupported(s[6])),
        s.subrange(2, 6) == seq![0x4Du8, 0x51u8, 0x54u8, 0x54u8] && s[6] == 5 && s[7] % 2 == 1
            ==> parse_connect(s).0 == Err::<ConnectV, MQTTError>(MQTTError::MalformedPacket),
        parse_connect(s).0 is Ok ==> s.subrange(2, 6) == seq![0x4Du8, 0x51u8, 0x54u8, 0x54u8] && s[6] == 5
            && s[7] % 2 == 0,
{
    reveal(parse_connect_head);
    reveal(parse_connect);
    assert(crate::codec::parse_u16(s) == (Ok::<u16, MQTTError>(4u16), 2nat));
    let name = s.subrange(2, 6);
    assert(crate::codec::parse_binary(s) == (Ok::<Seq<u8>, MQTTError>(name), 6nat));
    assert(s.skip(6)[0] == s[6]);
    assert(s.skip(7)[0] == s[7]);
    if name != mqtt() {
        assert(parse_connect_head(s) == (Err::<(ConnectFlags, u16), MQTTError>(MQTTError::MalformedPacket), 6nat));
    } else if s[6] != 5 {
        assert(crate::codec::parse_u8(s.skip(6)).0 == Ok::<u8, MQTTError>(s[6]));
        assert(parse_connect_head(s).0 == Err::<(ConnectFlags, u16), MQTTError>(MQTTError::VersionNotSupported(s[6])));
    } else if s[7] % 2 == 1 {
        assert(crate::codec::parse_u8(s.skip(7)).0 == Ok::<u8, MQTTError>(s[7]));
        assert(parse_connect_head(s).0 == Err::<(ConnectFlags, u16), MQTTError>(MQTTError::MalformedPacket));
    }
    assert(mqtt() =~= seq![0x4Du8, 0x51u8, 0x54u8, 0x54u8]);
    assert(name == mqtt() <==> name == seq![0x4Du8, 0x51u8, 0x54u8, 0x54u8]);
}

impl Connect {
    /// Reading a written CONNECT gives it back: its fixed header, then its
    /// body, which takes every byte after the header.
    #[verifier::spinoff_prover]
    #[verifier::rlimit(80)]
    pub proof fn lemma_write_read(c: ConnectV)
        requires
            connect_fits(c),
        ensures
            ({
                let (r, b) = spec_write_connect(c);
                let rl = connect_remaining_length(c);
                let hn = 1 + varint(rl).len();
                &&& r == Ok::<(), MQTTError>(())
                &&& b == spec_header_bytes(connect_header(c)) + connect_body(c)
                &&& parse_fixed_header(b) == (Ok::<FixedHeader, MQTTError>(
                    FixedHeader { header_len: varint(rl).len() as usize, ..connect_header(c) },
                ), hn)
                &&& parse_connect(b.skip(hn as int)) == (Ok::<ConnectV, MQTTError>(c), (b.len() - hn) as nat)
            }),
    {
        let h = connect_header(c);
        let rl = connect_remaining_length(c);
        let ps = ConnectProperties::spec_entries(c.properties);
        lemma_varint_len(rl);
        ConnectProperties::lemma_write_read(c.properties, Seq::empty());
        if let Some(w) = c.will {
            lemma_will_roundtrip(w, Seq::empty());
        }
        let body = connect_body(c);
        let head = protocol_name() + seq![5u8, connect_flags(c).spec_to_byte()] + be16(c.keep_alive);
        let rest = spec_write_properties(ps).1 + utf8_field(c.client_id) + connect_payload_bytes(c);
        lemma_connect_bytes(c);
        assert(header_fits(h));
        lemma_fixed_header_roundtrip(h, body);
        let hn = 1 + varint(rl).len();
        lemma_skip_concat(spec_header_bytes(h), body);
        assert(body =~= head + rest);
        lemma_head_roundtrip(c, rest);
        lemma_skip_concat(head, rest);
        lemma_rest_roundtrip(c);
        reveal(parse_connect);
    }
}

} // verus!
