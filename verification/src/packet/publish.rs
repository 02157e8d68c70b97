//! PUBLISH (section 3.3): the flags DUP, QoS and RETAIN in the fixed header;
//! the topic name, the packet identifier (QoS 1 and 2 only) and the
//! properties in the variable header; the payload, written as binary data and
//! then once more as it is.
use bytes::{Bytes, BytesMut};
use vstd::prelude::*;
use vstd::utf8::*;

use crate::buffer::{bytes_as_slice, bytes_len, bytes_mut_extend, bytes_mut_view, bytes_new, bytes_view};
use crate::codec::{
    be16, binary_field, lemma_binary_roundtrip, lemma_u16_roundtrip, lemma_utf8_roundtrip, parse_binary,
    parse_u16, parse_utf8, read_binary, read_string, read_u16, utf8_field, utf8_fits, utf8_len,
    write_bytes, write_string, write_u16, Parsed,
};
use crate::error::MQTTError;
use crate::fixed_header::{
    flag_bits, header_fits, lemma_fixed_header_roundtrip, parse_fixed_header, spec_first_byte,
    spec_header_bytes, FixedHeader,
};
use crate::packet::publish_properties::{PublishProperties, PublishPropertiesV};
use crate::packet_type::PacketType;
use crate::properties::{
    entries_fit, entries_size, lemma_parse_properties_len, lemma_write_properties_bound,
    lemma_write_properties_len, lemma_written_properties_len, parse_properties, spec_write_properties,
    PropertySet,
};
use crate::qos::QoS;
use crate::varint::{lemma_varint_len, spec_variable_length, variable_length, varint, VARINT_MAX};

verus! {



#[derive(Debug, Clone, PartialEq, Eq)]
pub struct Publish {
    pub dup: bool,
    pub retain: bool,
    pub qos: QoS,
    pub topic: String,
    pub pkid: Option<u16>,
    pub properties: PublishProperties,
    pub payload: Bytes,
}

#[verifier::ext_equal]
pub struct PublishV {
    pub dup: bool,
    pub retain: bool,
    pub qos: QoS,
    pub topic: Seq<char>,
    pub pkid: Option<u16>,
    pub properties: PublishPropertiesV,
    pub payload: Seq<u8>,
}

impl View for Publish {
    type V = PublishV;

    open spec fn view(&self) -> PublishV {
        PublishV {
            dup: self.dup,
            retain: self.retain,
            qos: self.qos,
            topic: self.topic@,
            pkid: self.pkid,
            properties: self.properties@,
            payload: bytes_view(self.payload),
        }
    }
}

/// The low nibble of the first byte: DUP (bit 3), QoS (bits 2-1), RETAIN (bit 0).
pub open spec fn publish_flags(dup: bool, qos: QoS, retain: bool) -> u8 {
    ((if dup {
        8int
    } else {
        0
    }) + qos.spec_code() * 2 + (if retain {
        1int
    } else {
        0
    })) as u8
}

/// The Remaining Length that a PUBLISH is written with: the topic name, the
/// property list, and the payload.
pub open spec fn publish_remaining_length(p: PublishV) -> nat {
    let pl = entries_size(PublishProperties::spec_entries(p.properties));
    encode_utf8(p.topic).len() + 2 + pl + spec_variable_length(pl) + p.payload.len()
}

pub open spec fn publish_header(p: PublishV) -> FixedHeader {
    let f = publish_flags(p.dup, p.qos, p.retain);
    FixedHeader {
        packet_type: PacketType::Publish,
        flags: if f != 0 {
            Some(f)
        } else {
            None
        },
        remaining_length: publish_remaining_length(p) as usize,
        header_len: 0,
    }
}

/// At most how many bytes writing a PUBLISH adds.
pub open spec fn publish_write_bound(p: PublishV) -> nat {
    5 + (encode_utf8(p.topic).len() + 2) + 2 + (4 + entries_size(
        PublishProperties::spec_entries(p.properties),
    )) + (2 + p.payload.len()) + p.payload.len()
}

/// What writing a PUBLISH gives: the outcome and the bytes. A QoS 1 or 2
/// message without a packet identifier is `PacketIdRequired`, after the topic.
#[verifier::opaque]
pub open spec fn spec_write_publish(p: PublishV) -> (Result<(), MQTTError>, Seq<u8>) {
    let h = publish_header(p);
    if publish_remaining_length(p) > VARINT_MAX {
        (Err(MQTTError::PayloadTooLong), seq![spec_first_byte(h)])
    } else {
        let b1 = spec_header_bytes(h) + utf8_field(p.topic);
        if p.qos != QoS::Zero && p.pkid is None {
            (Err(MQTTError::PacketIdRequired), b1)
        } else {
            let b2 = if p.qos != QoS::Zero {
                b1 + be16(p.pkid->0)
            } else {
                b1
            };
            let w = spec_write_properties(PublishProperties::spec_entries(p.properties));
            match w.0 {
                Err(e) => (Err(e), b2 + w.1),
                Ok(_) => (Ok(()), b2 + w.1 + binary_field(p.payload) + p.payload),
            }
        }
    }
}

/// The number of bytes that a PUBLISH is written as: the fixed header, the
/// Remaining Length's worth, the packet identifier (QoS 1 and 2), and the
/// length prefix and second copy of the payload.
pub open spec fn publish_size(p: PublishV) -> nat {
    let rl = publish_remaining_length(p);
    1 + spec_variable_length(rl) + rl + (if p.qos != QoS::Zero {
        2nat
    } else {
        0nat
    }) + 2 + p.payload.len()
}

/// A PUBLISH written without failing takes exactly `publish_size` bytes.
pub proof fn lemma_publish_size(p: PublishV)
    requires
        spec_write_publish(p).0 is Ok,
    ensures
        spec_write_publish(p).1.len() == publish_size(p),
{
    reveal(spec_write_publish);
    let rl = publish_remaining_length(p);
    lemma_varint_len(rl);
    lemma_written_properties_len(PublishProperties::spec_entries(p.properties));
}

/// A PUBLISH goes out as its fixed header, then (MQTT 5 section 3.3.2) the
/// topic name, the packet identifier (most significant byte first) for QoS 1
/// and 2 only, and the properties; then the payload, here written with a two
/// byte length and then once more as it is.
pub proof fn lemma_publish_layout(p: PublishV)
    requires
        spec_write_publish(p).0 is Ok,
    ensures
        ({
            let b = spec_write_publish(p).1;
            let hn = 1 + varint(publish_remaining_length(p)).len();
            &&& b.take(hn as int) == spec_header_bytes(publish_header(p))
            &&& b.skip(hn as int) == utf8_field(p.topic) + (if p.qos != QoS::Zero {
                seq![(p.pkid->0 / 256) as u8, (p.pkid->0 % 256) as u8]
            } else {
                Seq::<u8>::empty()
            }) + spec_write_properties(PublishProperties::spec_entries(p.properties)).1 + binary_field(p.payload)
                + p.payload
        }),
{
    reveal(spec_write_publish);
    let b = spec_write_publish(p).1;
    let h = publish_header(p);
    let hn = 1 + varint(publish_remaining_length(p)).len();
    assert(spec_header_bytes(h).len() == hn);
    assert(b.take(hn as int) =~= spec_header_bytes(h));
    assert(b.skip(hn as int) =~= utf8_field(p.topic) + (if p.qos != QoS::Zero {
        seq![(p.pkid->0 / 256) as u8, (p.pkid->0 % 256) as u8]
    } else {
        Seq::<u8>::empty()
    }) + spec_write_properties(PublishProperties::spec_entries(p.properties)).1 + binary_field(p.payload)
        + p.payload);
}

/// Reading the packet identifier of a PUBLISH at QoS `qos`: none at QoS 0;
/// else two bytes, whose absence is `PacketIdRequired`.
pub open spec fn parse_publish_pkid(s: Seq<u8>, qos: QoS) -> Parsed<Option<u16>> {
    if qos == QoS::Zero {
        (Ok(None), 0)
    } else {
        match parse_u16(s) {
            (Err(_), m) => (Err(MQTTError::PacketIdRequired), m),
            (Ok(id), m) => (Ok(Some(id)), m),
        }
    }
}

/// A parse result with `n` more bytes taken.
pub open spec fn after<T>(r: Parsed<T>, n: nat) -> Parsed<T> {
    (r.0, n + r.1)
}

/// Reading the body of a PUBLISH whose fixed header had the flags `flags`:
/// the topic name; the QoS from the flags (3 is `UnsupportedQoS(3)`); the
/// packet identifier; the properties; the payload as binary data.
#[verifier::opaque]
pub open spec fn parse_publish(s: Seq<u8>, flags: u8) -> Parsed<PublishV> {
    match parse_utf8(s) {
        (Err(e), n) => (Err(e), n),
        (Ok(topic), n1) => match QoS::spec_from_code(flags / 2 % 4) {
            Err(e) => (Err(e), n1),
            Ok(qos) => after(parse_publish_after_topic(s.skip(n1 as int), flags, topic, qos), n1),
        },
    }
}

/// The rest of a PUBLISH body after the topic name: the packet identifier, then the rest.
#[verifier::opaque]
pub open spec fn parse_publish_after_topic(t: Seq<u8>, flags: u8, topic: Seq<char>, qos: QoS) -> Parsed<PublishV> {
    match parse_publish_pkid(t, qos) {
        (Err(e), m) => (Err(e), m),
        (Ok(pkid), m) => after(parse_publish_after_pkid(t.skip(m as int), flags, topic, qos, pkid), m),
    }
}

/// The rest of a PUBLISH body after the packet identifier: the properties, then the payload.
#[verifier::opaque]
pub open spec fn parse_publish_after_pkid(
    u: Seq<u8>,
    flags: u8,
    topic: Seq<char>,
    qos: QoS,
    pkid: Option<u16>,
) -> Parsed<PublishV> {
    match parse_properties::<PublishProperties>(u, "") {
        (Err(e), k) => (Err(e), k),
        (Ok(properties), k) => after(
            parse_publish_payload(u.skip(k as int), flags, topic, qos, pkid, properties),
            k,
        ),
    }
}

/// The payload of a PUBLISH, as binary data, and the message it completes.
#[verifier::opaque]
pub open spec fn parse_publish_payload(
    x: Seq<u8>,
    flags: u8,
    topic: Seq<char>,
    qos: QoS,
    pkid: Option<u16>,
    properties: PublishPropertiesV,
) -> Parsed<PublishV> {
    match parse_binary(x) {
        (Err(e), j) => (Err(e), j),
        (Ok(payload), j) => (
            Ok(
                PublishV {
                    dup: flags / 8 % 2 == 1,
                    retain: flags % 2 == 1,
                    qos,
                    topic,
                    pkid,
                    properties,
                    payload,
                },
            ),
            j,
        ),
    }
}

/// A PUBLISH that writes without failing and reads back as itself: its
/// strings and payload fit their two byte lengths, its properties fit, and it
/// carries a packet identifier exactly when its QoS is 1 or 2.
pub open spec fn publish_fits(p: PublishV) -> bool {
    &&& utf8_fits(p.topic)
    &&& p.payload.len() <= 65535
    &&& entries_fit(PublishProperties::spec_entries(p.properties))
    &&& entries_size(PublishProperties::spec_entries(p.properties)) <= VARINT_MAX
    &&& publish_remaining_length(p) <= VARINT_MAX
    &&& (p.pkid is Some <==> p.qos != QoS::Zero)
}

impl Publish {
    /// The Remaining Length that the packet is written with.
    pub fn length(&self) -> (r: usize)
        requires
            publish_remaining_length(self@) <= usize::MAX,
        ensures
            r == publish_remaining_length(self@),
    {
        let pl = self.properties.length();
        utf8_len(&self.topic) + 2 + pl + variable_length(pl) + bytes_len(&self.payload)
    }

    /// Writes the fixed header, the topic name, the packet identifier (QoS 1
    /// and 2), the properties, then the payload as binary data and once more as it is.
    #[verifier::spinoff_prover]
    #[verifier::rlimit(80)]
    pub fn write(&self, buf: &mut BytesMut) -> (r: Result<(), MQTTError>)
        requires
            bytes_mut_view(*old(buf)).len() + publish_write_bound(self@) <= isize::MAX,
        ensures
            r == spec_write_publish(self@).0,
            bytes_mut_view(*final(buf)) == bytes_mut_view(*old(buf)) + spec_write_publish(self@).1,
    {
        reveal(spec_write_publish);
        let ghost start = bytes_mut_view(*buf);
        let ghost p = self@;
        let len = self.length();
        proof {
            if len <= VARINT_MAX {
                lemma_varint_len(len as nat);
            }
            lemma_write_properties_bound(PublishProperties::spec_entries(p.properties));
        }
        let flags: u8 = (if self.dup {
            8u8
        } else {
            0u8
        }) + self.qos.code() * 2 + (if self.retain {
            1u8
        } else {
            0u8
        });
        if let Err(e) = FixedHeader::new(PacketType::Publish, flags, len).write(buf) {
            return Err(e);
        }
        write_string(buf, &self.topic);
        if self.qos != QoS::Zero {
            match self.pkid {
                Some(id) => write_u16(buf, id),
                None => return Err(MQTTError::PacketIdRequired),
            }
        }
        let ghost mid = bytes_mut_view(*buf);
        let r = self.properties.write(buf);
        if r.is_err() {
            assert(bytes_mut_view(*buf) =~= start + spec_write_publish(p).1);
            return r;
        }
        write_bytes(buf, &self.payload);
        bytes_mut_extend(buf, bytes_as_slice(&self.payload));
        assert(bytes_mut_view(*buf) =~= start + spec_write_publish(p).1);
        Ok(())
    }

    /// Reads the body of a PUBLISH (after its fixed header); the flags of
    /// `header` give DUP, QoS and RETAIN.
    #[verifier::spinoff_prover]
    #[verifier::rlimit(80)]
    pub fn read_with_fixedheader(buf: &mut Bytes, header: FixedHeader) -> (r: Result<Self, MQTTError>)
        ensures
            match (r, parse_publish(bytes_view(*old(buf)), flag_bits(header.flags)).0) {
                (Ok(p), Ok(v)) => p@ == v,
                (Err(e), Err(f)) => e == f,
                _ => false,
            },
            bytes_view(*final(buf)) == bytes_view(*old(buf)).skip(
                parse_publish(bytes_view(*old(buf)), flag_bits(header.flags)).1 as int,
            ),
    {
        let ghost s = bytes_view(*buf);
        let flag: u8 = match header.flags {
            Some(f) => f,
            None => 0,
        };
        let topic = match read_string(buf) {
            Ok(t) => t,
            Err(e) => {
                assert(parse_publish(s, flag) == (Err::<PublishV, MQTTError>(e), parse_utf8(s).1)) by {
                    reveal(parse_publish);
                }
                return Err(e);
            },
        };
        let ghost n1 = parse_utf8(s).1;
        let dup = flag / 8 % 2 == 1;
        let qos = match QoS::from_code(flag / 2 % 4) {
            Ok(q) => q,
            Err(e) => {
                assert(parse_publish(s, flag) == (Err::<PublishV, MQTTError>(e), n1)) by {
                    reveal(parse_publish);
                }
                return Err(e);
            },
        };
        let retain = flag % 2 == 1;
        let ghost t = bytes_view(*buf);
        assert(t == s.skip(n1 as int));
        assert(parse_publish(s, flag) == after(parse_publish_after_topic(t, flag, topic@, qos), n1)) by {
            reveal(parse_publish);
        }
        let mut pkid: Option<u16> = None;
        if qos != QoS::Zero {
            match read_u16(buf) {
                Ok(id) => {
                    pkid = Some(id);
                },
                Err(_) => {
                    assert(parse_publish_after_topic(t, flag, topic@, qos) == (Err::<PublishV, MQTTError>(MQTTError::PacketIdRequired), parse_publish_pkid(t, qos).1)) by {
                        reveal(parse_publish_after_topic);
                    }
                    assert(bytes_view(*buf) =~= s.skip((n1 + parse_publish_pkid(t, qos).1) as int));
                    return Err(MQTTError::PacketIdRequired);
                },
            }
        }
        let ghost m = parse_publish_pkid(t, qos).1;
        let ghost u = bytes_view(*buf);
        assert(u =~= t.skip(m as int));
        assert(parse_publish_after_topic(t, flag, topic@, qos) == after(parse_publish_after_pkid(u, flag, topic@, qos, pkid), m)) by {
            reveal(parse_publish_after_topic);
        }
        proof {
            lemma_parse_properties_len::<PublishProperties>(u, "");
        }
        let properties = match PublishProperties::read(buf) {
            Ok(p) => p,
            Err(e) => {
                assert(parse_publish_after_pkid(u, flag, topic@, qos, pkid) == (Err::<PublishV, MQTTError>(e), parse_properties::<PublishProperties>(u, "").1)) by {
                    reveal(parse_publish_after_pkid);
                }
                assert(bytes_view(*buf) =~= s.skip(
                    (n1 + m + parse_properties::<PublishProperties>(u, "").1) as int,
                ));
                return Err(e);
            },
        };
        let ghost k = parse_properties::<PublishProperties>(u, "").1;
        let ghost x = bytes_view(*buf);
        assert(x =~= u.skip(k as int));
        assert(parse_publish_after_pkid(u, flag, topic@, qos, pkid) == after(parse_publish_payload(x, flag, topic@, qos, pkid, properties@), k)) by {
            reveal(parse_publish_after_pkid);
        }
        let payload = match read_binary(buf) {
            Ok(b) => b,
            Err(e) => {
                assert(parse_publish_payload(x, flag, topic@, qos, pkid, properties@) == (Err::<PublishV, MQTTError>(e), parse_binary(x).1)) by {
                    reveal(parse_publish_payload);
                }
                assert(bytes_view(*buf) =~= s.skip((n1 + m + k + parse_binary(x).1) as int));
                return Err(e);
            },
        };
        let r = Publish { dup, retain, qos, topic, pkid, properties, payload };
        assert(parse_publish_payload(x, flag, topic@, qos, pkid, properties@) == (Ok::<PublishV, MQTTError>(r@), parse_binary(x).1)) by {
            reveal(parse_publish_payload);
        }
        assert(bytes_view(*buf) =~= s.skip((n1 + m + k + parse_binary(x).1) as int));
        Ok(r)
    }

    /// Reading a written PUBLISH gives back the packet: its fixed header
    /// carries the flags, and the body after the header reads back as the
    /// packet, leaving the second copy of the payload.
    pub proof fn lemma_write_read(p: PublishV)
        requires
            publish_fits(p),
        ensures
            ({
                let (r, b) = spec_write_publish(p);
                let h = publish_header(p);
                let hn = 1 + varint(publish_remaining_length(p)).len();
                &&& r == Ok::<(), MQTTError>(())
                &&& parse_fixed_header(b) == (Ok::<FixedHeader, MQTTError>(
                    FixedHeader { header_len: (hn - 1) as usize, ..h },
                ), hn)
                &&& flag_bits(h.flags) == publish_flags(p.dup, p.qos, p.retain)
                &&& parse_publish(b.skip(hn as int), flag_bits(h.flags)) == (Ok::<PublishV, MQTTError>(p), (b.len() - hn - p.payload.len()) as nat)
            }),
    {
        let h = publish_header(p);
        let f = publish_flags(p.dup, p.qos, p.retain);
        let rl = publish_remaining_length(p);
        lemma_varint_len(rl);
        lemma_publish_flags(p.dup, p.qos, p.retain);
        assert(header_fits(h));
        let body = publish_body(p);
        lemma_publish_bytes(p);
        let b = spec_write_publish(p).1;
        assert(b == spec_header_bytes(h) + body);
        lemma_fixed_header_roundtrip(h, body);
        let hn = 1 + varint(rl).len();
        assert(b.skip(hn as int) =~= body);
        assert(flag_bits(h.flags) == f);
        lemma_parse_body(p);
    }
}

/// The bytes after the fixed header of a PUBLISH that writes without failing.
pub open spec fn publish_body(p: PublishV) -> Seq<u8> {
    let pk = if p.qos != QoS::Zero {
        be16(p.pkid->0)
    } else {
        Seq::<u8>::empty()
    };
    utf8_field(p.topic) + pk + spec_write_properties(PublishProperties::spec_entries(p.properties)).1
        + binary_field(p.payload) + p.payload
}

proof fn lemma_publish_bytes(p: PublishV)
    requires
        publish_fits(p),
    ensures
        spec_write_publish(p) == (Ok::<(), MQTTError>(()), spec_header_bytes(publish_header(p)) + publish_body(p)),
{
    reveal(spec_write_publish);
    PublishProperties::lemma_write_read(p.properties, Seq::empty());
    let pk = if p.qos != QoS::Zero {
        be16(p.pkid->0)
    } else {
        Seq::<u8>::empty()
    };
    let hb = spec_header_bytes(publish_header(p));
    let w = spec_write_properties(PublishProperties::spec_entries(p.properties));
    let b1 = hb + utf8_field(p.topic);
    let b2 = if p.qos != QoS::Zero {
        b1 + be16(p.pkid->0)
    } else {
        b1
    };
    assert(b2 =~= hb + utf8_field(p.topic) + pk);
    assert(b2 + w.1 + binary_field(p.payload) + p.payload =~= hb + publish_body(p));
}

/// The flags byte holds DUP, QoS and RETAIN where reading looks for them.
pub proof fn lemma_publish_flags(dup: bool, qos: QoS, retain: bool)
    ensures
        publish_flags(dup, qos, retain) < 16,
        publish_flags(dup, qos, retain) / 2 % 4 == qos.spec_code(),
        QoS::spec_from_code(publish_flags(dup, qos, retain) / 2 % 4) == Ok::<QoS, MQTTError>(qos),
        (publish_flags(dup, qos, retain) / 8 % 2 == 1) == dup,
        (publish_flags(dup, qos, retain) % 2 == 1) == retain,
{
    match qos {
        QoS::Zero => {},
        QoS::One => {},
        QoS::Two => {},
    }
}

proof fn lemma_skip_concat(a: Seq<u8>, b: Seq<u8>)
    ensures
        (a + b).skip(a.len() as int) == b,
{
    assert((a + b).skip(a.len() as int) =~= b);
}

proof fn lemma_stage_payload(
    payload: Seq<u8>,
    f: u8,
    topic: Seq<char>,
    qos: QoS,
    pkid: Option<u16>,
    props: PublishPropertiesV,
)
    requires
        payload.len() <= 65535,
    ensures
        parse_publish_payload(binary_field(payload) + payload, f, topic, qos, pkid, props) == (
            Ok::<PublishV, MQTTError>(
                PublishV { dup: f / 8 % 2 == 1, retain: f % 2 == 1, qos, topic, pkid, properties: props, payload },
            ),
            2 + payload.len(),
        ),
{
    lemma_binary_roundtrip(payload, payload);
    reveal(parse_publish_payload);
}

proof fn lemma_stage_props(w: Seq<u8>, tail: Seq<u8>, f: u8, topic: Seq<char>, qos: QoS, pkid: Option<u16>, props: PublishPropertiesV)
    requires
        parse_properties::<PublishProperties>(w + tail, "") == (Ok::<PublishPropertiesV, MQTTError>(props), w.len()),
    ensures
        parse_publish_after_pkid(w + tail, f, topic, qos, pkid) == after(
            parse_publish_payload(tail, f, topic, qos, pkid, props),
            w.len(),
        ),
{
    lemma_skip_concat(w, tail);
    reveal(parse_publish_after_pkid);
}

proof fn lemma_stage_pkid(pk: Seq<u8>, rest: Seq<u8>, f: u8, topic: Seq<char>, qos: QoS, pkid: Option<u16>)
    requires
        parse_publish_pkid(pk + rest, qos) == (Ok::<Option<u16>, MQTTError>(pkid), pk.len()),
    ensures
        parse_publish_after_topic(pk + rest, f, topic, qos) == after(
            parse_publish_after_pkid(rest, f, topic, qos, pkid),
            pk.len(),
        ),
{
    lemma_skip_concat(pk, rest);
    reveal(parse_publish_after_topic);
}

proof fn lemma_stage_topic(topic: Seq<char>, rest: Seq<u8>, f: u8, qos: QoS)
    requires
        utf8_fits(topic),
        QoS::spec_from_code(f / 2 % 4) == Ok::<QoS, MQTTError>(qos),
    ensures
        parse_publish(utf8_field(topic) + rest, f) == after(
            parse_publish_after_topic(rest, f, topic, qos),
            utf8_field(topic).len(),
        ),
{
    lemma_utf8_roundtrip(topic, rest);
    lemma_skip_concat(utf8_field(topic), rest);
    reveal(parse_publish);
}

/// Reading a PUBLISH body part by part, each part's parse being known.
proof fn lemma_parse_parts(
    topic: Seq<char>,
    pk: Seq<u8>,
    w: Seq<u8>,
    payload: Seq<u8>,
    f: u8,
    qos: QoS,
    pkid: Option<u16>,
    props: PublishPropertiesV,
)
    requires
        utf8_fits(topic),
        payload.len() <= 65535,
        QoS::spec_from_code(f / 2 % 4) == Ok::<QoS, MQTTError>(qos),
        parse_publish_pkid(pk + (w + (binary_field(payload) + payload)), qos) == (Ok::<Option<u16>, MQTTError>(pkid), pk.len()),
        parse_properties::<PublishProperties>(w + (binary_field(payload) + payload), "") == (
            Ok::<PublishPropertiesV, MQTTError>(props),
            w.len(),
        ),
    ensures
        parse_publish(utf8_field(topic) + pk + w + binary_field(payload) + payload, f) == (
            Ok::<PublishV, MQTTError>(
                PublishV {
                    dup: f / 8 % 2 == 1,
                    retain: f % 2 == 1,
                    qos,
                    topic,
                    pkid,
                    properties: props,
                    payload,
                },
            ),
            utf8_field(topic).len() + pk.len() + w.len() + 2 + payload.len(),
        ),
{
    let tail = binary_field(payload) + payload;
    lemma_stage_payload(payload, f, topic, qos, pkid, props);
    lemma_stage_props(w, tail, f, topic, qos, pkid, props);
    lemma_stage_pkid(pk, w + tail, f, topic, qos, pkid);
    lemma_stage_topic(topic, pk + (w + tail), f, qos);
    assert(utf8_field(topic) + pk + w + binary_field(payload) + payload =~= utf8_field(topic) + (pk + (w + tail)));
}

proof fn lemma_parse_body(p: PublishV)
    requires
        publish_fits(p),
    ensures
        parse_publish(publish_body(p), publish_flags(p.dup, p.qos, p.retain)) == (Ok::<PublishV, MQTTError>(p), (publish_body(p).len() - p.payload.len()) as nat),
{
    let f = publish_flags(p.dup, p.qos, p.retain);
    let ps = PublishProperties::spec_entries(p.properties);
    let w = spec_write_properties(ps).1;
    let tail = binary_field(p.payload) + p.payload;
    PublishProperties::lemma_write_read(p.properties, tail);
    let pk = if p.qos != QoS::Zero {
        be16(p.pkid->0)
    } else {
        Seq::<u8>::empty()
    };
    lemma_publish_flags(p.dup, p.qos, p.retain);
    if p.qos != QoS::Zero {
        lemma_u16_roundtrip(p.pkid->0, w + tail);
    }
    lemma_parse_parts(p.topic, pk, w, p.payload, f, p.qos, p.pkid, p.properties);
    let v = PublishV {
        dup: f / 8 % 2 == 1,
        retain: f % 2 == 1,
        qos: p.qos,
        topic: p.topic,
        pkid: p.pkid,
        properties: p.properties,
        payload: p.payload,
    };
    assert(v =~= p);
}

impl Default for Publish {
    fn default() -> (r: Self)
        ensures
            r@ == (PublishV {
                dup: false,
                retain: false,
                qos: QoS::Zero,
                topic: Seq::empty(),
                pkid: None,
                properties: PublishProperties::spec_empty(),
                payload: Seq::empty(),
            }),
    {
        let r = Publish {
            dup: false,
            retain: false,
            qos: QoS::Zero,
            topic: String::new(),
            pkid: None,
            properties: PublishProperties::empty(),
            payload: bytes_new(),
        };
        assert(r@ =~= PublishV {
            dup: false,
            retain: false,
            qos: QoS::Zero,
            topic: Seq::empty(),
            pkid: None,
            properties: PublishProperties::spec_empty(),
            payload: Seq::empty(),
        });
        r
    }
}

} // verus!
