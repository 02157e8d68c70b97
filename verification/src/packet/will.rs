//! The Will Message in the CONNECT payload (sections 3.1.3.2 to 3.1.3.4):
//! its properties, topic and payload. Its QoS and retain flag travel in the
//! Connect Flags.
use bytes::{Bytes, BytesMut};
use vstd::prelude::*;
use vstd::utf8::*;

use crate::buffer::{bytes_len, bytes_mut_view, bytes_new, bytes_view};
use crate::codec::{
    binary_field, lemma_binary_roundtrip, lemma_utf8_roundtrip, parse_binary, parse_utf8, read_binary,
    read_string, utf8_field, utf8_fits, utf8_len, write_bytes, write_string, Parsed,
};
use crate::error::MQTTError;
use crate::packet::will_properties::{WillProperties, WillPropertiesV};
use crate::properties::{
    entries_fit, entries_size, lemma_parse_properties_len, lemma_write_properties_bound,
    lemma_write_properties_len, parse_properties, spec_write_properties, PropertySet,
};
use crate::property::lemma_parse_utf8_len;
use crate::qos::QoS;
use crate::varint::{spec_variable_length, variable_length, VARINT_MAX};

verus! {

#[derive(Debug, Clone, PartialEq, Eq)]
pub struct Will {
    pub properties: WillProperties,
    pub topic: String,
    pub payload: Bytes,
    pub qos: QoS,
    pub retain: bool,
}

#[verifier::ext_equal]
pub struct WillV {
    pub properties: WillPropertiesV,
    pub topic: Seq<char>,
    pub payload: Seq<u8>,
    pub qos: QoS,
    pub retain: bool,
}

impl View for Will {
    type V = WillV;

    open spec fn view(&self) -> WillV {
        WillV {
            properties: self.properties@,
            topic: self.topic@,
            payload: bytes_view(self.payload),
            qos: self.qos,
            retain: self.retain,
        }
    }
}

/// The bytes that a Will takes: its property list, topic and payload.
pub open spec fn will_length(w: WillV) -> nat {
    let pl = entries_size(WillProperties::spec_entries(w.properties));
    (encode_utf8(w.topic).len() + 2) + (w.payload.len() + 2) + spec_variable_length(pl) + pl
}

/// What writing a Will gives: the outcome and the bytes.
pub open spec fn spec_write_will(w: WillV) -> (Result<(), MQTTError>, Seq<u8>) {
    let p = spec_write_properties(WillProperties::spec_entries(w.properties));
    match p.0 {
        Err(e) => (Err(e), p.1),
        Ok(_) => (Ok(()), p.1 + utf8_field(w.topic) + binary_field(w.payload)),
    }
}

/// Reading a Will (its QoS and retain flag given by the Connect Flags).
#[verifier::opaque]
pub open spec fn parse_will(s: Seq<u8>, qos: QoS, retain: bool) -> Parsed<WillV> {
    match parse_properties::<WillProperties>(s, "WillProperties") {
        (Err(e), n) => (Err(e), n),
        (Ok(properties), n) => match parse_utf8(s.skip(n as int)) {
            (Err(e), m) => (Err(e), n + m),
            (Ok(topic), m) => match parse_binary(s.skip((n + m) as int)) {
                (Err(e), k) => (Err(e), n + m + k),
                (Ok(payload), k) => (Ok(WillV { properties, topic, payload, qos, retain }), n + m + k),
            },
        },
    }
}

/// A Will that writes without failing and reads back as itself.
pub open spec fn will_fits(w: WillV) -> bool {
    &&& entries_fit(WillProperties::spec_entries(w.properties))
    &&& entries_size(WillProperties::spec_entries(w.properties)) <= VARINT_MAX
    &&& utf8_fits(w.topic)
    &&& w.payload.len() <= 65535
}

/// Writing a Will writes at most three bytes more than its length.
pub proof fn lemma_write_will_bound(w: WillV)
    ensures
        spec_write_will(w).1.len() <= will_length(w) + 3,
{
    lemma_write_properties_bound(WillProperties::spec_entries(w.properties));
}

/// A Will parse takes no more bytes than there are.
pub proof fn lemma_parse_will_len(s: Seq<u8>, qos: QoS, retain: bool)
    ensures
        parse_will(s, qos, retain).1 <= s.len(),
{
    reveal(parse_will);
    lemma_parse_properties_len::<WillProperties>(s, "WillProperties");
    let n = parse_properties::<WillProperties>(s, "WillProperties").1;
    lemma_parse_utf8_len(s.skip(n as int));
    let m = parse_utf8(s.skip(n as int)).1;
    lemma_parse_utf8_len(s.skip((n + m) as int));
}

/// Reading a written Will gives it back.
pub proof fn lemma_will_roundtrip(w: WillV, rest: Seq<u8>)
    requires
        will_fits(w),
    ensures
        spec_write_will(w).0 == Ok::<(), MQTTError>(()),
        spec_write_will(w).1.len() == will_length(w),
        parse_will(spec_write_will(w).1 + rest, w.qos, w.retain) == (
            Ok::<WillV, MQTTError>(w),
            spec_write_will(w).1.len(),
        ),
{
    reveal(parse_will);
    let ps = WillProperties::spec_entries(w.properties);
    let p = spec_write_properties(ps).1;
    let t = utf8_field(w.topic);
    let b = binary_field(w.payload);
    let s = p + t + b + rest;
    WillProperties::lemma_write_read(w.properties, t + b + rest);
    lemma_write_properties_len(ps);
    crate::varint::lemma_varint_len(entries_size(ps));
    assert(s =~= p + (t + b + rest));
    assert(s.skip(p.len() as int) =~= t + (b + rest));
    lemma_utf8_roundtrip(w.topic, b + rest);
    assert(s.skip((p.len() + t.len()) as int) =~= b + rest);
    lemma_binary_roundtrip(w.payload, rest);
    assert(WillV {
        properties: w.properties,
        topic: w.topic,
        payload: w.payload,
        qos: w.qos,
        retain: w.retain,
    } =~= w);
}

impl Will {
    /// The bytes that the Will takes in the CONNECT payload.
    pub fn length(&self) -> (r: usize)
        requires
            will_length(self@) <= usize::MAX,
        ensures
            r == will_length(self@),
    {
        let pl = self.properties.length();
        (utf8_len(&self.topic) + 2) + (bytes_len(&self.payload) + 2) + variable_length(pl) + pl
    }

    /// Writes the properties, the topic and the payload.
    pub fn write(&self, buf: &mut BytesMut) -> (r: Result<(), MQTTError>)
        requires
            bytes_mut_view(*old(buf)).len() + will_length(self@) + 4 <= isize::MAX,
        ensures
            r == spec_write_will(self@).0,
            bytes_mut_view(*final(buf)) == bytes_mut_view(*old(buf)) + spec_write_will(self@).1,
    {
        let ghost start = bytes_mut_view(*buf);
        proof {
            lemma_write_properties_bound(WillProperties::spec_entries(self.properties@));
        }
        let r = self.properties.write(buf);
        if r.is_err() {
            return r;
        }
        write_string(buf, &self.topic);
        write_bytes(buf, &self.payload);
        assert(bytes_mut_view(*buf) =~= start + spec_write_will(self@).1);
        Ok(())
    }

    /// Reads the properties, the topic and the payload; `qos` and `retain`
    /// come from the Connect Flags.
    pub fn read(buf: &mut Bytes, qos: QoS, retain: bool) -> (r: Result<Self, MQTTError>)
        ensures
            match (r, parse_will(bytes_view(*old(buf)), qos, retain).0) {
                (Ok(w), Ok(v)) => w@ == v,
                (Err(e), Err(f)) => e == f,
                _ => false,
            },
            bytes_view(*final(buf)) == bytes_view(*old(buf)).skip(parse_will(bytes_view(*old(buf)), qos, retain).1 as int),
    {
        reveal(parse_will);
        let ghost s = bytes_view(*buf);
        proof {
            lemma_parse_properties_len::<WillProperties>(s, "WillProperties");
        }
        let properties = match WillProperties::read(buf) {
            Ok(p) => p,
            Err(e) => return Err(e),
        };
        let ghost n = parse_properties::<WillProperties>(s, "WillProperties").1;
        let ghost s1 = bytes_view(*buf);
        proof {
            lemma_parse_utf8_len(s1);
        }
        let topic = match read_string(buf) {
            Ok(t) => t,
            Err(e) => {
                assert(bytes_view(*buf) =~= s.skip((n + parse_utf8(s1).1) as int));
                return Err(e);
            },
        };
        let ghost m = parse_utf8(s1).1;
        assert(bytes_view(*buf) =~= s.skip((n + m) as int));
        let ghost s2 = bytes_view(*buf);
        let payload = match read_binary(buf) {
            Ok(p) => p,
            Err(e) => {
                assert(bytes_view(*buf) =~= s.skip((n + m + parse_binary(s2).1) as int));
                return Err(e);
            },
        };
        assert(bytes_view(*buf) =~= s.skip((n + m + parse_binary(s2).1) as int));
        Ok(Will { properties, topic, payload, qos, retain })
    }
}

impl Default for Will {
    fn default() -> (r: Self)
        ensures
            r@ == (WillV {
                properties: WillProperties::spec_empty(),
                topic: Seq::empty(),
                payload: Seq::empty(),
                qos: QoS::Zero,
                retain: false,
            }),
    {
        let r = Will {
            properties: WillProperties::empty(),
            topic: String::new(),
            payload: bytes_new(),
            qos: QoS::Zero,
            retain: false,
        };
        assert(r@ =~= WillV {
            properties: WillProperties::spec_empty(),
            topic: Seq::empty(),
            payload: Seq::empty(),
            qos: QoS::Zero,
            retain: false,
        });
        r
    }
}

} // verus!
