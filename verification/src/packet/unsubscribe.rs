//! UNSUBSCRIBE (section 3.10): a packet identifier, properties, and one or more
//! topic filters.
use bytes::{Bytes, BytesMut};
use vstd::prelude::*;
use vstd::utf8::*;

use crate::buffer::{bytes_len, bytes_mut_view, bytes_view};
use crate::codec::{
    be16, lemma_u16_roundtrip, lemma_utf8_roundtrip, parse_u16, parse_utf8, read_string, read_u16,
    utf8_field, utf8_fits, utf8_len, write_string, write_u16, Parsed,
};
use crate::error::MQTTError;
use crate::fixed_header::{
    header_fits, lemma_fixed_header_roundtrip, parse_fixed_header, spec_first_byte,
    spec_header_bytes, FixedHeader,
};
use crate::packet::unsubscribe_properties::{UnSubscribeProperties, UnSubscribePropertiesV};

use crate::packet_type::PacketType;
use crate::properties::{
    entries_fit, entries_size, lemma_parse_properties_len, lemma_write_properties_bound,
    lemma_write_properties_len, parse_properties, spec_write_properties, PropertySet,
};
use crate::property::lemma_parse_utf8_len;
use crate::varint::{lemma_varint_len, spec_variable_length, variable_length, varint, VARINT_MAX};

verus! {

/// The error for a packet with no topic filter.
pub open spec fn unsubscribe_empty_error() -> MQTTError {
    MQTTError::ProtocolError("Must contain at least one topic filter")
}

#[derive(Debug, Clone, PartialEq, Eq)]
pub struct UnSubscribe {
    pub packet_identifier: u16,
    pub properties: UnSubscribeProperties,
    /// It is a protocol error for the packet to carry no entry.
    pub payload: Vec<String>,
}

/// The entries, with each topic taken as its characters.
pub open spec fn unsubscribe_entries_view(es: Seq<String>) -> Seq<Seq<char>> {
    es.map_values(|e: String| e@)
}

/// The bytes of one entry.
pub open spec fn unsubscribe_entry_bytes(e: Seq<char>) -> Seq<u8> {
    utf8_field(e)
}

/// The entries written one after the other.
pub open spec fn unsubscribe_entries_bytes(es: Seq<Seq<char>>) -> Seq<u8>
    decreases es.len(),
{
    if es.len() == 0 {
        Seq::empty()
    } else {
        unsubscribe_entries_bytes(es.drop_last()) + unsubscribe_entry_bytes(es.last())
    }
}

/// The Remaining Length: the packet identifier, the property list and the entries.
pub open spec fn unsubscribe_remaining_length(es: Seq<Seq<char>>, props: UnSubscribePropertiesV) -> nat {
    let pl = entries_size(UnSubscribeProperties::spec_entries(props));
    2 + pl + spec_variable_length(pl) + unsubscribe_entries_bytes(es).len()
}

pub open spec fn unsubscribe_header(es: Seq<Seq<char>>, props: UnSubscribePropertiesV) -> FixedHeader {
    FixedHeader {
        packet_type: PacketType::UnSubscribe,
        flags: Some(2),
        remaining_length: unsubscribe_remaining_length(es, props) as usize,
        header_len: 0,
    }
}

/// What writing the packet gives: the outcome and the bytes. With no entry
/// nothing is written.
pub open spec fn spec_write_unsubscribe(pkid: u16, es: Seq<Seq<char>>, props: UnSubscribePropertiesV) -> (
    Result<(), MQTTError>,
    Seq<u8>,
) {
    let h = unsubscribe_header(es, props);
    if es.len() == 0 {
        (Err(unsubscribe_empty_error()), Seq::empty())
    } else if unsubscribe_remaining_length(es, props) > VARINT_MAX {
        (Err(MQTTError::PayloadTooLong), seq![spec_first_byte(h)])
    } else {
        let w = spec_write_properties(UnSubscribeProperties::spec_entries(props));
        match w.0 {
            Err(e) => (Err(e), spec_header_bytes(h) + be16(pkid) + w.1),
            Ok(_) => (Ok(()), spec_header_bytes(h) + be16(pkid) + w.1 + unsubscribe_entries_bytes(es)),
        }
    }
}

/// Reading one entry.
pub open spec fn parse_unsubscribe_entry(s: Seq<u8>) -> Parsed<Seq<char>> {
    parse_utf8(s)
}

/// An entry parse takes no more bytes than there are, and at least one when
/// it succeeds.
pub proof fn lemma_parse_entry_len(s: Seq<u8>)
    ensures
        parse_unsubscribe_entry(s).1 <= s.len(),
        parse_unsubscribe_entry(s).0 is Ok ==> parse_unsubscribe_entry(s).1 >= 1,
{
    lemma_parse_utf8_len(s);
    
}

/// Reading entries up to the end of the input.
pub open spec fn parse_unsubscribe_entries(s: Seq<u8>) -> Parsed<Seq<Seq<char>>>
    decreases s.len(),
{
    if s.len() == 0 {
        (Ok(Seq::empty()), 0)
    } else {
        match parse_unsubscribe_entry(s) {
            (Err(e), n) => (Err(e), n),
            (Ok(e), n) => {
                proof {
                    lemma_parse_entry_len(s);
                }
                match parse_unsubscribe_entries(s.skip(n as int)) {
                    (Err(f), m) => (Err(f), n + m),
                    (Ok(es), m) => (Ok(seq![e] + es), n + m),
                }
            },
        }
    }
}

/// Reading the body of the packet (after its fixed header): the packet
/// identifier, the properties, then entries to the end of the input, of
/// which there must be at least one.
pub open spec fn parse_unsubscribe(s: Seq<u8>) -> Parsed<(u16, UnSubscribePropertiesV, Seq<Seq<char>>)> {
    match parse_u16(s) {
        (Err(e), n) => (Err(e), n),
        (Ok(pkid), _) => match parse_properties::<UnSubscribeProperties>(s.skip(2), "") {
            (Err(e), k) => (Err(e), 2 + k),
            (Ok(props), k) => match parse_unsubscribe_entries(s.skip((2 + k) as int)) {
                (Err(e), j) => (Err(e), 2 + k + j),
                (Ok(es), j) => if es.len() == 0 {
                    (Err(unsubscribe_empty_error()), 2 + k + j)
                } else {
                    (Ok((pkid, props, es)), 2 + k + j)
                },
            },
        },
    }
}

proof fn lemma_parse_entries_len(s: Seq<u8>)
    ensures
        parse_unsubscribe_entries(s).1 <= s.len(),
    decreases s.len(),
{
    if s.len() > 0 {
        lemma_parse_entry_len(s);
        if let (Ok(_), n) = parse_unsubscribe_entry(s) {
            lemma_parse_entries_len(s.skip(n as int));
        }
    }
}

/// An entry that reads back as itself.
pub open spec fn unsubscribe_entry_fits(e: Seq<char>) -> bool {
    utf8_fits(e)
}

proof fn lemma_entry_roundtrip(e: Seq<char>, rest: Seq<u8>)
    requires
        unsubscribe_entry_fits(e),
    ensures
        parse_unsubscribe_entry(unsubscribe_entry_bytes(e) + rest) == (Ok::<Seq<char>, MQTTError>(e), unsubscribe_entry_bytes(e).len()),
{
    lemma_utf8_roundtrip(e, rest);
}

proof fn lemma_entries_bytes_push(es: Seq<Seq<char>>)
    requires
        es.len() > 0,
    ensures
        unsubscribe_entries_bytes(es) == unsubscribe_entry_bytes(es[0]) + unsubscribe_entries_bytes(es.drop_first()),
    decreases es.len(),
{
    if es.len() > 1 {
        let d = es.drop_last();
        lemma_entries_bytes_push(d);
        assert(d.drop_first() =~= es.drop_first().drop_last());
        assert(es.drop_first().last() == es.last());
        assert(d[0] == es[0]);
        let a = unsubscribe_entry_bytes(es[0]);
        let b = unsubscribe_entries_bytes(d.drop_first());
        let c = unsubscribe_entry_bytes(es.last());
        assert(unsubscribe_entries_bytes(es) == (a + b) + c);
        assert(unsubscribe_entries_bytes(es.drop_first()) == b + c);
        assert((a + b) + c =~= a + (b + c));
    } else {
        assert(es.drop_last().len() == 0);
        assert(es.drop_first().len() == 0);
        assert(unsubscribe_entries_bytes(es.drop_last()) == Seq::<u8>::empty());
        assert(unsubscribe_entries_bytes(es.drop_first()) == Seq::<u8>::empty());
        assert(es.last() == es[0]);
        assert(unsubscribe_entries_bytes(es) =~= unsubscribe_entry_bytes(es[0]) + unsubscribe_entries_bytes(es.drop_first()));
    }
}

/// Reading written entries gives them back.
proof fn lemma_entries_roundtrip(es: Seq<Seq<char>>)
    requires
        forall|i: int| 0 <= i < es.len() ==> unsubscribe_entry_fits(#[trigger] es[i]),
    ensures
        parse_unsubscribe_entries(unsubscribe_entries_bytes(es)) == (Ok::<Seq<Seq<char>>, MQTTError>(es), unsubscribe_entries_bytes(es).len()),
    decreases es.len(),
{
    if es.len() > 0 {
        lemma_entries_bytes_push(es);
        let first = unsubscribe_entry_bytes(es[0]);
        let tail = unsubscribe_entries_bytes(es.drop_first());
        assert(unsubscribe_entry_fits(es[0]));
        lemma_entry_roundtrip(es[0], tail);
        assert((first + tail).skip(first.len() as int) =~= tail);
        assert forall|i: int| 0 <= i < es.drop_first().len() implies unsubscribe_entry_fits(#[trigger] es.drop_first()[i]) by {
            assert(es.drop_first()[i] == es[i + 1]);
        }
        lemma_entries_roundtrip(es.drop_first());
        lemma_entry_len_pos(es[0]);
        assert(seq![es[0]] + es.drop_first() =~= es);
    } else {
        assert(unsubscribe_entries_bytes(es).len() == 0);
        assert(es =~= Seq::<Seq<char>>::empty());
    }
}

proof fn lemma_entry_len_pos(e: Seq<char>)
    ensures
        unsubscribe_entry_bytes(e).len() >= 1,
{
}

/// A parse of entries with `acc` read before it and `n` bytes taken before it.
pub open spec fn prepend_entries(acc: Seq<Seq<char>>, r: Parsed<Seq<Seq<char>>>, n: nat) -> Parsed<Seq<Seq<char>>> {
    match r {
        (Ok(rest), m) => (Ok(acc + rest), n + m),
        (Err(e), m) => (Err(e), n + m),
    }
}

proof fn lemma_entries_step(s: Seq<u8>, n: nat, acc: Seq<Seq<char>>, e: Seq<char>, k: nat)
    requires
        n < s.len(),
        parse_unsubscribe_entries(s) == prepend_entries(acc, parse_unsubscribe_entries(s.skip(n as int)), n),
        parse_unsubscribe_entry(s.skip(n as int)) == (Ok::<Seq<char>, MQTTError>(e), k),
    ensures
        n + k <= s.len(),
        parse_unsubscribe_entries(s) == prepend_entries(acc.push(e), parse_unsubscribe_entries(s.skip((n + k) as int)), n + k),
{
    let cur = s.skip(n as int);
    lemma_parse_entry_len(cur);
    assert(cur.skip(k as int) =~= s.skip((n + k) as int));
    match parse_unsubscribe_entries(cur.skip(k as int)) {
        (Ok(rest), m) => {
            assert(acc.push(e) + rest =~= acc + (seq![e] + rest));
        },
        (Err(f), m) => {},
    }
}

proof fn lemma_entries_fail(s: Seq<u8>)
    requires
        s.len() > 0,
        parse_unsubscribe_entry(s).0 is Err,
    ensures
        parse_unsubscribe_entries(s) == (Err::<Seq<Seq<char>>, MQTTError>(parse_unsubscribe_entry(s).0->Err_0), parse_unsubscribe_entry(s).1),
{
}

/// Reads entries until the input is empty.
fn read_entries(buf: &mut Bytes) -> (r: Result<Vec<String>, MQTTError>)
    ensures
        match (r, parse_unsubscribe_entries(bytes_view(*old(buf))).0) {
            (Ok(v), Ok(es)) => unsubscribe_entries_view(v@) == es,
            (Err(e), Err(f)) => e == f,
            _ => false,
        },
        bytes_view(*final(buf)) == bytes_view(*old(buf)).skip(parse_unsubscribe_entries(bytes_view(*old(buf))).1 as int),
{
    let ghost s = bytes_view(*buf);
    let mut entries: Vec<String> = Vec::new();
    let ghost mut n: nat = 0;
    assert(s.skip(0) =~= s);
    proof {
        match parse_unsubscribe_entries(s) {
            (Ok(rest), m) => {
                assert(unsubscribe_entries_view(entries@) + rest =~= rest);
            },
            (Err(f), m) => {},
        }
    }
    while bytes_len(buf) > 0
        invariant
            s == bytes_view(*old(buf)),
            n <= s.len(),
            bytes_view(*buf) == s.skip(n as int),
            parse_unsubscribe_entries(s) == prepend_entries(unsubscribe_entries_view(entries@), parse_unsubscribe_entries(s.skip(n as int)), n),
        decreases s.len() - n,
    {
        let ghost cur = bytes_view(*buf);
        proof {
            lemma_parse_entry_len(cur);
        }
        let entry = match read_string(buf) {
            Ok(t) => t,
            Err(e) => {
                proof {
                    lemma_entries_fail(cur);
                }
                assert(bytes_view(*buf) =~= s.skip((n + parse_unsubscribe_entry(cur).1) as int));
                return Err(e);
            },
        };
        assert(bytes_view(*buf) =~= s.skip((n + parse_unsubscribe_entry(cur).1) as int));
        let ghost k = parse_unsubscribe_entry(cur).1;
        proof {
            lemma_entries_step(s, n, unsubscribe_entries_view(entries@), entry@, k);
            assert(unsubscribe_entries_view(entries@.push(entry)) =~= unsubscribe_entries_view(entries@).push(entry@));
        }
        entries.push(entry);
        proof {
            n = n + k;
        }
    }
    assert(s.skip(n as int).len() == 0);
    assert(unsubscribe_entries_view(entries@) + Seq::<Seq<char>>::empty() =~= unsubscribe_entries_view(entries@));
    Ok(entries)
}

impl UnSubscribe {
    /// The entries, with each topic taken as its characters.
    pub open spec fn spec_entries(&self) -> Seq<Seq<char>> {
        unsubscribe_entries_view(self.payload@)
    }

    /// The Remaining Length.
    pub fn length(&self) -> (r: usize)
        requires
            unsubscribe_remaining_length(self.spec_entries(), self.properties@) <= usize::MAX,
        ensures
            r == unsubscribe_remaining_length(self.spec_entries(), self.properties@),
    {
        let pl = self.properties.length();
        let mut len: usize = 2 + pl + variable_length(pl);
        let ghost es = self.spec_entries();
        let mut i: usize = 0;
        while i < self.payload.len()
            invariant
                i <= self.payload.len(),
                es == self.spec_entries(),
                es.len() == self.payload.len(),
                len == 2 + pl + spec_variable_length(pl as nat) + unsubscribe_entries_bytes(es.take(i as int)).len(),
                unsubscribe_remaining_length(es, self.properties@) <= usize::MAX,
                pl == entries_size(UnSubscribeProperties::spec_entries(self.properties@)),
            decreases self.payload.len() - i,
        {
            proof {
                lemma_entries_bytes_prefix(es, i + 1);
                lemma_entries_bytes_prefix_le(es, i + 1);
                assert(es[i as int] == self.payload@[i as int]@);
            }
            len = len + 2 + utf8_len(&self.payload[i]);
            i = i + 1;
        }
        assert(es.take(i as int) =~= es);
        len
    }

    /// Writes the fixed header, the packet identifier, the properties and the
    /// entries; with no entry nothing is written and the outcome is a protocol error.
    pub fn write(&self, buf: &mut BytesMut) -> (r: Result<(), MQTTError>)
        requires
            bytes_mut_view(*old(buf)).len() + unsubscribe_remaining_length(self.spec_entries(), self.properties@) + 12 <= isize::MAX,
        ensures
            r == spec_write_unsubscribe(self.packet_identifier, self.spec_entries(), self.properties@).0,
            bytes_mut_view(*final(buf)) == bytes_mut_view(*old(buf)) + spec_write_unsubscribe(
                self.packet_identifier,
                self.spec_entries(),
                self.properties@,
            ).1,
    {
        let ghost start = bytes_mut_view(*buf);
        if self.payload.len() == 0 {
            assert(bytes_mut_view(*buf) =~= start + Seq::<u8>::empty());
            return Err(MQTTError::ProtocolError("Must contain at least one topic filter"));
        }
        let len = self.length();
        proof {
            if len <= VARINT_MAX {
                lemma_varint_len(len as nat);
            }
            lemma_write_properties_bound(UnSubscribeProperties::spec_entries(self.properties@));
        }
        if let Err(e) = FixedHeader::new(PacketType::UnSubscribe, 0b10, len).write(buf) {
            return Err(e);
        }
        write_u16(buf, self.packet_identifier);
        let r = self.properties.write(buf);
        if r.is_err() {
            return r;
        }
        let ghost mid = bytes_mut_view(*buf);
        let ghost es = self.spec_entries();
        let mut i: usize = 0;
        while i < self.payload.len()
            invariant
                i <= self.payload.len(),
                es == self.spec_entries(),
                bytes_mut_view(*buf) == mid + unsubscribe_entries_bytes(es.take(i as int)),
                mid.len() + unsubscribe_entries_bytes(es).len() <= isize::MAX,
            decreases self.payload.len() - i,
        {
            proof {
                lemma_entries_bytes_prefix(es, i + 1);
                lemma_entries_bytes_prefix_le(es, i + 1);
                assert(es.take(i + 1).drop_last() =~= es.take(i as int));
            }
            write_string(buf, &self.payload[i]);
            assert(bytes_mut_view(*buf) =~= mid + unsubscribe_entries_bytes(es.take(i + 1)));
            i = i + 1;
        }
        assert(es.take(i as int) =~= es);
        Ok(())
    }

    /// Reads the body of the packet (after its fixed header) up to the end of `buf`.
    pub fn read(buf: &mut Bytes) -> (r: Result<Self, MQTTError>)
        ensures
            match (r, parse_unsubscribe(bytes_view(*old(buf))).0) {
                (Ok(p), Ok((pkid, props, es))) => p.packet_identifier == pkid && p.properties@ == props
                    && p.spec_entries() == es,
                (Err(e), Err(f)) => e == f,
                _ => false,
            },
            bytes_view(*final(buf)) == bytes_view(*old(buf)).skip(parse_unsubscribe(bytes_view(*old(buf))).1 as int),
    {
        let ghost s = bytes_view(*buf);
        let packet_identifier = match read_u16(buf) {
            Ok(v) => v,
            Err(e) => return Err(e),
        };
        let ghost s1 = bytes_view(*buf);
        proof {
            lemma_parse_properties_len::<UnSubscribeProperties>(s1, "");
        }
        let properties = match UnSubscribeProperties::read(buf) {
            Ok(p) => p,
            Err(e) => {
                assert(bytes_view(*buf) =~= s.skip((2 + parse_properties::<UnSubscribeProperties>(s1, "").1) as int));
                return Err(e);
            },
        };
        let ghost k = parse_properties::<UnSubscribeProperties>(s1, "").1;
        assert(bytes_view(*buf) =~= s.skip((2 + k) as int));
        let ghost s2 = bytes_view(*buf);
        proof {
            lemma_parse_entries_len(s2);
        }
        let payload = match read_entries(buf) {
            Ok(v) => v,
            Err(e) => {
                assert(bytes_view(*buf) =~= s.skip((2 + k + parse_unsubscribe_entries(s2).1) as int));
                return Err(e);
            },
        };
        assert(bytes_view(*buf) =~= s.skip((2 + k + parse_unsubscribe_entries(s2).1) as int));
        if payload.len() == 0 {
            return Err(MQTTError::ProtocolError("Must contain at least one topic filter"));
        }
        Ok(UnSubscribe { packet_identifier, properties, payload })
    }

    /// Reading a written packet gives it back: its fixed header, then its
    /// body, which takes every byte after the header.
    #[verifier::spinoff_prover]
    pub proof fn lemma_write_read(pkid: u16, es: Seq<Seq<char>>, props: UnSubscribePropertiesV)
        requires
            es.len() > 0,
            forall|i: int| 0 <= i < es.len() ==> unsubscribe_entry_fits(#[trigger] es[i]),
            entries_fit(UnSubscribeProperties::spec_entries(props)),
            entries_size(UnSubscribeProperties::spec_entries(props)) <= VARINT_MAX,
            unsubscribe_remaining_length(es, props) <= VARINT_MAX,
        ensures
            ({
                let (r, b) = spec_write_unsubscribe(pkid, es, props);
                let rl = unsubscribe_remaining_length(es, props);
                let hn = 1 + varint(rl).len();
                &&& r == Ok::<(), MQTTError>(())
                &&& parse_fixed_header(b) == (Ok::<FixedHeader, MQTTError>(
                    FixedHeader { header_len: varint(rl).len() as usize, ..unsubscribe_header(es, props) },
                ), hn)
                &&& b.len() == hn + rl
                &&& parse_unsubscribe(b.skip(hn as int)) == (Ok::<(u16, UnSubscribePropertiesV, Seq<Seq<char>>), MQTTError>(
                    (pkid, props, es),
                ), rl)
            }),
    {
        let h = unsubscribe_header(es, props);
        let rl = unsubscribe_remaining_length(es, props);
        let ps = UnSubscribeProperties::spec_entries(props);
        let w = spec_write_properties(ps).1;
        let eb = unsubscribe_entries_bytes(es);
        lemma_varint_len(rl);
        lemma_varint_len(entries_size(ps));
        UnSubscribeProperties::lemma_write_read(props, eb);
        lemma_write_properties_len(ps);
        assert(header_fits(h));
        let body = be16(pkid) + w + eb;
        assert(spec_write_unsubscribe(pkid, es, props).1 =~= spec_header_bytes(h) + body);
        lemma_fixed_header_roundtrip(h, body);
        let hn = 1 + varint(rl).len();
        assert(spec_write_unsubscribe(pkid, es, props).1.skip(hn as int) =~= body);
        lemma_u16_roundtrip(pkid, w + eb);
        assert(body =~= be16(pkid) + (w + eb));
        assert(body.skip(2) =~= w + eb);
        assert((w + eb).skip(w.len() as int) =~= eb);
        assert(body.skip((2 + w.len()) as int) =~= eb);
        lemma_entries_roundtrip(es);
    }
}

/// The bytes of the first `i` entries are those of the first `i - 1`, then the next.
proof fn lemma_entries_bytes_prefix(es: Seq<Seq<char>>, i: int)
    requires
        0 < i <= es.len(),
    ensures
        unsubscribe_entries_bytes(es.take(i)) == unsubscribe_entries_bytes(es.take(i - 1)) + unsubscribe_entry_bytes(es[i - 1]),
{
    assert(es.take(i).drop_last() =~= es.take(i - 1));
}

proof fn lemma_entries_bytes_prefix_le(es: Seq<Seq<char>>, i: int)
    requires
        0 <= i <= es.len(),
    ensures
        unsubscribe_entries_bytes(es.take(i)).len() <= unsubscribe_entries_bytes(es).len(),
    decreases es.len() - i,
{
    if i < es.len() {
        lemma_entries_bytes_prefix(es, i + 1);
        lemma_entries_bytes_prefix_le(es, i + 1);
    } else {
        assert(es.take(i) =~= es);
    }
}

impl Default for UnSubscribe {
    fn default() -> (r: Self)
        ensures
            r.packet_identifier == 0,
            r.payload@.len() == 0,
            r.properties@ == UnSubscribeProperties::spec_empty(),
    {
        UnSubscribe { packet_identifier: 0, properties: UnSubscribeProperties::empty(), payload: Vec::new() }
    }
}

/// An UNSUBSCRIBE goes out as its fixed header, then (MQTT 5 section 3.10)
/// the packet identifier (most significant byte first), the properties, and
/// each topic filter in order.
pub proof fn lemma_unsubscribe_layout(pkid: u16, es: Seq<Seq<char>>, props: UnSubscribePropertiesV, t: Seq<char>)
    ensures
        spec_write_unsubscribe(pkid, es, props).0 is Ok ==> {
            let b = spec_write_unsubscribe(pkid, es, props).1;
            let hn = 1 + varint(unsubscribe_remaining_length(es, props)).len();
            &&& b.take(hn as int) == spec_header_bytes(unsubscribe_header(es, props))
            &&& b.skip(hn as int) == seq![(pkid / 256) as u8, (pkid % 256) as u8] + spec_write_properties(
                UnSubscribeProperties::spec_entries(props),
            ).1 + unsubscribe_entries_bytes(es)
        },
        unsubscribe_entries_bytes(es.push(t)) == unsubscribe_entries_bytes(es) + utf8_field(t),
        unsubscribe_entries_bytes(Seq::empty()) == Seq::<u8>::empty(),
{
    let b = spec_write_unsubscribe(pkid, es, props).1;
    let h = unsubscribe_header(es, props);
    let hn = 1 + varint(unsubscribe_remaining_length(es, props)).len();
    if spec_write_unsubscribe(pkid, es, props).0 is Ok {
        assert(spec_header_bytes(h).len() == hn);
        assert(b.take(hn as int) =~= spec_header_bytes(h));
        assert(b.skip(hn as int) =~= seq![(pkid / 256) as u8, (pkid % 256) as u8] + spec_write_properties(
            UnSubscribeProperties::spec_entries(props),
        ).1 + unsubscribe_entries_bytes(es));
    }
    assert(es.push(t).drop_last() =~= es);
}

} // verus!
