//! Property lists (section 2.2.2): a Property Length as a Variable Byte
//! Integer, then that many bytes of properties. Each packet's set of
//! properties is a `PropertySet`: it says which properties it writes, in what
//! order, and how a property read from the wire is taken into it.
use bytes::{Bytes, BytesMut};
use vstd::prelude::*;

use crate::buffer::{bytes_len, bytes_mut_view, bytes_split_to, bytes_view};
use crate::codec::Parsed;
use crate::error::MQTTError;
use crate::property::{
    lemma_parse_property_len, lemma_property_roundtrip, parse_property, property_bytes,
    property_fits, property_size, Property, PropertyV, PropertyValue, ValueV,
};
use crate::varint::{
    decode_variable_integer, encode_variable_integer, lemma_parse_varint_len,
    lemma_varint_len, lemma_varint_roundtrip, parse_varint, spec_variable_length, variable_length,
    varint, VARINT_MAX,
};

verus! {

/// A packet's set of properties.
pub trait PropertySet: View + Sized {
    /// The set with no property present.
    spec fn spec_empty() -> Self::V;

    /// The properties that are present, in the order in which they are written.
    spec fn spec_entries(v: Self::V) -> Seq<PropertyV>;

    /// Taking a property read from the wire into the set: an error when the
    /// packet does not allow it, or when it may appear once and already has.
    spec fn spec_merge(v: Self::V, p: PropertyV) -> Result<Self::V, MQTTError>;

    fn empty() -> (r: Self)
        ensures
            r@ == Self::spec_empty(),
    ;

    fn entries(&self) -> (r: Vec<Property>)
        ensures
            r@.map_values(|p: Property| p@) == Self::spec_entries(self@),
    ;

    fn merge(&mut self, p: Property) -> (r: Result<(), MQTTError>)
        ensures
            match (r, Self::spec_merge(old(self)@, p@)) {
                (Ok(()), Ok(v)) => final(self)@ == v,
                (Err(e), Err(f)) => e == f,
                _ => false,
            },
    ;
}

/// The bytes that the properties add up to.
pub open spec fn entries_size(ps: Seq<PropertyV>) -> nat
    decreases ps.len(),
{
    if ps.len() == 0 {
        0
    } else {
        property_size(ps[0]) + entries_size(ps.drop_first())
    }
}

/// The properties written one after the other.
pub open spec fn entries_bytes(ps: Seq<PropertyV>) -> Seq<u8>
    decreases ps.len(),
{
    if ps.len() == 0 {
        Seq::empty()
    } else {
        property_bytes(ps[0]) + entries_bytes(ps.drop_first())
    }
}

/// Every property fits (reads back as itself).
pub open spec fn entries_fit(ps: Seq<PropertyV>) -> bool {
    forall|i: int| 0 <= i < ps.len() ==> property_fits(#[trigger] ps[i])
}

/// What writing the properties one after the other gives: the outcome and
/// the bytes written. The first one that fails stops the writing.
pub open spec fn spec_write_entries(ps: Seq<PropertyV>) -> (Result<(), MQTTError>, Seq<u8>)
    decreases ps.len(),
{
    if ps.len() == 0 {
        (Ok(()), Seq::empty())
    } else {
        match ps[0].1 {
            ValueV::VarInt(n) if n > VARINT_MAX => (
                Err(MQTTError::PayloadTooLong),
                seq![ps[0].0],
            ),
            _ => {
                let rest = spec_write_entries(ps.drop_first());
                (rest.0, property_bytes(ps[0]) + rest.1)
            },
        }
    }
}

/// What writing a property list gives: the Property Length, then the
/// properties. A length above 268,435,455 is refused before anything is written.
pub open spec fn spec_write_properties(ps: Seq<PropertyV>) -> (Result<(), MQTTError>, Seq<u8>) {
    if entries_size(ps) > VARINT_MAX {
        (Err(MQTTError::PayloadTooLong), Seq::empty())
    } else {
        let w = spec_write_entries(ps);
        (w.0, varint(entries_size(ps)) + w.1)
    }
}

/// Taking the properties into `acc` one after the other.
pub open spec fn merge_all<T: PropertySet>(acc: T::V, ps: Seq<PropertyV>) -> Result<T::V, MQTTError>
    decreases ps.len(),
{
    if ps.len() == 0 {
        Ok(acc)
    } else {
        match T::spec_merge(acc, ps[0]) {
            Err(e) => Err(e),
            Ok(a) => merge_all::<T>(a, ps.drop_first()),
        }
    }
}

/// Reading the properties of `data` into `acc`: one property is read and
/// taken in, then the next, until no byte is left.
pub open spec fn parse_entries<T: PropertySet>(data: Seq<u8>, acc: T::V) -> Result<T::V, MQTTError>
    decreases data.len(),
{
    match parse_property(data) {
        (Err(e), _) => Err(e),
        (Ok(p), k) => match T::spec_merge(acc, p) {
            Err(e) => Err(e),
            Ok(a) => if k >= data.len() {
                Ok(a)
            } else {
                proof {
                    lemma_parse_property_len(data);
                }
                parse_entries::<T>(data.skip(k as int), a)
            },
        },
    }
}

/// Reading a property list: the Property Length, then that many bytes of
/// properties (all of which are taken off the input, also when reading them
/// fails). A zero length gives the empty set; a length beyond the input is
/// `IncompleteData(name, length, bytes left)`.
pub open spec fn parse_properties<T: PropertySet>(s: Seq<u8>, name: &'static str) -> Parsed<T::V> {
    match parse_varint(s) {
        (Err(e), n) => (Err(e), n),
        (Ok((len, _)), n) => if len == 0 {
            (Ok(T::spec_empty()), n)
        } else if len > s.len() - n {
            (Err(MQTTError::IncompleteData(name, len, (s.len() - n) as usize)), n)
        } else {
            (parse_entries::<T>(s.subrange(n as int, n + len), T::spec_empty()), (n + len) as nat)
        },
    }
}

/// A property list parse takes no more bytes than there are.
pub proof fn lemma_parse_properties_len<T: PropertySet>(s: Seq<u8>, name: &'static str)
    ensures
        parse_properties::<T>(s, name).1 <= s.len(),
{
    lemma_parse_varint_len(s);
}

/// Properties that fit and add up to no bytes are no properties.
pub proof fn lemma_entries_size_zero(ps: Seq<PropertyV>)
    requires
        entries_fit(ps),
        entries_size(ps) == 0,
    ensures
        ps.len() == 0,
{
    if ps.len() > 0 {
        lemma_property_roundtrip(ps[0], Seq::empty());
        assert(property_fits(ps[0]));
    }
}

proof fn lemma_entries_size_fit(ps: Seq<PropertyV>)
    requires
        entries_fit(ps),
    ensures
        entries_size(ps) == entries_bytes(ps).len(),
        spec_write_entries(ps) == (Ok::<(), MQTTError>(()), entries_bytes(ps)),
    decreases ps.len(),
{
    if ps.len() > 0 {
        assert(property_fits(ps[0]));
        lemma_property_roundtrip(ps[0], Seq::empty());
        assert(entries_fit(ps.drop_first())) by {
            assert forall|i: int| 0 <= i < ps.drop_first().len() implies property_fits(
                #[trigger] ps.drop_first()[i],
            ) by {
                assert(ps.drop_first()[i] == ps[i + 1]);
            }
        }
        lemma_entries_size_fit(ps.drop_first());
    }
}

proof fn lemma_parse_entries_roundtrip<T: PropertySet>(acc: T::V, ps: Seq<PropertyV>)
    requires
        ps.len() > 0,
        entries_fit(ps),
    ensures
        parse_entries::<T>(entries_bytes(ps), acc) == merge_all::<T>(acc, ps),
    decreases ps.len(),
{
    let data = entries_bytes(ps);
    let tail = entries_bytes(ps.drop_first());
    assert(property_fits(ps[0]));
    lemma_property_roundtrip(ps[0], tail);
    let k = property_bytes(ps[0]).len();
    assert(data.skip(k as int) =~= tail);
    assert(entries_fit(ps.drop_first())) by {
        assert forall|i: int| 0 <= i < ps.drop_first().len() implies property_fits(
            #[trigger] ps.drop_first()[i],
        ) by {
            assert(ps.drop_first()[i] == ps[i + 1]);
        }
    }
    assert(data == property_bytes(ps[0]) + tail);
    assert(parse_property(data) == (Ok::<PropertyV, MQTTError>(ps[0]), k));
    match T::spec_merge(acc, ps[0]) {
        Err(e) => {},
        Ok(a) => {
            if ps.len() == 1 {
                assert(tail.len() == 0);
                assert(ps.drop_first().len() == 0);
                assert(merge_all::<T>(a, ps.drop_first()) == Ok::<T::V, MQTTError>(a));
                assert(k >= data.len());
            } else {
                lemma_entries_size_fit(ps.drop_first());
                assert(tail.len() > 0) by {
                    lemma_property_roundtrip(ps.drop_first()[0], Seq::empty());
                    assert(tail.len() >= property_bytes(ps.drop_first()[0]).len());
                }
                lemma_parse_entries_roundtrip::<T>(a, ps.drop_first());
                assert(k < data.len());
                assert(parse_entries::<T>(data, acc) == parse_entries::<T>(data.skip(k as int), a));
            }
        },
    }
}

/// Reading a written property list gives back the properties taken into the
/// empty set, and takes exactly the written bytes; this is the set itself
/// whenever the set's own law (taking its entries into the empty set gives it
/// back) holds of it.
pub proof fn lemma_properties_roundtrip<T: PropertySet>(v: T::V, rest: Seq<u8>, name: &'static str)
    requires
        entries_fit(T::spec_entries(v)),
        entries_size(T::spec_entries(v)) <= VARINT_MAX,
        merge_all::<T>(T::spec_empty(), T::spec_entries(v)) == Ok::<T::V, MQTTError>(v),
    ensures
        spec_write_properties(T::spec_entries(v)).0 == Ok::<(), MQTTError>(()),
        parse_properties::<T>(spec_write_properties(T::spec_entries(v)).1 + rest, name) == (
            Ok::<T::V, MQTTError>(v),
            spec_write_properties(T::spec_entries(v)).1.len(),
        ),
{
    let ps = T::spec_entries(v);
    lemma_entries_size_fit(ps);
    let len = entries_size(ps);
    lemma_varint_len(len);
    lemma_varint_roundtrip(len, entries_bytes(ps) + rest);
    let s = spec_write_properties(ps).1 + rest;
    assert(s =~= varint(len) + (entries_bytes(ps) + rest));
    let n = varint(len).len();
    if len > 0 {
        assert(s.subrange(n as int, n + len as int) =~= entries_bytes(ps));
        lemma_parse_entries_roundtrip::<T>(T::spec_empty(), ps);
    } else {
        assert(ps.len() == 0) by {
            if ps.len() > 0 {
                lemma_property_roundtrip(ps[0], Seq::empty());
                assert(entries_bytes(ps).len() >= property_bytes(ps[0]).len());
            }
        }
    }
}

/// A property list that writes without failing is its length, then that many bytes.
pub proof fn lemma_write_properties_len(ps: Seq<PropertyV>)
    requires
        entries_fit(ps),
        entries_size(ps) <= VARINT_MAX,
    ensures
        spec_write_properties(ps).1.len() == varint(entries_size(ps)).len() + entries_size(ps),
{
    lemma_entries_size_fit(ps);
}

proof fn lemma_written_entries_len(ps: Seq<PropertyV>)
    requires
        spec_write_entries(ps).0 is Ok,
    ensures
        spec_write_entries(ps).1.len() == entries_size(ps),
    decreases ps.len(),
{
    if ps.len() > 0 {
        if let ValueV::VarInt(n) = ps[0].1 {
            lemma_varint_len(n as nat);
        }
        lemma_written_entries_len(ps.drop_first());
    }
}

/// A property list written without failing is the encoding of its Property
/// Length, then exactly that many bytes.
pub proof fn lemma_written_properties_len(ps: Seq<PropertyV>)
    requires
        spec_write_properties(ps).0 is Ok,
    ensures
        spec_write_properties(ps).1.len() == spec_variable_length(entries_size(ps)) + entries_size(ps),
{
    lemma_varint_len(entries_size(ps));
    lemma_written_entries_len(ps);
}

/// The bytes that the properties of `t` add up to (the Property Length).
pub fn properties_length<T: PropertySet>(t: &T) -> (r: usize)
    requires
        entries_size(T::spec_entries(t@)) <= usize::MAX,
    ensures
        r == entries_size(T::spec_entries(t@)),
{
    let es = t.entries();
    let ghost ps = T::spec_entries(t@);
    let n = es.len();
    let mut total: usize = 0;
    let mut i: usize = 0;
    assert(ps.skip(0) =~= ps);
    while i < n
        invariant
            n == es@.len(),
            es@.map_values(|p: Property| p@) == ps,
            i <= n,
            total + entries_size(ps.skip(i as int)) == entries_size(ps),
            entries_size(ps) <= usize::MAX,
        decreases n - i,
    {
        assert(ps.skip(i as int)[0] == es@[i as int]@);
        assert(ps.skip(i as int).drop_first() =~= ps.skip(i + 1));
        let l = es[i].length();
        total = total + l;
        i = i + 1;
    }
    total
}

/// Writes the Property Length, then the properties of `t` in order.
pub fn write_properties<T: PropertySet>(t: &T, buf: &mut BytesMut) -> (r: Result<(), MQTTError>)
    requires
        bytes_mut_view(*old(buf)).len() + 4 + entries_size(T::spec_entries(t@)) <= isize::MAX,
    ensures
        r == spec_write_properties(T::spec_entries(t@)).0,
        bytes_mut_view(*final(buf)) == bytes_mut_view(*old(buf)) + spec_write_properties(
            T::spec_entries(t@),
        ).1,
{
    let len = properties_length(t);
    let ghost ps = T::spec_entries(t@);
    let ghost start = bytes_mut_view(*buf);
    if len > VARINT_MAX {
        assert(bytes_mut_view(*buf) =~= start + Seq::<u8>::empty());
        return Err(MQTTError::PayloadTooLong);
    }
    encode_variable_integer(buf, len);
    let ghost mid = bytes_mut_view(*buf);
    let es = t.entries();
    let n = es.len();
    let mut i: usize = 0;
    assert(ps.skip(0) =~= ps);
    proof {
        lemma_varint_len(len as nat);
    }
    while i < n
        invariant
            n == es@.len(),
            es@.map_values(|p: Property| p@) == ps,
            i <= n,
            start == bytes_mut_view(*old(buf)),
            ps == T::spec_entries(t@),
            len == entries_size(ps),
            len <= VARINT_MAX,
            mid == start + varint(len as nat),
            spec_write_entries(ps).0 == spec_write_entries(ps.skip(i as int)).0,
            mid + spec_write_entries(ps).1 == bytes_mut_view(*buf) + spec_write_entries(
                ps.skip(i as int),
            ).1,
            bytes_mut_view(*buf).len() + entries_size(ps.skip(i as int)) <= isize::MAX,
        decreases n - i,
    {
        let ghost cur = ps.skip(i as int);
        assert(cur[0] == es@[i as int]@);
        assert(cur.drop_first() =~= ps.skip(i + 1));
        let ghost before = bytes_mut_view(*buf);
        let r = es[i].write(buf);
        if r.is_err() {
            assert(bytes_mut_view(*buf) =~= mid + spec_write_entries(ps).1);
            return r;
        }
        assert(before + spec_write_entries(cur).1 =~= bytes_mut_view(*buf) + spec_write_entries(
            ps.skip(i + 1),
        ).1);
        proof {
            lemma_size_vs_bytes(cur[0]);
        }
        i = i + 1;
    }
    assert(ps.skip(n as int).len() == 0);
    assert(bytes_mut_view(*buf) =~= mid + spec_write_entries(ps).1);
    Ok(())
}

/// A property that writes without failing writes no more bytes than its size.
proof fn lemma_size_vs_bytes(p: PropertyV)
    ensures
        !(match p.1 {
            ValueV::VarInt(n) => n > VARINT_MAX,
            _ => false,
        }) ==> property_bytes(p).len() == property_size(p),
{
    if let ValueV::VarInt(n) = p.1 {
        if n <= VARINT_MAX {
            lemma_varint_len(n as nat);
        }
    }
}

/// Sets an optional single property to `value`; a property that was already
/// set is a duplicate, `DuplicateProperty(id)`.
pub fn try_update<T>(field: &mut Option<T>, value: Option<T>, id: u8) -> (r: Result<(), MQTTError>)
    ensures
        *final(field) == value,
        r == (if (*old(field)) is Some {
            Err::<(), MQTTError>(MQTTError::DuplicateProperty(id))
        } else {
            Ok::<(), MQTTError>(())
        }),
{
    let is_duplicate = field.is_some();
    *field = value;
    if is_duplicate {
        return Err(MQTTError::DuplicateProperty(id));
    }
    Ok(())
}

proof fn lemma_write_entries_bound(ps: Seq<PropertyV>)
    ensures
        spec_write_entries(ps).1.len() <= entries_size(ps),
    decreases ps.len(),
{
    if ps.len() > 0 {
        lemma_size_vs_bytes(ps[0]);
        lemma_write_entries_bound(ps.drop_first());
    }
}

/// Writing a property list writes at most its size and four length bytes.
pub proof fn lemma_write_properties_bound(ps: Seq<PropertyV>)
    ensures
        spec_write_properties(ps).1.len() <= 4 + entries_size(ps),
{
    lemma_write_entries_bound(ps);
    if entries_size(ps) <= VARINT_MAX {
        lemma_varint_len(entries_size(ps));
    }
}

/// Reads a property list into a set of type `T`; `name` names the set in an
/// `IncompleteData` error.
pub fn read_properties<T: PropertySet>(buf: &mut Bytes, name: &'static str) -> (r: Result<T, MQTTError>)
    ensures
        match (r, parse_properties::<T>(bytes_view(*old(buf)), name).0) {
            (Ok(t), Ok(v)) => t@ == v,
            (Err(e), Err(f)) => e == f,
            _ => false,
        },
        bytes_view(*final(buf)) == bytes_view(*old(buf)).skip(
            parse_properties::<T>(bytes_view(*old(buf)), name).1 as int,
        ),
{
    let ghost s = bytes_view(*buf);
    let (len, _) = match decode_variable_integer(buf) {
        Ok(v) => v,
        Err(e) => return Err(e),
    };
    proof {
        lemma_parse_varint_len(s);
    }
    let ghost n = parse_varint(s).1;
    assert(bytes_view(*buf) == s.skip(n as int));
    if len == 0 {
        return Ok(T::empty());
    }
    let rem = bytes_len(buf);
    if len > rem {
        return Err(MQTTError::IncompleteData(name, len, rem));
    }
    let mut data = bytes_split_to(buf, len);
    assert(bytes_view(data) =~= s.subrange(n as int, n + len));
    assert(bytes_view(*buf) =~= s.skip(n + len));
    let ghost d0 = bytes_view(data);
    let mut props = T::empty();
    loop
        invariant
            s == bytes_view(*old(buf)),
            bytes_view(*buf) == s.skip(n + len),
            parse_properties::<T>(s, name) == (parse_entries::<T>(d0, T::spec_empty()), (n + len) as nat),
            bytes_view(data).len() > 0,
            parse_entries::<T>(d0, T::spec_empty()) == parse_entries::<T>(bytes_view(data), props@),
        decreases bytes_view(data).len(),
    {
        let ghost cur = bytes_view(data);
        let ghost acc = props@;
        proof {
            lemma_parse_property_len(cur);
        }
        let p = match Property::read(&mut data) {
            Ok(p) => p,
            Err(e) => return Err(e),
        };
        match props.merge(p) {
            Ok(()) => {},
            Err(e) => return Err(e),
        }
        if bytes_len(&data) == 0 {
            return Ok(props);
        }
    }
}

} // verus!

verus! {

/// A user property's characters.
pub type UserV = (Seq<char>, Seq<char>);

/// The characters of a list of user properties.
pub open spec fn users_view(u: Seq<(String, String)>) -> Seq<UserV> {
    u.map_values(|kv: (String, String)| (kv.0@, kv.1@))
}

/// The user properties as properties, in order.
pub open spec fn user_entries(u: Seq<UserV>) -> Seq<PropertyV> {
    Seq::new(u.len(), |i: int| (crate::property::USER_PROPERTY, ValueV::Pair(u[i].0, u[i].1)))
}

/// An optional property: one entry when present, none when absent.
pub open spec fn opt_entry(id: u8, v: Option<ValueV>) -> Seq<PropertyV> {
    match v {
        Some(x) => seq![(id, x)],
        None => Seq::empty(),
    }
}

pub open spec fn opt_utf8(o: Option<Seq<char>>) -> Option<ValueV> {
    match o {
        Some(s) => Some(ValueV::Utf8(s)),
        None => None,
    }
}

pub open spec fn opt_binary(o: Option<Seq<u8>>) -> Option<ValueV> {
    match o {
        Some(s) => Some(ValueV::Binary(s)),
        None => None,
    }
}

pub open spec fn opt_byte(o: Option<u8>) -> Option<ValueV> {
    match o {
        Some(x) => Some(ValueV::Byte(x)),
        None => None,
    }
}

pub open spec fn opt_flag(o: Option<bool>) -> Option<ValueV> {
    match o {
        Some(x) => Some(ValueV::Byte(if x { 1u8 } else { 0u8 })),
        None => None,
    }
}

pub open spec fn opt_two(o: Option<u16>) -> Option<ValueV> {
    match o {
        Some(x) => Some(ValueV::TwoByte(x)),
        None => None,
    }
}

pub open spec fn opt_four(o: Option<u32>) -> Option<ValueV> {
    match o {
        Some(x) => Some(ValueV::FourByte(x)),
        None => None,
    }
}

pub open spec fn opt_varint(o: Option<usize>) -> Option<ValueV> {
    match o {
        Some(x) => Some(ValueV::VarInt(x)),
        None => None,
    }
}

pub open spec fn opt_string_view(o: Option<String>) -> Option<Seq<char>> {
    match o {
        Some(s) => Some(s@),
        None => None,
    }
}

pub open spec fn opt_bytes_view(o: Option<Bytes>) -> Option<Seq<u8>> {
    match o {
        Some(b) => Some(crate::buffer::bytes_view(b)),
        None => None,
    }
}

/// Taking `a` then `b` is taking `a`, then taking `b` into what came of it.
pub proof fn lemma_merge_all_concat<T: PropertySet>(acc: T::V, a: Seq<PropertyV>, b: Seq<PropertyV>)
    ensures
        merge_all::<T>(acc, a + b) == match merge_all::<T>(acc, a) {
            Ok(x) => merge_all::<T>(x, b),
            Err(e) => Err(e),
        },
    decreases a.len(),
{
    if a.len() == 0 {
        assert(a + b =~= b);
    } else {
        assert((a + b)[0] == a[0]);
        assert((a + b).drop_first() =~= a.drop_first() + b);
        if let Ok(x) = T::spec_merge(acc, a[0]) {
            lemma_merge_all_concat::<T>(x, a.drop_first(), b);
        }
    }
}

/// Taking one property.
pub proof fn lemma_merge_all_one<T: PropertySet>(acc: T::V, p: PropertyV)
    ensures
        merge_all::<T>(acc, seq![p]) == T::spec_merge(acc, p),
{
    assert(seq![p].drop_first() =~= Seq::<PropertyV>::empty());
    match T::spec_merge(acc, p) {
        Ok(a) => {
            assert(merge_all::<T>(a, Seq::<PropertyV>::empty()) == Ok::<T::V, MQTTError>(a));
        },
        Err(e) => {},
    }
}

/// Taking an optional property: nothing when it is absent.
pub proof fn lemma_merge_all_opt<T: PropertySet>(acc: T::V, id: u8, o: Option<ValueV>)
    ensures
        merge_all::<T>(acc, opt_entry(id, o)) == match o {
            Some(x) => T::spec_merge(acc, (id, x)),
            None => Ok(acc),
        },
{
    if let Some(x) = o {
        lemma_merge_all_one::<T>(acc, (id, x));
    }
}

/// Splitting off the last user property.
pub proof fn lemma_user_entries_push(u: Seq<UserV>)
    requires
        u.len() > 0,
    ensures
        user_entries(u) == user_entries(u.drop_last()) + seq![(crate::property::USER_PROPERTY, ValueV::Pair(u.last().0, u.last().1))],
{
    assert(user_entries(u) =~= user_entries(u.drop_last()) + seq![(crate::property::USER_PROPERTY, ValueV::Pair(u.last().0, u.last().1))]);
}

/// Appends an optional string property to `out`.
pub fn push_opt_string(out: &mut Vec<Property>, id: u8, o: &Option<String>)
    ensures
        final(out)@.map_values(|p: Property| p@) == old(out)@.map_values(|p: Property| p@)
            + opt_entry(id, opt_utf8(opt_string_view(*o))),
{
    if let Some(s) = o {
        out.push(Property { id, value: PropertyValue::Utf8(s.clone()) });
    }
    assert(final(out)@.map_values(|p: Property| p@) =~= old(out)@.map_values(|p: Property| p@)
        + opt_entry(id, opt_utf8(opt_string_view(*o))));
}

/// Appends an optional binary property to `out`.
pub fn push_opt_bytes(out: &mut Vec<Property>, id: u8, o: &Option<Bytes>)
    ensures
        final(out)@.map_values(|p: Property| p@) == old(out)@.map_values(|p: Property| p@)
            + opt_entry(id, opt_binary(opt_bytes_view(*o))),
{
    if let Some(s) = o {
        out.push(Property { id, value: PropertyValue::Binary(s.clone()) });
    }
    assert(final(out)@.map_values(|p: Property| p@) =~= old(out)@.map_values(|p: Property| p@)
        + opt_entry(id, opt_binary(opt_bytes_view(*o))));
}

/// Appends an optional byte property to `out`.
pub fn push_opt_byte(out: &mut Vec<Property>, id: u8, o: Option<u8>)
    ensures
        final(out)@.map_values(|p: Property| p@) == old(out)@.map_values(|p: Property| p@)
            + opt_entry(id, opt_byte(o)),
{
    if let Some(x) = o {
        out.push(Property { id, value: PropertyValue::Byte(x) });
    }
    assert(final(out)@.map_values(|p: Property| p@) =~= old(out)@.map_values(|p: Property| p@)
        + opt_entry(id, opt_byte(o)));
}

/// Appends an optional flag property (written as 1 or 0) to `out`.
pub fn push_opt_flag(out: &mut Vec<Property>, id: u8, o: Option<bool>)
    ensures
        final(out)@.map_values(|p: Property| p@) == old(out)@.map_values(|p: Property| p@)
            + opt_entry(id, opt_flag(o)),
{
    if let Some(x) = o {
        out.push(Property { id, value: PropertyValue::Byte(if x { 1 } else { 0 }) });
    }
    assert(final(out)@.map_values(|p: Property| p@) =~= old(out)@.map_values(|p: Property| p@)
        + opt_entry(id, opt_flag(o)));
}

/// Appends an optional two byte integer property to `out`.
pub fn push_opt_two(out: &mut Vec<Property>, id: u8, o: Option<u16>)
    ensures
        final(out)@.map_values(|p: Property| p@) == old(out)@.map_values(|p: Property| p@)
            + opt_entry(id, opt_two(o)),
{
    if let Some(x) = o {
        out.push(Property { id, value: PropertyValue::TwoByte(x) });
    }
    assert(final(out)@.map_values(|p: Property| p@) =~= old(out)@.map_values(|p: Property| p@)
        + opt_entry(id, opt_two(o)));
}

/// Appends an optional four byte integer property to `out`.
pub fn push_opt_four(out: &mut Vec<Property>, id: u8, o: Option<u32>)
    ensures
        final(out)@.map_values(|p: Property| p@) == old(out)@.map_values(|p: Property| p@)
            + opt_entry(id, opt_four(o)),
{
    if let Some(x) = o {
        out.push(Property { id, value: PropertyValue::FourByte(x) });
    }
    assert(final(out)@.map_values(|p: Property| p@) =~= old(out)@.map_values(|p: Property| p@)
        + opt_entry(id, opt_four(o)));
}

/// Appends an optional Variable Byte Integer property to `out`.
pub fn push_opt_varint(out: &mut Vec<Property>, id: u8, o: Option<usize>)
    ensures
        final(out)@.map_values(|p: Property| p@) == old(out)@.map_values(|p: Property| p@)
            + opt_entry(id, opt_varint(o)),
{
    if let Some(x) = o {
        out.push(Property { id, value: PropertyValue::VarInt(x) });
    }
    assert(final(out)@.map_values(|p: Property| p@) =~= old(out)@.map_values(|p: Property| p@)
        + opt_entry(id, opt_varint(o)));
}

/// Appends the user properties to `out`, in order.
pub fn push_users(out: &mut Vec<Property>, u: &Vec<(String, String)>)
    ensures
        final(out)@.map_values(|p: Property| p@) == old(out)@.map_values(|p: Property| p@)
            + user_entries(users_view(u@)),
{
    let ghost start = out@.map_values(|p: Property| p@);
    let n = u.len();
    let mut i: usize = 0;
    while i < n
        invariant
            n == u@.len(),
            i <= n,
            out@.map_values(|p: Property| p@) == start + user_entries(users_view(u@.take(i as int))),
        decreases n - i,
    {
        let kv = &u[i];
        let ghost before = out@;
        let prop = Property {
            id: crate::property::USER_PROPERTY,
            value: PropertyValue::Pair(kv.0.clone(), kv.1.clone()),
        };
        assert(prop@ == (crate::property::USER_PROPERTY, ValueV::Pair(u@[i as int].0@, u@[i as int].1@)));
        out.push(prop);
        assert(out@.map_values(|p: Property| p@) =~= before.map_values(|p: Property| p@).push(prop@));
        assert(u@.take(i + 1).drop_last() =~= u@.take(i as int));
        assert(users_view(u@.take(i + 1)).drop_last() =~= users_view(u@.take(i as int)));
        assert(users_view(u@.take(i + 1)).last() == (u@[i as int].0@, u@[i as int].1@));
        proof {
            lemma_user_entries_push(users_view(u@.take(i + 1)));
        }
        assert(out@.map_values(|p: Property| p@) =~= start + user_entries(
            users_view(u@.take(i + 1)),
        ));
        i = i + 1;
    }
    assert(u@.take(n as int) =~= u@);
}

} // verus!
