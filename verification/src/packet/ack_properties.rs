//! The properties of the acknowledgements PUBACK, PUBREC, PUBREL, PUBCOMP,
//! SUBACK and UNSUBACK: a reason string and user properties.
use bytes::{Bytes, BytesMut};
use vstd::prelude::*;

use crate::buffer::{bytes_mut_view, bytes_view};
use crate::codec::Parsed;
use crate::error::MQTTError;
use crate::properties::{
    entries_fit, entries_size, lemma_merge_all_concat, lemma_merge_all_one, lemma_merge_all_opt,
    lemma_user_entries_push, merge_all, opt_entry, opt_string_view, opt_utf8, parse_properties,
    properties_length, push_opt_string, push_users, read_properties, spec_write_properties,
    user_entries, users_view, write_properties, PropertySet, UserV,
};
use crate::property::{Property, PropertyV, PropertyValue, ValueV, REASON_STRING, USER_PROPERTY};
use crate::varint::{spec_variable_length, variable_length};

verus! {

/// The properties of PUBREL, and of every acknowledgement, which carry the
/// same two.
#[derive(Debug, Clone, PartialEq, Eq)]
pub struct PubRelProperties {
    pub reason_string: Option<String>,
    pub user_property: Vec<(String, String)>,
}

/// PUBACK properties.
pub type PubAckProperties = AckProperties;

/// PUBREC properties.
pub type PubRecProperties = AckProperties;

/// The properties of an acknowledgement.
pub type AckProperties = PubRelProperties;

/// PUBCOMP properties.
pub type PubCompProperties = AckProperties;

/// SUBACK properties.
pub type SubAckProperties = AckProperties;

/// UNSUBACK properties.
pub type UnSubAckProperties = AckProperties;

#[verifier::ext_equal]
pub struct AckPropertiesV {
    pub reason_string: Option<Seq<char>>,
    pub user_property: Seq<UserV>,
}

impl View for AckProperties {
    type V = AckPropertiesV;

    open spec fn view(&self) -> AckPropertiesV {
        AckPropertiesV {
            reason_string: opt_string_view(self.reason_string),
            user_property: users_view(self.user_property@),
        }
    }
}

impl PropertySet for AckProperties {
    open spec fn spec_empty() -> AckPropertiesV {
        AckPropertiesV { reason_string: None, user_property: Seq::empty() }
    }

    open spec fn spec_entries(v: AckPropertiesV) -> Seq<PropertyV> {
        opt_entry(REASON_STRING, opt_utf8(v.reason_string)) + user_entries(v.user_property)
    }

    open spec fn spec_merge(v: AckPropertiesV, p: PropertyV) -> Result<AckPropertiesV, MQTTError> {
        match p.1 {
            ValueV::Utf8(s) if p.0 == REASON_STRING => if v.reason_string is Some {
                Err(MQTTError::DuplicateProperty(p.0))
            } else {
                Ok(AckPropertiesV { reason_string: Some(s), ..v })
            },
            ValueV::Pair(k, x) if p.0 == USER_PROPERTY => Ok(
                AckPropertiesV { user_property: v.user_property.push((k, x)), ..v },
            ),
            _ => Err(MQTTError::UnexpectedProperty(p.0)),
        }
    }

    fn empty() -> (r: Self) {
        let r = AckProperties { reason_string: None, user_property: Vec::new() };
        assert(r@ =~= Self::spec_empty());
        r
    }

    fn entries(&self) -> (r: Vec<Property>) {
        let mut out: Vec<Property> = Vec::new();
        assert(out@.map_values(|p: Property| p@) =~= Seq::<PropertyV>::empty());
        push_opt_string(&mut out, REASON_STRING, &self.reason_string);
        push_users(&mut out, &self.user_property);
        out
    }

    fn merge(&mut self, p: Property) -> (r: Result<(), MQTTError>) {
        let id = p.id;
        match p.value {
            PropertyValue::Utf8(s) if id == REASON_STRING => {
                if self.reason_string.is_some() {
                    return Err(MQTTError::DuplicateProperty(id));
                }
                self.reason_string = Some(s);
                Ok(())
            },
            PropertyValue::Pair(k, x) if id == USER_PROPERTY => {
                self.user_property.push((k, x));
                assert(self@.user_property =~= old(self)@.user_property.push((k@, x@)));
                Ok(())
            },
            _ => Err(MQTTError::UnexpectedProperty(id)),
        }
    }
}

impl AckProperties {
    /// Taking the user properties into a set adds them after its own.
    pub proof fn lemma_merge_users(acc: AckPropertiesV, u: Seq<UserV>)
        ensures
            merge_all::<AckProperties>(acc, user_entries(u)) == Ok::<AckPropertiesV, MQTTError>(
                AckPropertiesV { user_property: acc.user_property + u, ..acc },
            ),
        decreases u.len(),
    {
        if u.len() == 0 {
            assert(user_entries(u) =~= Seq::<PropertyV>::empty());
            assert(acc.user_property + u =~= acc.user_property);
        } else {
            lemma_user_entries_push(u);
            lemma_merge_all_concat::<AckProperties>(
                acc,
                user_entries(u.drop_last()),
                seq![(USER_PROPERTY, ValueV::Pair(u.last().0, u.last().1))],
            );
            Self::lemma_merge_users(acc, u.drop_last());
            let mid = AckPropertiesV { user_property: acc.user_property + u.drop_last(), ..acc };
            lemma_merge_all_one::<AckProperties>(
                mid,
                (USER_PROPERTY, ValueV::Pair(u.last().0, u.last().1)),
            );
            assert((acc.user_property + u.drop_last()).push(u.last()) =~= acc.user_property + u);
        }
    }

    /// Taking the entries of a set into the empty set gives the set back.
    pub proof fn lemma_entries_merge(v: AckPropertiesV)
        ensures
            merge_all::<AckProperties>(Self::spec_empty(), Self::spec_entries(v)) == Ok::<
                AckPropertiesV,
                MQTTError,
            >(v),
    {
        let e = Self::spec_empty();
        lemma_merge_all_concat::<AckProperties>(
            e,
            opt_entry(REASON_STRING, opt_utf8(v.reason_string)),
            user_entries(v.user_property),
        );
        lemma_merge_all_opt::<AckProperties>(e, REASON_STRING, opt_utf8(v.reason_string));
        let a = AckPropertiesV { reason_string: v.reason_string, ..e };
        Self::lemma_merge_users(a, v.user_property);
        assert(Seq::<UserV>::empty() + v.user_property =~= v.user_property);
        assert(AckPropertiesV { user_property: a.user_property + v.user_property, ..a } =~= v);
    }

    /// The Property Length.
    pub fn length(&self) -> (r: usize)
        requires
            entries_size(Self::spec_entries(self@)) <= usize::MAX,
        ensures
            r == entries_size(Self::spec_entries(self@)),
    {
        properties_length(self)
    }

    /// Writes the Property Length, then the reason string, then the user properties.
    pub fn write(&self, buf: &mut BytesMut) -> (r: Result<(), MQTTError>)
        requires
            bytes_mut_view(*old(buf)).len() + 4 + entries_size(Self::spec_entries(self@))
                <= isize::MAX,
        ensures
            r == spec_write_properties(Self::spec_entries(self@)).0,
            bytes_mut_view(*final(buf)) == bytes_mut_view(*old(buf)) + spec_write_properties(
                Self::spec_entries(self@),
            ).1,
    {
        write_properties(self, buf)
    }

    /// Reads a property list; any property other than a reason string or a
    /// user property is `UnexpectedProperty`, a second reason string is
    /// `DuplicateProperty`.
    pub fn read(buf: &mut Bytes) -> (r: Result<Self, MQTTError>)
        ensures
            match (r, parse_properties::<AckProperties>(bytes_view(*old(buf)), "").0) {
                (Ok(t), Ok(v)) => t@ == v,
                (Err(e), Err(f)) => e == f,
                _ => false,
            },
            bytes_view(*final(buf)) == bytes_view(*old(buf)).skip(
                parse_properties::<AckProperties>(bytes_view(*old(buf)), "").1 as int,
            ),
    {
        read_properties(buf, "")
    }
}

impl Default for AckProperties {
    fn default() -> (r: Self)
        ensures
            r@ == Self::spec_empty(),
    {
        Self::empty()
    }
}

/// Each property is written under the identifier that MQTT 5 assigns to it
/// (section 2.2.2.2): a set holding one property, whatever its value, is
/// written as exactly that property under its identifier.
pub proof fn lemma_ack_properties_identifiers_written(reason_string: Seq<char>, user_key: Seq<char>, user_value: Seq<char>)
    ensures
        AckProperties::spec_entries(AckPropertiesV { reason_string: Some(reason_string), ..AckProperties::spec_empty() }) == seq![(31u8, ValueV::Utf8(reason_string))],
        AckProperties::spec_entries(AckPropertiesV { user_property: seq![(user_key, user_value)], ..AckProperties::spec_empty() }) == seq![(38u8, ValueV::Pair(user_key, user_value))],
{
}

/// Reading a property under the identifier that MQTT 5 assigns to a field
/// sets that field and no other, into any set; a second one of a field that
/// may appear once is a duplicate, reported with its identifier.
pub proof fn lemma_ack_properties_identifiers_read(v: AckPropertiesV, reason_string: Seq<char>, user_key: Seq<char>, user_value: Seq<char>)
    ensures
        AckProperties::spec_merge(v, (31u8, ValueV::Utf8(reason_string))) == if v.reason_string is Some {
            Err::<AckPropertiesV, MQTTError>(MQTTError::DuplicateProperty(31u8))
        } else {
            Ok::<AckPropertiesV, MQTTError>(AckPropertiesV { reason_string: Some(reason_string), ..v })
        },
        AckProperties::spec_merge(v, (38u8, ValueV::Pair(user_key, user_value))) == Ok::<AckPropertiesV, MQTTError>(AckPropertiesV { user_property: v.user_property.push((user_key, user_value)), ..v }),
{
}

} // verus!
