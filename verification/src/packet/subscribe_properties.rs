//! The properties of SUBSCRIBE (section 3.8.2.1).
use bytes::{Bytes, BytesMut};
use vstd::prelude::*;

use crate::buffer::{bytes_mut_view, bytes_view};
use crate::error::MQTTError;
use crate::properties::{
    entries_fit, entries_size, lemma_merge_all_concat, lemma_merge_all_one, lemma_merge_all_opt,
    lemma_properties_roundtrip, lemma_user_entries_push, merge_all, opt_binary, opt_byte,
    opt_bytes_view, opt_entry, opt_flag, opt_four, opt_string_view, opt_two, opt_utf8, opt_varint,
    parse_properties, properties_length, push_opt_byte, push_opt_bytes, push_opt_flag,
    push_opt_four, push_opt_string, push_opt_two, push_opt_varint, push_users, read_properties,
    spec_write_properties, user_entries, users_view, write_properties, PropertySet, UserV,
};
use crate::property::{
    Property, PropertyV, PropertyValue, ValueV, ASSIGNED_CLIENT_IDENTIFIER, AUTHENTICATION_DATA,
    AUTHENTICATION_METHOD, CONTENT_TYPE, CORRELATION_DATA, MAXIMUM_PACKET_SIZE, MAXIMUM_QOS,
    MESSAGE_EXPIRY_INTERVAL, PAYLOAD_FORMAT_INDICATOR, REASON_STRING, RECEIVE_MAXIMUM,
    REQUEST_PROBLEM_INFORMATION, REQUEST_RESPONSE_INFORMATION, RESPONSE_INFORMATION,
    RESPONSE_TOPIC, RETAIN_AVAILABLE, SERVER_KEEP_ALIVE, SERVER_REFERENCE,
    SESSION_EXPIRY_INTERVAL, SHARED_SUBSCRIPTION_AVAILABLE, SUBSCRIPTION_IDENTIFIER,
    SUBSCRIPTION_IDENTIFIER_AVAILABLE, TOPIC_ALIAS, TOPIC_ALIAS_MAXIMUM, USER_PROPERTY,
    WILDCARD_SUBSCRIPTION_AVAILABLE, WILL_DELAY_INTERVAL,
};
use crate::varint::VARINT_MAX;

verus! {

/// SUBSCRIBE properties.
#[derive(Debug, Clone, PartialEq, Eq)]
pub struct SubscribeProperties {
    pub subscription_id: Option<usize>,
    pub user_property: Vec<(String, String)>,
}

#[verifier::ext_equal]
pub struct SubscribePropertiesV {
    pub subscription_id: Option<usize>,
    pub user_property: Seq<UserV>,
}

impl View for SubscribeProperties {
    type V = SubscribePropertiesV;

    open spec fn view(&self) -> SubscribePropertiesV {
        SubscribePropertiesV {
            subscription_id: self.subscription_id,
            user_property: users_view(self.user_property@),
        }
    }
}

impl PropertySet for SubscribeProperties {
    open spec fn spec_empty() -> SubscribePropertiesV {
        SubscribePropertiesV { subscription_id: None, user_property: Seq::empty() }
    }

    open spec fn spec_entries(v: SubscribePropertiesV) -> Seq<PropertyV> {
        opt_entry(SUBSCRIPTION_IDENTIFIER, opt_varint(v.subscription_id)) + user_entries(v.user_property)
    }

    open spec fn spec_merge(v: SubscribePropertiesV, p: PropertyV) -> Result<SubscribePropertiesV, MQTTError> {
        match p.1 {
            ValueV::VarInt(x) if p.0 == SUBSCRIPTION_IDENTIFIER => if v.subscription_id is Some {
                Err(MQTTError::DuplicateProperty(p.0))
            } else {
                Ok(SubscribePropertiesV { subscription_id: Some(x), ..v })
            },
            ValueV::Pair(k, x) if p.0 == USER_PROPERTY => Ok(SubscribePropertiesV { user_property: v.user_property.push((k, x)), ..v }),
            _ => Err(MQTTError::UnexpectedProperty(p.0)),
        }
    }

    fn empty() -> (r: Self) {
        let r = SubscribeProperties { subscription_id: None, user_property: Vec::new() };
        assert(r@ =~= Self::spec_empty());
        r
    }

    fn entries(&self) -> (r: Vec<Property>) {
        let mut out: Vec<Property> = Vec::new();
        assert(out@.map_values(|p: Property| p@) =~= Seq::<PropertyV>::empty());
        push_opt_varint(&mut out, SUBSCRIPTION_IDENTIFIER, self.subscription_id);
        push_users(&mut out, &self.user_property);
        assert(out@.map_values(|p: Property| p@) =~= Self::spec_entries(self@));
        out
    }

    fn merge(&mut self, p: Property) -> (r: Result<(), MQTTError>) {
        let id = p.id;
        match p.value {
            PropertyValue::VarInt(x) if id == SUBSCRIPTION_IDENTIFIER => {
                if self.subscription_id.is_some() {
                    return Err(MQTTError::DuplicateProperty(id));
                }
                self.subscription_id = Some(x);
                assert(self@ =~= SubscribePropertiesV { subscription_id: self@.subscription_id, ..old(self)@ });
                Ok(())
            },
            PropertyValue::Pair(k, x) if id == USER_PROPERTY => {
                self.user_property.push((k, x));
                assert(self@.user_property =~= old(self)@.user_property.push((k@, x@)));
                assert(self@ =~= SubscribePropertiesV { user_property: old(self)@.user_property.push((k@, x@)), ..old(self)@ });
                Ok(())
            },
            _ => Err(MQTTError::UnexpectedProperty(id)),
        }
    }
}

impl SubscribeProperties {
    /// Taking user properties into a set adds them after its own.
    pub proof fn lemma_merge_users(acc: SubscribePropertiesV, u: Seq<UserV>)
        ensures
            merge_all::<SubscribeProperties>(acc, user_entries(u)) == Ok::<SubscribePropertiesV, MQTTError>(
                SubscribePropertiesV { user_property: acc.user_property + u, ..acc },
            ),
        decreases u.len(),
    {
        if u.len() == 0 {
            assert(user_entries(u) =~= Seq::<PropertyV>::empty());
            assert(acc.user_property + u =~= acc.user_property);
            assert(acc =~= SubscribePropertiesV { user_property: acc.user_property + u, ..acc });
        } else {
            lemma_user_entries_push(u);
            lemma_merge_all_concat::<SubscribeProperties>(
                acc,
                user_entries(u.drop_last()),
                seq![(USER_PROPERTY, ValueV::Pair(u.last().0, u.last().1))],
            );
            Self::lemma_merge_users(acc, u.drop_last());
            let mid = SubscribePropertiesV { user_property: acc.user_property + u.drop_last(), ..acc };
            lemma_merge_all_one::<SubscribeProperties>(mid, (USER_PROPERTY, ValueV::Pair(u.last().0, u.last().1)));
            assert((acc.user_property + u.drop_last()).push(u.last()) =~= acc.user_property + u);
            assert(SubscribePropertiesV { user_property: mid.user_property.push((u.last().0, u.last().1)), ..mid } =~= SubscribePropertiesV { user_property: acc.user_property + u, ..acc });
        }
    }

    /// Taking the entries of a set into the empty set gives the set back.
    pub proof fn lemma_entries_merge(v: SubscribePropertiesV)
        ensures
            merge_all::<SubscribeProperties>(Self::spec_empty(), Self::spec_entries(v)) == Ok::<SubscribePropertiesV, MQTTError>(v),
    {
        let e = Self::spec_empty();
        let a0 = SubscribePropertiesV { subscription_id: None, user_property: Seq::empty() };
        lemma_merge_all_opt::<SubscribeProperties>(a0, SUBSCRIPTION_IDENTIFIER, opt_varint(v.subscription_id));
        assert(merge_all::<SubscribeProperties>(a0, opt_entry(SUBSCRIPTION_IDENTIFIER, opt_varint(v.subscription_id))) == Ok::<SubscribePropertiesV, MQTTError>(SubscribePropertiesV { subscription_id: v.subscription_id, user_property: Seq::empty() }));
        assert(merge_all::<SubscribeProperties>(e, opt_entry(SUBSCRIPTION_IDENTIFIER, opt_varint(v.subscription_id))) == Ok::<SubscribePropertiesV, MQTTError>(SubscribePropertiesV { subscription_id: v.subscription_id, user_property: Seq::empty() }));
        let a1 = SubscribePropertiesV { subscription_id: v.subscription_id, user_property: Seq::empty() };
        lemma_merge_all_concat::<SubscribeProperties>(e, opt_entry(SUBSCRIPTION_IDENTIFIER, opt_varint(v.subscription_id)), user_entries(v.user_property));
        Self::lemma_merge_users(a1, v.user_property);
        assert(Seq::<UserV>::empty() + v.user_property =~= v.user_property);
        assert(SubscribePropertiesV { user_property: a1.user_property + v.user_property, ..a1 } =~= SubscribePropertiesV { subscription_id: v.subscription_id, user_property: v.user_property });
        assert(merge_all::<SubscribeProperties>(e, opt_entry(SUBSCRIPTION_IDENTIFIER, opt_varint(v.subscription_id)) + user_entries(v.user_property)) == Ok::<SubscribePropertiesV, MQTTError>(SubscribePropertiesV { subscription_id: v.subscription_id, user_property: v.user_property }));
        assert(SubscribePropertiesV { subscription_id: v.subscription_id, user_property: v.user_property } =~= v);
    }

    /// The Property Length.
    pub fn length(&self) -> (r: usize)
        requires
            entries_size(Self::spec_entries(self@)) <= usize::MAX,
        ensures
            r == entries_size(Self::spec_entries(self@)),
    {
        properties_length(self)
    }

    /// Writes the Property Length, then the present properties in order.
    pub fn write(&self, buf: &mut BytesMut) -> (r: Result<(), MQTTError>)
        requires
            bytes_mut_view(*old(buf)).len() + 4 + entries_size(Self::spec_entries(self@)) <= isize::MAX,
        ensures
            r == spec_write_properties(Self::spec_entries(self@)).0,
            bytes_mut_view(*final(buf)) == bytes_mut_view(*old(buf)) + spec_write_properties(
                Self::spec_entries(self@),
            ).1,
    {
        write_properties(self, buf)
    }

    /// Reads a property list; a property this packet does not allow is
    /// `UnexpectedProperty`, a second instance of a single property `DuplicateProperty`.
    pub fn read(buf: &mut Bytes) -> (r: Result<Self, MQTTError>)
        ensures
            match (r, parse_properties::<SubscribeProperties>(bytes_view(*old(buf)), "").0) {
                (Ok(t), Ok(v)) => t@ == v,
                (Err(e), Err(f)) => e == f,
                _ => false,
            },
            bytes_view(*final(buf)) == bytes_view(*old(buf)).skip(
                parse_properties::<SubscribeProperties>(bytes_view(*old(buf)), "").1 as int,
            ),
    {
        read_properties(buf, "")
    }

    /// Reading written properties gives them back.
    pub proof fn lemma_write_read(v: SubscribePropertiesV, rest: Seq<u8>)
        requires
            entries_fit(Self::spec_entries(v)),
            entries_size(Self::spec_entries(v)) <= VARINT_MAX,
        ensures
            spec_write_properties(Self::spec_entries(v)).0 == Ok::<(), MQTTError>(()),
            parse_properties::<SubscribeProperties>(spec_write_properties(Self::spec_entries(v)).1 + rest, "") == (
                Ok::<SubscribePropertiesV, MQTTError>(v),
                spec_write_properties(Self::spec_entries(v)).1.len(),
            ),
    {
        Self::lemma_entries_merge(v);
        lemma_properties_roundtrip::<SubscribeProperties>(v, rest, "");
    }
}

impl Default for SubscribeProperties {
    fn default() -> (r: Self)
        ensures
            r@ == Self::spec_empty(),
    {
        Self::empty()
    }
}

/// Each property is written under the identifier that MQTT 5 assigns to it
/// (section 2.2.2.2): a set holding one property, whatever its value, is
/// written as exactly that property under its identifier.
pub proof fn lemma_subscribe_properties_identifiers_written(subscription_id: usize, user_key: Seq<char>, user_value: Seq<char>)
    ensures
        SubscribeProperties::spec_entries(SubscribePropertiesV { subscription_id: Some(subscription_id), ..SubscribeProperties::spec_empty() }) == seq![(11u8, ValueV::VarInt(subscription_id))],
        SubscribeProperties::spec_entries(SubscribePropertiesV { user_property: seq![(user_key, user_value)], ..SubscribeProperties::spec_empty() }) == seq![(38u8, ValueV::Pair(user_key, user_value))],
{
}

/// Reading a property under the identifier that MQTT 5 assigns to a field
/// sets that field and no other, into any set; a second one of a field that
/// may appear once is a duplicate, reported with its identifier.
pub proof fn lemma_subscribe_properties_identifiers_read(v: SubscribePropertiesV, subscription_id: usize, user_key: Seq<char>, user_value: Seq<char>)
    ensures
        SubscribeProperties::spec_merge(v, (11u8, ValueV::VarInt(subscription_id))) == if v.subscription_id is Some {
            Err::<SubscribePropertiesV, MQTTError>(MQTTError::DuplicateProperty(11u8))
        } else {
            Ok::<SubscribePropertiesV, MQTTError>(SubscribePropertiesV { subscription_id: Some(subscription_id), ..v })
        },
        SubscribeProperties::spec_merge(v, (38u8, ValueV::Pair(user_key, user_value))) == Ok::<SubscribePropertiesV, MQTTError>(SubscribePropertiesV { user_property: v.user_property.push((user_key, user_value)), ..v }),
{
}

} // verus!
