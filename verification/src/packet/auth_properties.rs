//! The properties of AUTH (section 3.15.2.2).
use bytes::{Bytes, BytesMut};
use vstd::prelude::*;

use crate::buffer::{bytes_mut_view, bytes_view};
use crate::error::MQTTError;
use crate::properties::{
    entries_fit, entries_size, lemma_merge_all_concat, lemma_merge_all_one, lemma_merge_all_opt,
    lemma_properties_roundtrip, lemma_user_entries_push, merge_all, opt_binary, opt_byte,
    opt_bytes_view, opt_entry, opt_flag, opt_four, opt_string_view, opt_two, opt_utf8, opt_varint,
    parse_properties, properties_length, push_opt_byte, push_opt_bytes, push_opt_flag,
    push_opt_four, push_opt_string, push_opt_two, push_opt_varint, push_users, read_properties,
    spec_write_properties, user_entries, users_view, write_properties, PropertySet, UserV,
};
use crate::property::{
    Property, PropertyV, PropertyValue, ValueV, ASSIGNED_CLIENT_IDENTIFIER, AUTHENTICATION_DATA,
    AUTHENTICATION_METHOD, CONTENT_TYPE, CORRELATION_DATA, MAXIMUM_PACKET_SIZE, MAXIMUM_QOS,
    MESSAGE_EXPIRY_INTERVAL, PAYLOAD_FORMAT_INDICATOR, REASON_STRING, RECEIVE_MAXIMUM,
    REQUEST_PROBLEM_INFORMATION, REQUEST_RESPONSE_INFORMATION, RESPONSE_INFORMATION,
    RESPONSE_TOPIC, RETAIN_AVAILABLE, SERVER_KEEP_ALIVE, SERVER_REFERENCE,
    SESSION_EXPIRY_INTERVAL, SHARED_SUBSCRIPTION_AVAILABLE, SUBSCRIPTION_IDENTIFIER,
    SUBSCRIPTION_IDENTIFIER_AVAILABLE, TOPIC_ALIAS, TOPIC_ALIAS_MAXIMUM, USER_PROPERTY,
    WILDCARD_SUBSCRIPTION_AVAILABLE, WILL_DELAY_INTERVAL,
};
use crate::varint::VARINT_MAX;

verus! {

/// AUTH properties.
#[derive(Debug, Clone, PartialEq, Eq)]
pub struct AuthProperties {
    pub auth_method: Option<String>,
    pub auth_data: Option<Bytes>,
    pub reason_string: Option<String>,
    pub user_property: Vec<(String, String)>,
}

#[verifier::ext_equal]
pub struct AuthPropertiesV {
    pub auth_method: Option<Seq<char>>,
    pub auth_data: Option<Seq<u8>>,
    pub reason_string: Option<Seq<char>>,
    pub user_property: Seq<UserV>,
}

impl View for AuthProperties {
    type V = AuthPropertiesV;

    open spec fn view(&self) -> AuthPropertiesV {
        AuthPropertiesV {
            auth_method: opt_string_view(self.auth_method),
            auth_data: opt_bytes_view(self.auth_data),
            reason_string: opt_string_view(self.reason_string),
            user_property: users_view(self.user_property@),
        }
    }
}

impl PropertySet for AuthProperties {
    open spec fn spec_empty() -> AuthPropertiesV {
        AuthPropertiesV { auth_method: None, auth_data: None, reason_string: None, user_property: Seq::empty() }
    }

    open spec fn spec_entries(v: AuthPropertiesV) -> Seq<PropertyV> {
        opt_entry(AUTHENTICATION_METHOD, opt_utf8(v.auth_method)) + opt_entry(AUTHENTICATION_DATA, opt_binary(v.auth_data)) + opt_entry(REASON_STRING, opt_utf8(v.reason_string)) + user_entries(v.user_property)
    }

    open spec fn spec_merge(v: AuthPropertiesV, p: PropertyV) -> Result<AuthPropertiesV, MQTTError> {
        match p.1 {
            ValueV::Utf8(x) if p.0 == AUTHENTICATION_METHOD => if v.auth_method is Some {
                Err(MQTTError::DuplicateProperty(p.0))
            } else {
                Ok(AuthPropertiesV { auth_method: Some(x), ..v })
            },
            ValueV::Binary(x) if p.0 == AUTHENTICATION_DATA => if v.auth_data is Some {
                Err(MQTTError::DuplicateProperty(p.0))
            } else {
                Ok(AuthPropertiesV { auth_data: Some(x), ..v })
            },
            ValueV::Utf8(x) if p.0 == REASON_STRING => if v.reason_string is Some {
                Err(MQTTError::DuplicateProperty(p.0))
            } else {
                Ok(AuthPropertiesV { reason_string: Some(x), ..v })
            },
            ValueV::Pair(k, x) if p.0 == USER_PROPERTY => Ok(AuthPropertiesV { user_property: v.user_property.push((k, x)), ..v }),
            _ => Err(MQTTError::UnexpectedProperty(p.0)),
        }
    }

    fn empty() -> (r: Self) {
        let r = AuthProperties { auth_method: None, auth_data: None, reason_string: None, user_property: Vec::new() };
        assert(r@ =~= Self::spec_empty());
        r
    }

    fn entries(&self) -> (r: Vec<Property>) {
        let mut out: Vec<Property> = Vec::new();
        assert(out@.map_values(|p: Property| p@) =~= Seq::<PropertyV>::empty());
        push_opt_string(&mut out, AUTHENTICATION_METHOD, &self.auth_method);
        push_opt_bytes(&mut out, AUTHENTICATION_DATA, &self.auth_data);
        push_opt_string(&mut out, REASON_STRING, &self.reason_string);
        push_users(&mut out, &self.user_property);
        assert(out@.map_values(|p: Property| p@) =~= Self::spec_entries(self@));
        out
    }

    fn merge(&mut self, p: Property) -> (r: Result<(), MQTTError>) {
        let id = p.id;
        match p.value {
            PropertyValue::Utf8(x) if id == AUTHENTICATION_METHOD => {
                if self.auth_method.is_some() {
                    return Err(MQTTError::DuplicateProperty(id));
                }
                self.auth_method = Some(x);
                assert(self@ =~= AuthPropertiesV { auth_method: self@.auth_method, ..old(self)@ });
                Ok(())
            },
            PropertyValue::Binary(x) if id == AUTHENTICATION_DATA => {
                if self.auth_data.is_some() {
                    return Err(MQTTError::DuplicateProperty(id));
                }
                self.auth_data = Some(x);
                assert(self@ =~= AuthPropertiesV { auth_data: self@.auth_data, ..old(self)@ });
                Ok(())
            },
            PropertyValue::Utf8(x) if id == REASON_STRING => {
                if self.reason_string.is_some() {
                    return Err(MQTTError::DuplicateProperty(id));
                }
                self.reason_string = Some(x);
                assert(self@ =~= AuthPropertiesV { reason_string: self@.reason_string, ..old(self)@ });
                Ok(())
            },
            PropertyValue::Pair(k, x) if id == USER_PROPERTY => {
                self.user_property.push((k, x));
                assert(self@.user_property =~= old(self)@.user_property.push((k@, x@)));
                assert(self@ =~= AuthPropertiesV { user_property: old(self)@.user_property.push((k@, x@)), ..old(self)@ });
                Ok(())
            },
            _ => Err(MQTTError::UnexpectedProperty(id)),
        }
    }
}

impl AuthProperties {
    /// Taking user properties into a set adds them after its own.
    pub proof fn lemma_merge_users(acc: AuthPropertiesV, u: Seq<UserV>)
        ensures
            merge_all::<AuthProperties>(acc, user_entries(u)) == Ok::<AuthPropertiesV, MQTTError>(
                AuthPropertiesV { user_property: acc.user_property + u, ..acc },
            ),
        decreases u.len(),
    {
        if u.len() == 0 {
            assert(user_entries(u) =~= Seq::<PropertyV>::empty());
            assert(acc.user_property + u =~= acc.user_property);
            assert(acc =~= AuthPropertiesV { user_property: acc.user_property + u, ..acc });
        } else {
            lemma_user_entries_push(u);
            lemma_merge_all_concat::<AuthProperties>(
                acc,
                user_entries(u.drop_last()),
                seq![(USER_PROPERTY, ValueV::Pair(u.last().0, u.last().1))],
            );
            Self::lemma_merge_users(acc, u.drop_last());
            let mid = AuthPropertiesV { user_property: acc.user_property + u.drop_last(), ..acc };
            lemma_merge_all_one::<AuthProperties>(mid, (USER_PROPERTY, ValueV::Pair(u.last().0, u.last().1)));
            assert((acc.user_property + u.drop_last()).push(u.last()) =~= acc.user_property + u);
            assert(AuthPropertiesV { user_property: mid.user_property.push((u.last().0, u.last().1)), ..mid } =~= AuthPropertiesV { user_property: acc.user_property + u, ..acc });
        }
    }

    /// Taking the entries of a set into the empty set gives the set back.
    pub proof fn lemma_entries_merge(v: AuthPropertiesV)
        ensures
            merge_all::<AuthProperties>(Self::spec_empty(), Self::spec_entries(v)) == Ok::<AuthPropertiesV, MQTTError>(v),
    {
        let e = Self::spec_empty();
        let a0 = AuthPropertiesV { auth_method: None, auth_data: None, reason_string: None, user_property: Seq::empty() };
        lemma_merge_all_opt::<AuthProperties>(a0, AUTHENTICATION_METHOD, opt_utf8(v.auth_method));
        assert(merge_all::<AuthProperties>(a0, opt_entry(AUTHENTICATION_METHOD, opt_utf8(v.auth_method))) == Ok::<AuthPropertiesV, MQTTError>(AuthPropertiesV { auth_method: v.auth_method, auth_data: None, reason_string: None, user_property: Seq::empty() }));
        assert(merge_all::<AuthProperties>(e, opt_entry(AUTHENTICATION_METHOD, opt_utf8(v.auth_method))) == Ok::<AuthPropertiesV, MQTTError>(AuthPropertiesV { auth_method: v.auth_method, auth_data: None, reason_string: None, user_property: Seq::empty() }));
        let a1 = AuthPropertiesV { auth_method: v.auth_method, auth_data: None, reason_string: None, user_property: Seq::empty() };
        lemma_merge_all_concat::<AuthProperties>(e, opt_entry(AUTHENTICATION_METHOD, opt_utf8(v.auth_method)), opt_entry(AUTHENTICATION_DATA, opt_binary(v.auth_data)));
        lemma_merge_all_opt::<AuthProperties>(a1, AUTHENTICATION_DATA, opt_binary(v.auth_data));
        assert(merge_all::<AuthProperties>(a1, opt_entry(AUTHENTICATION_DATA, opt_binary(v.auth_data))) == Ok::<AuthPropertiesV, MQTTError>(AuthPropertiesV { auth_method: v.auth_method, auth_data: v.auth_data, reason_string: None, user_property: Seq::empty() }));
        assert(merge_all::<AuthProperties>(e, opt_entry(AUTHENTICATION_METHOD, opt_utf8(v.auth_method)) + opt_entry(AUTHENTICATION_DATA, opt_binary(v.auth_data))) == Ok::<AuthPropertiesV, MQTTError>(AuthPropertiesV { auth_method: v.auth_method, auth_data: v.auth_data, reason_string: None, user_property: Seq::empty() }));
        let a2 = AuthPropertiesV { auth_method: v.auth_method, auth_data: v.auth_data, reason_string: None, user_property: Seq::empty() };
        lemma_merge_all_concat::<AuthProperties>(e, opt_entry(AUTHENTICATION_METHOD, opt_utf8(v.auth_method)) + opt_entry(AUTHENTICATION_DATA, opt_binary(v.auth_data)), opt_entry(REASON_STRING, opt_utf8(v.reason_string)));
        lemma_merge_all_opt::<AuthProperties>(a2, REASON_STRING, opt_utf8(v.reason_string));
        assert(merge_all::<AuthProperties>(a2, opt_entry(REASON_STRING, opt_utf8(v.reason_string))) == Ok::<AuthPropertiesV, MQTTError>(AuthPropertiesV { auth_method: v.auth_method, auth_data: v.auth_data, reason_string: v.reason_string, user_property: Seq::empty() }));
        assert(merge_all::<AuthProperties>(e, opt_entry(AUTHENTICATION_METHOD, opt_utf8(v.auth_method)) + opt_entry(AUTHENTICATION_DATA, opt_binary(v.auth_data)) + opt_entry(REASON_STRING, opt_utf8(v.reason_string))) == Ok::<AuthPropertiesV, MQTTError>(AuthPropertiesV { auth_method: v.auth_method, auth_data: v.auth_data, reason_string: v.reason_string, user_property: Seq::empty() }));
        let a3 = AuthPropertiesV { auth_method: v.auth_method, auth_data: v.auth_data, reason_string: v.reason_string, user_property: Seq::empty() };
        lemma_merge_all_concat::<AuthProperties>(e, opt_entry(AUTHENTICATION_METHOD, opt_utf8(v.auth_method)) + opt_entry(AUTHENTICATION_DATA, opt_binary(v.auth_data)) + opt_entry(REASON_STRING, opt_utf8(v.reason_string)), user_entries(v.user_property));
        Self::lemma_merge_users(a3, v.user_property);
        assert(Seq::<UserV>::empty() + v.user_property =~= v.user_property);
        assert(AuthPropertiesV { user_property: a3.user_property + v.user_property, ..a3 } =~= AuthPropertiesV { auth_method: v.auth_method, auth_data: v.auth_data, reason_string: v.reason_string, user_property: v.user_property });
        assert(merge_all::<AuthProperties>(e, opt_entry(AUTHENTICATION_METHOD, opt_utf8(v.auth_method)) + opt_entry(AUTHENTICATION_DATA, opt_binary(v.auth_data)) + opt_entry(REASON_STRING, opt_utf8(v.reason_string)) + user_entries(v.user_property)) == Ok::<AuthPropertiesV, MQTTError>(AuthPropertiesV { auth_method: v.auth_method, auth_data: v.auth_data, reason_string: v.reason_string, user_property: v.user_property }));
        assert(AuthPropertiesV { auth_method: v.auth_method, auth_data: v.auth_data, reason_string: v.reason_string, user_property: v.user_property } =~= v);
    }

    /// The Property Length.
    pub fn length(&self) -> (r: usize)
        requires
            entries_size(Self::spec_entries(self@)) <= usize::MAX,
        ensures
            r == entries_size(Self::spec_entries(self@)),
    {
        properties_length(self)
    }

    /// Writes the Property Length, then the present properties in order.
    pub fn write(&self, buf: &mut BytesMut) -> (r: Result<(), MQTTError>)
        requires
            bytes_mut_view(*old(buf)).len() + 4 + entries_size(Self::spec_entries(self@)) <= isize::MAX,
        ensures
            r == spec_write_properties(Self::spec_entries(self@)).0,
            bytes_mut_view(*final(buf)) == bytes_mut_view(*old(buf)) + spec_write_properties(
                Self::spec_entries(self@),
            ).1,
    {
        write_properties(self, buf)
    }

    /// Reads a property list; a property this packet does not allow is
    /// `UnexpectedProperty`, a second instance of a single property `DuplicateProperty`.
    pub fn read(buf: &mut Bytes) -> (r: Result<Self, MQTTError>)
        ensures
            match (r, parse_properties::<AuthProperties>(bytes_view(*old(buf)), "").0) {
                (Ok(t), Ok(v)) => t@ == v,
                (Err(e), Err(f)) => e == f,
                _ => false,
            },
            bytes_view(*final(buf)) == bytes_view(*old(buf)).skip(
                parse_properties::<AuthProperties>(bytes_view(*old(buf)), "").1 as int,
            ),
    {
        read_properties(buf, "")
    }

    /// Reading written properties gives them back.
    pub proof fn lemma_write_read(v: AuthPropertiesV, rest: Seq<u8>)
        requires
            entries_fit(Self::spec_entries(v)),
            entries_size(Self::spec_entries(v)) <= VARINT_MAX,
        ensures
            spec_write_properties(Self::spec_entries(v)).0 == Ok::<(), MQTTError>(()),
            parse_properties::<AuthProperties>(spec_write_properties(Self::spec_entries(v)).1 + rest, "") == (
                Ok::<AuthPropertiesV, MQTTError>(v),
                spec_write_properties(Self::spec_entries(v)).1.len(),
            ),
    {
        Self::lemma_entries_merge(v);
        lemma_properties_roundtrip::<AuthProperties>(v, rest, "");
    }
}

impl Default for AuthProperties {
    fn default() -> (r: Self)
        ensures
            r@ == Self::spec_empty(),
    {
        Self::empty()
    }
}

/// Each property is written under the identifier that MQTT 5 assigns to it
/// (section 2.2.2.2): a set holding one property, whatever its value, is
/// written as exactly that property under its identifier.
pub proof fn lemma_auth_properties_identifiers_written(auth_method: Seq<char>, auth_data: Seq<u8>, reason_string: Seq<char>, user_key: Seq<char>, user_value: Seq<char>)
    ensures
        AuthProperties::spec_entries(AuthPropertiesV { auth_method: Some(auth_method), ..AuthProperties::spec_empty() }) == seq![(21u8, ValueV::Utf8(auth_method))],
        AuthProperties::spec_entries(AuthPropertiesV { auth_data: Some(auth_data), ..AuthProperties::spec_empty() }) == seq![(22u8, ValueV::Binary(auth_data))],
        AuthProperties::spec_entries(AuthPropertiesV { reason_string: Some(reason_string), ..AuthProperties::spec_empty() }) == seq![(31u8, ValueV::Utf8(reason_string))],
        AuthProperties::spec_entries(AuthPropertiesV { user_property: seq![(user_key, user_value)], ..AuthProperties::spec_empty() }) == seq![(38u8, ValueV::Pair(user_key, user_value))],
{
}

/// Reading a property under the identifier that MQTT 5 assigns to a field
/// sets that field and no other, into any set; a second one of a field that
/// may appear once is a duplicate, reported with its identifier.
pub proof fn lemma_auth_properties_identifiers_read(v: AuthPropertiesV, auth_method: Seq<char>, auth_data: Seq<u8>, reason_string: Seq<char>, user_key: Seq<char>, user_value: Seq<char>)
    ensures
        AuthProperties::spec_merge(v, (21u8, ValueV::Utf8(auth_method))) == if v.auth_method is Some {
            Err::<AuthPropertiesV, MQTTError>(MQTTError::DuplicateProperty(21u8))
        } else {
            Ok::<AuthPropertiesV, MQTTError>(AuthPropertiesV { auth_method: Some(auth_method), ..v })
        },
        AuthProperties::spec_merge(v, (22u8, ValueV::Binary(auth_data))) == if v.auth_data is Some {
            Err::<AuthPropertiesV, MQTTError>(MQTTError::DuplicateProperty(22u8))
        } else {
            Ok::<AuthPropertiesV, MQTTError>(AuthPropertiesV { auth_data: Some(auth_data), ..v })
        },
        AuthProperties::spec_merge(v, (31u8, ValueV::Utf8(reason_string))) == if v.reason_string is Some {
            Err::<AuthPropertiesV, MQTTError>(MQTTError::DuplicateProperty(31u8))
        } else {
            Ok::<AuthPropertiesV, MQTTError>(AuthPropertiesV { reason_string: Some(reason_string), ..v })
        },
        AuthProperties::spec_merge(v, (38u8, ValueV::Pair(user_key, user_value))) == Ok::<AuthPropertiesV, MQTTError>(AuthPropertiesV { user_property: v.user_property.push((user_key, user_value)), ..v }),
{
}

} // verus!
