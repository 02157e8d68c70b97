//! The properties of DISCONNECT (section 3.14.2.2).
use bytes::{Bytes, BytesMut};
use vstd::prelude::*;

use crate::buffer::{bytes_mut_view, bytes_view};
use crate::error::MQTTError;
use crate::properties::{
    entries_fit, entries_size, lemma_merge_all_concat, lemma_merge_all_one, lemma_merge_all_opt,
    lemma_properties_roundtrip, lemma_user_entries_push, merge_all, opt_binary, opt_byte,
    opt_bytes_view, opt_entry, opt_flag, opt_four, opt_string_view, opt_two, opt_utf8, opt_varint,
    parse_properties, properties_length, push_opt_byte, push_opt_bytes, push_opt_flag,
    push_opt_four, push_opt_string, push_opt_two, push_opt_varint, push_users, read_properties,
    spec_write_properties, user_entries, users_view, write_properties, PropertySet, UserV,
};
use crate::property::{
    Property, PropertyV, PropertyValue, ValueV, ASSIGNED_CLIENT_IDENTIFIER, AUTHENTICATION_DATA,
    AUTHENTICATION_METHOD, CONTENT_TYPE, CORRELATION_DATA, MAXIMUM_PACKET_SIZE, MAXIMUM_QOS,
    MESSAGE_EXPIRY_INTERVAL, PAYLOAD_FORMAT_INDICATOR, REASON_STRING, RECEIVE_MAXIMUM,
    REQUEST_PROBLEM_INFORMATION, REQUEST_RESPONSE_INFORMATION, RESPONSE_INFORMATION,
    RESPONSE_TOPIC, RETAIN_AVAILABLE, SERVER_KEEP_ALIVE, SERVER_REFERENCE,
    SESSION_EXPIRY_INTERVAL, SHARED_SUBSCRIPTION_AVAILABLE, SUBSCRIPTION_IDENTIFIER,
    SUBSCRIPTION_IDENTIFIER_AVAILABLE, TOPIC_ALIAS, TOPIC_ALIAS_MAXIMUM, USER_PROPERTY,
    WILDCARD_SUBSCRIPTION_AVAILABLE, WILL_DELAY_INTERVAL,
};
use crate::varint::VARINT_MAX;

verus! {

/// DISCONNECT properties.
#[derive(Debug, Clone, PartialEq, Eq)]
pub struct DisconnectProperties {
    pub session_expiry_interval: Option<u32>,
    pub reason_string: Option<String>,
    pub user_property: Vec<(String, String)>,
    pub server_reference: Option<String>,
}

#[verifier::ext_equal]
pub struct DisconnectPropertiesV {
    pub session_expiry_interval: Option<u32>,
    pub reason_string: Option<Seq<char>>,
    pub user_property: Seq<UserV>,
    pub server_reference: Option<Seq<char>>,
}

impl View for DisconnectProperties {
    type V = DisconnectPropertiesV;

    open spec fn view(&self) -> DisconnectPropertiesV {
        DisconnectPropertiesV {
            session_expiry_interval: self.session_expiry_interval,
            reason_string: opt_string_view(self.reason_string),
            user_property: users_view(self.user_property@),
            server_reference: opt_string_view(self.server_reference),
        }
    }
}

impl PropertySet for DisconnectProperties {
    open spec fn spec_empty() -> DisconnectPropertiesV {
        DisconnectPropertiesV { session_expiry_interval: None, reason_string: None, user_property: Seq::empty(), server_reference: None }
    }

    open spec fn spec_entries(v: DisconnectPropertiesV) -> Seq<PropertyV> {
        opt_entry(SESSION_EXPIRY_INTERVAL, opt_four(v.session_expiry_interval)) + opt_entry(REASON_STRING, opt_utf8(v.reason_string)) + user_entries(v.user_property) + opt_entry(SERVER_REFERENCE, opt_utf8(v.server_reference))
    }

    open spec fn spec_merge(v: DisconnectPropertiesV, p: PropertyV) -> Result<DisconnectPropertiesV, MQTTError> {
        match p.1 {
            ValueV::FourByte(x) if p.0 == SESSION_EXPIRY_INTERVAL => if v.session_expiry_interval is Some {
                Err(MQTTError::DuplicateProperty(p.0))
            } else {
                Ok(DisconnectPropertiesV { session_expiry_interval: Some(x), ..v })
            },
            ValueV::Utf8(x) if p.0 == REASON_STRING => if v.reason_string is Some {
                Err(MQTTError::DuplicateProperty(p.0))
            } else {
                Ok(DisconnectPropertiesV { reason_string: Some(x), ..v })
            },
            ValueV::Pair(k, x) if p.0 == USER_PROPERTY => Ok(DisconnectPropertiesV { user_property: v.user_property.push((k, x)), ..v }),
            ValueV::Utf8(x) if p.0 == SERVER_REFERENCE => if v.server_reference is Some {
                Err(MQTTError::DuplicateProperty(p.0))
            } else {
                Ok(DisconnectPropertiesV { server_reference: Some(x), ..v })
            },
            _ => Err(MQTTError::UnexpectedProperty(p.0)),
        }
    }

    fn empty() -> (r: Self) {
        let r = DisconnectProperties { session_expiry_interval: None, reason_string: None, user_property: Vec::new(), server_reference: None };
        assert(r@ =~= Self::spec_empty());
        r
    }

    fn entries(&self) -> (r: Vec<Property>) {
        let mut out: Vec<Property> = Vec::new();
        assert(out@.map_values(|p: Property| p@) =~= Seq::<PropertyV>::empty());
        push_opt_four(&mut out, SESSION_EXPIRY_INTERVAL, self.session_expiry_interval);
        push_opt_string(&mut out, REASON_STRING, &self.reason_string);
        push_users(&mut out, &self.user_property);
        push_opt_string(&mut out, SERVER_REFERENCE, &self.server_reference);
        assert(out@.map_values(|p: Property| p@) =~= Self::spec_entries(self@));
        out
    }

    fn merge(&mut self, p: Property) -> (r: Result<(), MQTTError>) {
        let id = p.id;
        match p.value {
            PropertyValue::FourByte(x) if id == SESSION_EXPIRY_INTERVAL => {
                if self.session_expiry_interval.is_some() {
                    return Err(MQTTError::DuplicateProperty(id));
                }
                self.session_expiry_interval = Some(x);
                assert(self@ =~= DisconnectPropertiesV { session_expiry_interval: self@.session_expiry_interval, ..old(self)@ });
                Ok(())
            },
            PropertyValue::Utf8(x) if id == REASON_STRING => {
                if self.reason_string.is_some() {
                    return Err(MQTTError::DuplicateProperty(id));
                }
                self.reason_string = Some(x);
                assert(self@ =~= DisconnectPropertiesV { reason_string: self@.reason_string, ..old(self)@ });
                Ok(())
            },
            PropertyValue::Pair(k, x) if id == USER_PROPERTY => {
                self.user_property.push((k, x));
                assert(self@.user_property =~= old(self)@.user_property.push((k@, x@)));
                assert(self@ =~= DisconnectPropertiesV { user_property: old(self)@.user_property.push((k@, x@)), ..old(self)@ });
                Ok(())
            },
            PropertyValue::Utf8(x) if id == SERVER_REFERENCE => {
                if self.server_reference.is_some() {
                    return Err(MQTTError::DuplicateProperty(id));
                }
                self.server_reference = Some(x);
                assert(self@ =~= DisconnectPropertiesV { server_reference: self@.server_reference, ..old(self)@ });
                Ok(())
            },
            _ => Err(MQTTError::UnexpectedProperty(id)),
        }
    }
}

impl DisconnectProperties {
    /// Taking user properties into a set adds them after its own.
    pub proof fn lemma_merge_users(acc: DisconnectPropertiesV, u: Seq<UserV>)
        ensures
            merge_all::<DisconnectProperties>(acc, user_entries(u)) == Ok::<DisconnectPropertiesV, MQTTError>(
                DisconnectPropertiesV { user_property: acc.user_property + u, ..acc },
            ),
        decreases u.len(),
    {
        if u.len() == 0 {
            assert(user_entries(u) =~= Seq::<PropertyV>::empty());
            assert(acc.user_property + u =~= acc.user_property);
            assert(acc =~= DisconnectPropertiesV { user_property: acc.user_property + u, ..acc });
        } else {
            lemma_user_entries_push(u);
            lemma_merge_all_concat::<DisconnectProperties>(
                acc,
                user_entries(u.drop_last()),
                seq![(USER_PROPERTY, ValueV::Pair(u.last().0, u.last().1))],
            );
            Self::lemma_merge_users(acc, u.drop_last());
            let mid = DisconnectPropertiesV { user_property: acc.user_property + u.drop_last(), ..acc };
            lemma_merge_all_one::<DisconnectProperties>(mid, (USER_PROPERTY, ValueV::Pair(u.last().0, u.last().1)));
            assert((acc.user_property + u.drop_last()).push(u.last()) =~= acc.user_property + u);
            assert(DisconnectPropertiesV { user_property: mid.user_property.push((u.last().0, u.last().1)), ..mid } =~= DisconnectPropertiesV { user_property: acc.user_property + u, ..acc });
        }
    }

    /// Taking the entries of a set into the empty set gives the set back.
    pub proof fn lemma_entries_merge(v: DisconnectPropertiesV)
        ensures
            merge_all::<DisconnectProperties>(Self::spec_empty(), Self::spec_entries(v)) == Ok::<DisconnectPropertiesV, MQTTError>(v),
    {
        let e = Self::spec_empty();
        let a0 = DisconnectPropertiesV { session_expiry_interval: None, reason_string: None, user_property: Seq::empty(), server_reference: None };
        lemma_merge_all_opt::<DisconnectProperties>(a0, SESSION_EXPIRY_INTERVAL, opt_four(v.session_expiry_interval));
        assert(merge_all::<DisconnectProperties>(a0, opt_entry(SESSION_EXPIRY_INTERVAL, opt_four(v.session_expiry_interval))) == Ok::<DisconnectPropertiesV, MQTTError>(DisconnectPropertiesV { session_expiry_interval: v.session_expiry_interval, reason_string: None, user_property: Seq::empty(), server_reference: None }));
        assert(merge_all::<DisconnectProperties>(e, opt_entry(SESSION_EXPIRY_INTERVAL, opt_four(v.session_expiry_interval))) == Ok::<DisconnectPropertiesV, MQTTError>(DisconnectPropertiesV { session_expiry_interval: v.session_expiry_interval, reason_string: None, user_property: Seq::empty(), server_reference: None }));
        let a1 = DisconnectPropertiesV { session_expiry_interval: v.session_expiry_interval, reason_string: None, user_property: Seq::empty(), server_reference: None };
        lemma_merge_all_concat::<DisconnectProperties>(e, opt_entry(SESSION_EXPIRY_INTERVAL, opt_four(v.session_expiry_interval)), opt_entry(REASON_STRING, opt_utf8(v.reason_string)));
        lemma_merge_all_opt::<DisconnectProperties>(a1, REASON_STRING, opt_utf8(v.reason_string));
        assert(merge_all::<DisconnectProperties>(a1, opt_entry(REASON_STRING, opt_utf8(v.reason_string))) == Ok::<DisconnectPropertiesV, MQTTError>(DisconnectPropertiesV { session_expiry_interval: v.session_expiry_interval, reason_string: v.reason_string, user_property: Seq::empty(), server_reference: None }));
        assert(merge_all::<DisconnectProperties>(e, opt_entry(SESSION_EXPIRY_INTERVAL, opt_four(v.session_expiry_interval)) + opt_entry(REASON_STRING, opt_utf8(v.reason_string))) == Ok::<DisconnectPropertiesV, MQTTError>(DisconnectPropertiesV { session_expiry_interval: v.session_expiry_interval, reason_string: v.reason_string, user_property: Seq::empty(), server_reference: None }));
        let a2 = DisconnectPropertiesV { session_expiry_interval: v.session_expiry_interval, reason_string: v.reason_string, user_property: Seq::empty(), server_reference: None };
        lemma_merge_all_concat::<DisconnectProperties>(e, opt_entry(SESSION_EXPIRY_INTERVAL, opt_four(v.session_expiry_interval)) + opt_entry(REASON_STRING, opt_utf8(v.reason_string)), user_entries(v.user_property));
        Self::lemma_merge_users(a2, v.user_property);
        assert(Seq::<UserV>::empty() + v.user_property =~= v.user_property);
        assert(DisconnectPropertiesV { user_property: a2.user_property + v.user_property, ..a2 } =~= DisconnectPropertiesV { session_expiry_interval: v.session_expiry_interval, reason_string: v.reason_string, user_property: v.user_property, server_reference: None });
        assert(merge_all::<DisconnectProperties>(e, opt_entry(SESSION_EXPIRY_INTERVAL, opt_four(v.session_expiry_interval)) + opt_entry(REASON_STRING, opt_utf8(v.reason_string)) + user_entries(v.user_property)) == Ok::<DisconnectPropertiesV, MQTTError>(DisconnectPropertiesV { session_expiry_interval: v.session_expiry_interval, reason_string: v.reason_string, user_property: v.user_property, server_reference: None }));
        let a3 = DisconnectPropertiesV { session_expiry_interval: v.session_expiry_interval, reason_string: v.reason_string, user_property: v.user_property, server_reference: None };
        lemma_merge_all_concat::<DisconnectProperties>(e, opt_entry(SESSION_EXPIRY_INTERVAL, opt_four(v.session_expiry_interval)) + opt_entry(REASON_STRING, opt_utf8(v.reason_string)) + user_entries(v.user_property), opt_entry(SERVER_REFERENCE, opt_utf8(v.server_reference)));
        lemma_merge_all_opt::<DisconnectProperties>(a3, SERVER_REFERENCE, opt_utf8(v.server_reference));
        assert(merge_all::<DisconnectProperties>(a3, opt_entry(SERVER_REFERENCE, opt_utf8(v.server_reference))) == Ok::<DisconnectPropertiesV, MQTTError>(DisconnectPropertiesV { session_expiry_interval: v.session_expiry_interval, reason_string: v.reason_string, user_property: v.user_property, server_reference: v.server_reference }));
        assert(merge_all::<DisconnectProperties>(e, opt_entry(SESSION_EXPIRY_INTERVAL, opt_four(v.session_expiry_interval)) + opt_entry(REASON_STRING, opt_utf8(v.reason_string)) + user_entries(v.user_property) + opt_entry(SERVER_REFERENCE, opt_utf8(v.server_reference))) == Ok::<DisconnectPropertiesV, MQTTError>(DisconnectPropertiesV { session_expiry_interval: v.session_expiry_interval, reason_string: v.reason_string, user_property: v.user_property, server_reference: v.server_reference }));
        assert(DisconnectPropertiesV { session_expiry_interval: v.session_expiry_interval, reason_string: v.reason_string, user_property: v.user_property, server_reference: v.server_reference } =~= v);
    }

    /// The Property Length.
    pub fn length(&self) -> (r: usize)
        requires
            entries_size(Self::spec_entries(self@)) <= usize::MAX,
        ensures
            r == entries_size(Self::spec_entries(self@)),
    {
        properties_length(self)
    }

    /// Writes the Property Length, then the present properties in order.
    pub fn write(&self, buf: &mut BytesMut) -> (r: Result<(), MQTTError>)
        requires
            bytes_mut_view(*old(buf)).len() + 4 + entries_size(Self::spec_entries(self@)) <= isize::MAX,
        ensures
            r == spec_write_properties(Self::spec_entries(self@)).0,
            bytes_mut_view(*final(buf)) == bytes_mut_view(*old(buf)) + spec_write_properties(
                Self::spec_entries(self@),
            ).1,
    {
        write_properties(self, buf)
    }

    /// Reads a property list; a property this packet does not allow is
    /// `UnexpectedProperty`, a second instance of a single property `DuplicateProperty`.
    pub fn read(buf: &mut Bytes) -> (r: Result<Self, MQTTError>)
        ensures
            match (r, parse_properties::<DisconnectProperties>(bytes_view(*old(buf)), "").0) {
                (Ok(t), Ok(v)) => t@ == v,
                (Err(e), Err(f)) => e == f,
                _ => false,
            },
            bytes_view(*final(buf)) == bytes_view(*old(buf)).skip(
                parse_properties::<DisconnectProperties>(bytes_view(*old(buf)), "").1 as int,
            ),
    {
        read_properties(buf, "")
    }

    /// Reading written properties gives them back.
    pub proof fn lemma_write_read(v: DisconnectPropertiesV, rest: Seq<u8>)
        requires
            entries_fit(Self::spec_entries(v)),
            entries_size(Self::spec_entries(v)) <= VARINT_MAX,
        ensures
            spec_write_properties(Self::spec_entries(v)).0 == Ok::<(), MQTTError>(()),
            parse_properties::<DisconnectProperties>(spec_write_properties(Self::spec_entries(v)).1 + rest, "") == (
                Ok::<DisconnectPropertiesV, MQTTError>(v),
                spec_write_properties(Self::spec_entries(v)).1.len(),
            ),
    {
        Self::lemma_entries_merge(v);
        lemma_properties_roundtrip::<DisconnectProperties>(v, rest, "");
    }
}

impl Default for DisconnectProperties {
    fn default() -> (r: Self)
        ensures
            r@ == Self::spec_empty(),
    {
        Self::empty()
    }
}

/// Each property is written under the identifier that MQTT 5 assigns to it
/// (section 2.2.2.2): a set holding one property, whatever its value, is
/// written as exactly that property under its identifier.
pub proof fn lemma_disconnect_properties_identifiers_written(session_expiry_interval: u32, reason_string: Seq<char>, server_reference: Seq<char>, user_key: Seq<char>, user_value: Seq<char>)
    ensures
        DisconnectProperties::spec_entries(DisconnectPropertiesV { session_expiry_interval: Some(session_expiry_interval), ..DisconnectProperties::spec_empty() }) == seq![(17u8, ValueV::FourByte(session_expiry_interval))],
        DisconnectProperties::spec_entries(DisconnectPropertiesV { reason_string: Some(reason_string), ..DisconnectProperties::spec_empty() }) == seq![(31u8, ValueV::Utf8(reason_string))],
        DisconnectProperties::spec_entries(DisconnectPropertiesV { server_reference: Some(server_reference), ..DisconnectProperties::spec_empty() }) == seq![(28u8, ValueV::Utf8(server_reference))],
        DisconnectProperties::spec_entries(DisconnectPropertiesV { user_property: seq![(user_key, user_value)], ..DisconnectProperties::spec_empty() }) == seq![(38u8, ValueV::Pair(user_key, user_value))],
{
}

/// Reading a property under the identifier that MQTT 5 assigns to a field
/// sets that field and no other, into any set; a second one of a field that
/// may appear once is a duplicate, reported with its identifier.
pub proof fn lemma_disconnect_properties_identifiers_read(v: DisconnectPropertiesV, session_expiry_interval: u32, reason_string: Seq<char>, server_reference: Seq<char>, user_key: Seq<char>, user_value: Seq<char>)
    ensures
        DisconnectProperties::spec_merge(v, (17u8, ValueV::FourByte(session_expiry_interval))) == if v.session_expiry_interval is Some {
            Err::<DisconnectPropertiesV, MQTTError>(MQTTError::DuplicateProperty(17u8))
        } else {
            Ok::<DisconnectPropertiesV, MQTTError>(DisconnectPropertiesV { session_expiry_interval: Some(session_expiry_interval), ..v })
        },
        DisconnectProperties::spec_merge(v, (31u8, ValueV::Utf8(reason_string))) == if v.reason_string is Some {
            Err::<DisconnectPropertiesV, MQTTError>(MQTTError::DuplicateProperty(31u8))
        } else {
            Ok::<DisconnectPropertiesV, MQTTError>(DisconnectPropertiesV { reason_string: Some(reason_string), ..v })
        },
        DisconnectProperties::spec_merge(v, (28u8, ValueV::Utf8(server_reference))) == if v.server_reference is Some {
            Err::<DisconnectPropertiesV, MQTTError>(MQTTError::DuplicateProperty(28u8))
        } else {
            Ok::<DisconnectPropertiesV, MQTTError>(DisconnectPropertiesV { server_reference: Some(server_reference), ..v })
        },
        DisconnectProperties::spec_merge(v, (38u8, ValueV::Pair(user_key, user_value))) == Ok::<DisconnectPropertiesV, MQTTError>(DisconnectPropertiesV { user_property: v.user_property.push((user_key, user_value)), ..v }),
{
}

} // verus!
