//! The properties of CONNECT (section 3.1.2.11).
use bytes::{Bytes, BytesMut};
use vstd::prelude::*;

use crate::buffer::{bytes_mut_view, bytes_view};
use crate::error::MQTTError;
use crate::properties::{
    entries_fit, entries_size, lemma_merge_all_concat, lemma_merge_all_one, lemma_merge_all_opt,
    lemma_properties_roundtrip, lemma_user_entries_push, merge_all, opt_binary, opt_byte,
    opt_bytes_view, opt_entry, opt_flag, opt_four, opt_string_view, opt_two, opt_utf8, opt_varint,
    parse_properties, properties_length, push_opt_byte, push_opt_bytes, push_opt_flag,
    push_opt_four, push_opt_string, push_opt_two, push_opt_varint, push_users, read_properties,
    spec_write_properties, user_entries, users_view, write_properties, PropertySet, UserV,
};
use crate::property::{
    Property, PropertyV, PropertyValue, ValueV, ASSIGNED_CLIENT_IDENTIFIER, AUTHENTICATION_DATA,
    AUTHENTICATION_METHOD, CONTENT_TYPE, CORRELATION_DATA, MAXIMUM_PACKET_SIZE, MAXIMUM_QOS,
    MESSAGE_EXPIRY_INTERVAL, PAYLOAD_FORMAT_INDICATOR, REASON_STRING, RECEIVE_MAXIMUM,
    REQUEST_PROBLEM_INFORMATION, REQUEST_RESPONSE_INFORMATION, RESPONSE_INFORMATION,
    RESPONSE_TOPIC, RETAIN_AVAILABLE, SERVER_KEEP_ALIVE, SERVER_REFERENCE,
    SESSION_EXPIRY_INTERVAL, SHARED_SUBSCRIPTION_AVAILABLE, SUBSCRIPTION_IDENTIFIER,
    SUBSCRIPTION_IDENTIFIER_AVAILABLE, TOPIC_ALIAS, TOPIC_ALIAS_MAXIMUM, USER_PROPERTY,
    WILDCARD_SUBSCRIPTION_AVAILABLE, WILL_DELAY_INTERVAL,
};
use crate::varint::VARINT_MAX;

verus! {

/// CONNECT properties.
#[derive(Debug, Clone, PartialEq, Eq)]
pub struct ConnectProperties {
    pub session_expiry_interval: Option<u32>,
    pub receive_maximum: Option<u16>,
    pub maximum_packet_size: Option<u32>,
    pub topic_alias_maximum: Option<u16>,
    pub request_response_information: Option<u8>,
    pub request_problem_information: Option<u8>,
    pub user_property: Vec<(String, String)>,
    pub authentication_method: Option<String>,
    pub authentication_data: Option<Bytes>,
}

#[verifier::ext_equal]
pub struct ConnectPropertiesV {
    pub session_expiry_interval: Option<u32>,
    pub receive_maximum: Option<u16>,
    pub maximum_packet_size: Option<u32>,
    pub topic_alias_maximum: Option<u16>,
    pub request_response_information: Option<u8>,
    pub request_problem_information: Option<u8>,
    pub user_property: Seq<UserV>,
    pub authentication_method: Option<Seq<char>>,
    pub authentication_data: Option<Seq<u8>>,
}

impl View for ConnectProperties {
    type V = ConnectPropertiesV;

    open spec fn view(&self) -> ConnectPropertiesV {
        ConnectPropertiesV {
            session_expiry_interval: self.session_expiry_interval,
            receive_maximum: self.receive_maximum,
            maximum_packet_size: self.maximum_packet_size,
            topic_alias_maximum: self.topic_alias_maximum,
            request_response_information: self.request_response_information,
            request_problem_information: self.request_problem_information,
            user_property: users_view(self.user_property@),
            authentication_method: opt_string_view(self.authentication_method),
            authentication_data: opt_bytes_view(self.authentication_data),
        }
    }
}

impl PropertySet for ConnectProperties {
    open spec fn spec_empty() -> ConnectPropertiesV {
        ConnectPropertiesV { session_expiry_interval: None, receive_maximum: None, maximum_packet_size: None, topic_alias_maximum: None, request_response_information: None, request_problem_information: None, user_property: Seq::empty(), authentication_method: None, authentication_data: None }
    }

    open spec fn spec_entries(v: ConnectPropertiesV) -> Seq<PropertyV> {
        opt_entry(SESSION_EXPIRY_INTERVAL, opt_four(v.session_expiry_interval)) + opt_entry(RECEIVE_MAXIMUM, opt_two(v.receive_maximum)) + opt_entry(MAXIMUM_PACKET_SIZE, opt_four(v.maximum_packet_size)) + opt_entry(TOPIC_ALIAS_MAXIMUM, opt_two(v.topic_alias_maximum)) + opt_entry(REQUEST_RESPONSE_INFORMATION, opt_byte(v.request_response_information)) + opt_entry(REQUEST_PROBLEM_INFORMATION, opt_byte(v.request_problem_information)) + user_entries(v.user_property) + opt_entry(AUTHENTICATION_METHOD, opt_utf8(v.authentication_method)) + opt_entry(AUTHENTICATION_DATA, opt_binary(v.authentication_data))
    }

    open spec fn spec_merge(v: ConnectPropertiesV, p: PropertyV) -> Result<ConnectPropertiesV, MQTTError> {
        match p.1 {
            ValueV::FourByte(x) if p.0 == SESSION_EXPIRY_INTERVAL => if v.session_expiry_interval is Some {
                Err(MQTTError::DuplicateProperty(p.0))
            } else {
                Ok(ConnectPropertiesV { session_expiry_interval: Some(x), ..v })
            },
            ValueV::TwoByte(x) if p.0 == RECEIVE_MAXIMUM => if v.receive_maximum is Some {
                Err(MQTTError::DuplicateProperty(p.0))
            } else {
                Ok(ConnectPropertiesV { receive_maximum: Some(x), ..v })
            },
            ValueV::FourByte(x) if p.0 == MAXIMUM_PACKET_SIZE => if v.maximum_packet_size is Some {
                Err(MQTTError::DuplicateProperty(p.0))
            } else {
                Ok(ConnectPropertiesV { maximum_packet_size: Some(x), ..v })
            },
            ValueV::TwoByte(x) if p.0 == TOPIC_ALIAS_MAXIMUM => if v.topic_alias_maximum is Some {
                Err(MQTTError::DuplicateProperty(p.0))
            } else {
                Ok(ConnectPropertiesV { topic_alias_maximum: Some(x), ..v })
            },
            ValueV::Byte(x) if p.0 == REQUEST_RESPONSE_INFORMATION => if v.request_response_information is Some {
                Err(MQTTError::DuplicateProperty(p.0))
            } else {
                Ok(ConnectPropertiesV { request_response_information: Some(x), ..v })
            },
            ValueV::Byte(x) if p.0 == REQUEST_PROBLEM_INFORMATION => if v.request_problem_information is Some {
                Err(MQTTError::DuplicateProperty(p.0))
            } else {
                Ok(ConnectPropertiesV { request_problem_information: Some(x), ..v })
            },
            ValueV::Pair(k, x) if p.0 == USER_PROPERTY => Ok(ConnectPropertiesV { user_property: v.user_property.push((k, x)), ..v }),
            ValueV::Utf8(x) if p.0 == AUTHENTICATION_METHOD => if v.authentication_method is Some {
                Err(MQTTError::DuplicateProperty(p.0))
            } else {
                Ok(ConnectPropertiesV { authentication_method: Some(x), ..v })
            },
            ValueV::Binary(x) if p.0 == AUTHENTICATION_DATA => if v.authentication_data is Some {
                Err(MQTTError::DuplicateProperty(p.0))
            } else {
                Ok(ConnectPropertiesV { authentication_data: Some(x), ..v })
            },
            _ => Err(MQTTError::UnexpectedProperty(p.0)),
        }
    }

    fn empty() -> (r: Self) {
        let r = ConnectProperties { session_expiry_interval: None, receive_maximum: None, maximum_packet_size: None, topic_alias_maximum: None, request_response_information: None, request_problem_information: None, user_property: Vec::new(), authentication_method: None, authentication_data: None };
        assert(r@ =~= Self::spec_empty());
        r
    }

    fn entries(&self) -> (r: Vec<Property>) {
        let mut out: Vec<Property> = Vec::new();
        assert(out@.map_values(|p: Property| p@) =~= Seq::<PropertyV>::empty());
        push_opt_four(&mut out, SESSION_EXPIRY_INTERVAL, self.session_expiry_interval);
        push_opt_two(&mut out, RECEIVE_MAXIMUM, self.receive_maximum);
        push_opt_four(&mut out, MAXIMUM_PACKET_SIZE, self.maximum_packet_size);
        push_opt_two(&mut out, TOPIC_ALIAS_MAXIMUM, self.topic_alias_maximum);
        push_opt_byte(&mut out, REQUEST_RESPONSE_INFORMATION, self.request_response_information);
        push_opt_byte(&mut out, REQUEST_PROBLEM_INFORMATION, self.request_problem_information);
        push_users(&mut out, &self.user_property);
        push_opt_string(&mut out, AUTHENTICATION_METHOD, &self.authentication_method);
        push_opt_bytes(&mut out, AUTHENTICATION_DATA, &self.authentication_data);
        assert(out@.map_values(|p: Property| p@) =~= Self::spec_entries(self@));
        out
    }

    fn merge(&mut self, p: Property) -> (r: Result<(), MQTTError>) {
        let id = p.id;
        match p.value {
            PropertyValue::FourByte(x) if id == SESSION_EXPIRY_INTERVAL => {
                if self.session_expiry_interval.is_some() {
                    return Err(MQTTError::DuplicateProperty(id));
                }
                self.session_expiry_interval = Some(x);
                assert(self@ =~= ConnectPropertiesV { session_expiry_interval: self@.session_expiry_interval, ..old(self)@ });
                Ok(())
            },
            PropertyValue::TwoByte(x) if id == RECEIVE_MAXIMUM => {
                if self.receive_maximum.is_some() {
                    return Err(MQTTError::DuplicateProperty(id));
                }
                self.receive_maximum = Some(x);
                assert(self@ =~= ConnectPropertiesV { receive_maximum: self@.receive_maximum, ..old(self)@ });
                Ok(())
            },
            PropertyValue::FourByte(x) if id == MAXIMUM_PACKET_SIZE => {
                if self.maximum_packet_size.is_some() {
                    return Err(MQTTError::DuplicateProperty(id));
                }
                self.maximum_packet_size = Some(x);
                assert(self@ =~= ConnectPropertiesV { maximum_packet_size: self@.maximum_packet_size, ..old(self)@ });
                Ok(())
            },
            PropertyValue::TwoByte(x) if id == TOPIC_ALIAS_MAXIMUM => {
                if self.topic_alias_maximum.is_some() {
                    return Err(MQTTError::DuplicateProperty(id));
                }
                self.topic_alias_maximum = Some(x);
                assert(self@ =~= ConnectPropertiesV { topic_alias_maximum: self@.topic_alias_maximum, ..old(self)@ });
                Ok(())
            },
            PropertyValue::Byte(x) if id == REQUEST_RESPONSE_INFORMATION => {
                if self.request_response_information.is_some() {
                    return Err(MQTTError::DuplicateProperty(id));
                }
                self.request_response_information = Some(x);
                assert(self@ =~= ConnectPropertiesV { request_response_information: self@.request_response_information, ..old(self)@ });
                Ok(())
            },
            PropertyValue::Byte(x) if id == REQUEST_PROBLEM_INFORMATION => {
                if self.request_problem_information.is_some() {
                    return Err(MQTTError::DuplicateProperty(id));
                }
                self.request_problem_information = Some(x);
                assert(self@ =~= ConnectPropertiesV { request_problem_information: self@.request_problem_information, ..old(self)@ });
                Ok(())
            },
            PropertyValue::Pair(k, x) if id == USER_PROPERTY => {
                self.user_property.push((k, x));
                assert(self@.user_property =~= old(self)@.user_property.push((k@, x@)));
                assert(self@ =~= ConnectPropertiesV { user_property: old(self)@.user_property.push((k@, x@)), ..old(self)@ });
                Ok(())
            },
            PropertyValue::Utf8(x) if id == AUTHENTICATION_METHOD => {
                if self.authentication_method.is_some() {
                    return Err(MQTTError::DuplicateProperty(id));
                }
                self.authentication_method = Some(x);
                assert(self@ =~= ConnectPropertiesV { authentication_method: self@.authentication_method, ..old(self)@ });
                Ok(())
            },
            PropertyValue::Binary(x) if id == AUTHENTICATION_DATA => {
                if self.authentication_data.is_some() {
                    return Err(MQTTError::DuplicateProperty(id));
                }
                self.authentication_data = Some(x);
                assert(self@ =~= ConnectPropertiesV { authentication_data: self@.authentication_data, ..old(self)@ });
                Ok(())
            },
            _ => Err(MQTTError::UnexpectedProperty(id)),
        }
    }
}

impl ConnectProperties {
    /// Taking user properties into a set adds them after its own.
    pub proof fn lemma_merge_users(acc: ConnectPropertiesV, u: Seq<UserV>)
        ensures
            merge_all::<ConnectProperties>(acc, user_entries(u)) == Ok::<ConnectPropertiesV, MQTTError>(
                ConnectPropertiesV { user_property: acc.user_property + u, ..acc },
            ),
        decreases u.len(),
    {
        if u.len() == 0 {
            assert(user_entries(u) =~= Seq::<PropertyV>::empty());
            assert(acc.user_property + u =~= acc.user_property);
            assert(acc =~= ConnectPropertiesV { user_property: acc.user_property + u, ..acc });
        } else {
            lemma_user_entries_push(u);
            lemma_merge_all_concat::<ConnectProperties>(
                acc,
                user_entries(u.drop_last()),
                seq![(USER_PROPERTY, ValueV::Pair(u.last().0, u.last().1))],
            );
            Self::lemma_merge_users(acc, u.drop_last());
            let mid = ConnectPropertiesV { user_property: acc.user_property + u.drop_last(), ..acc };
            lemma_merge_all_one::<ConnectProperties>(mid, (USER_PROPERTY, ValueV::Pair(u.last().0, u.last().1)));
            assert((acc.user_property + u.drop_last()).push(u.last()) =~= acc.user_property + u);
            assert(ConnectPropertiesV { user_property: mid.user_property.push((u.last().0, u.last().1)), ..mid } =~= ConnectPropertiesV { user_property: acc.user_property + u, ..acc });
        }
    }

    /// Taking the entries of a set into the empty set gives the set back.
    pub proof fn lemma_entries_merge(v: ConnectPropertiesV)
        ensures
            merge_all::<ConnectProperties>(Self::spec_empty(), Self::spec_entries(v)) == Ok::<ConnectPropertiesV, MQTTError>(v),
    {
        let e = Self::spec_empty();
        let a0 = ConnectPropertiesV { session_expiry_interval: None, receive_maximum: None, maximum_packet_size: None, topic_alias_maximum: None, request_response_information: None, request_problem_information: None, user_property: Seq::empty(), authentication_method: None, authentication_data: None };
        lemma_merge_all_opt::<ConnectProperties>(a0, SESSION_EXPIRY_INTERVAL, opt_four(v.session_expiry_interval));
        assert(merge_all::<ConnectProperties>(a0, opt_entry(SESSION_EXPIRY_INTERVAL, opt_four(v.session_expiry_interval))) == Ok::<ConnectPropertiesV, MQTTError>(ConnectPropertiesV { session_expiry_interval: v.session_expiry_interval, receive_maximum: None, maximum_packet_size: None, topic_alias_maximum: None, request_response_information: None, request_problem_information: None, user_property: Seq::empty(), authentication_method: None, authentication_data: None }));
        assert(merge_all::<ConnectProperties>(e, opt_entry(SESSION_EXPIRY_INTERVAL, opt_four(v.session_expiry_interval))) == Ok::<ConnectPropertiesV, MQTTError>(ConnectPropertiesV { session_expiry_interval: v.session_expiry_interval, receive_maximum: None, maximum_packet_size: None, topic_alias_maximum: None, request_response_information: None, request_problem_information: None, user_property: Seq::empty(), authentication_method: None, authentication_data: None }));
        let a1 = ConnectPropertiesV { session_expiry_interval: v.session_expiry_interval, receive_maximum: None, maximum_packet_size: None, topic_alias_maximum: None, request_response_information: None, request_problem_information: None, user_property: Seq::empty(), authentication_method: None, authentication_data: None };
        lemma_merge_all_concat::<ConnectProperties>(e, opt_entry(SESSION_EXPIRY_INTERVAL, opt_four(v.session_expiry_interval)), opt_entry(RECEIVE_MAXIMUM, opt_two(v.receive_maximum)));
        lemma_merge_all_opt::<ConnectProperties>(a1, RECEIVE_MAXIMUM, opt_two(v.receive_maximum));
        assert(merge_all::<ConnectProperties>(a1, opt_entry(RECEIVE_MAXIMUM, opt_two(v.receive_maximum))) == Ok::<ConnectPropertiesV, MQTTError>(ConnectPropertiesV { session_expiry_interval: v.session_expiry_interval, receive_maximum: v.receive_maximum, maximum_packet_size: None, topic_alias_maximum: None, request_response_information: None, request_problem_information: None, user_property: Seq::empty(), authentication_method: None, authentication_data: None }));
        assert(merge_all::<ConnectProperties>(e, opt_entry(SESSION_EXPIRY_INTERVAL, opt_four(v.session_expiry_interval)) + opt_entry(RECEIVE_MAXIMUM, opt_two(v.receive_maximum))) == Ok::<ConnectPropertiesV, MQTTError>(ConnectPropertiesV { session_expiry_interval: v.session_expiry_interval, receive_maximum: v.receive_maximum, maximum_packet_size: None, topic_alias_maximum: None, request_response_information: None, request_problem_information: None, user_property: Seq::empty(), authentication_method: None, authentication_data: None }));
        let a2 = ConnectPropertiesV { session_expiry_interval: v.session_expiry_interval, receive_maximum: v.receive_maximum, maximum_packet_size: None, topic_alias_maximum: None, request_response_information: None, request_problem_information: None, user_property: Seq::empty(), authentication_method: None, authentication_data: None };
        lemma_merge_all_concat::<ConnectProperties>(e, opt_entry(SESSION_EXPIRY_INTERVAL, opt_four(v.session_expiry_interval)) + opt_entry(RECEIVE_MAXIMUM, opt_two(v.receive_maximum)), opt_entry(MAXIMUM_PACKET_SIZE, opt_four(v.maximum_packet_size)));
        lemma_merge_all_opt::<ConnectProperties>(a2, MAXIMUM_PACKET_SIZE, opt_four(v.maximum_packet_size));
        assert(merge_all::<ConnectProperties>(a2, opt_entry(MAXIMUM_PACKET_SIZE, opt_four(v.maximum_packet_size))) == Ok::<ConnectPropertiesV, MQTTError>(ConnectPropertiesV { session_expiry_interval: v.session_expiry_interval, receive_maximum: v.receive_maximum, maximum_packet_size: v.maximum_packet_size, topic_alias_maximum: None, request_response_information: None, request_problem_information: None, user_property: Seq::empty(), authentication_method: None, authentication_data: None }));
        assert(merge_all::<ConnectProperties>(e, opt_entry(SESSION_EXPIRY_INTERVAL, opt_four(v.session_expiry_interval)) + opt_entry(RECEIVE_MAXIMUM, opt_two(v.receive_maximum)) + opt_entry(MAXIMUM_PACKET_SIZE, opt_four(v.maximum_packet_size))) == Ok::<ConnectPropertiesV, MQTTError>(ConnectPropertiesV { session_expiry_interval: v.session_expiry_interval, receive_maximum: v.receive_maximum, maximum_packet_size: v.maximum_packet_size, topic_alias_maximum: None, request_response_information: None, request_problem_information: None, user_property: Seq::empty(), authentication_method: None, authentication_data: None }));
        let a3 = ConnectPropertiesV { session_expiry_interval: v.session_expiry_interval, receive_maximum: v.receive_maximum, maximum_packet_size: v.maximum_packet_size, topic_alias_maximum: None, request_response_information: None, request_problem_information: None, user_property: Seq::empty(), authentication_method: None, authentication_data: None };
        lemma_merge_all_concat::<ConnectProperties>(e, opt_entry(SESSION_EXPIRY_INTERVAL, opt_four(v.session_expiry_interval)) + opt_entry(RECEIVE_MAXIMUM, opt_two(v.receive_maximum)) + opt_entry(MAXIMUM_PACKET_SIZE, opt_four(v.maximum_packet_size)), opt_entry(TOPIC_ALIAS_MAXIMUM, opt_two(v.topic_alias_maximum)));
        lemma_merge_all_opt::<ConnectProperties>(a3, TOPIC_ALIAS_MAXIMUM, opt_two(v.topic_alias_maximum));
        assert(merge_all::<ConnectProperties>(a3, opt_entry(TOPIC_ALIAS_MAXIMUM, opt_two(v.topic_alias_maximum))) == Ok::<ConnectPropertiesV, MQTTError>(ConnectPropertiesV { session_expiry_interval: v.session_expiry_interval, receive_maximum: v.receive_maximum, maximum_packet_size: v.maximum_packet_size, topic_alias_maximum: v.topic_alias_maximum, request_response_information: None, request_problem_information: None, user_property: Seq::empty(), authentication_method: None, authentication_data: None }));
        assert(merge_all::<ConnectProperties>(e, opt_entry(SESSION_EXPIRY_INTERVAL, opt_four(v.session_expiry_interval)) + opt_entry(RECEIVE_MAXIMUM, opt_two(v.receive_maximum)) + opt_entry(MAXIMUM_PACKET_SIZE, opt_four(v.maximum_packet_size)) + opt_entry(TOPIC_ALIAS_MAXIMUM, opt_two(v.topic_alias_maximum))) == Ok::<ConnectPropertiesV, MQTTError>(ConnectPropertiesV { session_expiry_interval: v.session_expiry_interval, receive_maximum: v.receive_maximum, maximum_packet_size: v.maximum_packet_size, topic_alias_maximum: v.topic_alias_maximum, request_response_information: None, request_problem_information: None, user_property: Seq::empty(), authentication_method: None, authentication_data: None }));
        let a4 = ConnectPropertiesV { session_expiry_interval: v.session_expiry_interval, receive_maximum: v.receive_maximum, maximum_packet_size: v.maximum_packet_size, topic_alias_maximum: v.topic_alias_maximum, request_response_information: None, request_problem_information: None, user_property: Seq::empty(), authentication_method: None, authentication_data: None };
        lemma_merge_all_concat::<ConnectProperties>(e, opt_entry(SESSION_EXPIRY_INTERVAL, opt_four(v.session_expiry_interval)) + opt_entry(RECEIVE_MAXIMUM, opt_two(v.receive_maximum)) + opt_entry(MAXIMUM_PACKET_SIZE, opt_four(v.maximum_packet_size)) + opt_entry(TOPIC_ALIAS_MAXIMUM, opt_two(v.topic_alias_maximum)), opt_entry(REQUEST_RESPONSE_INFORMATION, opt_byte(v.request_response_information)));
        lemma_merge_all_opt::<ConnectProperties>(a4, REQUEST_RESPONSE_INFORMATION, opt_byte(v.request_response_information));
        assert(merge_all::<ConnectProperties>(a4, opt_entry(REQUEST_RESPONSE_INFORMATION, opt_byte(v.request_response_information))) == Ok::<ConnectPropertiesV, MQTTError>(ConnectPropertiesV { session_expiry_interval: v.session_expiry_interval, receive_maximum: v.receive_maximum, maximum_packet_size: v.maximum_packet_size, topic_alias_maximum: v.topic_alias_maximum, request_response_information: v.request_response_information, request_problem_information: None, user_property: Seq::empty(), authentication_method: None, authentication_data: None }));
        assert(merge_all::<ConnectProperties>(e, opt_entry(SESSION_EXPIRY_INTERVAL, opt_four(v.session_expiry_interval)) + opt_entry(RECEIVE_MAXIMUM, opt_two(v.receive_maximum)) + opt_entry(MAXIMUM_PACKET_SIZE, opt_four(v.maximum_packet_size)) + opt_entry(TOPIC_ALIAS_MAXIMUM, opt_two(v.topic_alias_maximum)) + opt_entry(REQUEST_RESPONSE_INFORMATION, opt_byte(v.request_response_information))) == Ok::<ConnectPropertiesV, MQTTError>(ConnectPropertiesV { session_expiry_interval: v.session_expiry_interval, receive_maximum: v.receive_maximum, maximum_packet_size: v.maximum_packet_size, topic_alias_maximum: v.topic_alias_maximum, request_response_information: v.request_response_information, request_problem_information: None, user_property: Seq::empty(), authentication_method: None, authentication_data: None }));
        let a5 = ConnectPropertiesV { session_expiry_interval: v.session_expiry_interval, receive_maximum: v.receive_maximum, maximum_packet_size: v.maximum_packet_size, topic_alias_maximum: v.topic_alias_maximum, request_response_information: v.request_response_information, request_problem_information: None, user_property: Seq::empty(), authentication_method: None, authentication_data: None };
        lemma_merge_all_concat::<ConnectProperties>(e, opt_entry(SESSION_EXPIRY_INTERVAL, opt_four(v.session_expiry_interval)) + opt_entry(RECEIVE_MAXIMUM, opt_two(v.receive_maximum)) + opt_entry(MAXIMUM_PACKET_SIZE, opt_four(v.maximum_packet_size)) + opt_entry(TOPIC_ALIAS_MAXIMUM, opt_two(v.topic_alias_maximum)) + opt_entry(REQUEST_RESPONSE_INFORMATION, opt_byte(v.request_response_information)), opt_entry(REQUEST_PROBLEM_INFORMATION, opt_byte(v.request_problem_information)));
        lemma_merge_all_opt::<ConnectProperties>(a5, REQUEST_PROBLEM_INFORMATION, opt_byte(v.request_problem_information));
        assert(merge_all::<ConnectProperties>(a5, opt_entry(REQUEST_PROBLEM_INFORMATION, opt_byte(v.request_problem_information))) == Ok::<ConnectPropertiesV, MQTTError>(ConnectPropertiesV { session_expiry_interval: v.session_expiry_interval, receive_maximum: v.receive_maximum, maximum_packet_size: v.maximum_packet_size, topic_alias_maximum: v.topic_alias_maximum, request_response_information: v.request_response_information, request_problem_information: v.request_problem_information, user_property: Seq::empty(), authentication_method: None, authentication_data: None }));
        assert(merge_all::<ConnectProperties>(e, opt_entry(SESSION_EXPIRY_INTERVAL, opt_four(v.session_expiry_interval)) + opt_entry(RECEIVE_MAXIMUM, opt_two(v.receive_maximum)) + opt_entry(MAXIMUM_PACKET_SIZE, opt_four(v.maximum_packet_size)) + opt_entry(TOPIC_ALIAS_MAXIMUM, opt_two(v.topic_alias_maximum)) + opt_entry(REQUEST_RESPONSE_INFORMATION, opt_byte(v.request_response_information)) + opt_entry(REQUEST_PROBLEM_INFORMATION, opt_byte(v.request_problem_information))) == Ok::<ConnectPropertiesV, MQTTError>(ConnectPropertiesV { session_expiry_interval: v.session_expiry_interval, receive_maximum: v.receive_maximum, maximum_packet_size: v.maximum_packet_size, topic_alias_maximum: v.topic_alias_maximum, request_response_information: v.request_response_information, request_problem_information: v.request_problem_information, user_property: Seq::empty(), authentication_method: None, authentication_data: None }));
        let a6 = ConnectPropertiesV { session_expiry_interval: v.session_expiry_interval, receive_maximum: v.receive_maximum, maximum_packet_size: v.maximum_packet_size, topic_alias_maximum: v.topic_alias_maximum, request_response_information: v.request_response_information, request_problem_information: v.request_problem_information, user_property: Seq::empty(), authentication_method: None, authentication_data: None };
        lemma_merge_all_concat::<ConnectProperties>(e, opt_entry(SESSION_EXPIRY_INTERVAL, opt_four(v.session_expiry_interval)) + opt_entry(RECEIVE_MAXIMUM, opt_two(v.receive_maximum)) + opt_entry(MAXIMUM_PACKET_SIZE, opt_four(v.maximum_packet_size)) + opt_entry(TOPIC_ALIAS_MAXIMUM, opt_two(v.topic_alias_maximum)) + opt_entry(REQUEST_RESPONSE_INFORMATION, opt_byte(v.request_response_information)) + opt_entry(REQUEST_PROBLEM_INFORMATION, opt_byte(v.request_problem_information)), user_entries(v.user_property));
        Self::lemma_merge_users(a6, v.user_property);
        assert(Seq::<UserV>::empty() + v.user_property =~= v.user_property);
        assert(ConnectPropertiesV { user_property: a6.user_property + v.user_property, ..a6 } =~= ConnectPropertiesV { session_expiry_interval: v.session_expiry_interval, receive_maximum: v.receive_maximum, maximum_packet_size: v.maximum_packet_size, topic_alias_maximum: v.topic_alias_maximum, request_response_information: v.request_response_information, request_problem_information: v.request_problem_information, user_property: v.user_property, authentication_method: None, authentication_data: None });
        assert(merge_all::<ConnectProperties>(e, opt_entry(SESSION_EXPIRY_INTERVAL, opt_four(v.session_expiry_interval)) + opt_entry(RECEIVE_MAXIMUM, opt_two(v.receive_maximum)) + opt_entry(MAXIMUM_PACKET_SIZE, opt_four(v.maximum_packet_size)) + opt_entry(TOPIC_ALIAS_MAXIMUM, opt_two(v.topic_alias_maximum)) + opt_entry(REQUEST_RESPONSE_INFORMATION, opt_byte(v.request_response_information)) + opt_entry(REQUEST_PROBLEM_INFORMATION, opt_byte(v.request_problem_information)) + user_entries(v.user_property)) == Ok::<ConnectPropertiesV, MQTTError>(ConnectPropertiesV { session_expiry_interval: v.session_expiry_interval, receive_maximum: v.receive_maximum, maximum_packet_size: v.maximum_packet_size, topic_alias_maximum: v.topic_alias_maximum, request_response_information: v.request_response_information, request_problem_information: v.request_problem_information, user_property: v.user_property, authentication_method: None, authentication_data: None }));
        let a7 = ConnectPropertiesV { session_expiry_interval: v.session_expiry_interval, receive_maximum: v.receive_maximum, maximum_packet_size: v.maximum_packet_size, topic_alias_maximum: v.topic_alias_maximum, request_response_information: v.request_response_information, request_problem_information: v.request_problem_information, user_property: v.user_property, authentication_method: None, authentication_data: None };
        lemma_merge_all_concat::<ConnectProperties>(e, opt_entry(SESSION_EXPIRY_INTERVAL, opt_four(v.session_expiry_interval)) + opt_entry(RECEIVE_MAXIMUM, opt_two(v.receive_maximum)) + opt_entry(MAXIMUM_PACKET_SIZE, opt_four(v.maximum_packet_size)) + opt_entry(TOPIC_ALIAS_MAXIMUM, opt_two(v.topic_alias_maximum)) + opt_entry(REQUEST_RESPONSE_INFORMATION, opt_byte(v.request_response_information)) + opt_entry(REQUEST_PROBLEM_INFORMATION, opt_byte(v.request_problem_information)) + user_entries(v.user_property), opt_entry(AUTHENTICATION_METHOD, opt_utf8(v.authentication_method)));
        lemma_merge_all_opt::<ConnectProperties>(a7, AUTHENTICATION_METHOD, opt_utf8(v.authentication_method));
        assert(merge_all::<ConnectProperties>(a7, opt_entry(AUTHENTICATION_METHOD, opt_utf8(v.authentication_method))) == Ok::<ConnectPropertiesV, MQTTError>(ConnectPropertiesV { session_expiry_interval: v.session_expiry_interval, receive_maximum: v.receive_maximum, maximum_packet_size: v.maximum_packet_size, topic_alias_maximum: v.topic_alias_maximum, request_response_information: v.request_response_information, request_problem_information: v.request_problem_information, user_property: v.user_property, authentication_method: v.authentication_method, authentication_data: None }));
        assert(merge_all::<ConnectProperties>(e, opt_entry(SESSION_EXPIRY_INTERVAL, opt_four(v.session_expiry_interval)) + opt_entry(RECEIVE_MAXIMUM, opt_two(v.receive_maximum)) + opt_entry(MAXIMUM_PACKET_SIZE, opt_four(v.maximum_packet_size)) + opt_entry(TOPIC_ALIAS_MAXIMUM, opt_two(v.topic_alias_maximum)) + opt_entry(REQUEST_RESPONSE_INFORMATION, opt_byte(v.request_response_information)) + opt_entry(REQUEST_PROBLEM_INFORMATION, opt_byte(v.request_problem_information)) + user_entries(v.user_property) + opt_entry(AUTHENTICATION_METHOD, opt_utf8(v.authentication_method))) == Ok::<ConnectPropertiesV, MQTTError>(ConnectPropertiesV { session_expiry_interval: v.session_expiry_interval, receive_maximum: v.receive_maximum, maximum_packet_size: v.maximum_packet_size, topic_alias_maximum: v.topic_alias_maximum, request_response_information: v.request_response_information, request_problem_information: v.request_problem_information, user_property: v.user_property, authentication_method: v.authentication_method, authentication_data: None }));
        let a8 = ConnectPropertiesV { session_expiry_interval: v.session_expiry_interval, receive_maximum: v.receive_maximum, maximum_packet_size: v.maximum_packet_size, topic_alias_maximum: v.topic_alias_maximum, request_response_information: v.request_response_information, request_problem_information: v.request_problem_information, user_property: v.user_property, authentication_method: v.authentication_method, authentication_data: None };
        lemma_merge_all_concat::<ConnectProperties>(e, opt_entry(SESSION_EXPIRY_INTERVAL, opt_four(v.session_expiry_interval)) + opt_entry(RECEIVE_MAXIMUM, opt_two(v.receive_maximum)) + opt_entry(MAXIMUM_PACKET_SIZE, opt_four(v.maximum_packet_size)) + opt_entry(TOPIC_ALIAS_MAXIMUM, opt_two(v.topic_alias_maximum)) + opt_entry(REQUEST_RESPONSE_INFORMATION, opt_byte(v.request_response_information)) + opt_entry(REQUEST_PROBLEM_INFORMATION, opt_byte(v.request_problem_information)) + user_entries(v.user_property) + opt_entry(AUTHENTICATION_METHOD, opt_utf8(v.authentication_method)), opt_entry(AUTHENTICATION_DATA, opt_binary(v.authentication_data)));
        lemma_merge_all_opt::<ConnectProperties>(a8, AUTHENTICATION_DATA, opt_binary(v.authentication_data));
        assert(merge_all::<ConnectProperties>(a8, opt_entry(AUTHENTICATION_DATA, opt_binary(v.authentication_data))) == Ok::<ConnectPropertiesV, MQTTError>(ConnectPropertiesV { session_expiry_interval: v.session_expiry_interval, receive_maximum: v.receive_maximum, maximum_packet_size: v.maximum_packet_size, topic_alias_maximum: v.topic_alias_maximum, request_response_information: v.request_response_information, request_problem_information: v.request_problem_information, user_property: v.user_property, authentication_method: v.authentication_method, authentication_data: v.authentication_data }));
        assert(merge_all::<ConnectProperties>(e, opt_entry(SESSION_EXPIRY_INTERVAL, opt_four(v.session_expiry_interval)) + opt_entry(RECEIVE_MAXIMUM, opt_two(v.receive_maximum)) + opt_entry(MAXIMUM_PACKET_SIZE, opt_four(v.maximum_packet_size)) + opt_entry(TOPIC_ALIAS_MAXIMUM, opt_two(v.topic_alias_maximum)) + opt_entry(REQUEST_RESPONSE_INFORMATION, opt_byte(v.request_response_information)) + opt_entry(REQUEST_PROBLEM_INFORMATION, opt_byte(v.request_problem_information)) + user_entries(v.user_property) + opt_entry(AUTHENTICATION_METHOD, opt_utf8(v.authentication_method)) + opt_entry(AUTHENTICATION_DATA, opt_binary(v.authentication_data))) == Ok::<ConnectPropertiesV, MQTTError>(ConnectPropertiesV { session_expiry_interval: v.session_expiry_interval, receive_maximum: v.receive_maximum, maximum_packet_size: v.maximum_packet_size, topic_alias_maximum: v.topic_alias_maximum, request_response_information: v.request_response_information, request_problem_information: v.request_problem_information, user_property: v.user_property, authentication_method: v.authentication_method, authentication_data: v.authentication_data }));
        assert(ConnectPropertiesV { session_expiry_interval: v.session_expiry_interval, receive_maximum: v.receive_maximum, maximum_packet_size: v.maximum_packet_size, topic_alias_maximum: v.topic_alias_maximum, request_response_information: v.request_response_information, request_problem_information: v.request_problem_information, user_property: v.user_property, authentication_method: v.authentication_method, authentication_data: v.authentication_data } =~= v);
    }

    /// The Property Length.
    pub fn length(&self) -> (r: usize)
        requires
            entries_size(Self::spec_entries(self@)) <= usize::MAX,
        ensures
            r == entries_size(Self::spec_entries(self@)),
    {
        properties_length(self)
    }

    /// Writes the Property Length, then the present properties in order.
    pub fn write(&self, buf: &mut BytesMut) -> (r: Result<(), MQTTError>)
        requires
            bytes_mut_view(*old(buf)).len() + 4 + entries_size(Self::spec_entries(self@)) <= isize::MAX,
        ensures
            r == spec_write_properties(Self::spec_entries(self@)).0,
            bytes_mut_view(*final(buf)) == bytes_mut_view(*old(buf)) + spec_write_properties(
                Self::spec_entries(self@),
            ).1,
    {
        write_properties(self, buf)
    }

    /// Reads a property list; a property this packet does not allow is
    /// `UnexpectedProperty`, a second instance of a single property `DuplicateProperty`.
    pub fn read(buf: &mut Bytes) -> (r: Result<Self, MQTTError>)
        ensures
            match (r, parse_properties::<ConnectProperties>(bytes_view(*old(buf)), "").0) {
                (Ok(t), Ok(v)) => t@ == v,
                (Err(e), Err(f)) => e == f,
                _ => false,
            },
            bytes_view(*final(buf)) == bytes_view(*old(buf)).skip(
                parse_properties::<ConnectProperties>(bytes_view(*old(buf)), "").1 as int,
            ),
    {
        read_properties(buf, "")
    }

    /// Reading written properties gives them back.
    pub proof fn lemma_write_read(v: ConnectPropertiesV, rest: Seq<u8>)
        requires
            entries_fit(Self::spec_entries(v)),
            entries_size(Self::spec_entries(v)) <= VARINT_MAX,
        ensures
            spec_write_properties(Self::spec_entries(v)).0 == Ok::<(), MQTTError>(()),
            parse_properties::<ConnectProperties>(spec_write_properties(Self::spec_entries(v)).1 + rest, "") == (
                Ok::<ConnectPropertiesV, MQTTError>(v),
                spec_write_properties(Self::spec_entries(v)).1.len(),
            ),
    {
        Self::lemma_entries_merge(v);
        lemma_properties_roundtrip::<ConnectProperties>(v, rest, "");
    }
}

impl Default for ConnectProperties {
    fn default() -> (r: Self)
        ensures
            r@ == Self::spec_empty(),
    {
        Self::empty()
    }
}

/// Each property is written under the identifier that MQTT 5 assigns to it
/// (section 2.2.2.2): a set holding one property, whatever its value, is
/// written as exactly that property under its identifier.
pub proof fn lemma_connect_properties_identifiers_written(session_expiry_interval: u32, receive_maximum: u16, maximum_packet_size: u32, topic_alias_maximum: u16, request_response_information: u8, request_problem_information: u8, authentication_method: Seq<char>, authentication_data: Seq<u8>, user_key: Seq<char>, user_value: Seq<char>)
    ensures
        ConnectProperties::spec_entries(ConnectPropertiesV { session_expiry_interval: Some(session_expiry_interval), ..ConnectProperties::spec_empty() }) == seq![(17u8, ValueV::FourByte(session_expiry_interval))],
        ConnectProperties::spec_entries(ConnectPropertiesV { receive_maximum: Some(receive_maximum), ..ConnectProperties::spec_empty() }) == seq![(33u8, ValueV::TwoByte(receive_maximum))],
        ConnectProperties::spec_entries(ConnectPropertiesV { maximum_packet_size: Some(maximum_packet_size), ..ConnectProperties::spec_empty() }) == seq![(39u8, ValueV::FourByte(maximum_packet_size))],
        ConnectProperties::spec_entries(ConnectPropertiesV { topic_alias_maximum: Some(topic_alias_maximum), ..ConnectProperties::spec_empty() }) == seq![(34u8, ValueV::TwoByte(topic_alias_maximum))],
        ConnectProperties::spec_entries(ConnectPropertiesV { request_response_information: Some(request_response_information), ..ConnectProperties::spec_empty() }) == seq![(25u8, ValueV::Byte(request_response_information))],
        ConnectProperties::spec_entries(ConnectPropertiesV { request_problem_information: Some(request_problem_information), ..ConnectProperties::spec_empty() }) == seq![(23u8, ValueV::Byte(request_problem_information))],
        ConnectProperties::spec_entries(ConnectPropertiesV { authentication_method: Some(authentication_method), ..ConnectProperties::spec_empty() }) == seq![(21u8, ValueV::Utf8(authentication_method))],
        ConnectProperties::spec_entries(ConnectPropertiesV { authentication_data: Some(authentication_data), ..ConnectProperties::spec_empty() }) == seq![(22u8, ValueV::Binary(authentication_data))],
        ConnectProperties::spec_entries(ConnectPropertiesV { user_property: seq![(user_key, user_value)], ..ConnectProperties::spec_empty() }) == seq![(38u8, ValueV::Pair(user_key, user_value))],
{
}

/// Reading a property under the identifier that MQTT 5 assigns to a field
/// sets that field and no other, into any set; a second one of a field that
/// may appear once is a duplicate, reported with its identifier.
pub proof fn lemma_connect_properties_identifiers_read(v: ConnectPropertiesV, session_expiry_interval: u32, receive_maximum: u16, maximum_packet_size: u32, topic_alias_maximum: u16, request_response_information: u8, request_problem_information: u8, authentication_method: Seq<char>, authentication_data: Seq<u8>, user_key: Seq<char>, user_value: Seq<char>)
    ensures
        ConnectProperties::spec_merge(v, (17u8, ValueV::FourByte(session_expiry_interval))) == if v.session_expiry_interval is Some {
            Err::<ConnectPropertiesV, MQTTError>(MQTTError::DuplicateProperty(17u8))
        } else {
            Ok::<ConnectPropertiesV, MQTTError>(ConnectPropertiesV { session_expiry_interval: Some(session_expiry_interval), ..v })
        },
        ConnectProperties::spec_merge(v, (33u8, ValueV::TwoByte(receive_maximum))) == if v.receive_maximum is Some {
            Err::<ConnectPropertiesV, MQTTError>(MQTTError::DuplicateProperty(33u8))
        } else {
            Ok::<ConnectPropertiesV, MQTTError>(ConnectPropertiesV { receive_maximum: Some(receive_maximum), ..v })
        },
        ConnectProperties::spec_merge(v, (39u8, ValueV::FourByte(maximum_packet_size))) == if v.maximum_packet_size is Some {
            Err::<ConnectPropertiesV, MQTTError>(MQTTError::DuplicateProperty(39u8))
        } else {
            Ok::<ConnectPropertiesV, MQTTError>(ConnectPropertiesV { maximum_packet_size: Some(maximum_packet_size), ..v })
        },
        ConnectProperties::spec_merge(v, (34u8, ValueV::TwoByte(topic_alias_maximum))) == if v.topic_alias_maximum is Some {
            Err::<ConnectPropertiesV, MQTTError>(MQTTError::DuplicateProperty(34u8))
        } else {
            Ok::<ConnectPropertiesV, MQTTError>(ConnectPropertiesV { topic_alias_maximum: Some(topic_alias_maximum), ..v })
        },
        ConnectProperties::spec_merge(v, (25u8, ValueV::Byte(request_response_information))) == if v.request_response_information is Some {
            Err::<ConnectPropertiesV, MQTTError>(MQTTError::DuplicateProperty(25u8))
        } else {
            Ok::<ConnectPropertiesV, MQTTError>(ConnectPropertiesV { request_response_information: Some(request_response_information), ..v })
        },
        ConnectProperties::spec_merge(v, (23u8, ValueV::Byte(request_problem_information))) == if v.request_problem_information is Some {
            Err::<ConnectPropertiesV, MQTTError>(MQTTError::DuplicateProperty(23u8))
        } else {
            Ok::<ConnectPropertiesV, MQTTError>(ConnectPropertiesV { request_problem_information: Some(request_problem_information), ..v })
        },
        ConnectProperties::spec_merge(v, (21u8, ValueV::Utf8(authentication_method))) == if v.authentication_method is Some {
            Err::<ConnectPropertiesV, MQTTError>(MQTTError::DuplicateProperty(21u8))
        } else {
            Ok::<ConnectPropertiesV, MQTTError>(ConnectPropertiesV { authentication_method: Some(authentication_method), ..v })
        },
        ConnectProperties::spec_merge(v, (22u8, ValueV::Binary(authentication_data))) == if v.authentication_data is Some {
            Err::<ConnectPropertiesV, MQTTError>(MQTTError::DuplicateProperty(22u8))
        } else {
            Ok::<ConnectPropertiesV, MQTTError>(ConnectPropertiesV { authentication_data: Some(authentication_data), ..v })
        },
        ConnectProperties::spec_merge(v, (38u8, ValueV::Pair(user_key, user_value))) == Ok::<ConnectPropertiesV, MQTTError>(ConnectPropertiesV { user_property: v.user_property.push((user_key, user_value)), ..v }),
{
}

} // verus!
