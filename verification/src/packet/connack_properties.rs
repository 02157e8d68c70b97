//! The properties of CONNACK (section 3.2.2.3).
use bytes::{Bytes, BytesMut};
use vstd::prelude::*;

use crate::buffer::{bytes_mut_view, bytes_view};
use crate::error::MQTTError;
use crate::properties::{
    entries_fit, entries_size, lemma_merge_all_concat, lemma_merge_all_one, lemma_merge_all_opt,
    lemma_properties_roundtrip, lemma_user_entries_push, merge_all, opt_binary, opt_byte,
    opt_bytes_view, opt_entry, opt_flag, opt_four, opt_string_view, opt_two, opt_utf8, opt_varint,
    parse_properties, properties_length, push_opt_byte, push_opt_bytes, push_opt_flag,
    push_opt_four, push_opt_string, push_opt_two, push_opt_varint, push_users, read_properties,
    spec_write_properties, user_entries, users_view, write_properties, PropertySet, UserV,
    lemma_written_properties_len,
};
use crate::property::{
    Property, PropertyV, PropertyValue, ValueV, ASSIGNED_CLIENT_IDENTIFIER, AUTHENTICATION_DATA,
    AUTHENTICATION_METHOD, CONTENT_TYPE, CORRELATION_DATA, MAXIMUM_PACKET_SIZE, MAXIMUM_QOS,
    MESSAGE_EXPIRY_INTERVAL, PAYLOAD_FORMAT_INDICATOR, REASON_STRING, RECEIVE_MAXIMUM,
    REQUEST_PROBLEM_INFORMATION, REQUEST_RESPONSE_INFORMATION, RESPONSE_INFORMATION,
    RESPONSE_TOPIC, RETAIN_AVAILABLE, SERVER_KEEP_ALIVE, SERVER_REFERENCE,
    SESSION_EXPIRY_INTERVAL, SHARED_SUBSCRIPTION_AVAILABLE, SUBSCRIPTION_IDENTIFIER,
    SUBSCRIPTION_IDENTIFIER_AVAILABLE, TOPIC_ALIAS, TOPIC_ALIAS_MAXIMUM, USER_PROPERTY,
    WILDCARD_SUBSCRIPTION_AVAILABLE, WILL_DELAY_INTERVAL,
};
use crate::varint::{spec_variable_length, VARINT_MAX};

verus! {

/// CONNACK properties.
#[derive(Debug, Clone, PartialEq, Eq)]
pub struct ConnAckProperties {
    pub session_expiry_interval: Option<u32>,
    pub receive_maximum: Option<u16>,
    pub maximum_qos: Option<bool>,
    pub retain_available: Option<bool>,
    pub maximum_packet_size: Option<u32>,
    pub assigned_client_id: Option<String>,
    pub topic_alias_maximum: Option<u16>,
    pub reason_string: Option<String>,
    pub user_property: Vec<(String, String)>,
    pub wildcard_subscription_available: Option<bool>,
    pub subscription_identifiers_available: Option<bool>,
    pub shared_subscription_available: Option<bool>,
    pub server_keep_alive: Option<u16>,
    pub response_information: Option<String>,
    pub server_reference: Option<String>,
    pub authentication_method: Option<String>,
    pub authentication_data: Option<Bytes>,
}

#[verifier::ext_equal]
pub struct ConnAckPropertiesV {
    pub session_expiry_interval: Option<u32>,
    pub receive_maximum: Option<u16>,
    pub maximum_qos: Option<bool>,
    pub retain_available: Option<bool>,
    pub maximum_packet_size: Option<u32>,
    pub assigned_client_id: Option<Seq<char>>,
    pub topic_alias_maximum: Option<u16>,
    pub reason_string: Option<Seq<char>>,
    pub user_property: Seq<UserV>,
    pub wildcard_subscription_available: Option<bool>,
    pub subscription_identifiers_available: Option<bool>,
    pub shared_subscription_available: Option<bool>,
    pub server_keep_alive: Option<u16>,
    pub response_information: Option<Seq<char>>,
    pub server_reference: Option<Seq<char>>,
    pub authentication_method: Option<Seq<char>>,
    pub authentication_data: Option<Seq<u8>>,
}

impl View for ConnAckProperties {
    type V = ConnAckPropertiesV;

    open spec fn view(&self) -> ConnAckPropertiesV {
        ConnAckPropertiesV {
            session_expiry_interval: self.session_expiry_interval,
            receive_maximum: self.receive_maximum,
            maximum_qos: self.maximum_qos,
            retain_available: self.retain_available,
            maximum_packet_size: self.maximum_packet_size,
            assigned_client_id: opt_string_view(self.assigned_client_id),
            topic_alias_maximum: self.topic_alias_maximum,
            reason_string: opt_string_view(self.reason_string),
            user_property: users_view(self.user_property@),
            wildcard_subscription_available: self.wildcard_subscription_available,
            subscription_identifiers_available: self.subscription_identifiers_available,
            shared_subscription_available: self.shared_subscription_available,
            server_keep_alive: self.server_keep_alive,
            response_information: opt_string_view(self.response_information),
            server_reference: opt_string_view(self.server_reference),
            authentication_method: opt_string_view(self.authentication_method),
            authentication_data: opt_bytes_view(self.authentication_data),
        }
    }
}

impl PropertySet for ConnAckProperties {
    open spec fn spec_empty() -> ConnAckPropertiesV {
        ConnAckPropertiesV { session_expiry_interval: None, receive_maximum: None, maximum_qos: None, retain_available: None, maximum_packet_size: None, assigned_client_id: None, topic_alias_maximum: None, reason_string: None, user_property: Seq::empty(), wildcard_subscription_available: None, subscription_identifiers_available: None, shared_subscription_available: None, server_keep_alive: None, response_information: None, server_reference: None, authentication_method: None, authentication_data: None }
    }

    open spec fn spec_entries(v: ConnAckPropertiesV) -> Seq<PropertyV> {
        opt_entry(SESSION_EXPIRY_INTERVAL, opt_four(v.session_expiry_interval)) + opt_entry(RECEIVE_MAXIMUM, opt_two(v.receive_maximum)) + opt_entry(MAXIMUM_QOS, opt_flag(v.maximum_qos)) + opt_entry(RETAIN_AVAILABLE, opt_flag(v.retain_available)) + opt_entry(MAXIMUM_PACKET_SIZE, opt_four(v.maximum_packet_size)) + opt_entry(ASSIGNED_CLIENT_IDENTIFIER, opt_utf8(v.assigned_client_id)) + opt_entry(TOPIC_ALIAS_MAXIMUM, opt_two(v.topic_alias_maximum)) + opt_entry(REASON_STRING, opt_utf8(v.reason_string)) + user_entries(v.user_property) + opt_entry(WILDCARD_SUBSCRIPTION_AVAILABLE, opt_flag(v.wildcard_subscription_available)) + opt_entry(SUBSCRIPTION_IDENTIFIER_AVAILABLE, opt_flag(v.subscription_identifiers_available)) + opt_entry(SHARED_SUBSCRIPTION_AVAILABLE, opt_flag(v.shared_subscription_available)) + opt_entry(SERVER_KEEP_ALIVE, opt_two(v.server_keep_alive)) + opt_entry(RESPONSE_INFORMATION, opt_utf8(v.response_information)) + opt_entry(SERVER_REFERENCE, opt_utf8(v.server_reference)) + opt_entry(AUTHENTICATION_METHOD, opt_utf8(v.authentication_method)) + opt_entry(AUTHENTICATION_DATA, opt_binary(v.authentication_data))
    }

    open spec fn spec_merge(v: ConnAckPropertiesV, p: PropertyV) -> Result<ConnAckPropertiesV, MQTTError> {
        match p.1 {
            ValueV::FourByte(x) if p.0 == SESSION_EXPIRY_INTERVAL => if v.session_expiry_interval is Some {
                Err(MQTTError::DuplicateProperty(p.0))
            } else {
                Ok(ConnAckPropertiesV { session_expiry_interval: Some(x), ..v })
            },
            ValueV::TwoByte(x) if p.0 == RECEIVE_MAXIMUM => if v.receive_maximum is Some {
                Err(MQTTError::DuplicateProperty(p.0))
            } else {
                Ok(ConnAckPropertiesV { receive_maximum: Some(x), ..v })
            },
            ValueV::Byte(x) if p.0 == MAXIMUM_QOS => if v.maximum_qos is Some {
                Err(MQTTError::DuplicateProperty(p.0))
            } else {
                Ok(ConnAckPropertiesV { maximum_qos: Some(x != 0), ..v })
            },
            ValueV::Byte(x) if p.0 == RETAIN_AVAILABLE => if v.retain_available is Some {
                Err(MQTTError::DuplicateProperty(p.0))
            } else {
                Ok(ConnAckPropertiesV { retain_available: Some(x != 0), ..v })
            },
            ValueV::FourByte(x) if p.0 == MAXIMUM_PACKET_SIZE => if v.maximum_packet_size is Some {
                Err(MQTTError::DuplicateProperty(p.0))
            } else {
                Ok(ConnAckPropertiesV { maximum_packet_size: Some(x), ..v })
            },
            ValueV::Utf8(x) if p.0 == ASSIGNED_CLIENT_IDENTIFIER => if v.assigned_client_id is Some {
                Err(MQTTError::DuplicateProperty(p.0))
            } else {
                Ok(ConnAckPropertiesV { assigned_client_id: Some(x), ..v })
            },
            ValueV::TwoByte(x) if p.0 == TOPIC_ALIAS_MAXIMUM => if v.topic_alias_maximum is Some {
                Err(MQTTError::DuplicateProperty(p.0))
            } else {
                Ok(ConnAckPropertiesV { topic_alias_maximum: Some(x), ..v })
            },
            ValueV::Utf8(x) if p.0 == REASON_STRING => if v.reason_string is Some {
                Err(MQTTError::DuplicateProperty(p.0))
            } else {
                Ok(ConnAckPropertiesV { reason_string: Some(x), ..v })
            },
            ValueV::Pair(k, x) if p.0 == USER_PROPERTY => Ok(ConnAckPropertiesV { user_property: v.user_property.push((k, x)), ..v }),
            ValueV::Byte(x) if p.0 == WILDCARD_SUBSCRIPTION_AVAILABLE => if v.wildcard_subscription_available is Some {
                Err(MQTTError::DuplicateProperty(p.0))
            } else {
                Ok(ConnAckPropertiesV { wildcard_subscription_available: Some(x != 0), ..v })
            },
            ValueV::Byte(x) if p.0 == SUBSCRIPTION_IDENTIFIER_AVAILABLE => if v.subscription_identifiers_available is Some {
                Err(MQTTError::DuplicateProperty(p.0))
            } else {
                Ok(ConnAckPropertiesV { subscription_identifiers_available: Some(x != 0), ..v })
            },
            ValueV::Byte(x) if p.0 == SHARED_SUBSCRIPTION_AVAILABLE => if v.shared_subscription_available is Some {
                Err(MQTTError::DuplicateProperty(p.0))
            } else {
                Ok(ConnAckPropertiesV { shared_subscription_available: Some(x != 0), ..v })
            },
            ValueV::TwoByte(x) if p.0 == SERVER_KEEP_ALIVE => if v.server_keep_alive is Some {
                Err(MQTTError::DuplicateProperty(p.0))
            } else {
                Ok(ConnAckPropertiesV { server_keep_alive: Some(x), ..v })
            },
            ValueV::Utf8(x) if p.0 == RESPONSE_INFORMATION => if v.response_information is Some {
                Err(MQTTError::DuplicateProperty(p.0))
            } else {
                Ok(ConnAckPropertiesV { response_information: Some(x), ..v })
            },
            ValueV::Utf8(x) if p.0 == SERVER_REFERENCE => if v.server_reference is Some {
                Err(MQTTError::DuplicateProperty(p.0))
            } else {
                Ok(ConnAckPropertiesV { server_reference: Some(x), ..v })
            },
            ValueV::Utf8(x) if p.0 == AUTHENTICATION_METHOD => if v.authentication_method is Some {
                Err(MQTTError::DuplicateProperty(p.0))
            } else {
                Ok(ConnAckPropertiesV { authentication_method: Some(x), ..v })
            },
            ValueV::Binary(x) if p.0 == AUTHENTICATION_DATA => if v.authentication_data is Some {
                Err(MQTTError::DuplicateProperty(p.0))
            } else {
                Ok(ConnAckPropertiesV { authentication_data: Some(x), ..v })
            },
            _ => Err(MQTTError::UnexpectedProperty(p.0)),
        }
    }

    fn empty() -> (r: Self) {
        let r = ConnAckProperties { session_expiry_interval: None, receive_maximum: None, maximum_qos: None, retain_available: None, maximum_packet_size: None, assigned_client_id: None, topic_alias_maximum: None, reason_string: None, user_property: Vec::new(), wildcard_subscription_available: None, subscription_identifiers_available: None, shared_subscription_available: None, server_keep_alive: None, response_information: None, server_reference: None, authentication_method: None, authentication_data: None };
        assert(r@ =~= Self::spec_empty());
        r
    }

    fn entries(&self) -> (r: Vec<Property>) {
        let mut out: Vec<Property> = Vec::new();
        assert(out@.map_values(|p: Property| p@) =~= Seq::<PropertyV>::empty());
        push_opt_four(&mut out, SESSION_EXPIRY_INTERVAL, self.session_expiry_interval);
        push_opt_two(&mut out, RECEIVE_MAXIMUM, self.receive_maximum);
        push_opt_flag(&mut out, MAXIMUM_QOS, self.maximum_qos);
        push_opt_flag(&mut out, RETAIN_AVAILABLE, self.retain_available);
        push_opt_four(&mut out, MAXIMUM_PACKET_SIZE, self.maximum_packet_size);
        push_opt_string(&mut out, ASSIGNED_CLIENT_IDENTIFIER, &self.assigned_client_id);
        push_opt_two(&mut out, TOPIC_ALIAS_MAXIMUM, self.topic_alias_maximum);
        push_opt_string(&mut out, REASON_STRING, &self.reason_string);
        push_users(&mut out, &self.user_property);
        push_opt_flag(&mut out, WILDCARD_SUBSCRIPTION_AVAILABLE, self.wildcard_subscription_available);
        push_opt_flag(&mut out, SUBSCRIPTION_IDENTIFIER_AVAILABLE, self.subscription_identifiers_available);
        push_opt_flag(&mut out, SHARED_SUBSCRIPTION_AVAILABLE, self.shared_subscription_available);
        push_opt_two(&mut out, SERVER_KEEP_ALIVE, self.server_keep_alive);
        push_opt_string(&mut out, RESPONSE_INFORMATION, &self.response_information);
        push_opt_string(&mut out, SERVER_REFERENCE, &self.server_reference);
        push_opt_string(&mut out, AUTHENTICATION_METHOD, &self.authentication_method);
        push_opt_bytes(&mut out, AUTHENTICATION_DATA, &self.authentication_data);
        assert(out@.map_values(|p: Property| p@) =~= Self::spec_entries(self@));
        out
    }

    fn merge(&mut self, p: Property) -> (r: Result<(), MQTTError>) {
        let id = p.id;
        match p.value {
            PropertyValue::FourByte(x) if id == SESSION_EXPIRY_INTERVAL => {
                if self.session_expiry_interval.is_some() {
                    return Err(MQTTError::DuplicateProperty(id));
                }
                self.session_expiry_interval = Some(x);
                assert(self@ =~= ConnAckPropertiesV { session_expiry_interval: self@.session_expiry_interval, ..old(self)@ });
                Ok(())
            },
            PropertyValue::TwoByte(x) if id == RECEIVE_MAXIMUM => {
                if self.receive_maximum.is_some() {
                    return Err(MQTTError::DuplicateProperty(id));
                }
                self.receive_maximum = Some(x);
                assert(self@ =~= ConnAckPropertiesV { receive_maximum: self@.receive_maximum, ..old(self)@ });
                Ok(())
            },
            PropertyValue::Byte(x) if id == MAXIMUM_QOS => {
                if self.maximum_qos.is_some() {
                    return Err(MQTTError::DuplicateProperty(id));
                }
                self.maximum_qos = Some(x != 0);
                assert(self@ =~= ConnAckPropertiesV { maximum_qos: self@.maximum_qos, ..old(self)@ });
                Ok(())
            },
            PropertyValue::Byte(x) if id == RETAIN_AVAILABLE => {
                if self.retain_available.is_some() {
                    return Err(MQTTError::DuplicateProperty(id));
                }
                self.retain_available = Some(x != 0);
                assert(self@ =~= ConnAckPropertiesV { retain_available: self@.retain_available, ..old(self)@ });
                Ok(())
            },
            PropertyValue::FourByte(x) if id == MAXIMUM_PACKET_SIZE => {
                if self.maximum_packet_size.is_some() {
                    return Err(MQTTError::DuplicateProperty(id));
                }
                self.maximum_packet_size = Some(x);
                assert(self@ =~= ConnAckPropertiesV { maximum_packet_size: self@.maximum_packet_size, ..old(self)@ });
                Ok(())
            },
            PropertyValue::Utf8(x) if id == ASSIGNED_CLIENT_IDENTIFIER => {
                if self.assigned_client_id.is_some() {
                    return Err(MQTTError::DuplicateProperty(id));
                }
                self.assigned_client_id = Some(x);
                assert(self@ =~= ConnAckPropertiesV { assigned_client_id: self@.assigned_client_id, ..old(self)@ });
                Ok(())
            },
            PropertyValue::TwoByte(x) if id == TOPIC_ALIAS_MAXIMUM => {
                if self.topic_alias_maximum.is_some() {
                    return Err(MQTTError::DuplicateProperty(id));
                }
                self.topic_alias_maximum = Some(x);
                assert(self@ =~= ConnAckPropertiesV { topic_alias_maximum: self@.topic_alias_maximum, ..old(self)@ });
                Ok(())
            },
            PropertyValue::Utf8(x) if id == REASON_STRING => {
                if self.reason_string.is_some() {
                    return Err(MQTTError::DuplicateProperty(id));
                }
                self.reason_string = Some(x);
                assert(self@ =~= ConnAckPropertiesV { reason_string: self@.reason_string, ..old(self)@ });
                Ok(())
            },
            PropertyValue::Pair(k, x) if id == USER_PROPERTY => {
                self.user_property.push((k, x));
                assert(self@.user_property =~= old(self)@.user_property.push((k@, x@)));
                assert(self@ =~= ConnAckPropertiesV { user_property: old(self)@.user_property.push((k@, x@)), ..old(self)@ });
                Ok(())
            },
            PropertyValue::Byte(x) if id == WILDCARD_SUBSCRIPTION_AVAILABLE => {
                if self.wildcard_subscription_available.is_some() {
                    return Err(MQTTError::DuplicateProperty(id));
                }
                self.wildcard_subscription_available = Some(x != 0);
                assert(self@ =~= ConnAckPropertiesV { wildcard_subscription_available: self@.wildcard_subscription_available, ..old(self)@ });
                Ok(())
            },
            PropertyValue::Byte(x) if id == SUBSCRIPTION_IDENTIFIER_AVAILABLE => {
                if self.subscription_identifiers_available.is_some() {
                    return Err(MQTTError::DuplicateProperty(id));
                }
                self.subscription_identifiers_available = Some(x != 0);
                assert(self@ =~= ConnAckPropertiesV { subscription_identifiers_available: self@.subscription_identifiers_available, ..old(self)@ });
                Ok(())
            },
            PropertyValue::Byte(x) if id == SHARED_SUBSCRIPTION_AVAILABLE => {
                if self.shared_subscription_available.is_some() {
                    return Err(MQTTError::DuplicateProperty(id));
                }
                self.shared_subscription_available = Some(x != 0);
                assert(self@ =~= ConnAckPropertiesV { shared_subscription_available: self@.shared_subscription_available, ..old(self)@ });
                Ok(())
            },
            PropertyValue::TwoByte(x) if id == SERVER_KEEP_ALIVE => {
                if self.server_keep_alive.is_some() {
                    return Err(MQTTError::DuplicateProperty(id));
                }
                self.server_keep_alive = Some(x);
                assert(self@ =~= ConnAckPropertiesV { server_keep_alive: self@.server_keep_alive, ..old(self)@ });
                Ok(())
            },
            PropertyValue::Utf8(x) if id == RESPONSE_INFORMATION => {
                if self.response_information.is_some() {
                    return Err(MQTTError::DuplicateProperty(id));
                }
                self.response_information = Some(x);
                assert(self@ =~= ConnAckPropertiesV { response_information: self@.response_information, ..old(self)@ });
                Ok(())
            },
            PropertyValue::Utf8(x) if id == SERVER_REFERENCE => {
                if self.server_reference.is_some() {
                    return Err(MQTTError::DuplicateProperty(id));
                }
                self.server_reference = Some(x);
                assert(self@ =~= ConnAckPropertiesV { server_reference: self@.server_reference, ..old(self)@ });
                Ok(())
            },
            PropertyValue::Utf8(x) if id == AUTHENTICATION_METHOD => {
                if self.authentication_method.is_some() {
                    return Err(MQTTError::DuplicateProperty(id));
                }
                self.authentication_method = Some(x);
                assert(self@ =~= ConnAckPropertiesV { authentication_method: self@.authentication_method, ..old(self)@ });
                Ok(())
            },
            PropertyValue::Binary(x) if id == AUTHENTICATION_DATA => {
                if self.authentication_data.is_some() {
                    return Err(MQTTError::DuplicateProperty(id));
                }
                self.authentication_data = Some(x);
                assert(self@ =~= ConnAckPropertiesV { authentication_data: self@.authentication_data, ..old(self)@ });
                Ok(())
            },
            _ => Err(MQTTError::UnexpectedProperty(id)),
        }
    }
}

impl ConnAckProperties {
    /// Taking user properties into a set adds them after its own.
    pub proof fn lemma_merge_users(acc: ConnAckPropertiesV, u: Seq<UserV>)
        ensures
            merge_all::<ConnAckProperties>(acc, user_entries(u)) == Ok::<ConnAckPropertiesV, MQTTError>(
                ConnAckPropertiesV { user_property: acc.user_property + u, ..acc },
            ),
        decreases u.len(),
    {
        if u.len() == 0 {
            assert(user_entries(u) =~= Seq::<PropertyV>::empty());
            assert(acc.user_property + u =~= acc.user_property);
            assert(acc =~= ConnAckPropertiesV { user_property: acc.user_property + u, ..acc });
        } else {
            lemma_user_entries_push(u);
            lemma_merge_all_concat::<ConnAckProperties>(
                acc,
                user_entries(u.drop_last()),
                seq![(USER_PROPERTY, ValueV::Pair(u.last().0, u.last().1))],
            );
            Self::lemma_merge_users(acc, u.drop_last());
            let mid = ConnAckPropertiesV { user_property: acc.user_property + u.drop_last(), ..acc };
            lemma_merge_all_one::<ConnAckProperties>(mid, (USER_PROPERTY, ValueV::Pair(u.last().0, u.last().1)));
            assert((acc.user_property + u.drop_last()).push(u.last()) =~= acc.user_property + u);
            assert(ConnAckPropertiesV { user_property: mid.user_property.push((u.last().0, u.last().1)), ..mid } =~= ConnAckPropertiesV { user_property: acc.user_property + u, ..acc });
        }
    }

    /// Taking the entries of a set into the empty set gives the set back.
    pub proof fn lemma_entries_merge(v: ConnAckPropertiesV)
        ensures
            merge_all::<ConnAckProperties>(Self::spec_empty(), Self::spec_entries(v)) == Ok::<ConnAckPropertiesV, MQTTError>(v),
    {
        let e = Self::spec_empty();
        let a0 = ConnAckPropertiesV { session_expiry_interval: None, receive_maximum: None, maximum_qos: None, retain_available: None, maximum_packet_size: None, assigned_client_id: None, topic_alias_maximum: None, reason_string: None, user_property: Seq::empty(), wildcard_subscription_available: None, subscription_identifiers_available: None, shared_subscription_available: None, server_keep_alive: None, response_information: None, server_reference: None, authentication_method: None, authentication_data: None };
        lemma_merge_all_opt::<ConnAckProperties>(a0, SESSION_EXPIRY_INTERVAL, opt_four(v.session_expiry_interval));
        assert(merge_all::<ConnAckProperties>(a0, opt_entry(SESSION_EXPIRY_INTERVAL, opt_four(v.session_expiry_interval))) == Ok::<ConnAckPropertiesV, MQTTError>(ConnAckPropertiesV { session_expiry_interval: v.session_expiry_interval, receive_maximum: None, maximum_qos: None, retain_available: None, maximum_packet_size: None, assigned_client_id: None, topic_alias_maximum: None, reason_string: None, user_property: Seq::empty(), wildcard_subscription_available: None, subscription_identifiers_available: None, shared_subscription_available: None, server_keep_alive: None, response_information: None, server_reference: None, authentication_method: None, authentication_data: None }));
        assert(merge_all::<ConnAckProperties>(e, opt_entry(SESSION_EXPIRY_INTERVAL, opt_four(v.session_expiry_interval))) == Ok::<ConnAckPropertiesV, MQTTError>(ConnAckPropertiesV { session_expiry_interval: v.session_expiry_interval, receive_maximum: None, maximum_qos: None, retain_available: None, maximum_packet_size: None, assigned_client_id: None, topic_alias_maximum: None, reason_string: None, user_property: Seq::empty(), wildcard_subscription_available: None, subscription_identifiers_available: None, shared_subscription_available: None, server_keep_alive: None, response_information: None, server_reference: None, authentication_method: None, authentication_data: None }));
        let a1 = ConnAckPropertiesV { session_expiry_interval: v.session_expiry_interval, receive_maximum: None, maximum_qos: None, retain_available: None, maximum_packet_size: None, assigned_client_id: None, topic_alias_maximum: None, reason_string: None, user_property: Seq::empty(), wildcard_subscription_available: None, subscription_identifiers_available: None, shared_subscription_available: None, server_keep_alive: None, response_information: None, server_reference: None, authentication_method: None, authentication_data: None };
        lemma_merge_all_concat::<ConnAckProperties>(e, opt_entry(SESSION_EXPIRY_INTERVAL, opt_four(v.session_expiry_interval)), opt_entry(RECEIVE_MAXIMUM, opt_two(v.receive_maximum)));
        lemma_merge_all_opt::<ConnAckProperties>(a1, RECEIVE_MAXIMUM, opt_two(v.receive_maximum));
        assert(merge_all::<ConnAckProperties>(a1, opt_entry(RECEIVE_MAXIMUM, opt_two(v.receive_maximum))) == Ok::<ConnAckPropertiesV, MQTTError>(ConnAckPropertiesV { session_expiry_interval: v.session_expiry_interval, receive_maximum: v.receive_maximum, maximum_qos: None, retain_available: None, maximum_packet_size: None, assigned_client_id: None, topic_alias_maximum: None, reason_string: None, user_property: Seq::empty(), wildcard_subscription_available: None, subscription_identifiers_available: None, shared_subscription_available: None, server_keep_alive: None, response_information: None, server_reference: None, authentication_method: None, authentication_data: None }));
        assert(merge_all::<ConnAckProperties>(e, opt_entry(SESSION_EXPIRY_INTERVAL, opt_four(v.session_expiry_interval)) + opt_entry(RECEIVE_MAXIMUM, opt_two(v.receive_maximum))) == Ok::<ConnAckPropertiesV, MQTTError>(ConnAckPropertiesV { session_expiry_interval: v.session_expiry_interval, receive_maximum: v.receive_maximum, maximum_qos: None, retain_available: None, maximum_packet_size: None, assigned_client_id: None, topic_alias_maximum: None, reason_string: None, user_property: Seq::empty(), wildcard_subscription_available: None, subscription_identifiers_available: None, shared_subscription_available: None, server_keep_alive: None, response_information: None, server_reference: None, authentication_method: None, authentication_data: None }));
        let a2 = ConnAckPropertiesV { session_expiry_interval: v.session_expiry_interval, receive_maximum: v.receive_maximum, maximum_qos: None, retain_available: None, maximum_packet_size: None, assigned_client_id: None, topic_alias_maximum: None, reason_string: None, user_property: Seq::empty(), wildcard_subscription_available: None, subscription_identifiers_available: None, shared_subscription_available: None, server_keep_alive: None, response_information: None, server_reference: None, authentication_method: None, authentication_data: None };
        lemma_merge_all_concat::<ConnAckProperties>(e, opt_entry(SESSION_EXPIRY_INTERVAL, opt_four(v.session_expiry_interval)) + opt_entry(RECEIVE_MAXIMUM, opt_two(v.receive_maximum)), opt_entry(MAXIMUM_QOS, opt_flag(v.maximum_qos)));
        lemma_merge_all_opt::<ConnAckProperties>(a2, MAXIMUM_QOS, opt_flag(v.maximum_qos));
        assert(merge_all::<ConnAckProperties>(a2, opt_entry(MAXIMUM_QOS, opt_flag(v.maximum_qos))) == Ok::<ConnAckPropertiesV, MQTTError>(ConnAckPropertiesV { session_expiry_interval: v.session_expiry_interval, receive_maximum: v.receive_maximum, maximum_qos: v.maximum_qos, retain_available: None, maximum_packet_size: None, assigned_client_id: None, topic_alias_maximum: None, reason_string: None, user_property: Seq::empty(), wildcard_subscription_available: None, subscription_identifiers_available: None, shared_subscription_available: None, server_keep_alive: None, response_information: None, server_reference: None, authentication_method: None, authentication_data: None }));
        assert(merge_all::<ConnAckProperties>(e, opt_entry(SESSION_EXPIRY_INTERVAL, opt_four(v.session_expiry_interval)) + opt_entry(RECEIVE_MAXIMUM, opt_two(v.receive_maximum)) + opt_entry(MAXIMUM_QOS, opt_flag(v.maximum_qos))) == Ok::<ConnAckPropertiesV, MQTTError>(ConnAckPropertiesV { session_expiry_interval: v.session_expiry_interval, receive_maximum: v.receive_maximum, maximum_qos: v.maximum_qos, retain_available: None, maximum_packet_size: None, assigned_client_id: None, topic_alias_maximum: None, reason_string: None, user_property: Seq::empty(), wildcard_subscription_available: None, subscription_identifiers_available: None, shared_subscription_available: None, server_keep_alive: None, response_information: None, server_reference: None, authentication_method: None, authentication_data: None }));
        let a3 = ConnAckPropertiesV { session_expiry_interval: v.session_expiry_interval, receive_maximum: v.receive_maximum, maximum_qos: v.maximum_qos, retain_available: None, maximum_packet_size: None, assigned_client_id: None, topic_alias_maximum: None, reason_string: None, user_property: Seq::empty(), wildcard_subscription_available: None, subscription_identifiers_available: None, shared_subscription_available: None, server_keep_alive: None, response_information: None, server_reference: None, authentication_method: None, authentication_data: None };
        lemma_merge_all_concat::<ConnAckProperties>(e, opt_entry(SESSION_EXPIRY_INTERVAL, opt_four(v.session_expiry_interval)) + opt_entry(RECEIVE_MAXIMUM, opt_two(v.receive_maximum)) + opt_entry(MAXIMUM_QOS, opt_flag(v.maximum_qos)), opt_entry(RETAIN_AVAILABLE, opt_flag(v.retain_available)));
        lemma_merge_all_opt::<ConnAckProperties>(a3, RETAIN_AVAILABLE, opt_flag(v.retain_available));
        assert(merge_all::<ConnAckProperties>(a3, opt_entry(RETAIN_AVAILABLE, opt_flag(v.retain_available))) == Ok::<ConnAckPropertiesV, MQTTError>(ConnAckPropertiesV { session_expiry_interval: v.session_expiry_interval, receive_maximum: v.receive_maximum, maximum_qos: v.maximum_qos, retain_available: v.retain_available, maximum_packet_size: None, assigned_client_id: None, topic_alias_maximum: None, reason_string: None, user_property: Seq::empty(), wildcard_subscription_available: None, subscription_identifiers_available: None, shared_subscription_available: None, server_keep_alive: None, response_information: None, server_reference: None, authentication_method: None, authentication_data: None }));
        assert(merge_all::<ConnAckProperties>(e, opt_entry(SESSION_EXPIRY_INTERVAL, opt_four(v.session_expiry_interval)) + opt_entry(RECEIVE_MAXIMUM, opt_two(v.receive_maximum)) + opt_entry(MAXIMUM_QOS, opt_flag(v.maximum_qos)) + opt_entry(RETAIN_AVAILABLE, opt_flag(v.retain_available))) == Ok::<ConnAckPropertiesV, MQTTError>(ConnAckPropertiesV { session_expiry_interval: v.session_expiry_interval, receive_maximum: v.receive_maximum, maximum_qos: v.maximum_qos, retain_available: v.retain_available, maximum_packet_size: None, assigned_client_id: None, topic_alias_maximum: None, reason_string: None, user_property: Seq::empty(), wildcard_subscription_available: None, subscription_identifiers_available: None, shared_subscription_available: None, server_keep_alive: None, response_information: None, server_reference: None, authentication_method: None, authentication_data: None }));
        let a4 = ConnAckPropertiesV { session_expiry_interval: v.session_expiry_interval, receive_maximum: v.receive_maximum, maximum_qos: v.maximum_qos, retain_available: v.retain_available, maximum_packet_size: None, assigned_client_id: None, topic_alias_maximum: None, reason_string: None, user_property: Seq::empty(), wildcard_subscription_available: None, subscription_identifiers_available: None, shared_subscription_available: None, server_keep_alive: None, response_information: None, server_reference: None, authentication_method: None, authentication_data: None };
        lemma_merge_all_concat::<ConnAckProperties>(e, opt_entry(SESSION_EXPIRY_INTERVAL, opt_four(v.session_expiry_interval)) + opt_entry(RECEIVE_MAXIMUM, opt_two(v.receive_maximum)) + opt_entry(MAXIMUM_QOS, opt_flag(v.maximum_qos)) + opt_entry(RETAIN_AVAILABLE, opt_flag(v.retain_available)), opt_entry(MAXIMUM_PACKET_SIZE, opt_four(v.maximum_packet_size)));
        lemma_merge_all_opt::<ConnAckProperties>(a4, MAXIMUM_PACKET_SIZE, opt_four(v.maximum_packet_size));
        assert(merge_all::<ConnAckProperties>(a4, opt_entry(MAXIMUM_PACKET_SIZE, opt_four(v.maximum_packet_size))) == Ok::<ConnAckPropertiesV, MQTTError>(ConnAckPropertiesV { session_expiry_interval: v.session_expiry_interval, receive_maximum: v.receive_maximum, maximum_qos: v.maximum_qos, retain_available: v.retain_available, maximum_packet_size: v.maximum_packet_size, assigned_client_id: None, topic_alias_maximum: None, reason_string: None, user_property: Seq::empty(), wildcard_subscription_available: None, subscription_identifiers_available: None, shared_subscription_available: None, server_keep_alive: None, response_information: None, server_reference: None, authentication_method: None, authentication_data: None }));
        assert(merge_all::<ConnAckProperties>(e, opt_entry(SESSION_EXPIRY_INTERVAL, opt_four(v.session_expiry_interval)) + opt_entry(RECEIVE_MAXIMUM, opt_two(v.receive_maximum)) + opt_entry(MAXIMUM_QOS, opt_flag(v.maximum_qos)) + opt_entry(RETAIN_AVAILABLE, opt_flag(v.retain_available)) + opt_entry(MAXIMUM_PACKET_SIZE, opt_four(v.maximum_packet_size))) == Ok::<ConnAckPropertiesV, MQTTError>(ConnAckPropertiesV { session_expiry_interval: v.session_expiry_interval, receive_maximum: v.receive_maximum, maximum_qos: v.maximum_qos, retain_available: v.retain_available, maximum_packet_size: v.maximum_packet_size, assigned_client_id: None, topic_alias_maximum: None, reason_string: None, user_property: Seq::empty(), wildcard_subscription_available: None, subscription_identifiers_available: None, shared_subscription_available: None, server_keep_alive: None, response_information: None, server_reference: None, authentication_method: None, authentication_data: None }));
        let a5 = ConnAckPropertiesV { session_expiry_interval: v.session_expiry_interval, receive_maximum: v.receive_maximum, maximum_qos: v.maximum_qos, retain_available: v.retain_available, maximum_packet_size: v.maximum_packet_size, assigned_client_id: None, topic_alias_maximum: None, reason_string: None, user_property: Seq::empty(), wildcard_subscription_available: None, subscription_identifiers_available: None, shared_subscription_available: None, server_keep_alive: None, response_information: None, server_reference: None, authentication_method: None, authentication_data: None };
        lemma_merge_all_concat::<ConnAckProperties>(e, opt_entry(SESSION_EXPIRY_INTERVAL, opt_four(v.session_expiry_interval)) + opt_entry(RECEIVE_MAXIMUM, opt_two(v.receive_maximum)) + opt_entry(MAXIMUM_QOS, opt_flag(v.maximum_qos)) + opt_entry(RETAIN_AVAILABLE, opt_flag(v.retain_available)) + opt_entry(MAXIMUM_PACKET_SIZE, opt_four(v.maximum_packet_size)), opt_entry(ASSIGNED_CLIENT_IDENTIFIER, opt_utf8(v.assigned_client_id)));
        lemma_merge_all_opt::<ConnAckProperties>(a5, ASSIGNED_CLIENT_IDENTIFIER, opt_utf8(v.assigned_client_id));
        assert(merge_all::<ConnAckProperties>(a5, opt_entry(ASSIGNED_CLIENT_IDENTIFIER, opt_utf8(v.assigned_client_id))) == Ok::<ConnAckPropertiesV, MQTTError>(ConnAckPropertiesV { session_expiry_interval: v.session_expiry_interval, receive_maximum: v.receive_maximum, maximum_qos: v.maximum_qos, retain_available: v.retain_available, maximum_packet_size: v.maximum_packet_size, assigned_client_id: v.assigned_client_id, topic_alias_maximum: None, reason_string: None, user_property: Seq::empty(), wildcard_subscription_available: None, subscription_identifiers_available: None, shared_subscription_available: None, server_keep_alive: None, response_information: None, server_reference: None, authentication_method: None, authentication_data: None }));
        assert(merge_all::<ConnAckProperties>(e, opt_entry(SESSION_EXPIRY_INTERVAL, opt_four(v.session_expiry_interval)) + opt_entry(RECEIVE_MAXIMUM, opt_two(v.receive_maximum)) + opt_entry(MAXIMUM_QOS, opt_flag(v.maximum_qos)) + opt_entry(RETAIN_AVAILABLE, opt_flag(v.retain_available)) + opt_entry(MAXIMUM_PACKET_SIZE, opt_four(v.maximum_packet_size)) + opt_entry(ASSIGNED_CLIENT_IDENTIFIER, opt_utf8(v.assigned_client_id))) == Ok::<ConnAckPropertiesV, MQTTError>(ConnAckPropertiesV { session_expiry_interval: v.session_expiry_interval, receive_maximum: v.receive_maximum, maximum_qos: v.maximum_qos, retain_available: v.retain_available, maximum_packet_size: v.maximum_packet_size, assigned_client_id: v.assigned_client_id, topic_alias_maximum: None, reason_string: None, user_property: Seq::empty(), wildcard_subscription_available: None, subscription_identifiers_available: None, shared_subscription_available: None, server_keep_alive: None, response_information: None, server_reference: None, authentication_method: None, authentication_data: None }));
        let a6 = ConnAckPropertiesV { session_expiry_interval: v.session_expiry_interval, receive_maximum: v.receive_maximum, maximum_qos: v.maximum_qos, retain_available: v.retain_available, maximum_packet_size: v.maximum_packet_size, assigned_client_id: v.assigned_client_id, topic_alias_maximum: None, reason_string: None, user_property: Seq::empty(), wildcard_subscription_available: None, subscription_identifiers_available: None, shared_subscription_available: None, server_keep_alive: None, response_information: None, server_reference: None, authentication_method: None, authentication_data: None };
        lemma_merge_all_concat::<ConnAckProperties>(e, opt_entry(SESSION_EXPIRY_INTERVAL, opt_four(v.session_expiry_interval)) + opt_entry(RECEIVE_MAXIMUM, opt_two(v.receive_maximum)) + opt_entry(MAXIMUM_QOS, opt_flag(v.maximum_qos)) + opt_entry(RETAIN_AVAILABLE, opt_flag(v.retain_available)) + opt_entry(MAXIMUM_PACKET_SIZE, opt_four(v.maximum_packet_size)) + opt_entry(ASSIGNED_CLIENT_IDENTIFIER, opt_utf8(v.assigned_client_id)), opt_entry(TOPIC_ALIAS_MAXIMUM, opt_two(v.topic_alias_maximum)));
        lemma_merge_all_opt::<ConnAckProperties>(a6, TOPIC_ALIAS_MAXIMUM, opt_two(v.topic_alias_maximum));
        assert(merge_all::<ConnAckProperties>(a6, opt_entry(TOPIC_ALIAS_MAXIMUM, opt_two(v.topic_alias_maximum))) == Ok::<ConnAckPropertiesV, MQTTError>(ConnAckPropertiesV { session_expiry_interval: v.session_expiry_interval, receive_maximum: v.receive_maximum, maximum_qos: v.maximum_qos, retain_available: v.retain_available, maximum_packet_size: v.maximum_packet_size, assigned_client_id: v.assigned_client_id, topic_alias_maximum: v.topic_alias_maximum, reason_string: None, user_property: Seq::empty(), wildcard_subscription_available: None, subscription_identifiers_available: None, shared_subscription_available: None, server_keep_alive: None, response_information: None, server_reference: None, authentication_method: None, authentication_data: None }));
        assert(merge_all::<ConnAckProperties>(e, opt_entry(SESSION_EXPIRY_INTERVAL, opt_four(v.session_expiry_interval)) + opt_entry(RECEIVE_MAXIMUM, opt_two(v.receive_maximum)) + opt_entry(MAXIMUM_QOS, opt_flag(v.maximum_qos)) + opt_entry(RETAIN_AVAILABLE, opt_flag(v.retain_available)) + opt_entry(MAXIMUM_PACKET_SIZE, opt_four(v.maximum_packet_size)) + opt_entry(ASSIGNED_CLIENT_IDENTIFIER, opt_utf8(v.assigned_client_id)) + opt_entry(TOPIC_ALIAS_MAXIMUM, opt_two(v.topic_alias_maximum))) == Ok::<ConnAckPropertiesV, MQTTError>(ConnAckPropertiesV { session_expiry_interval: v.session_expiry_interval, receive_maximum: v.receive_maximum, maximum_qos: v.maximum_qos, retain_available: v.retain_available, maximum_packet_size: v.maximum_packet_size, assigned_client_id: v.assigned_client_id, topic_alias_maximum: v.topic_alias_maximum, reason_string: None, user_property: Seq::empty(), wildcard_subscription_available: None, subscription_identifiers_available: None, shared_subscription_available: None, server_keep_alive: None, response_information: None, server_reference: None, authentication_method: None, authentication_data: None }));
        let a7 = ConnAckPropertiesV { session_expiry_interval: v.session_expiry_interval, receive_maximum: v.receive_maximum, maximum_qos: v.maximum_qos, retain_available: v.retain_available, maximum_packet_size: v.maximum_packet_size, assigned_client_id: v.assigned_client_id, topic_alias_maximum: v.topic_alias_maximum, reason_string: None, user_property: Seq::empty(), wildcard_subscription_available: None, subscription_identifiers_available: None, shared_subscription_available: None, server_keep_alive: None, response_information: None, server_reference: None, authentication_method: None, authentication_data: None };
        lemma_merge_all_concat::<ConnAckProperties>(e, opt_entry(SESSION_EXPIRY_INTERVAL, opt_four(v.session_expiry_interval)) + opt_entry(RECEIVE_MAXIMUM, opt_two(v.receive_maximum)) + opt_entry(MAXIMUM_QOS, opt_flag(v.maximum_qos)) + opt_entry(RETAIN_AVAILABLE, opt_flag(v.retain_available)) + opt_entry(MAXIMUM_PACKET_SIZE, opt_four(v.maximum_packet_size)) + opt_entry(ASSIGNED_CLIENT_IDENTIFIER, opt_utf8(v.assigned_client_id)) + opt_entry(TOPIC_ALIAS_MAXIMUM, opt_two(v.topic_alias_maximum)), opt_entry(REASON_STRING, opt_utf8(v.reason_string)));
        lemma_merge_all_opt::<ConnAckProperties>(a7, REASON_STRING, opt_utf8(v.reason_string));
        assert(merge_all::<ConnAckProperties>(a7, opt_entry(REASON_STRING, opt_utf8(v.reason_string))) == Ok::<ConnAckPropertiesV, MQTTError>(ConnAckPropertiesV { session_expiry_interval: v.session_expiry_interval, receive_maximum: v.receive_maximum, maximum_qos: v.maximum_qos, retain_available: v.retain_available, maximum_packet_size: v.maximum_packet_size, assigned_client_id: v.assigned_client_id, topic_alias_maximum: v.topic_alias_maximum, reason_string: v.reason_string, user_property: Seq::empty(), wildcard_subscription_available: None, subscription_identifiers_available: None, shared_subscription_available: None, server_keep_alive: None, response_information: None, server_reference: None, authentication_method: None, authentication_data: None }));
        assert(merge_all::<ConnAckProperties>(e, opt_entry(SESSION_EXPIRY_INTERVAL, opt_four(v.session_expiry_interval)) + opt_entry(RECEIVE_MAXIMUM, opt_two(v.receive_maximum)) + opt_entry(MAXIMUM_QOS, opt_flag(v.maximum_qos)) + opt_entry(RETAIN_AVAILABLE, opt_flag(v.retain_available)) + opt_entry(MAXIMUM_PACKET_SIZE, opt_four(v.maximum_packet_size)) + opt_entry(ASSIGNED_CLIENT_IDENTIFIER, opt_utf8(v.assigned_client_id)) + opt_entry(TOPIC_ALIAS_MAXIMUM, opt_two(v.topic_alias_maximum)) + opt_entry(REASON_STRING, opt_utf8(v.reason_string))) == Ok::<ConnAckPropertiesV, MQTTError>(ConnAckPropertiesV { session_expiry_interval: v.session_expiry_interval, receive_maximum: v.receive_maximum, maximum_qos: v.maximum_qos, retain_available: v.retain_available, maximum_packet_size: v.maximum_packet_size, assigned_client_id: v.assigned_client_id, topic_alias_maximum: v.topic_alias_maximum, reason_string: v.reason_string, user_property: Seq::empty(), wildcard_subscription_available: None, subscription_identifiers_available: None, shared_subscription_available: None, server_keep_alive: None, response_information: None, server_reference: None, authentication_method: None, authentication_data: None }));
        let a8 = ConnAckPropertiesV { session_expiry_interval: v.session_expiry_interval, receive_maximum: v.receive_maximum, maximum_qos: v.maximum_qos, retain_available: v.retain_available, maximum_packet_size: v.maximum_packet_size, assigned_client_id: v.assigned_client_id, topic_alias_maximum: v.topic_alias_maximum, reason_string: v.reason_string, user_property: Seq::empty(), wildcard_subscription_available: None, subscription_identifiers_available: None, shared_subscription_available: None, server_keep_alive: None, response_information: None, server_reference: None, authentication_method: None, authentication_data: None };
        lemma_merge_all_concat::<ConnAckProperties>(e, opt_entry(SESSION_EXPIRY_INTERVAL, opt_four(v.session_expiry_interval)) + opt_entry(RECEIVE_MAXIMUM, opt_two(v.receive_maximum)) + opt_entry(MAXIMUM_QOS, opt_flag(v.maximum_qos)) + opt_entry(RETAIN_AVAILABLE, opt_flag(v.retain_available)) + opt_entry(MAXIMUM_PACKET_SIZE, opt_four(v.maximum_packet_size)) + opt_entry(ASSIGNED_CLIENT_IDENTIFIER, opt_utf8(v.assigned_client_id)) + opt_entry(TOPIC_ALIAS_MAXIMUM, opt_two(v.topic_alias_maximum)) + opt_entry(REASON_STRING, opt_utf8(v.reason_string)), user_entries(v.user_property));
        Self::lemma_merge_users(a8, v.user_property);
        assert(Seq::<UserV>::empty() + v.user_property =~= v.user_property);
        assert(ConnAckPropertiesV { user_property: a8.user_property + v.user_property, ..a8 } =~= ConnAckPropertiesV { session_expiry_interval: v.session_expiry_interval, receive_maximum: v.receive_maximum, maximum_qos: v.maximum_qos, retain_available: v.retain_available, maximum_packet_size: v.maximum_packet_size, assigned_client_id: v.assigned_client_id, topic_alias_maximum: v.topic_alias_maximum, reason_string: v.reason_string, user_property: v.user_property, wildcard_subscription_available: None, subscription_identifiers_available: None, shared_subscription_available: None, server_keep_alive: None, response_information: None, server_reference: None, authentication_method: None, authentication_data: None });
        assert(merge_all::<ConnAckProperties>(e, opt_entry(SESSION_EXPIRY_INTERVAL, opt_four(v.session_expiry_interval)) + opt_entry(RECEIVE_MAXIMUM, opt_two(v.receive_maximum)) + opt_entry(MAXIMUM_QOS, opt_flag(v.maximum_qos)) + opt_entry(RETAIN_AVAILABLE, opt_flag(v.retain_available)) + opt_entry(MAXIMUM_PACKET_SIZE, opt_four(v.maximum_packet_size)) + opt_entry(ASSIGNED_CLIENT_IDENTIFIER, opt_utf8(v.assigned_client_id)) + opt_entry(TOPIC_ALIAS_MAXIMUM, opt_two(v.topic_alias_maximum)) + opt_entry(REASON_STRING, opt_utf8(v.reason_string)) + user_entries(v.user_property)) == Ok::<ConnAckPropertiesV, MQTTError>(ConnAckPropertiesV { session_expiry_interval: v.session_expiry_interval, receive_maximum: v.receive_maximum, maximum_qos: v.maximum_qos, retain_available: v.retain_available, maximum_packet_size: v.maximum_packet_size, assigned_client_id: v.assigned_client_id, topic_alias_maximum: v.topic_alias_maximum, reason_string: v.reason_string, user_property: v.user_property, wildcard_subscription_available: None, subscription_identifiers_available: None, shared_subscription_available: None, server_keep_alive: None, response_information: None, server_reference: None, authentication_method: None, authentication_data: None }));
        let a9 = ConnAckPropertiesV { session_expiry_interval: v.session_expiry_interval, receive_maximum: v.receive_maximum, maximum_qos: v.maximum_qos, retain_available: v.retain_available, maximum_packet_size: v.maximum_packet_size, assigned_client_id: v.assigned_client_id, topic_alias_maximum: v.topic_alias_maximum, reason_string: v.reason_string, user_property: v.user_property, wildcard_subscription_available: None, subscription_identifiers_available: None, shared_subscription_available: None, server_keep_alive: None, response_information: None, server_reference: None, authentication_method: None, authentication_data: None };
        lemma_merge_all_concat::<ConnAckProperties>(e, opt_entry(SESSION_EXPIRY_INTERVAL, opt_four(v.session_expiry_interval)) + opt_entry(RECEIVE_MAXIMUM, opt_two(v.receive_maximum)) + opt_entry(MAXIMUM_QOS, opt_flag(v.maximum_qos)) + opt_entry(RETAIN_AVAILABLE, opt_flag(v.retain_available)) + opt_entry(MAXIMUM_PACKET_SIZE, opt_four(v.maximum_packet_size)) + opt_entry(ASSIGNED_CLIENT_IDENTIFIER, opt_utf8(v.assigned_client_id)) + opt_entry(TOPIC_ALIAS_MAXIMUM, opt_two(v.topic_alias_maximum)) + opt_entry(REASON_STRING, opt_utf8(v.reason_string)) + user_entries(v.user_property), opt_entry(WILDCARD_SUBSCRIPTION_AVAILABLE, opt_flag(v.wildcard_subscription_available)));
        lemma_merge_all_opt::<ConnAckProperties>(a9, WILDCARD_SUBSCRIPTION_AVAILABLE, opt_flag(v.wildcard_subscription_available));
        assert(merge_all::<ConnAckProperties>(a9, opt_entry(WILDCARD_SUBSCRIPTION_AVAILABLE, opt_flag(v.wildcard_subscription_available))) == Ok::<ConnAckPropertiesV, MQTTError>(ConnAckPropertiesV { session_expiry_interval: v.session_expiry_interval, receive_maximum: v.receive_maximum, maximum_qos: v.maximum_qos, retain_available: v.retain_available, maximum_packet_size: v.maximum_packet_size, assigned_client_id: v.assigned_client_id, topic_alias_maximum: v.topic_alias_maximum, reason_string: v.reason_string, user_property: v.user_property, wildcard_subscription_available: v.wildcard_subscription_available, subscription_identifiers_available: None, shared_subscription_available: None, server_keep_alive: None, response_information: None, server_reference: None, authentication_method: None, authentication_data: None }));
        assert(merge_all::<ConnAckProperties>(e, opt_entry(SESSION_EXPIRY_INTERVAL, opt_four(v.session_expiry_interval)) + opt_entry(RECEIVE_MAXIMUM, opt_two(v.receive_maximum)) + opt_entry(MAXIMUM_QOS, opt_flag(v.maximum_qos)) + opt_entry(RETAIN_AVAILABLE, opt_flag(v.retain_available)) + opt_entry(MAXIMUM_PACKET_SIZE, opt_four(v.maximum_packet_size)) + opt_entry(ASSIGNED_CLIENT_IDENTIFIER, opt_utf8(v.assigned_client_id)) + opt_entry(TOPIC_ALIAS_MAXIMUM, opt_two(v.topic_alias_maximum)) + opt_entry(REASON_STRING, opt_utf8(v.reason_string)) + user_entries(v.user_property) + opt_entry(WILDCARD_SUBSCRIPTION_AVAILABLE, opt_flag(v.wildcard_subscription_available))) == Ok::<ConnAckPropertiesV, MQTTError>(ConnAckPropertiesV { session_expiry_interval: v.session_expiry_interval, receive_maximum: v.receive_maximum, maximum_qos: v.maximum_qos, retain_available: v.retain_available, maximum_packet_size: v.maximum_packet_size, assigned_client_id: v.assigned_client_id, topic_alias_maximum: v.topic_alias_maximum, reason_string: v.reason_string, user_property: v.user_property, wildcard_subscription_available: v.wildcard_subscription_available, subscription_identifiers_available: None, shared_subscription_available: None, server_keep_alive: None, response_information: None, server_reference: None, authentication_method: None, authentication_data: None }));
        let a10 = ConnAckPropertiesV { session_expiry_interval: v.session_expiry_interval, receive_maximum: v.receive_maximum, maximum_qos: v.maximum_qos, retain_available: v.retain_available, maximum_packet_size: v.maximum_packet_size, assigned_client_id: v.assigned_client_id, topic_alias_maximum: v.topic_alias_maximum, reason_string: v.reason_string, user_property: v.user_property, wildcard_subscription_available: v.wildcard_subscription_available, subscription_identifiers_available: None, shared_subscription_available: None, server_keep_alive: None, response_information: None, server_reference: None, authentication_method: None, authentication_data: None };
        lemma_merge_all_concat::<ConnAckProperties>(e, opt_entry(SESSION_EXPIRY_INTERVAL, opt_four(v.session_expiry_interval)) + opt_entry(RECEIVE_MAXIMUM, opt_two(v.receive_maximum)) + opt_entry(MAXIMUM_QOS, opt_flag(v.maximum_qos)) + opt_entry(RETAIN_AVAILABLE, opt_flag(v.retain_available)) + opt_entry(MAXIMUM_PACKET_SIZE, opt_four(v.maximum_packet_size)) + opt_entry(ASSIGNED_CLIENT_IDENTIFIER, opt_utf8(v.assigned_client_id)) + opt_entry(TOPIC_ALIAS_MAXIMUM, opt_two(v.topic_alias_maximum)) + opt_entry(REASON_STRING, opt_utf8(v.reason_string)) + user_entries(v.user_property) + opt_entry(WILDCARD_SUBSCRIPTION_AVAILABLE, opt_flag(v.wildcard_subscription_available)), opt_entry(SUBSCRIPTION_IDENTIFIER_AVAILABLE, opt_flag(v.subscription_identifiers_available)));
        lemma_merge_all_opt::<ConnAckProperties>(a10, SUBSCRIPTION_IDENTIFIER_AVAILABLE, opt_flag(v.subscription_identifiers_available));
        assert(merge_all::<ConnAckProperties>(a10, opt_entry(SUBSCRIPTION_IDENTIFIER_AVAILABLE, opt_flag(v.subscription_identifiers_available))) == Ok::<ConnAckPropertiesV, MQTTError>(ConnAckPropertiesV { session_expiry_interval: v.session_expiry_interval, receive_maximum: v.receive_maximum, maximum_qos: v.maximum_qos, retain_available: v.retain_available, maximum_packet_size: v.maximum_packet_size, assigned_client_id: v.assigned_client_id, topic_alias_maximum: v.topic_alias_maximum, reason_string: v.reason_string, user_property: v.user_property, wildcard_subscription_available: v.wildcard_subscription_available, subscription_identifiers_available: v.subscription_identifiers_available, shared_subscription_available: None, server_keep_alive: None, response_information: None, server_reference: None, authentication_method: None, authentication_data: None }));
        assert(merge_all::<ConnAckProperties>(e, opt_entry(SESSION_EXPIRY_INTERVAL, opt_four(v.session_expiry_interval)) + opt_entry(RECEIVE_MAXIMUM, opt_two(v.receive_maximum)) + opt_entry(MAXIMUM_QOS, opt_flag(v.maximum_qos)) + opt_entry(RETAIN_AVAILABLE, opt_flag(v.retain_available)) + opt_entry(MAXIMUM_PACKET_SIZE, opt_four(v.maximum_packet_size)) + opt_entry(ASSIGNED_CLIENT_IDENTIFIER, opt_utf8(v.assigned_client_id)) + opt_entry(TOPIC_ALIAS_MAXIMUM, opt_two(v.topic_alias_maximum)) + opt_entry(REASON_STRING, opt_utf8(v.reason_string)) + user_entries(v.user_property) + opt_entry(WILDCARD_SUBSCRIPTION_AVAILABLE, opt_flag(v.wildcard_subscription_available)) + opt_entry(SUBSCRIPTION_IDENTIFIER_AVAILABLE, opt_flag(v.subscription_identifiers_available))) == Ok::<ConnAckPropertiesV, MQTTError>(ConnAckPropertiesV { session_expiry_interval: v.session_expiry_interval, receive_maximum: v.receive_maximum, maximum_qos: v.maximum_qos, retain_available: v.retain_available, maximum_packet_size: v.maximum_packet_size, assigned_client_id: v.assigned_client_id, topic_alias_maximum: v.topic_alias_maximum, reason_string: v.reason_string, user_property: v.user_property, wildcard_subscription_available: v.wildcard_subscription_available, subscription_identifiers_available: v.subscription_identifiers_available, shared_subscription_available: None, server_keep_alive: None, response_information: None, server_reference: None, authentication_method: None, authentication_data: None }));
        let a11 = ConnAckPropertiesV { session_expiry_interval: v.session_expiry_interval, receive_maximum: v.receive_maximum, maximum_qos: v.maximum_qos, retain_available: v.retain_available, maximum_packet_size: v.maximum_packet_size, assigned_client_id: v.assigned_client_id, topic_alias_maximum: v.topic_alias_maximum, reason_string: v.reason_string, user_property: v.user_property, wildcard_subscription_available: v.wildcard_subscription_available, subscription_identifiers_available: v.subscription_identifiers_available, shared_subscription_available: None, server_keep_alive: None, response_information: None, server_reference: None, authentication_method: None, authentication_data: None };
        lemma_merge_all_concat::<ConnAckProperties>(e, opt_entry(SESSION_EXPIRY_INTERVAL, opt_four(v.session_expiry_interval)) + opt_entry(RECEIVE_MAXIMUM, opt_two(v.receive_maximum)) + opt_entry(MAXIMUM_QOS, opt_flag(v.maximum_qos)) + opt_entry(RETAIN_AVAILABLE, opt_flag(v.retain_available)) + opt_entry(MAXIMUM_PACKET_SIZE, opt_four(v.maximum_packet_size)) + opt_entry(ASSIGNED_CLIENT_IDENTIFIER, opt_utf8(v.assigned_client_id)) + opt_entry(TOPIC_ALIAS_MAXIMUM, opt_two(v.topic_alias_maximum)) + opt_entry(REASON_STRING, opt_utf8(v.reason_string)) + user_entries(v.user_property) + opt_entry(WILDCARD_SUBSCRIPTION_AVAILABLE, opt_flag(v.wildcard_subscription_available)) + opt_entry(SUBSCRIPTION_IDENTIFIER_AVAILABLE, opt_flag(v.subscription_identifiers_available)), opt_entry(SHARED_SUBSCRIPTION_AVAILABLE, opt_flag(v.shared_subscription_available)));
        lemma_merge_all_opt::<ConnAckProperties>(a11, SHARED_SUBSCRIPTION_AVAILABLE, opt_flag(v.shared_subscription_available));
        assert(merge_all::<ConnAckProperties>(a11, opt_entry(SHARED_SUBSCRIPTION_AVAILABLE, opt_flag(v.shared_subscription_available))) == Ok::<ConnAckPropertiesV, MQTTError>(ConnAckPropertiesV { session_expiry_interval: v.session_expiry_interval, receive_maximum: v.receive_maximum, maximum_qos: v.maximum_qos, retain_available: v.retain_available, maximum_packet_size: v.maximum_packet_size, assigned_client_id: v.assigned_client_id, topic_alias_maximum: v.topic_alias_maximum, reason_string: v.reason_string, user_property: v.user_property, wildcard_subscription_available: v.wildcard_subscription_available, subscription_identifiers_available: v.subscription_identifiers_available, shared_subscription_available: v.shared_subscription_available, server_keep_alive: None, response_information: None, server_reference: None, authentication_method: None, authentication_data: None }));
        assert(merge_all::<ConnAckProperties>(e, opt_entry(SESSION_EXPIRY_INTERVAL, opt_four(v.session_expiry_interval)) + opt_entry(RECEIVE_MAXIMUM, opt_two(v.receive_maximum)) + opt_entry(MAXIMUM_QOS, opt_flag(v.maximum_qos)) + opt_entry(RETAIN_AVAILABLE, opt_flag(v.retain_available)) + opt_entry(MAXIMUM_PACKET_SIZE, opt_four(v.maximum_packet_size)) + opt_entry(ASSIGNED_CLIENT_IDENTIFIER, opt_utf8(v.assigned_client_id)) + opt_entry(TOPIC_ALIAS_MAXIMUM, opt_two(v.topic_alias_maximum)) + opt_entry(REASON_STRING, opt_utf8(v.reason_string)) + user_entries(v.user_property) + opt_entry(WILDCARD_SUBSCRIPTION_AVAILABLE, opt_flag(v.wildcard_subscription_available)) + opt_entry(SUBSCRIPTION_IDENTIFIER_AVAILABLE, opt_flag(v.subscription_identifiers_available)) + opt_entry(SHARED_SUBSCRIPTION_AVAILABLE, opt_flag(v.shared_subscription_available))) == Ok::<ConnAckPropertiesV, MQTTError>(ConnAckPropertiesV { session_expiry_interval: v.session_expiry_interval, receive_maximum: v.receive_maximum, maximum_qos: v.maximum_qos, retain_available: v.retain_available, maximum_packet_size: v.maximum_packet_size, assigned_client_id: v.assigned_client_id, topic_alias_maximum: v.topic_alias_maximum, reason_string: v.reason_string, user_property: v.user_property, wildcard_subscription_available: v.wildcard_subscription_available, subscription_identifiers_available: v.subscription_identifiers_available, shared_subscription_available: v.shared_subscription_available, server_keep_alive: None, response_information: None, server_reference: None, authentication_method: None, authentication_data: None }));
        let a12 = ConnAckPropertiesV { session_expiry_interval: v.session_expiry_interval, receive_maximum: v.receive_maximum, maximum_qos: v.maximum_qos, retain_available: v.retain_available, maximum_packet_size: v.maximum_packet_size, assigned_client_id: v.assigned_client_id, topic_alias_maximum: v.topic_alias_maximum, reason_string: v.reason_string, user_property: v.user_property, wildcard_subscription_available: v.wildcard_subscription_available, subscription_identifiers_available: v.subscription_identifiers_available, shared_subscription_available: v.shared_subscription_available, server_keep_alive: None, response_information: None, server_reference: None, authentication_method: None, authentication_data: None };
        lemma_merge_all_concat::<ConnAckProperties>(e, opt_entry(SESSION_EXPIRY_INTERVAL, opt_four(v.session_expiry_interval)) + opt_entry(RECEIVE_MAXIMUM, opt_two(v.receive_maximum)) + opt_entry(MAXIMUM_QOS, opt_flag(v.maximum_qos)) + opt_entry(RETAIN_AVAILABLE, opt_flag(v.retain_available)) + opt_entry(MAXIMUM_PACKET_SIZE, opt_four(v.maximum_packet_size)) + opt_entry(ASSIGNED_CLIENT_IDENTIFIER, opt_utf8(v.assigned_client_id)) + opt_entry(TOPIC_ALIAS_MAXIMUM, opt_two(v.topic_alias_maximum)) + opt_entry(REASON_STRING, opt_utf8(v.reason_string)) + user_entries(v.user_property) + opt_entry(WILDCARD_SUBSCRIPTION_AVAILABLE, opt_flag(v.wildcard_subscription_available)) + opt_entry(SUBSCRIPTION_IDENTIFIER_AVAILABLE, opt_flag(v.subscription_identifiers_available)) + opt_entry(SHARED_SUBSCRIPTION_AVAILABLE, opt_flag(v.shared_subscription_available)), opt_entry(SERVER_KEEP_ALIVE, opt_two(v.server_keep_alive)));
        lemma_merge_all_opt::<ConnAckProperties>(a12, SERVER_KEEP_ALIVE, opt_two(v.server_keep_alive));
        assert(merge_all::<ConnAckProperties>(a12, opt_entry(SERVER_KEEP_ALIVE, opt_two(v.server_keep_alive))) == Ok::<ConnAckPropertiesV, MQTTError>(ConnAckPropertiesV { session_expiry_interval: v.session_expiry_interval, receive_maximum: v.receive_maximum, maximum_qos: v.maximum_qos, retain_available: v.retain_available, maximum_packet_size: v.maximum_packet_size, assigned_client_id: v.assigned_client_id, topic_alias_maximum: v.topic_alias_maximum, reason_string: v.reason_string, user_property: v.user_property, wildcard_subscription_available: v.wildcard_subscription_available, subscription_identifiers_available: v.subscription_identifiers_available, shared_subscription_available: v.shared_subscription_available, server_keep_alive: v.server_keep_alive, response_information: None, server_reference: None, authentication_method: None, authentication_data: None }));
        assert(merge_all::<ConnAckProperties>(e, opt_entry(SESSION_EXPIRY_INTERVAL, opt_four(v.session_expiry_interval)) + opt_entry(RECEIVE_MAXIMUM, opt_two(v.receive_maximum)) + opt_entry(MAXIMUM_QOS, opt_flag(v.maximum_qos)) + opt_entry(RETAIN_AVAILABLE, opt_flag(v.retain_available)) + opt_entry(MAXIMUM_PACKET_SIZE, opt_four(v.maximum_packet_size)) + opt_entry(ASSIGNED_CLIENT_IDENTIFIER, opt_utf8(v.assigned_client_id)) + opt_entry(TOPIC_ALIAS_MAXIMUM, opt_two(v.topic_alias_maximum)) + opt_entry(REASON_STRING, opt_utf8(v.reason_string)) + user_entries(v.user_property) + opt_entry(WILDCARD_SUBSCRIPTION_AVAILABLE, opt_flag(v.wildcard_subscription_available)) + opt_entry(SUBSCRIPTION_IDENTIFIER_AVAILABLE, opt_flag(v.subscription_identifiers_available)) + opt_entry(SHARED_SUBSCRIPTION_AVAILABLE, opt_flag(v.shared_subscription_available)) + opt_entry(SERVER_KEEP_ALIVE, opt_two(v.server_keep_alive))) == Ok::<ConnAckPropertiesV, MQTTError>(ConnAckPropertiesV { session_expiry_interval: v.session_expiry_interval, receive_maximum: v.receive_maximum, maximum_qos: v.maximum_qos, retain_available: v.retain_available, maximum_packet_size: v.maximum_packet_size, assigned_client_id: v.assigned_client_id, topic_alias_maximum: v.topic_alias_maximum, reason_string: v.reason_string, user_property: v.user_property, wildcard_subscription_available: v.wildcard_subscription_available, subscription_identifiers_available: v.subscription_identifiers_available, shared_subscription_available: v.shared_subscription_available, server_keep_alive: v.server_keep_alive, response_information: None, server_reference: None, authentication_method: None, authentication_data: None }));
        let a13 = ConnAckPropertiesV { session_expiry_interval: v.session_expiry_interval, receive_maximum: v.receive_maximum, maximum_qos: v.maximum_qos, retain_available: v.retain_available, maximum_packet_size: v.maximum_packet_size, assigned_client_id: v.assigned_client_id, topic_alias_maximum: v.topic_alias_maximum, reason_string: v.reason_string, user_property: v.user_property, wildcard_subscription_available: v.wildcard_subscription_available, subscription_identifiers_available: v.subscription_identifiers_available, shared_subscription_available: v.shared_subscription_available, server_keep_alive: v.server_keep_alive, response_information: None, server_reference: None, authentication_method: None, authentication_data: None };
        lemma_merge_all_concat::<ConnAckProperties>(e, opt_entry(SESSION_EXPIRY_INTERVAL, opt_four(v.session_expiry_interval)) + opt_entry(RECEIVE_MAXIMUM, opt_two(v.receive_maximum)) + opt_entry(MAXIMUM_QOS, opt_flag(v.maximum_qos)) + opt_entry(RETAIN_AVAILABLE, opt_flag(v.retain_available)) + opt_entry(MAXIMUM_PACKET_SIZE, opt_four(v.maximum_packet_size)) + opt_entry(ASSIGNED_CLIENT_IDENTIFIER, opt_utf8(v.assigned_client_id)) + opt_entry(TOPIC_ALIAS_MAXIMUM, opt_two(v.topic_alias_maximum)) + opt_entry(REASON_STRING, opt_utf8(v.reason_string)) + user_entries(v.user_property) + opt_entry(WILDCARD_SUBSCRIPTION_AVAILABLE, opt_flag(v.wildcard_subscription_available)) + opt_entry(SUBSCRIPTION_IDENTIFIER_AVAILABLE, opt_flag(v.subscription_identifiers_available)) + opt_entry(SHARED_SUBSCRIPTION_AVAILABLE, opt_flag(v.shared_subscription_available)) + opt_entry(SERVER_KEEP_ALIVE, opt_two(v.server_keep_alive)), opt_entry(RESPONSE_INFORMATION, opt_utf8(v.response_information)));
        lemma_merge_all_opt::<ConnAckProperties>(a13, RESPONSE_INFORMATION, opt_utf8(v.response_information));
        assert(merge_all::<ConnAckProperties>(a13, opt_entry(RESPONSE_INFORMATION, opt_utf8(v.response_information))) == Ok::<ConnAckPropertiesV, MQTTError>(ConnAckPropertiesV { session_expiry_interval: v.session_expiry_interval, receive_maximum: v.receive_maximum, maximum_qos: v.maximum_qos, retain_available: v.retain_available, maximum_packet_size: v.maximum_packet_size, assigned_client_id: v.assigned_client_id, topic_alias_maximum: v.topic_alias_maximum, reason_string: v.reason_string, user_property: v.user_property, wildcard_subscription_available: v.wildcard_subscription_available, subscription_identifiers_available: v.subscription_identifiers_available, shared_subscription_available: v.shared_subscription_available, server_keep_alive: v.server_keep_alive, response_information: v.response_information, server_reference: None, authentication_method: None, authentication_data: None }));
        assert(merge_all::<ConnAckProperties>(e, opt_entry(SESSION_EXPIRY_INTERVAL, opt_four(v.session_expiry_interval)) + opt_entry(RECEIVE_MAXIMUM, opt_two(v.receive_maximum)) + opt_entry(MAXIMUM_QOS, opt_flag(v.maximum_qos)) + opt_entry(RETAIN_AVAILABLE, opt_flag(v.retain_available)) + opt_entry(MAXIMUM_PACKET_SIZE, opt_four(v.maximum_packet_size)) + opt_entry(ASSIGNED_CLIENT_IDENTIFIER, opt_utf8(v.assigned_client_id)) + opt_entry(TOPIC_ALIAS_MAXIMUM, opt_two(v.topic_alias_maximum)) + opt_entry(REASON_STRING, opt_utf8(v.reason_string)) + user_entries(v.user_property) + opt_entry(WILDCARD_SUBSCRIPTION_AVAILABLE, opt_flag(v.wildcard_subscription_available)) + opt_entry(SUBSCRIPTION_IDENTIFIER_AVAILABLE, opt_flag(v.subscription_identifiers_available)) + opt_entry(SHARED_SUBSCRIPTION_AVAILABLE, opt_flag(v.shared_subscription_available)) + opt_entry(SERVER_KEEP_ALIVE, opt_two(v.server_keep_alive)) + opt_entry(RESPONSE_INFORMATION, opt_utf8(v.response_information))) == Ok::<ConnAckPropertiesV, MQTTError>(ConnAckPropertiesV { session_expiry_interval: v.session_expiry_interval, receive_maximum: v.receive_maximum, maximum_qos: v.maximum_qos, retain_available: v.retain_available, maximum_packet_size: v.maximum_packet_size, assigned_client_id: v.assigned_client_id, topic_alias_maximum: v.topic_alias_maximum, reason_string: v.reason_string, user_property: v.user_property, wildcard_subscription_available: v.wildcard_subscription_available, subscription_identifiers_available: v.subscription_identifiers_available, shared_subscription_available: v.shared_subscription_available, server_keep_alive: v.server_keep_alive, response_information: v.response_information, server_reference: None, authentication_method: None, authentication_data: None }));
        let a14 = ConnAckPropertiesV { session_expiry_interval: v.session_expiry_interval, receive_maximum: v.receive_maximum, maximum_qos: v.maximum_qos, retain_available: v.retain_available, maximum_packet_size: v.maximum_packet_size, assigned_client_id: v.assigned_client_id, topic_alias_maximum: v.topic_alias_maximum, reason_string: v.reason_string, user_property: v.user_property, wildcard_subscription_available: v.wildcard_subscription_available, subscription_identifiers_available: v.subscription_identifiers_available, shared_subscription_available: v.shared_subscription_available, server_keep_alive: v.server_keep_alive, response_information: v.response_information, server_reference: None, authentication_method: None, authentication_data: None };
        lemma_merge_all_concat::<ConnAckProperties>(e, opt_entry(SESSION_EXPIRY_INTERVAL, opt_four(v.session_expiry_interval)) + opt_entry(RECEIVE_MAXIMUM, opt_two(v.receive_maximum)) + opt_entry(MAXIMUM_QOS, opt_flag(v.maximum_qos)) + opt_entry(RETAIN_AVAILABLE, opt_flag(v.retain_available)) + opt_entry(MAXIMUM_PACKET_SIZE, opt_four(v.maximum_packet_size)) + opt_entry(ASSIGNED_CLIENT_IDENTIFIER, opt_utf8(v.assigned_client_id)) + opt_entry(TOPIC_ALIAS_MAXIMUM, opt_two(v.topic_alias_maximum)) + opt_entry(REASON_STRING, opt_utf8(v.reason_string)) + user_entries(v.user_property) + opt_entry(WILDCARD_SUBSCRIPTION_AVAILABLE, opt_flag(v.wildcard_subscription_available)) + opt_entry(SUBSCRIPTION_IDENTIFIER_AVAILABLE, opt_flag(v.subscription_identifiers_available)) + opt_entry(SHARED_SUBSCRIPTION_AVAILABLE, opt_flag(v.shared_subscription_available)) + opt_entry(SERVER_KEEP_ALIVE, opt_two(v.server_keep_alive)) + opt_entry(RESPONSE_INFORMATION, opt_utf8(v.response_information)), opt_entry(SERVER_REFERENCE, opt_utf8(v.server_reference)));
        lemma_merge_all_opt::<ConnAckProperties>(a14, SERVER_REFERENCE, opt_utf8(v.server_reference));
        assert(merge_all::<ConnAckProperties>(a14, opt_entry(SERVER_REFERENCE, opt_utf8(v.server_reference))) == Ok::<ConnAckPropertiesV, MQTTError>(ConnAckPropertiesV { session_expiry_interval: v.session_expiry_interval, receive_maximum: v.receive_maximum, maximum_qos: v.maximum_qos, retain_available: v.retain_available, maximum_packet_size: v.maximum_packet_size, assigned_client_id: v.assigned_client_id, topic_alias_maximum: v.topic_alias_maximum, reason_string: v.reason_string, user_property: v.user_property, wildcard_subscription_available: v.wildcard_subscription_available, subscription_identifiers_available: v.subscription_identifiers_available, shared_subscription_available: v.shared_subscription_available, server_keep_alive: v.server_keep_alive, response_information: v.response_information, server_reference: v.server_reference, authentication_method: None, authentication_data: None }));
        assert(merge_all::<ConnAckProperties>(e, opt_entry(SESSION_EXPIRY_INTERVAL, opt_four(v.session_expiry_interval)) + opt_entry(RECEIVE_MAXIMUM, opt_two(v.receive_maximum)) + opt_entry(MAXIMUM_QOS, opt_flag(v.maximum_qos)) + opt_entry(RETAIN_AVAILABLE, opt_flag(v.retain_available)) + opt_entry(MAXIMUM_PACKET_SIZE, opt_four(v.maximum_packet_size)) + opt_entry(ASSIGNED_CLIENT_IDENTIFIER, opt_utf8(v.assigned_client_id)) + opt_entry(TOPIC_ALIAS_MAXIMUM, opt_two(v.topic_alias_maximum)) + opt_entry(REASON_STRING, opt_utf8(v.reason_string)) + user_entries(v.user_property) + opt_entry(WILDCARD_SUBSCRIPTION_AVAILABLE, opt_flag(v.wildcard_subscription_available)) + opt_entry(SUBSCRIPTION_IDENTIFIER_AVAILABLE, opt_flag(v.subscription_identifiers_available)) + opt_entry(SHARED_SUBSCRIPTION_AVAILABLE, opt_flag(v.shared_subscription_available)) + opt_entry(SERVER_KEEP_ALIVE, opt_two(v.server_keep_alive)) + opt_entry(RESPONSE_INFORMATION, opt_utf8(v.response_information)) + opt_entry(SERVER_REFERENCE, opt_utf8(v.server_reference))) == Ok::<ConnAckPropertiesV, MQTTError>(ConnAckPropertiesV { session_expiry_interval: v.session_expiry_interval, receive_maximum: v.receive_maximum, maximum_qos: v.maximum_qos, retain_available: v.retain_available, maximum_packet_size: v.maximum_packet_size, assigned_client_id: v.assigned_client_id, topic_alias_maximum: v.topic_alias_maximum, reason_string: v.reason_string, user_property: v.user_property, wildcard_subscription_available: v.wildcard_subscription_available, subscription_identifiers_available: v.subscription_identifiers_available, shared_subscription_available: v.shared_subscription_available, server_keep_alive: v.server_keep_alive, response_information: v.response_information, server_reference: v.server_reference, authentication_method: None, authentication_data: None }));
        let a15 = ConnAckPropertiesV { session_expiry_interval: v.session_expiry_interval, receive_maximum: v.receive_maximum, maximum_qos: v.maximum_qos, retain_available: v.retain_available, maximum_packet_size: v.maximum_packet_size, assigned_client_id: v.assigned_client_id, topic_alias_maximum: v.topic_alias_maximum, reason_string: v.reason_string, user_property: v.user_property, wildcard_subscription_available: v.wildcard_subscription_available, subscription_identifiers_available: v.subscription_identifiers_available, shared_subscription_available: v.shared_subscription_available, server_keep_alive: v.server_keep_alive, response_information: v.response_information, server_reference: v.server_reference, authentication_method: None, authentication_data: None };
        lemma_merge_all_concat::<ConnAckProperties>(e, opt_entry(SESSION_EXPIRY_INTERVAL, opt_four(v.session_expiry_interval)) + opt_entry(RECEIVE_MAXIMUM, opt_two(v.receive_maximum)) + opt_entry(MAXIMUM_QOS, opt_flag(v.maximum_qos)) + opt_entry(RETAIN_AVAILABLE, opt_flag(v.retain_available)) + opt_entry(MAXIMUM_PACKET_SIZE, opt_four(v.maximum_packet_size)) + opt_entry(ASSIGNED_CLIENT_IDENTIFIER, opt_utf8(v.assigned_client_id)) + opt_entry(TOPIC_ALIAS_MAXIMUM, opt_two(v.topic_alias_maximum)) + opt_entry(REASON_STRING, opt_utf8(v.reason_string)) + user_entries(v.user_property) + opt_entry(WILDCARD_SUBSCRIPTION_AVAILABLE, opt_flag(v.wildcard_subscription_available)) + opt_entry(SUBSCRIPTION_IDENTIFIER_AVAILABLE, opt_flag(v.subscription_identifiers_available)) + opt_entry(SHARED_SUBSCRIPTION_AVAILABLE, opt_flag(v.shared_subscription_available)) + opt_entry(SERVER_KEEP_ALIVE, opt_two(v.server_keep_alive)) + opt_entry(RESPONSE_INFORMATION, opt_utf8(v.response_information)) + opt_entry(SERVER_REFERENCE, opt_utf8(v.server_reference)), opt_entry(AUTHENTICATION_METHOD, opt_utf8(v.authentication_method)));
        lemma_merge_all_opt::<ConnAckProperties>(a15, AUTHENTICATION_METHOD, opt_utf8(v.authentication_method));
        assert(merge_all::<ConnAckProperties>(a15, opt_entry(AUTHENTICATION_METHOD, opt_utf8(v.authentication_method))) == Ok::<ConnAckPropertiesV, MQTTError>(ConnAckPropertiesV { session_expiry_interval: v.session_expiry_interval, receive_maximum: v.receive_maximum, maximum_qos: v.maximum_qos, retain_available: v.retain_available, maximum_packet_size: v.maximum_packet_size, assigned_client_id: v.assigned_client_id, topic_alias_maximum: v.topic_alias_maximum, reason_string: v.reason_string, user_property: v.user_property, wildcard_subscription_available: v.wildcard_subscription_available, subscription_identifiers_available: v.subscription_identifiers_available, shared_subscription_available: v.shared_subscription_available, server_keep_alive: v.server_keep_alive, response_information: v.response_information, server_reference: v.server_reference, authentication_method: v.authentication_method, authentication_data: None }));
        assert(merge_all::<ConnAckProperties>(e, opt_entry(SESSION_EXPIRY_INTERVAL, opt_four(v.session_expiry_interval)) + opt_entry(RECEIVE_MAXIMUM, opt_two(v.receive_maximum)) + opt_entry(MAXIMUM_QOS, opt_flag(v.maximum_qos)) + opt_entry(RETAIN_AVAILABLE, opt_flag(v.retain_available)) + opt_entry(MAXIMUM_PACKET_SIZE, opt_four(v.maximum_packet_size)) + opt_entry(ASSIGNED_CLIENT_IDENTIFIER, opt_utf8(v.assigned_client_id)) + opt_entry(TOPIC_ALIAS_MAXIMUM, opt_two(v.topic_alias_maximum)) + opt_entry(REASON_STRING, opt_utf8(v.reason_string)) + user_entries(v.user_property) + opt_entry(WILDCARD_SUBSCRIPTION_AVAILABLE, opt_flag(v.wildcard_subscription_available)) + opt_entry(SUBSCRIPTION_IDENTIFIER_AVAILABLE, opt_flag(v.subscription_identifiers_available)) + opt_entry(SHARED_SUBSCRIPTION_AVAILABLE, opt_flag(v.shared_subscription_available)) + opt_entry(SERVER_KEEP_ALIVE, opt_two(v.server_keep_alive)) + opt_entry(RESPONSE_INFORMATION, opt_utf8(v.response_information)) + opt_entry(SERVER_REFERENCE, opt_utf8(v.server_reference)) + opt_entry(AUTHENTICATION_METHOD, opt_utf8(v.authentication_method))) == Ok::<ConnAckPropertiesV, MQTTError>(ConnAckPropertiesV { session_expiry_interval: v.session_expiry_interval, receive_maximum: v.receive_maximum, maximum_qos: v.maximum_qos, retain_available: v.retain_available, maximum_packet_size: v.maximum_packet_size, assigned_client_id: v.assigned_client_id, topic_alias_maximum: v.topic_alias_maximum, reason_string: v.reason_string, user_property: v.user_property, wildcard_subscription_available: v.wildcard_subscription_available, subscription_identifiers_available: v.subscription_identifiers_available, shared_subscription_available: v.shared_subscription_available, server_keep_alive: v.server_keep_alive, response_information: v.response_information, server_reference: v.server_reference, authentication_method: v.authentication_method, authentication_data: None }));
        let a16 = ConnAckPropertiesV { session_expiry_interval: v.session_expiry_interval, receive_maximum: v.receive_maximum, maximum_qos: v.maximum_qos, retain_available: v.retain_available, maximum_packet_size: v.maximum_packet_size, assigned_client_id: v.assigned_client_id, topic_alias_maximum: v.topic_alias_maximum, reason_string: v.reason_string, user_property: v.user_property, wildcard_subscription_available: v.wildcard_subscription_available, subscription_identifiers_available: v.subscription_identifiers_available, shared_subscription_available: v.shared_subscription_available, server_keep_alive: v.server_keep_alive, response_information: v.response_information, server_reference: v.server_reference, authentication_method: v.authentication_method, authentication_data: None };
        lemma_merge_all_concat::<ConnAckProperties>(e, opt_entry(SESSION_EXPIRY_INTERVAL, opt_four(v.session_expiry_interval)) + opt_entry(RECEIVE_MAXIMUM, opt_two(v.receive_maximum)) + opt_entry(MAXIMUM_QOS, opt_flag(v.maximum_qos)) + opt_entry(RETAIN_AVAILABLE, opt_flag(v.retain_available)) + opt_entry(MAXIMUM_PACKET_SIZE, opt_four(v.maximum_packet_size)) + opt_entry(ASSIGNED_CLIENT_IDENTIFIER, opt_utf8(v.assigned_client_id)) + opt_entry(TOPIC_ALIAS_MAXIMUM, opt_two(v.topic_alias_maximum)) + opt_entry(REASON_STRING, opt_utf8(v.reason_string)) + user_entries(v.user_property) + opt_entry(WILDCARD_SUBSCRIPTION_AVAILABLE, opt_flag(v.wildcard_subscription_available)) + opt_entry(SUBSCRIPTION_IDENTIFIER_AVAILABLE, opt_flag(v.subscription_identifiers_available)) + opt_entry(SHARED_SUBSCRIPTION_AVAILABLE, opt_flag(v.shared_subscription_available)) + opt_entry(SERVER_KEEP_ALIVE, opt_two(v.server_keep_alive)) + opt_entry(RESPONSE_INFORMATION, opt_utf8(v.response_information)) + opt_entry(SERVER_REFERENCE, opt_utf8(v.server_reference)) + opt_entry(AUTHENTICATION_METHOD, opt_utf8(v.authentication_method)), opt_entry(AUTHENTICATION_DATA, opt_binary(v.authentication_data)));
        lemma_merge_all_opt::<ConnAckProperties>(a16, AUTHENTICATION_DATA, opt_binary(v.authentication_data));
        assert(merge_all::<ConnAckProperties>(a16, opt_entry(AUTHENTICATION_DATA, opt_binary(v.authentication_data))) == Ok::<ConnAckPropertiesV, MQTTError>(ConnAckPropertiesV { session_expiry_interval: v.session_expiry_interval, receive_maximum: v.receive_maximum, maximum_qos: v.maximum_qos, retain_available: v.retain_available, maximum_packet_size: v.maximum_packet_size, assigned_client_id: v.assigned_client_id, topic_alias_maximum: v.topic_alias_maximum, reason_string: v.reason_string, user_property: v.user_property, wildcard_subscription_available: v.wildcard_subscription_available, subscription_identifiers_available: v.subscription_identifiers_available, shared_subscription_available: v.shared_subscription_available, server_keep_alive: v.server_keep_alive, response_information: v.response_information, server_reference: v.server_reference, authentication_method: v.authentication_method, authentication_data: v.authentication_data }));
        assert(merge_all::<ConnAckProperties>(e, opt_entry(SESSION_EXPIRY_INTERVAL, opt_four(v.session_expiry_interval)) + opt_entry(RECEIVE_MAXIMUM, opt_two(v.receive_maximum)) + opt_entry(MAXIMUM_QOS, opt_flag(v.maximum_qos)) + opt_entry(RETAIN_AVAILABLE, opt_flag(v.retain_available)) + opt_entry(MAXIMUM_PACKET_SIZE, opt_four(v.maximum_packet_size)) + opt_entry(ASSIGNED_CLIENT_IDENTIFIER, opt_utf8(v.assigned_client_id)) + opt_entry(TOPIC_ALIAS_MAXIMUM, opt_two(v.topic_alias_maximum)) + opt_entry(REASON_STRING, opt_utf8(v.reason_string)) + user_entries(v.user_property) + opt_entry(WILDCARD_SUBSCRIPTION_AVAILABLE, opt_flag(v.wildcard_subscription_available)) + opt_entry(SUBSCRIPTION_IDENTIFIER_AVAILABLE, opt_flag(v.subscription_identifiers_available)) + opt_entry(SHARED_SUBSCRIPTION_AVAILABLE, opt_flag(v.shared_subscription_available)) + opt_entry(SERVER_KEEP_ALIVE, opt_two(v.server_keep_alive)) + opt_entry(RESPONSE_INFORMATION, opt_utf8(v.response_information)) + opt_entry(SERVER_REFERENCE, opt_utf8(v.server_reference)) + opt_entry(AUTHENTICATION_METHOD, opt_utf8(v.authentication_method)) + opt_entry(AUTHENTICATION_DATA, opt_binary(v.authentication_data))) == Ok::<ConnAckPropertiesV, MQTTError>(ConnAckPropertiesV { session_expiry_interval: v.session_expiry_interval, receive_maximum: v.receive_maximum, maximum_qos: v.maximum_qos, retain_available: v.retain_available, maximum_packet_size: v.maximum_packet_size, assigned_client_id: v.assigned_client_id, topic_alias_maximum: v.topic_alias_maximum, reason_string: v.reason_string, user_property: v.user_property, wildcard_subscription_available: v.wildcard_subscription_available, subscription_identifiers_available: v.subscription_identifiers_available, shared_subscription_available: v.shared_subscription_available, server_keep_alive: v.server_keep_alive, response_information: v.response_information, server_reference: v.server_reference, authentication_method: v.authentication_method, authentication_data: v.authentication_data }));
        assert(ConnAckPropertiesV { session_expiry_interval: v.session_expiry_interval, receive_maximum: v.receive_maximum, maximum_qos: v.maximum_qos, retain_available: v.retain_available, maximum_packet_size: v.maximum_packet_size, assigned_client_id: v.assigned_client_id, topic_alias_maximum: v.topic_alias_maximum, reason_string: v.reason_string, user_property: v.user_property, wildcard_subscription_available: v.wildcard_subscription_available, subscription_identifiers_available: v.subscription_identifiers_available, shared_subscription_available: v.shared_subscription_available, server_keep_alive: v.server_keep_alive, response_information: v.response_information, server_reference: v.server_reference, authentication_method: v.authentication_method, authentication_data: v.authentication_data } =~= v);
    }

    /// Properties written without failing take the encoding of their
    /// Property Length (what `length` gives), then exactly that many bytes.
    pub proof fn lemma_length(v: ConnAckPropertiesV)
        requires
            spec_write_properties(Self::spec_entries(v)).0 is Ok,
        ensures
            spec_write_properties(Self::spec_entries(v)).1.len() == spec_variable_length(
                entries_size(Self::spec_entries(v)),
            ) + entries_size(Self::spec_entries(v)),
    {
        lemma_written_properties_len(Self::spec_entries(v));
    }

    /// The Property Length.
    pub fn length(&self) -> (r: usize)
        requires
            entries_size(Self::spec_entries(self@)) <= usize::MAX,
        ensures
            r == entries_size(Self::spec_entries(self@)),
    {
        properties_length(self)
    }

    /// Writes the Property Length, then the present properties in order.
    pub fn write(&self, buf: &mut BytesMut) -> (r: Result<(), MQTTError>)
        requires
            bytes_mut_view(*old(buf)).len() + 4 + entries_size(Self::spec_entries(self@)) <= isize::MAX,
        ensures
            r == spec_write_properties(Self::spec_entries(self@)).0,
            bytes_mut_view(*final(buf)) == bytes_mut_view(*old(buf)) + spec_write_properties(
                Self::spec_entries(self@),
            ).1,
    {
        write_properties(self, buf)
    }

    /// Reads a property list; a property this packet does not allow is
    /// `UnexpectedProperty`, a second instance of a single property `DuplicateProperty`.
    pub fn read(buf: &mut Bytes) -> (r: Result<Self, MQTTError>)
        ensures
            match (r, parse_properties::<ConnAckProperties>(bytes_view(*old(buf)), "").0) {
                (Ok(t), Ok(v)) => t@ == v,
                (Err(e), Err(f)) => e == f,
                _ => false,
            },
            bytes_view(*final(buf)) == bytes_view(*old(buf)).skip(
                parse_properties::<ConnAckProperties>(bytes_view(*old(buf)), "").1 as int,
            ),
    {
        read_properties(buf, "")
    }

    /// Reading written properties gives them back.
    pub proof fn lemma_write_read(v: ConnAckPropertiesV, rest: Seq<u8>)
        requires
            entries_fit(Self::spec_entries(v)),
            entries_size(Self::spec_entries(v)) <= VARINT_MAX,
        ensures
            spec_write_properties(Self::spec_entries(v)).0 == Ok::<(), MQTTError>(()),
            parse_properties::<ConnAckProperties>(spec_write_properties(Self::spec_entries(v)).1 + rest, "") == (
                Ok::<ConnAckPropertiesV, MQTTError>(v),
                spec_write_properties(Self::spec_entries(v)).1.len(),
            ),
    {
        Self::lemma_entries_merge(v);
        lemma_properties_roundtrip::<ConnAckProperties>(v, rest, "");
    }
}

impl Default for ConnAckProperties {
    fn default() -> (r: Self)
        ensures
            r@ == Self::spec_empty(),
    {
        Self::empty()
    }
}

/// Each property is written under the identifier that MQTT 5 assigns to it
/// (section 2.2.2.2): a set holding one property, whatever its value, is
/// written as exactly that property under its identifier.
pub proof fn lemma_conn_ack_properties_identifiers_written(session_expiry_interval: u32, receive_maximum: u16, maximum_qos: bool, retain_available: bool, maximum_packet_size: u32, assigned_client_id: Seq<char>, topic_alias_maximum: u16, reason_string: Seq<char>, wildcard_subscription_available: bool, subscription_identifiers_available: bool, shared_subscription_available: bool, server_keep_alive: u16, response_information: Seq<char>, server_reference: Seq<char>, authentication_method: Seq<char>, authentication_data: Seq<u8>, user_key: Seq<char>, user_value: Seq<char>)
    ensures
        ConnAckProperties::spec_entries(ConnAckPropertiesV { session_expiry_interval: Some(session_expiry_interval), ..ConnAckProperties::spec_empty() }) == seq![(17u8, ValueV::FourByte(session_expiry_interval))],
        ConnAckProperties::spec_entries(ConnAckPropertiesV { receive_maximum: Some(receive_maximum), ..ConnAckProperties::spec_empty() }) == seq![(33u8, ValueV::TwoByte(receive_maximum))],
        ConnAckProperties::spec_entries(ConnAckPropertiesV { maximum_qos: Some(maximum_qos), ..ConnAckProperties::spec_empty() }) == seq![(36u8, ValueV::Byte(if maximum_qos { 1u8 } else { 0u8 }))],
        ConnAckProperties::spec_entries(ConnAckPropertiesV { retain_available: Some(retain_available), ..ConnAckProperties::spec_empty() }) == seq![(37u8, ValueV::Byte(if retain_available { 1u8 } else { 0u8 }))],
        ConnAckProperties::spec_entries(ConnAckPropertiesV { maximum_packet_size: Some(maximum_packet_size), ..ConnAckProperties::spec_empty() }) == seq![(39u8, ValueV::FourByte(maximum_packet_size))],
        ConnAckProperties::spec_entries(ConnAckPropertiesV { assigned_client_id: Some(assigned_client_id), ..ConnAckProperties::spec_empty() }) == seq![(18u8, ValueV::Utf8(assigned_client_id))],
        ConnAckProperties::spec_entries(ConnAckPropertiesV { topic_alias_maximum: Some(topic_alias_maximum), ..ConnAckProperties::spec_empty() }) == seq![(34u8, ValueV::TwoByte(topic_alias_maximum))],
        ConnAckProperties::spec_entries(ConnAckPropertiesV { reason_string: Some(reason_string), ..ConnAckProperties::spec_empty() }) == seq![(31u8, ValueV::Utf8(reason_string))],
        ConnAckProperties::spec_entries(ConnAckPropertiesV { wildcard_subscription_available: Some(wildcard_subscription_available), ..ConnAckProperties::spec_empty() }) == seq![(40u8, ValueV::Byte(if wildcard_subscription_available { 1u8 } else { 0u8 }))],
        ConnAckProperties::spec_entries(ConnAckPropertiesV { subscription_identifiers_available: Some(subscription_identifiers_available), ..ConnAckProperties::spec_empty() }) == seq![(41u8, ValueV::Byte(if subscription_identifiers_available { 1u8 } else { 0u8 }))],
        ConnAckProperties::spec_entries(ConnAckPropertiesV { shared_subscription_available: Some(shared_subscription_available), ..ConnAckProperties::spec_empty() }) == seq![(42u8, ValueV::Byte(if shared_subscription_available { 1u8 } else { 0u8 }))],
        ConnAckProperties::spec_entries(ConnAckPropertiesV { server_keep_alive: Some(server_keep_alive), ..ConnAckProperties::spec_empty() }) == seq![(19u8, ValueV::TwoByte(server_keep_alive))],
        ConnAckProperties::spec_entries(ConnAckPropertiesV { response_information: Some(response_information), ..ConnAckProperties::spec_empty() }) == seq![(26u8, ValueV::Utf8(response_information))],
        ConnAckProperties::spec_entries(ConnAckPropertiesV { server_reference: Some(server_reference), ..ConnAckProperties::spec_empty() }) == seq![(28u8, ValueV::Utf8(server_reference))],
        ConnAckProperties::spec_entries(ConnAckPropertiesV { authentication_method: Some(authentication_method), ..ConnAckProperties::spec_empty() }) == seq![(21u8, ValueV::Utf8(authentication_method))],
        ConnAckProperties::spec_entries(ConnAckPropertiesV { authentication_data: Some(authentication_data), ..ConnAckProperties::spec_empty() }) == seq![(22u8, ValueV::Binary(authentication_data))],
        ConnAckProperties::spec_entries(ConnAckPropertiesV { user_property: seq![(user_key, user_value)], ..ConnAckProperties::spec_empty() }) == seq![(38u8, ValueV::Pair(user_key, user_value))],
{
}

/// Reading a property under the identifier that MQTT 5 assigns to a field
/// sets that field and no other, into any set; a second one of a field that
/// may appear once is a duplicate, reported with its identifier.
pub proof fn lemma_conn_ack_properties_identifiers_read(v: ConnAckPropertiesV, session_expiry_interval: u32, receive_maximum: u16, maximum_qos: u8, retain_available: u8, maximum_packet_size: u32, assigned_client_id: Seq<char>, topic_alias_maximum: u16, reason_string: Seq<char>, wildcard_subscription_available: u8, subscription_identifiers_available: u8, shared_subscription_available: u8, server_keep_alive: u16, response_information: Seq<char>, server_reference: Seq<char>, authentication_method: Seq<char>, authentication_data: Seq<u8>, user_key: Seq<char>, user_value: Seq<char>)
    ensures
        ConnAckProperties::spec_merge(v, (17u8, ValueV::FourByte(session_expiry_interval))) == if v.session_expiry_interval is Some {
            Err::<ConnAckPropertiesV, MQTTError>(MQTTError::DuplicateProperty(17u8))
        } else {
            Ok::<ConnAckPropertiesV, MQTTError>(ConnAckPropertiesV { session_expiry_interval: Some(session_expiry_interval), ..v })
        },
        ConnAckProperties::spec_merge(v, (33u8, ValueV::TwoByte(receive_maximum))) == if v.receive_maximum is Some {
            Err::<ConnAckPropertiesV, MQTTError>(MQTTError::DuplicateProperty(33u8))
        } else {
            Ok::<ConnAckPropertiesV, MQTTError>(ConnAckPropertiesV { receive_maximum: Some(receive_maximum), ..v })
        },
        ConnAckProperties::spec_merge(v, (36u8, ValueV::Byte(maximum_qos))) == if v.maximum_qos is Some {
            Err::<ConnAckPropertiesV, MQTTError>(MQTTError::DuplicateProperty(36u8))
        } else {
            Ok::<ConnAckPropertiesV, MQTTError>(ConnAckPropertiesV { maximum_qos: Some(maximum_qos != 0), ..v })
        },
        ConnAckProperties::spec_merge(v, (37u8, ValueV::Byte(retain_available))) == if v.retain_available is Some {
            Err::<ConnAckPropertiesV, MQTTError>(MQTTError::DuplicateProperty(37u8))
        } else {
            Ok::<ConnAckPropertiesV, MQTTError>(ConnAckPropertiesV { retain_available: Some(retain_available != 0), ..v })
        },
        ConnAckProperties::spec_merge(v, (39u8, ValueV::FourByte(maximum_packet_size))) == if v.maximum_packet_size is Some {
            Err::<ConnAckPropertiesV, MQTTError>(MQTTError::DuplicateProperty(39u8))
        } else {
            Ok::<ConnAckPropertiesV, MQTTError>(ConnAckPropertiesV { maximum_packet_size: Some(maximum_packet_size), ..v })
        },
        ConnAckProperties::spec_merge(v, (18u8, ValueV::Utf8(assigned_client_id))) == if v.assigned_client_id is Some {
            Err::<ConnAckPropertiesV, MQTTError>(MQTTError::DuplicateProperty(18u8))
        } else {
            Ok::<ConnAckPropertiesV, MQTTError>(ConnAckPropertiesV { assigned_client_id: Some(assigned_client_id), ..v })
        },
        ConnAckProperties::spec_merge(v, (34u8, ValueV::TwoByte(topic_alias_maximum))) == if v.topic_alias_maximum is Some {
            Err::<ConnAckPropertiesV, MQTTError>(MQTTError::DuplicateProperty(34u8))
        } else {
            Ok::<ConnAckPropertiesV, MQTTError>(ConnAckPropertiesV { topic_alias_maximum: Some(topic_alias_maximum), ..v })
        },
        ConnAckProperties::spec_merge(v, (31u8, ValueV::Utf8(reason_string))) == if v.reason_string is Some {
            Err::<ConnAckPropertiesV, MQTTError>(MQTTError::DuplicateProperty(31u8))
        } else {
            Ok::<ConnAckPropertiesV, MQTTError>(ConnAckPropertiesV { reason_string: Some(reason_string), ..v })
        },
        ConnAckProperties::spec_merge(v, (40u8, ValueV::Byte(wildcard_subscription_available))) == if v.wildcard_subscription_available is Some {
            Err::<ConnAckPropertiesV, MQTTError>(MQTTError::DuplicateProperty(40u8))
        } else {
            Ok::<ConnAckPropertiesV, MQTTError>(ConnAckPropertiesV { wildcard_subscription_available: Some(wildcard_subscription_available != 0), ..v })
        },
        ConnAckProperties::spec_merge(v, (41u8, ValueV::Byte(subscription_identifiers_available))) == if v.subscription_identifiers_available is Some {
            Err::<ConnAckPropertiesV, MQTTError>(MQTTError::DuplicateProperty(41u8))
        } else {
            Ok::<ConnAckPropertiesV, MQTTError>(ConnAckPropertiesV { subscription_identifiers_available: Some(subscription_identifiers_available != 0), ..v })
        },
        ConnAckProperties::spec_merge(v, (42u8, ValueV::Byte(shared_subscription_available))) == if v.shared_subscription_available is Some {
            Err::<ConnAckPropertiesV, MQTTError>(MQTTError::DuplicateProperty(42u8))
        } else {
            Ok::<ConnAckPropertiesV, MQTTError>(ConnAckPropertiesV { shared_subscription_available: Some(shared_subscription_available != 0), ..v })
        },
        ConnAckProperties::spec_merge(v, (19u8, ValueV::TwoByte(server_keep_alive))) == if v.server_keep_alive is Some {
            Err::<ConnAckPropertiesV, MQTTError>(MQTTError::DuplicateProperty(19u8))
        } else {
            Ok::<ConnAckPropertiesV, MQTTError>(ConnAckPropertiesV { server_keep_alive: Some(server_keep_alive), ..v })
        },
        ConnAckProperties::spec_merge(v, (26u8, ValueV::Utf8(response_information))) == if v.response_information is Some {
            Err::<ConnAckPropertiesV, MQTTError>(MQTTError::DuplicateProperty(26u8))
        } else {
            Ok::<ConnAckPropertiesV, MQTTError>(ConnAckPropertiesV { response_information: Some(response_information), ..v })
        },
        ConnAckProperties::spec_merge(v, (28u8, ValueV::Utf8(server_reference))) == if v.server_reference is Some {
            Err::<ConnAckPropertiesV, MQTTError>(MQTTError::DuplicateProperty(28u8))
        } else {
            Ok::<ConnAckPropertiesV, MQTTError>(ConnAckPropertiesV { server_reference: Some(server_reference), ..v })
        },
        ConnAckProperties::spec_merge(v, (21u8, ValueV::Utf8(authentication_method))) == if v.authentication_method is Some {
            Err::<ConnAckPropertiesV, MQTTError>(MQTTError::DuplicateProperty(21u8))
        } else {
            Ok::<ConnAckPropertiesV, MQTTError>(ConnAckPropertiesV { authentication_method: Some(authentication_method), ..v })
        },
        ConnAckProperties::spec_merge(v, (22u8, ValueV::Binary(authentication_data))) == if v.authentication_data is Some {
            Err::<ConnAckPropertiesV, MQTTError>(MQTTError::DuplicateProperty(22u8))
        } else {
            Ok::<ConnAckPropertiesV, MQTTError>(ConnAckPropertiesV { authentication_data: Some(authentication_data), ..v })
        },
        ConnAckProperties::spec_merge(v, (38u8, ValueV::Pair(user_key, user_value))) == Ok::<ConnAckPropertiesV, MQTTError>(ConnAckPropertiesV { user_property: v.user_property.push((user_key, user_value)), ..v }),
{
}

} // verus!
