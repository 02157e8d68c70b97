//! The properties of PUBLISH (section 3.3.2.3).
use bytes::{Bytes, BytesMut};
use vstd::prelude::*;

use crate::buffer::{bytes_mut_view, bytes_view};
use crate::error::MQTTError;
use crate::properties::{
    entries_fit, entries_size, lemma_merge_all_concat, lemma_merge_all_one, lemma_merge_all_opt,
    lemma_properties_roundtrip, lemma_user_entries_push, merge_all, opt_binary, opt_byte,
    opt_bytes_view, opt_entry, opt_flag, opt_four, opt_string_view, opt_two, opt_utf8, opt_varint,
    parse_properties, properties_length, push_opt_byte, push_opt_bytes, push_opt_flag,
    push_opt_four, push_opt_string, push_opt_two, push_opt_varint, push_users, read_properties,
    spec_write_properties, user_entries, users_view, write_properties, PropertySet, UserV,
};
use crate::property::{
    Property, PropertyV, PropertyValue, ValueV, ASSIGNED_CLIENT_IDENTIFIER, AUTHENTICATION_DATA,
    AUTHENTICATION_METHOD, CONTENT_TYPE, CORRELATION_DATA, MAXIMUM_PACKET_SIZE, MAXIMUM_QOS,
    MESSAGE_EXPIRY_INTERVAL, PAYLOAD_FORMAT_INDICATOR, REASON_STRING, RECEIVE_MAXIMUM,
    REQUEST_PROBLEM_INFORMATION, REQUEST_RESPONSE_INFORMATION, RESPONSE_INFORMATION,
    RESPONSE_TOPIC, RETAIN_AVAILABLE, SERVER_KEEP_ALIVE, SERVER_REFERENCE,
    SESSION_EXPIRY_INTERVAL, SHARED_SUBSCRIPTION_AVAILABLE, SUBSCRIPTION_IDENTIFIER,
    SUBSCRIPTION_IDENTIFIER_AVAILABLE, TOPIC_ALIAS, TOPIC_ALIAS_MAXIMUM, USER_PROPERTY,
    WILDCARD_SUBSCRIPTION_AVAILABLE, WILL_DELAY_INTERVAL,
};
use crate::varint::VARINT_MAX;

verus! {

/// PUBLISH properties.
#[derive(Debug, Clone, PartialEq, Eq)]
pub struct PublishProperties {
    pub payload_format_indicator: Option<u8>,
    pub message_expiry_interval: Option<u32>,
    pub topic_alias: Option<u16>,
    pub response_topic: Option<String>,
    pub correlation_data: Option<Bytes>,
    pub user_property: Vec<(String, String)>,
    pub subscription_identifier: Option<usize>,
    pub content_type: Option<String>,
}

#[verifier::ext_equal]
pub struct PublishPropertiesV {
    pub payload_format_indicator: Option<u8>,
    pub message_expiry_interval: Option<u32>,
    pub topic_alias: Option<u16>,
    pub response_topic: Option<Seq<char>>,
    pub correlation_data: Option<Seq<u8>>,
    pub user_property: Seq<UserV>,
    pub subscription_identifier: Option<usize>,
    pub content_type: Option<Seq<char>>,
}

impl View for PublishProperties {
    type V = PublishPropertiesV;

    open spec fn view(&self) -> PublishPropertiesV {
        PublishPropertiesV {
            payload_format_indicator: self.payload_format_indicator,
            message_expiry_interval: self.message_expiry_interval,
            topic_alias: self.topic_alias,
            response_topic: opt_string_view(self.response_topic),
            correlation_data: opt_bytes_view(self.correlation_data),
            user_property: users_view(self.user_property@),
            subscription_identifier: self.subscription_identifier,
            content_type: opt_string_view(self.content_type),
        }
    }
}

impl PropertySet for PublishProperties {
    open spec fn spec_empty() -> PublishPropertiesV {
        PublishPropertiesV { payload_format_indicator: None, message_expiry_interval: None, topic_alias: None, response_topic: None, correlation_data: None, user_property: Seq::empty(), subscription_identifier: None, content_type: None }
    }

    open spec fn spec_entries(v: PublishPropertiesV) -> Seq<PropertyV> {
        opt_entry(PAYLOAD_FORMAT_INDICATOR, opt_byte(v.payload_format_indicator)) + opt_entry(MESSAGE_EXPIRY_INTERVAL, opt_four(v.message_expiry_interval)) + opt_entry(TOPIC_ALIAS, opt_two(v.topic_alias)) + opt_entry(RESPONSE_TOPIC, opt_utf8(v.response_topic)) + opt_entry(CORRELATION_DATA, opt_binary(v.correlation_data)) + user_entries(v.user_property) + opt_entry(SUBSCRIPTION_IDENTIFIER, opt_varint(v.subscription_identifier)) + opt_entry(CONTENT_TYPE, opt_utf8(v.content_type))
    }

    open spec fn spec_merge(v: PublishPropertiesV, p: PropertyV) -> Result<PublishPropertiesV, MQTTError> {
        match p.1 {
            ValueV::Byte(x) if p.0 == PAYLOAD_FORMAT_INDICATOR => if v.payload_format_indicator is Some {
                Err(MQTTError::DuplicateProperty(p.0))
            } else {
                Ok(PublishPropertiesV { payload_format_indicator: Some(x), ..v })
            },
            ValueV::FourByte(x) if p.0 == MESSAGE_EXPIRY_INTERVAL => if v.message_expiry_interval is Some {
                Err(MQTTError::DuplicateProperty(p.0))
            } else {
                Ok(PublishPropertiesV { message_expiry_interval: Some(x), ..v })
            },
            ValueV::TwoByte(x) if p.0 == TOPIC_ALIAS => if v.topic_alias is Some {
                Err(MQTTError::DuplicateProperty(p.0))
            } else {
                Ok(PublishPropertiesV { topic_alias: Some(x), ..v })
            },
            ValueV::Utf8(x) if p.0 == RESPONSE_TOPIC => if v.response_topic is Some {
                Err(MQTTError::DuplicateProperty(p.0))
            } else {
                Ok(PublishPropertiesV { response_topic: Some(x), ..v })
            },
            ValueV::Binary(x) if p.0 == CORRELATION_DATA => if v.correlation_data is Some {
                Err(MQTTError::DuplicateProperty(p.0))
            } else {
                Ok(PublishPropertiesV { correlation_data: Some(x), ..v })
            },
            ValueV::Pair(k, x) if p.0 == USER_PROPERTY => Ok(PublishPropertiesV { user_property: v.user_property.push((k, x)), ..v }),
            ValueV::VarInt(x) if p.0 == SUBSCRIPTION_IDENTIFIER => if v.subscription_identifier is Some {
                Err(MQTTError::DuplicateProperty(p.0))
            } else {
                Ok(PublishPropertiesV { subscription_identifier: Some(x), ..v })
            },
            ValueV::Utf8(x) if p.0 == CONTENT_TYPE => if v.content_type is Some {
                Err(MQTTError::DuplicateProperty(p.0))
            } else {
                Ok(PublishPropertiesV { content_type: Some(x), ..v })
            },
            _ => Err(MQTTError::UnexpectedProperty(p.0)),
        }
    }

    fn empty() -> (r: Self) {
        let r = PublishProperties { payload_format_indicator: None, message_expiry_interval: None, topic_alias: None, response_topic: None, correlation_data: None, user_property: Vec::new(), subscription_identifier: None, content_type: None };
        assert(r@ =~= Self::spec_empty());
        r
    }

    fn entries(&self) -> (r: Vec<Property>) {
        let mut out: Vec<Property> = Vec::new();
        assert(out@.map_values(|p: Property| p@) =~= Seq::<PropertyV>::empty());
        push_opt_byte(&mut out, PAYLOAD_FORMAT_INDICATOR, self.payload_format_indicator);
        push_opt_four(&mut out, MESSAGE_EXPIRY_INTERVAL, self.message_expiry_interval);
        push_opt_two(&mut out, TOPIC_ALIAS, self.topic_alias);
        push_opt_string(&mut out, RESPONSE_TOPIC, &self.response_topic);
        push_opt_bytes(&mut out, CORRELATION_DATA, &self.correlation_data);
        push_users(&mut out, &self.user_property);
        push_opt_varint(&mut out, SUBSCRIPTION_IDENTIFIER, self.subscription_identifier);
        push_opt_string(&mut out, CONTENT_TYPE, &self.content_type);
        assert(out@.map_values(|p: Property| p@) =~= Self::spec_entries(self@));
        out
    }

    fn merge(&mut self, p: Property) -> (r: Result<(), MQTTError>) {
        let id = p.id;
        match p.value {
            PropertyValue::Byte(x) if id == PAYLOAD_FORMAT_INDICATOR => {
                if self.payload_format_indicator.is_some() {
                    return Err(MQTTError::DuplicateProperty(id));
                }
                self.payload_format_indicator = Some(x);
                assert(self@ =~= PublishPropertiesV { payload_format_indicator: self@.payload_format_indicator, ..old(self)@ });
                Ok(())
            },
            PropertyValue::FourByte(x) if id == MESSAGE_EXPIRY_INTERVAL => {
                if self.message_expiry_interval.is_some() {
                    return Err(MQTTError::DuplicateProperty(id));
                }
                self.message_expiry_interval = Some(x);
                assert(self@ =~= PublishPropertiesV { message_expiry_interval: self@.message_expiry_interval, ..old(self)@ });
                Ok(())
            },
            PropertyValue::TwoByte(x) if id == TOPIC_ALIAS => {
                if self.topic_alias.is_some() {
                    return Err(MQTTError::DuplicateProperty(id));
                }
                self.topic_alias = Some(x);
                assert(self@ =~= PublishPropertiesV { topic_alias: self@.topic_alias, ..old(self)@ });
                Ok(())
            },
            PropertyValue::Utf8(x) if id == RESPONSE_TOPIC => {
                if self.response_topic.is_some() {
                    return Err(MQTTError::DuplicateProperty(id));
                }
                self.response_topic = Some(x);
                assert(self@ =~= PublishPropertiesV { response_topic: self@.response_topic, ..old(self)@ });
                Ok(())
            },
            PropertyValue::Binary(x) if id == CORRELATION_DATA => {
                if self.correlation_data.is_some() {
                    return Err(MQTTError::DuplicateProperty(id));
                }
                self.correlation_data = Some(x);
                assert(self@ =~= PublishPropertiesV { correlation_data: self@.correlation_data, ..old(self)@ });
                Ok(())
            },
            PropertyValue::Pair(k, x) if id == USER_PROPERTY => {
                self.user_property.push((k, x));
                assert(self@.user_property =~= old(self)@.user_property.push((k@, x@)));
                assert(self@ =~= PublishPropertiesV { user_property: old(self)@.user_property.push((k@, x@)), ..old(self)@ });
                Ok(())
            },
            PropertyValue::VarInt(x) if id == SUBSCRIPTION_IDENTIFIER => {
                if self.subscription_identifier.is_some() {
                    return Err(MQTTError::DuplicateProperty(id));
                }
                self.subscription_identifier = Some(x);
                assert(self@ =~= PublishPropertiesV { subscription_identifier: self@.subscription_identifier, ..old(self)@ });
                Ok(())
            },
            PropertyValue::Utf8(x) if id == CONTENT_TYPE => {
                if self.content_type.is_some() {
                    return Err(MQTTError::DuplicateProperty(id));
                }
                self.content_type = Some(x);
                assert(self@ =~= PublishPropertiesV { content_type: self@.content_type, ..old(self)@ });
                Ok(())
            },
            _ => Err(MQTTError::UnexpectedProperty(id)),
        }
    }
}

impl PublishProperties {
    /// Taking user properties into a set adds them after its own.
    pub proof fn lemma_merge_users(acc: PublishPropertiesV, u: Seq<UserV>)
        ensures
            merge_all::<PublishProperties>(acc, user_entries(u)) == Ok::<PublishPropertiesV, MQTTError>(
                PublishPropertiesV { user_property: acc.user_property + u, ..acc },
            ),
        decreases u.len(),
    {
        if u.len() == 0 {
            assert(user_entries(u) =~= Seq::<PropertyV>::empty());
            assert(acc.user_property + u =~= acc.user_property);
            assert(acc =~= PublishPropertiesV { user_property: acc.user_property + u, ..acc });
        } else {
            lemma_user_entries_push(u);
            lemma_merge_all_concat::<PublishProperties>(
                acc,
                user_entries(u.drop_last()),
                seq![(USER_PROPERTY, ValueV::Pair(u.last().0, u.last().1))],
            );
            Self::lemma_merge_users(acc, u.drop_last());
            let mid = PublishPropertiesV { user_property: acc.user_property + u.drop_last(), ..acc };
            lemma_merge_all_one::<PublishProperties>(mid, (USER_PROPERTY, ValueV::Pair(u.last().0, u.last().1)));
            assert((acc.user_property + u.drop_last()).push(u.last()) =~= acc.user_property + u);
            assert(PublishPropertiesV { user_property: mid.user_property.push((u.last().0, u.last().1)), ..mid } =~= PublishPropertiesV { user_property: acc.user_property + u, ..acc });
        }
    }

    /// Taking the entries of a set into the empty set gives the set back.
    pub proof fn lemma_entries_merge(v: PublishPropertiesV)
        ensures
            merge_all::<PublishProperties>(Self::spec_empty(), Self::spec_entries(v)) == Ok::<PublishPropertiesV, MQTTError>(v),
    {
        let e = Self::spec_empty();
        let a0 = PublishPropertiesV { payload_format_indicator: None, message_expiry_interval: None, topic_alias: None, response_topic: None, correlation_data: None, user_property: Seq::empty(), subscription_identifier: None, content_type: None };
        lemma_merge_all_opt::<PublishProperties>(a0, PAYLOAD_FORMAT_INDICATOR, opt_byte(v.payload_format_indicator));
        assert(merge_all::<PublishProperties>(a0, opt_entry(PAYLOAD_FORMAT_INDICATOR, opt_byte(v.payload_format_indicator))) == Ok::<PublishPropertiesV, MQTTError>(PublishPropertiesV { payload_format_indicator: v.payload_format_indicator, message_expiry_interval: None, topic_alias: None, response_topic: None, correlation_data: None, user_property: Seq::empty(), subscription_identifier: None, content_type: None }));
        assert(merge_all::<PublishProperties>(e, opt_entry(PAYLOAD_FORMAT_INDICATOR, opt_byte(v.payload_format_indicator))) == Ok::<PublishPropertiesV, MQTTError>(PublishPropertiesV { payload_format_indicator: v.payload_format_indicator, message_expiry_interval: None, topic_alias: None, response_topic: None, correlation_data: None, user_property: Seq::empty(), subscription_identifier: None, content_type: None }));
        let a1 = PublishPropertiesV { payload_format_indicator: v.payload_format_indicator, message_expiry_interval: None, topic_alias: None, response_topic: None, correlation_data: None, user_property: Seq::empty(), subscription_identifier: None, content_type: None };
        lemma_merge_all_concat::<PublishProperties>(e, opt_entry(PAYLOAD_FORMAT_INDICATOR, opt_byte(v.payload_format_indicator)), opt_entry(MESSAGE_EXPIRY_INTERVAL, opt_four(v.message_expiry_interval)));
        lemma_merge_all_opt::<PublishProperties>(a1, MESSAGE_EXPIRY_INTERVAL, opt_four(v.message_expiry_interval));
        assert(merge_all::<PublishProperties>(a1, opt_entry(MESSAGE_EXPIRY_INTERVAL, opt_four(v.message_expiry_interval))) == Ok::<PublishPropertiesV, MQTTError>(PublishPropertiesV { payload_format_indicator: v.payload_format_indicator, message_expiry_interval: v.message_expiry_interval, topic_alias: None, response_topic: None, correlation_data: None, user_property: Seq::empty(), subscription_identifier: None, content_type: None }));
        assert(merge_all::<PublishProperties>(e, opt_entry(PAYLOAD_FORMAT_INDICATOR, opt_byte(v.payload_format_indicator)) + opt_entry(MESSAGE_EXPIRY_INTERVAL, opt_four(v.message_expiry_interval))) == Ok::<PublishPropertiesV, MQTTError>(PublishPropertiesV { payload_format_indicator: v.payload_format_indicator, message_expiry_interval: v.message_expiry_interval, topic_alias: None, response_topic: None, correlation_data: None, user_property: Seq::empty(), subscription_identifier: None, content_type: None }));
        let a2 = PublishPropertiesV { payload_format_indicator: v.payload_format_indicator, message_expiry_interval: v.message_expiry_interval, topic_alias: None, response_topic: None, correlation_data: None, user_property: Seq::empty(), subscription_identifier: None, content_type: None };
        lemma_merge_all_concat::<PublishProperties>(e, opt_entry(PAYLOAD_FORMAT_INDICATOR, opt_byte(v.payload_format_indicator)) + opt_entry(MESSAGE_EXPIRY_INTERVAL, opt_four(v.message_expiry_interval)), opt_entry(TOPIC_ALIAS, opt_two(v.topic_alias)));
        lemma_merge_all_opt::<PublishProperties>(a2, TOPIC_ALIAS, opt_two(v.topic_alias));
        assert(merge_all::<PublishProperties>(a2, opt_entry(TOPIC_ALIAS, opt_two(v.topic_alias))) == Ok::<PublishPropertiesV, MQTTError>(PublishPropertiesV { payload_format_indicator: v.payload_format_indicator, message_expiry_interval: v.message_expiry_interval, topic_alias: v.topic_alias, response_topic: None, correlation_data: None, user_property: Seq::empty(), subscription_identifier: None, content_type: None }));
        assert(merge_all::<PublishProperties>(e, opt_entry(PAYLOAD_FORMAT_INDICATOR, opt_byte(v.payload_format_indicator)) + opt_entry(MESSAGE_EXPIRY_INTERVAL, opt_four(v.message_expiry_interval)) + opt_entry(TOPIC_ALIAS, opt_two(v.topic_alias))) == Ok::<PublishPropertiesV, MQTTError>(PublishPropertiesV { payload_format_indicator: v.payload_format_indicator, message_expiry_interval: v.message_expiry_interval, topic_alias: v.topic_alias, response_topic: None, correlation_data: None, user_property: Seq::empty(), subscription_identifier: None, content_type: None }));
        let a3 = PublishPropertiesV { payload_format_indicator: v.payload_format_indicator, message_expiry_interval: v.message_expiry_interval, topic_alias: v.topic_alias, response_topic: None, correlation_data: None, user_property: Seq::empty(), subscription_identifier: None, content_type: None };
        lemma_merge_all_concat::<PublishProperties>(e, opt_entry(PAYLOAD_FORMAT_INDICATOR, opt_byte(v.payload_format_indicator)) + opt_entry(MESSAGE_EXPIRY_INTERVAL, opt_four(v.message_expiry_interval)) + opt_entry(TOPIC_ALIAS, opt_two(v.topic_alias)), opt_entry(RESPONSE_TOPIC, opt_utf8(v.response_topic)));
        lemma_merge_all_opt::<PublishProperties>(a3, RESPONSE_TOPIC, opt_utf8(v.response_topic));
        assert(merge_all::<PublishProperties>(a3, opt_entry(RESPONSE_TOPIC, opt_utf8(v.response_topic))) == Ok::<PublishPropertiesV, MQTTError>(PublishPropertiesV { payload_format_indicator: v.payload_format_indicator, message_expiry_interval: v.message_expiry_interval, topic_alias: v.topic_alias, response_topic: v.response_topic, correlation_data: None, user_property: Seq::empty(), subscription_identifier: None, content_type: None }));
        assert(merge_all::<PublishProperties>(e, opt_entry(PAYLOAD_FORMAT_INDICATOR, opt_byte(v.payload_format_indicator)) + opt_entry(MESSAGE_EXPIRY_INTERVAL, opt_four(v.message_expiry_interval)) + opt_entry(TOPIC_ALIAS, opt_two(v.topic_alias)) + opt_entry(RESPONSE_TOPIC, opt_utf8(v.response_topic))) == Ok::<PublishPropertiesV, MQTTError>(PublishPropertiesV { payload_format_indicator: v.payload_format_indicator, message_expiry_interval: v.message_expiry_interval, topic_alias: v.topic_alias, response_topic: v.response_topic, correlation_data: None, user_property: Seq::empty(), subscription_identifier: None, content_type: None }));
        let a4 = PublishPropertiesV { payload_format_indicator: v.payload_format_indicator, message_expiry_interval: v.message_expiry_interval, topic_alias: v.topic_alias, response_topic: v.response_topic, correlation_data: None, user_property: Seq::empty(), subscription_identifier: None, content_type: None };
        lemma_merge_all_concat::<PublishProperties>(e, opt_entry(PAYLOAD_FORMAT_INDICATOR, opt_byte(v.payload_format_indicator)) + opt_entry(MESSAGE_EXPIRY_INTERVAL, opt_four(v.message_expiry_interval)) + opt_entry(TOPIC_ALIAS, opt_two(v.topic_alias)) + opt_entry(RESPONSE_TOPIC, opt_utf8(v.response_topic)), opt_entry(CORRELATION_DATA, opt_binary(v.correlation_data)));
        lemma_merge_all_opt::<PublishProperties>(a4, CORRELATION_DATA, opt_binary(v.correlation_data));
        assert(merge_all::<PublishProperties>(a4, opt_entry(CORRELATION_DATA, opt_binary(v.correlation_data))) == Ok::<PublishPropertiesV, MQTTError>(PublishPropertiesV { payload_format_indicator: v.payload_format_indicator, message_expiry_interval: v.message_expiry_interval, topic_alias: v.topic_alias, response_topic: v.response_topic, correlation_data: v.correlation_data, user_property: Seq::empty(), subscription_identifier: None, content_type: None }));
        assert(merge_all::<PublishProperties>(e, opt_entry(PAYLOAD_FORMAT_INDICATOR, opt_byte(v.payload_format_indicator)) + opt_entry(MESSAGE_EXPIRY_INTERVAL, opt_four(v.message_expiry_interval)) + opt_entry(TOPIC_ALIAS, opt_two(v.topic_alias)) + opt_entry(RESPONSE_TOPIC, opt_utf8(v.response_topic)) + opt_entry(CORRELATION_DATA, opt_binary(v.correlation_data))) == Ok::<PublishPropertiesV, MQTTError>(PublishPropertiesV { payload_format_indicator: v.payload_format_indicator, message_expiry_interval: v.message_expiry_interval, topic_alias: v.topic_alias, response_topic: v.response_topic, correlation_data: v.correlation_data, user_property: Seq::empty(), subscription_identifier: None, content_type: None }));
        let a5 = PublishPropertiesV { payload_format_indicator: v.payload_format_indicator, message_expiry_interval: v.message_expiry_interval, topic_alias: v.topic_alias, response_topic: v.response_topic, correlation_data: v.correlation_data, user_property: Seq::empty(), subscription_identifier: None, content_type: None };
        lemma_merge_all_concat::<PublishProperties>(e, opt_entry(PAYLOAD_FORMAT_INDICATOR, opt_byte(v.payload_format_indicator)) + opt_entry(MESSAGE_EXPIRY_INTERVAL, opt_four(v.message_expiry_interval)) + opt_entry(TOPIC_ALIAS, opt_two(v.topic_alias)) + opt_entry(RESPONSE_TOPIC, opt_utf8(v.response_topic)) + opt_entry(CORRELATION_DATA, opt_binary(v.correlation_data)), user_entries(v.user_property));
        Self::lemma_merge_users(a5, v.user_property);
        assert(Seq::<UserV>::empty() + v.user_property =~= v.user_property);
        assert(PublishPropertiesV { user_property: a5.user_property + v.user_property, ..a5 } =~= PublishPropertiesV { payload_format_indicator: v.payload_format_indicator, message_expiry_interval: v.message_expiry_interval, topic_alias: v.topic_alias, response_topic: v.response_topic, correlation_data: v.correlation_data, user_property: v.user_property, subscription_identifier: None, content_type: None });
        assert(merge_all::<PublishProperties>(e, opt_entry(PAYLOAD_FORMAT_INDICATOR, opt_byte(v.payload_format_indicator)) + opt_entry(MESSAGE_EXPIRY_INTERVAL, opt_four(v.message_expiry_interval)) + opt_entry(TOPIC_ALIAS, opt_two(v.topic_alias)) + opt_entry(RESPONSE_TOPIC, opt_utf8(v.response_topic)) + opt_entry(CORRELATION_DATA, opt_binary(v.correlation_data)) + user_entries(v.user_property)) == Ok::<PublishPropertiesV, MQTTError>(PublishPropertiesV { payload_format_indicator: v.payload_format_indicator, message_expiry_interval: v.message_expiry_interval, topic_alias: v.topic_alias, response_topic: v.response_topic, correlation_data: v.correlation_data, user_property: v.user_property, subscription_identifier: None, content_type: None }));
        let a6 = PublishPropertiesV { payload_format_indicator: v.payload_format_indicator, message_expiry_interval: v.message_expiry_interval, topic_alias: v.topic_alias, response_topic: v.response_topic, correlation_data: v.correlation_data, user_property: v.user_property, subscription_identifier: None, content_type: None };
        lemma_merge_all_concat::<PublishProperties>(e, opt_entry(PAYLOAD_FORMAT_INDICATOR, opt_byte(v.payload_format_indicator)) + opt_entry(MESSAGE_EXPIRY_INTERVAL, opt_four(v.message_expiry_interval)) + opt_entry(TOPIC_ALIAS, opt_two(v.topic_alias)) + opt_entry(RESPONSE_TOPIC, opt_utf8(v.response_topic)) + opt_entry(CORRELATION_DATA, opt_binary(v.correlation_data)) + user_entries(v.user_property), opt_entry(SUBSCRIPTION_IDENTIFIER, opt_varint(v.subscription_identifier)));
        lemma_merge_all_opt::<PublishProperties>(a6, SUBSCRIPTION_IDENTIFIER, opt_varint(v.subscription_identifier));
        assert(merge_all::<PublishProperties>(a6, opt_entry(SUBSCRIPTION_IDENTIFIER, opt_varint(v.subscription_identifier))) == Ok::<PublishPropertiesV, MQTTError>(PublishPropertiesV { payload_format_indicator: v.payload_format_indicator, message_expiry_interval: v.message_expiry_interval, topic_alias: v.topic_alias, response_topic: v.response_topic, correlation_data: v.correlation_data, user_property: v.user_property, subscription_identifier: v.subscription_identifier, content_type: None }));
        assert(merge_all::<PublishProperties>(e, opt_entry(PAYLOAD_FORMAT_INDICATOR, opt_byte(v.payload_format_indicator)) + opt_entry(MESSAGE_EXPIRY_INTERVAL, opt_four(v.message_expiry_interval)) + opt_entry(TOPIC_ALIAS, opt_two(v.topic_alias)) + opt_entry(RESPONSE_TOPIC, opt_utf8(v.response_topic)) + opt_entry(CORRELATION_DATA, opt_binary(v.correlation_data)) + user_entries(v.user_property) + opt_entry(SUBSCRIPTION_IDENTIFIER, opt_varint(v.subscription_identifier))) == Ok::<PublishPropertiesV, MQTTError>(PublishPropertiesV { payload_format_indicator: v.payload_format_indicator, message_expiry_interval: v.message_expiry_interval, topic_alias: v.topic_alias, response_topic: v.response_topic, correlation_data: v.correlation_data, user_property: v.user_property, subscription_identifier: v.subscription_identifier, content_type: None }));
        let a7 = PublishPropertiesV { payload_format_indicator: v.payload_format_indicator, message_expiry_interval: v.message_expiry_interval, topic_alias: v.topic_alias, response_topic: v.response_topic, correlation_data: v.correlation_data, user_property: v.user_property, subscription_identifier: v.subscription_identifier, content_type: None };
        lemma_merge_all_concat::<PublishProperties>(e, opt_entry(PAYLOAD_FORMAT_INDICATOR, opt_byte(v.payload_format_indicator)) + opt_entry(MESSAGE_EXPIRY_INTERVAL, opt_four(v.message_expiry_interval)) + opt_entry(TOPIC_ALIAS, opt_two(v.topic_alias)) + opt_entry(RESPONSE_TOPIC, opt_utf8(v.response_topic)) + opt_entry(CORRELATION_DATA, opt_binary(v.correlation_data)) + user_entries(v.user_property) + opt_entry(SUBSCRIPTION_IDENTIFIER, opt_varint(v.subscription_identifier)), opt_entry(CONTENT_TYPE, opt_utf8(v.content_type)));
        lemma_merge_all_opt::<PublishProperties>(a7, CONTENT_TYPE, opt_utf8(v.content_type));
        assert(merge_all::<PublishProperties>(a7, opt_entry(CONTENT_TYPE, opt_utf8(v.content_type))) == Ok::<PublishPropertiesV, MQTTError>(PublishPropertiesV { payload_format_indicator: v.payload_format_indicator, message_expiry_interval: v.message_expiry_interval, topic_alias: v.topic_alias, response_topic: v.response_topic, correlation_data: v.correlation_data, user_property: v.user_property, subscription_identifier: v.subscription_identifier, content_type: v.content_type }));
        assert(merge_all::<PublishProperties>(e, opt_entry(PAYLOAD_FORMAT_INDICATOR, opt_byte(v.payload_format_indicator)) + opt_entry(MESSAGE_EXPIRY_INTERVAL, opt_four(v.message_expiry_interval)) + opt_entry(TOPIC_ALIAS, opt_two(v.topic_alias)) + opt_entry(RESPONSE_TOPIC, opt_utf8(v.response_topic)) + opt_entry(CORRELATION_DATA, opt_binary(v.correlation_data)) + user_entries(v.user_property) + opt_entry(SUBSCRIPTION_IDENTIFIER, opt_varint(v.subscription_identifier)) + opt_entry(CONTENT_TYPE, opt_utf8(v.content_type))) == Ok::<PublishPropertiesV, MQTTError>(PublishPropertiesV { payload_format_indicator: v.payload_format_indicator, message_expiry_interval: v.message_expiry_interval, topic_alias: v.topic_alias, response_topic: v.response_topic, correlation_data: v.correlation_data, user_property: v.user_property, subscription_identifier: v.subscription_identifier, content_type: v.content_type }));
        assert(PublishPropertiesV { payload_format_indicator: v.payload_format_indicator, message_expiry_interval: v.message_expiry_interval, topic_alias: v.topic_alias, response_topic: v.response_topic, correlation_data: v.correlation_data, user_property: v.user_property, subscription_identifier: v.subscription_identifier, content_type: v.content_type } =~= v);
    }

    /// The Property Length.
    pub fn length(&self) -> (r: usize)
        requires
            entries_size(Self::spec_entries(self@)) <= usize::MAX,
        ensures
            r == entries_size(Self::spec_entries(self@)),
    {
        properties_length(self)
    }

    /// Writes the Property Length, then the present properties in order.
    pub fn write(&self, buf: &mut BytesMut) -> (r: Result<(), MQTTError>)
        requires
            bytes_mut_view(*old(buf)).len() + 4 + entries_size(Self::spec_entries(self@)) <= isize::MAX,
        ensures
            r == spec_write_properties(Self::spec_entries(self@)).0,
            bytes_mut_view(*final(buf)) == bytes_mut_view(*old(buf)) + spec_write_properties(
                Self::spec_entries(self@),
            ).1,
    {
        write_properties(self, buf)
    }

    /// Reads a property list; a property this packet does not allow is
    /// `UnexpectedProperty`, a second instance of a single property `DuplicateProperty`.
    pub fn read(buf: &mut Bytes) -> (r: Result<Self, MQTTError>)
        ensures
            match (r, parse_properties::<PublishProperties>(bytes_view(*old(buf)), "").0) {
                (Ok(t), Ok(v)) => t@ == v,
                (Err(e), Err(f)) => e == f,
                _ => false,
            },
            bytes_view(*final(buf)) == bytes_view(*old(buf)).skip(
                parse_properties::<PublishProperties>(bytes_view(*old(buf)), "").1 as int,
            ),
    {
        read_properties(buf, "")
    }

    /// Reading written properties gives them back.
    pub proof fn lemma_write_read(v: PublishPropertiesV, rest: Seq<u8>)
        requires
            entries_fit(Self::spec_entries(v)),
            entries_size(Self::spec_entries(v)) <= VARINT_MAX,
        ensures
            spec_write_properties(Self::spec_entries(v)).0 == Ok::<(), MQTTError>(()),
            parse_properties::<PublishProperties>(spec_write_properties(Self::spec_entries(v)).1 + rest, "") == (
                Ok::<PublishPropertiesV, MQTTError>(v),
                spec_write_properties(Self::spec_entries(v)).1.len(),
            ),
    {
        Self::lemma_entries_merge(v);
        lemma_properties_roundtrip::<PublishProperties>(v, rest, "");
    }
}

impl Default for PublishProperties {
    fn default() -> (r: Self)
        ensures
            r@ == Self::spec_empty(),
    {
        Self::empty()
    }
}

/// Each property is written under the identifier that MQTT 5 assigns to it
/// (section 2.2.2.2): a set holding one property, whatever its value, is
/// written as exactly that property under its identifier.
pub proof fn lemma_publish_properties_identifiers_written(payload_format_indicator: u8, message_expiry_interval: u32, topic_alias: u16, response_topic: Seq<char>, correlation_data: Seq<u8>, subscription_identifier: usize, content_type: Seq<char>, user_key: Seq<char>, user_value: Seq<char>)
    ensures
        PublishProperties::spec_entries(PublishPropertiesV { payload_format_indicator: Some(payload_format_indicator), ..PublishProperties::spec_empty() }) == seq![(1u8, ValueV::Byte(payload_format_indicator))],
        PublishProperties::spec_entries(PublishPropertiesV { message_expiry_interval: Some(message_expiry_interval), ..PublishProperties::spec_empty() }) == seq![(2u8, ValueV::FourByte(message_expiry_interval))],
        PublishProperties::spec_entries(PublishPropertiesV { topic_alias: Some(topic_alias), ..PublishProperties::spec_empty() }) == seq![(35u8, ValueV::TwoByte(topic_alias))],
        PublishProperties::spec_entries(PublishPropertiesV { response_topic: Some(response_topic), ..PublishProperties::spec_empty() }) == seq![(8u8, ValueV::Utf8(response_topic))],
        PublishProperties::spec_entries(PublishPropertiesV { correlation_data: Some(correlation_data), ..PublishProperties::spec_empty() }) == seq![(9u8, ValueV::Binary(correlation_data))],
        PublishProperties::spec_entries(PublishPropertiesV { subscription_identifier: Some(subscription_identifier), ..PublishProperties::spec_empty() }) == seq![(11u8, ValueV::VarInt(subscription_identifier))],
        PublishProperties::spec_entries(PublishPropertiesV { content_type: Some(content_type), ..PublishProperties::spec_empty() }) == seq![(3u8, ValueV::Utf8(content_type))],
        PublishProperties::spec_entries(PublishPropertiesV { user_property: seq![(user_key, user_value)], ..PublishProperties::spec_empty() }) == seq![(38u8, ValueV::Pair(user_key, user_value))],
{
}

/// Reading a property under the identifier that MQTT 5 assigns to a field
/// sets that field and no other, into any set; a second one of a field that
/// may appear once is a duplicate, reported with its identifier.
pub proof fn lemma_publish_properties_identifiers_read(v: PublishPropertiesV, payload_format_indicator: u8, message_expiry_interval: u32, topic_alias: u16, response_topic: Seq<char>, correlation_data: Seq<u8>, subscription_identifier: usize, content_type: Seq<char>, user_key: Seq<char>, user_value: Seq<char>)
    ensures
        PublishProperties::spec_merge(v, (1u8, ValueV::Byte(payload_format_indicator))) == if v.payload_format_indicator is Some {
            Err::<PublishPropertiesV, MQTTError>(MQTTError::DuplicateProperty(1u8))
        } else {
            Ok::<PublishPropertiesV, MQTTError>(PublishPropertiesV { payload_format_indicator: Some(payload_format_indicator), ..v })
        },
        PublishProperties::spec_merge(v, (2u8, ValueV::FourByte(message_expiry_interval))) == if v.message_expiry_interval is Some {
            Err::<PublishPropertiesV, MQTTError>(MQTTError::DuplicateProperty(2u8))
        } else {
            Ok::<PublishPropertiesV, MQTTError>(PublishPropertiesV { message_expiry_interval: Some(message_expiry_interval), ..v })
        },
        PublishProperties::spec_merge(v, (35u8, ValueV::TwoByte(topic_alias))) == if v.topic_alias is Some {
            Err::<PublishPropertiesV, MQTTError>(MQTTError::DuplicateProperty(35u8))
        } else {
            Ok::<PublishPropertiesV, MQTTError>(PublishPropertiesV { topic_alias: Some(topic_alias), ..v })
        },
        PublishProperties::spec_merge(v, (8u8, ValueV::Utf8(response_topic))) == if v.response_topic is Some {
            Err::<PublishPropertiesV, MQTTError>(MQTTError::DuplicateProperty(8u8))
        } else {
            Ok::<PublishPropertiesV, MQTTError>(PublishPropertiesV { response_topic: Some(response_topic), ..v })
        },
        PublishProperties::spec_merge(v, (9u8, ValueV::Binary(correlation_data))) == if v.correlation_data is Some {
            Err::<PublishPropertiesV, MQTTError>(MQTTError::DuplicateProperty(9u8))
        } else {
            Ok::<PublishPropertiesV, MQTTError>(PublishPropertiesV { correlation_data: Some(correlation_data), ..v })
        },
        PublishProperties::spec_merge(v, (11u8, ValueV::VarInt(subscription_identifier))) == if v.subscription_identifier is Some {
            Err::<PublishPropertiesV, MQTTError>(MQTTError::DuplicateProperty(11u8))
        } else {
            Ok::<PublishPropertiesV, MQTTError>(PublishPropertiesV { subscription_identifier: Some(subscription_identifier), ..v })
        },
        PublishProperties::spec_merge(v, (3u8, ValueV::Utf8(content_type))) == if v.content_type is Some {
            Err::<PublishPropertiesV, MQTTError>(MQTTError::DuplicateProperty(3u8))
        } else {
            Ok::<PublishPropertiesV, MQTTError>(PublishPropertiesV { content_type: Some(content_type), ..v })
        },
        PublishProperties::spec_merge(v, (38u8, ValueV::Pair(user_key, user_value))) == Ok::<PublishPropertiesV, MQTTError>(PublishPropertiesV { user_property: v.user_property.push((user_key, user_value)), ..v }),
{
}

} // verus!
