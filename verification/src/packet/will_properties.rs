//! The Will Properties of the CONNECT payload (section 3.1.3.2).
use bytes::{Bytes, BytesMut};
use vstd::prelude::*;

use crate::buffer::{bytes_mut_view, bytes_view};
use crate::error::MQTTError;
use crate::properties::{
    entries_fit, entries_size, lemma_merge_all_concat, lemma_merge_all_one, lemma_merge_all_opt,
    lemma_properties_roundtrip, lemma_user_entries_push, merge_all, opt_binary, opt_byte,
    opt_bytes_view, opt_entry, opt_flag, opt_four, opt_string_view, opt_two, opt_utf8, opt_varint,
    parse_properties, properties_length, push_opt_byte, push_opt_bytes, push_opt_flag,
    push_opt_four, push_opt_string, push_opt_two, push_opt_varint, push_users, read_properties,
    spec_write_properties, user_entries, users_view, write_properties, PropertySet, UserV,
};
use crate::property::{
    Property, PropertyV, PropertyValue, ValueV, ASSIGNED_CLIENT_IDENTIFIER, AUTHENTICATION_DATA,
    AUTHENTICATION_METHOD, CONTENT_TYPE, CORRELATION_DATA, MAXIMUM_PACKET_SIZE, MAXIMUM_QOS,
    MESSAGE_EXPIRY_INTERVAL, PAYLOAD_FORMAT_INDICATOR, REASON_STRING, RECEIVE_MAXIMUM,
    REQUEST_PROBLEM_INFORMATION, REQUEST_RESPONSE_INFORMATION, RESPONSE_INFORMATION,
    RESPONSE_TOPIC, RETAIN_AVAILABLE, SERVER_KEEP_ALIVE, SERVER_REFERENCE,
    SESSION_EXPIRY_INTERVAL, SHARED_SUBSCRIPTION_AVAILABLE, SUBSCRIPTION_IDENTIFIER,
    SUBSCRIPTION_IDENTIFIER_AVAILABLE, TOPIC_ALIAS, TOPIC_ALIAS_MAXIMUM, USER_PROPERTY,
    WILDCARD_SUBSCRIPTION_AVAILABLE, WILL_DELAY_INTERVAL,
};
use crate::varint::VARINT_MAX;

verus! {

/// Will properties.
#[derive(Debug, Clone, PartialEq, Eq)]
pub struct WillProperties {
    pub delay_interval: Option<u32>,
    pub payload_format_indicator: Option<u8>,
    pub message_expiry_interval: Option<u32>,
    pub content_type: Option<String>,
    pub response_topic: Option<String>,
    pub correlation_data: Option<Bytes>,
    pub user_property: Vec<(String, String)>,
}

#[verifier::ext_equal]
pub struct WillPropertiesV {
    pub delay_interval: Option<u32>,
    pub payload_format_indicator: Option<u8>,
    pub message_expiry_interval: Option<u32>,
    pub content_type: Option<Seq<char>>,
    pub response_topic: Option<Seq<char>>,
    pub correlation_data: Option<Seq<u8>>,
    pub user_property: Seq<UserV>,
}

impl View for WillProperties {
    type V = WillPropertiesV;

    open spec fn view(&self) -> WillPropertiesV {
        WillPropertiesV {
            delay_interval: self.delay_interval,
            payload_format_indicator: self.payload_format_indicator,
            message_expiry_interval: self.message_expiry_interval,
            content_type: opt_string_view(self.content_type),
            response_topic: opt_string_view(self.response_topic),
            correlation_data: opt_bytes_view(self.correlation_data),
            user_property: users_view(self.user_property@),
        }
    }
}

impl PropertySet for WillProperties {
    open spec fn spec_empty() -> WillPropertiesV {
        WillPropertiesV { delay_interval: None, payload_format_indicator: None, message_expiry_interval: None, content_type: None, response_topic: None, correlation_data: None, user_property: Seq::empty() }
    }

    open spec fn spec_entries(v: WillPropertiesV) -> Seq<PropertyV> {
        opt_entry(WILL_DELAY_INTERVAL, opt_four(v.delay_interval)) + opt_entry(PAYLOAD_FORMAT_INDICATOR, opt_byte(v.payload_format_indicator)) + opt_entry(MESSAGE_EXPIRY_INTERVAL, opt_four(v.message_expiry_interval)) + opt_entry(CONTENT_TYPE, opt_utf8(v.content_type)) + opt_entry(RESPONSE_TOPIC, opt_utf8(v.response_topic)) + opt_entry(CORRELATION_DATA, opt_binary(v.correlation_data)) + user_entries(v.user_property)
    }

    open spec fn spec_merge(v: WillPropertiesV, p: PropertyV) -> Result<WillPropertiesV, MQTTError> {
        match p.1 {
            ValueV::FourByte(x) if p.0 == WILL_DELAY_INTERVAL => if v.delay_interval is Some {
                Err(MQTTError::DuplicateProperty(p.0))
            } else {
                Ok(WillPropertiesV { delay_interval: Some(x), ..v })
            },
            ValueV::Byte(x) if p.0 == PAYLOAD_FORMAT_INDICATOR => if v.payload_format_indicator is Some {
                Err(MQTTError::DuplicateProperty(p.0))
            } else {
                Ok(WillPropertiesV { payload_format_indicator: Some(x), ..v })
            },
            ValueV::FourByte(x) if p.0 == MESSAGE_EXPIRY_INTERVAL => if v.message_expiry_interval is Some {
                Err(MQTTError::DuplicateProperty(p.0))
            } else {
                Ok(WillPropertiesV { message_expiry_interval: Some(x), ..v })
            },
            ValueV::Utf8(x) if p.0 == CONTENT_TYPE => if v.content_type is Some {
                Err(MQTTError::DuplicateProperty(p.0))
            } else {
                Ok(WillPropertiesV { content_type: Some(x), ..v })
            },
            ValueV::Utf8(x) if p.0 == RESPONSE_TOPIC => if v.response_topic is Some {
                Err(MQTTError::DuplicateProperty(p.0))
            } else {
                Ok(WillPropertiesV { response_topic: Some(x), ..v })
            },
            ValueV::Binary(x) if p.0 == CORRELATION_DATA => if v.correlation_data is Some {
                Err(MQTTError::DuplicateProperty(p.0))
            } else {
                Ok(WillPropertiesV { correlation_data: Some(x), ..v })
            },
            ValueV::Pair(k, x) if p.0 == USER_PROPERTY => Ok(WillPropertiesV { user_property: v.user_property.push((k, x)), ..v }),
            _ => Err(MQTTError::UnexpectedProperty(p.0)),
        }
    }

    fn empty() -> (r: Self) {
        let r = WillProperties { delay_interval: None, payload_format_indicator: None, message_expiry_interval: None, content_type: None, response_topic: None, correlation_data: None, user_property: Vec::new() };
        assert(r@ =~= Self::spec_empty());
        r
    }

    fn entries(&self) -> (r: Vec<Property>) {
        let mut out: Vec<Property> = Vec::new();
        assert(out@.map_values(|p: Property| p@) =~= Seq::<PropertyV>::empty());
        push_opt_four(&mut out, WILL_DELAY_INTERVAL, self.delay_interval);
        push_opt_byte(&mut out, PAYLOAD_FORMAT_INDICATOR, self.payload_format_indicator);
        push_opt_four(&mut out, MESSAGE_EXPIRY_INTERVAL, self.message_expiry_interval);
        push_opt_string(&mut out, CONTENT_TYPE, &self.content_type);
        push_opt_string(&mut out, RESPONSE_TOPIC, &self.response_topic);
        push_opt_bytes(&mut out, CORRELATION_DATA, &self.correlation_data);
        push_users(&mut out, &self.user_property);
        assert(out@.map_values(|p: Property| p@) =~= Self::spec_entries(self@));
        out
    }

    fn merge(&mut self, p: Property) -> (r: Result<(), MQTTError>) {
        let id = p.id;
        match p.value {
            PropertyValue::FourByte(x) if id == WILL_DELAY_INTERVAL => {
                if self.delay_interval.is_some() {
                    return Err(MQTTError::DuplicateProperty(id));
                }
                self.delay_interval = Some(x);
                assert(self@ =~= WillPropertiesV { delay_interval: self@.delay_interval, ..old(self)@ });
                Ok(())
            },
            PropertyValue::Byte(x) if id == PAYLOAD_FORMAT_INDICATOR => {
                if self.payload_format_indicator.is_some() {
                    return Err(MQTTError::DuplicateProperty(id));
                }
                self.payload_format_indicator = Some(x);
                assert(self@ =~= WillPropertiesV { payload_format_indicator: self@.payload_format_indicator, ..old(self)@ });
                Ok(())
            },
            PropertyValue::FourByte(x) if id == MESSAGE_EXPIRY_INTERVAL => {
                if self.message_expiry_interval.is_some() {
                    return Err(MQTTError::DuplicateProperty(id));
                }
                self.message_expiry_interval = Some(x);
                assert(self@ =~= WillPropertiesV { message_expiry_interval: self@.message_expiry_interval, ..old(self)@ });
                Ok(())
            },
            PropertyValue::Utf8(x) if id == CONTENT_TYPE => {
                if self.content_type.is_some() {
                    return Err(MQTTError::DuplicateProperty(id));
                }
                self.content_type = Some(x);
                assert(self@ =~= WillPropertiesV { content_type: self@.content_type, ..old(self)@ });
                Ok(())
            },
            PropertyValue::Utf8(x) if id == RESPONSE_TOPIC => {
                if self.response_topic.is_some() {
                    return Err(MQTTError::DuplicateProperty(id));
                }
                self.response_topic = Some(x);
                assert(self@ =~= WillPropertiesV { response_topic: self@.response_topic, ..old(self)@ });
                Ok(())
            },
            PropertyValue::Binary(x) if id == CORRELATION_DATA => {
                if self.correlation_data.is_some() {
                    return Err(MQTTError::DuplicateProperty(id));
                }
                self.correlation_data = Some(x);
                assert(self@ =~= WillPropertiesV { correlation_data: self@.correlation_data, ..old(self)@ });
                Ok(())
            },
            PropertyValue::Pair(k, x) if id == USER_PROPERTY => {
                self.user_property.push((k, x));
                assert(self@.user_property =~= old(self)@.user_property.push((k@, x@)));
                assert(self@ =~= WillPropertiesV { user_property: old(self)@.user_property.push((k@, x@)), ..old(self)@ });
                Ok(())
            },
            _ => Err(MQTTError::UnexpectedProperty(id)),
        }
    }
}

impl WillProperties {
    /// Taking user properties into a set adds them after its own.
    pub proof fn lemma_merge_users(acc: WillPropertiesV, u: Seq<UserV>)
        ensures
            merge_all::<WillProperties>(acc, user_entries(u)) == Ok::<WillPropertiesV, MQTTError>(
                WillPropertiesV { user_property: acc.user_property + u, ..acc },
            ),
        decreases u.len(),
    {
        if u.len() == 0 {
            assert(user_entries(u) =~= Seq::<PropertyV>::empty());
            assert(acc.user_property + u =~= acc.user_property);
            assert(acc =~= WillPropertiesV { user_property: acc.user_property + u, ..acc });
        } else {
            lemma_user_entries_push(u);
            lemma_merge_all_concat::<WillProperties>(
                acc,
                user_entries(u.drop_last()),
                seq![(USER_PROPERTY, ValueV::Pair(u.last().0, u.last().1))],
            );
            Self::lemma_merge_users(acc, u.drop_last());
            let mid = WillPropertiesV { user_property: acc.user_property + u.drop_last(), ..acc };
            lemma_merge_all_one::<WillProperties>(mid, (USER_PROPERTY, ValueV::Pair(u.last().0, u.last().1)));
            assert((acc.user_property + u.drop_last()).push(u.last()) =~= acc.user_property + u);
            assert(WillPropertiesV { user_property: mid.user_property.push((u.last().0, u.last().1)), ..mid } =~= WillPropertiesV { user_property: acc.user_property + u, ..acc });
        }
    }

    /// Taking the entries of a set into the empty set gives the set back.
    pub proof fn lemma_entries_merge(v: WillPropertiesV)
        ensures
            merge_all::<WillProperties>(Self::spec_empty(), Self::spec_entries(v)) == Ok::<WillPropertiesV, MQTTError>(v),
    {
        let e = Self::spec_empty();
        let a0 = WillPropertiesV { delay_interval: None, payload_format_indicator: None, message_expiry_interval: None, content_type: None, response_topic: None, correlation_data: None, user_property: Seq::empty() };
        lemma_merge_all_opt::<WillProperties>(a0, WILL_DELAY_INTERVAL, opt_four(v.delay_interval));
        assert(merge_all::<WillProperties>(a0, opt_entry(WILL_DELAY_INTERVAL, opt_four(v.delay_interval))) == Ok::<WillPropertiesV, MQTTError>(WillPropertiesV { delay_interval: v.delay_interval, payload_format_indicator: None, message_expiry_interval: None, content_type: None, response_topic: None, correlation_data: None, user_property: Seq::empty() }));
        assert(merge_all::<WillProperties>(e, opt_entry(WILL_DELAY_INTERVAL, opt_four(v.delay_interval))) == Ok::<WillPropertiesV, MQTTError>(WillPropertiesV { delay_interval: v.delay_interval, payload_format_indicator: None, message_expiry_interval: None, content_type: None, response_topic: None, correlation_data: None, user_property: Seq::empty() }));
        let a1 = WillPropertiesV { delay_interval: v.delay_interval, payload_format_indicator: None, message_expiry_interval: None, content_type: None, response_topic: None, correlation_data: None, user_property: Seq::empty() };
        lemma_merge_all_concat::<WillProperties>(e, opt_entry(WILL_DELAY_INTERVAL, opt_four(v.delay_interval)), opt_entry(PAYLOAD_FORMAT_INDICATOR, opt_byte(v.payload_format_indicator)));
        lemma_merge_all_opt::<WillProperties>(a1, PAYLOAD_FORMAT_INDICATOR, opt_byte(v.payload_format_indicator));
        assert(merge_all::<WillProperties>(a1, opt_entry(PAYLOAD_FORMAT_INDICATOR, opt_byte(v.payload_format_indicator))) == Ok::<WillPropertiesV, MQTTError>(WillPropertiesV { delay_interval: v.delay_interval, payload_format_indicator: v.payload_format_indicator, message_expiry_interval: None, content_type: None, response_topic: None, correlation_data: None, user_property: Seq::empty() }));
        assert(merge_all::<WillProperties>(e, opt_entry(WILL_DELAY_INTERVAL, opt_four(v.delay_interval)) + opt_entry(PAYLOAD_FORMAT_INDICATOR, opt_byte(v.payload_format_indicator))) == Ok::<WillPropertiesV, MQTTError>(WillPropertiesV { delay_interval: v.delay_interval, payload_format_indicator: v.payload_format_indicator, message_expiry_interval: None, content_type: None, response_topic: None, correlation_data: None, user_property: Seq::empty() }));
        let a2 = WillPropertiesV { delay_interval: v.delay_interval, payload_format_indicator: v.payload_format_indicator, message_expiry_interval: None, content_type: None, response_topic: None, correlation_data: None, user_property: Seq::empty() };
        lemma_merge_all_concat::<WillProperties>(e, opt_entry(WILL_DELAY_INTERVAL, opt_four(v.delay_interval)) + opt_entry(PAYLOAD_FORMAT_INDICATOR, opt_byte(v.payload_format_indicator)), opt_entry(MESSAGE_EXPIRY_INTERVAL, opt_four(v.message_expiry_interval)));
        lemma_merge_all_opt::<WillProperties>(a2, MESSAGE_EXPIRY_INTERVAL, opt_four(v.message_expiry_interval));
        assert(merge_all::<WillProperties>(a2, opt_entry(MESSAGE_EXPIRY_INTERVAL, opt_four(v.message_expiry_interval))) == Ok::<WillPropertiesV, MQTTError>(WillPropertiesV { delay_interval: v.delay_interval, payload_format_indicator: v.payload_format_indicator, message_expiry_interval: v.message_expiry_interval, content_type: None, response_topic: None, correlation_data: None, user_property: Seq::empty() }));
        assert(merge_all::<WillProperties>(e, opt_entry(WILL_DELAY_INTERVAL, opt_four(v.delay_interval)) + opt_entry(PAYLOAD_FORMAT_INDICATOR, opt_byte(v.payload_format_indicator)) + opt_entry(MESSAGE_EXPIRY_INTERVAL, opt_four(v.message_expiry_interval))) == Ok::<WillPropertiesV, MQTTError>(WillPropertiesV { delay_interval: v.delay_interval, payload_format_indicator: v.payload_format_indicator, message_expiry_interval: v.message_expiry_interval, content_type: None, response_topic: None, correlation_data: None, user_property: Seq::empty() }));
        let a3 = WillPropertiesV { delay_interval: v.delay_interval, payload_format_indicator: v.payload_format_indicator, message_expiry_interval: v.message_expiry_interval, content_type: None, response_topic: None, correlation_data: None, user_property: Seq::empty() };
        lemma_merge_all_concat::<WillProperties>(e, opt_entry(WILL_DELAY_INTERVAL, opt_four(v.delay_interval)) + opt_entry(PAYLOAD_FORMAT_INDICATOR, opt_byte(v.payload_format_indicator)) + opt_entry(MESSAGE_EXPIRY_INTERVAL, opt_four(v.message_expiry_interval)), opt_entry(CONTENT_TYPE, opt_utf8(v.content_type)));
        lemma_merge_all_opt::<WillProperties>(a3, CONTENT_TYPE, opt_utf8(v.content_type));
        assert(merge_all::<WillProperties>(a3, opt_entry(CONTENT_TYPE, opt_utf8(v.content_type))) == Ok::<WillPropertiesV, MQTTError>(WillPropertiesV { delay_interval: v.delay_interval, payload_format_indicator: v.payload_format_indicator, message_expiry_interval: v.message_expiry_interval, content_type: v.content_type, response_topic: None, correlation_data: None, user_property: Seq::empty() }));
        assert(merge_all::<WillProperties>(e, opt_entry(WILL_DELAY_INTERVAL, opt_four(v.delay_interval)) + opt_entry(PAYLOAD_FORMAT_INDICATOR, opt_byte(v.payload_format_indicator)) + opt_entry(MESSAGE_EXPIRY_INTERVAL, opt_four(v.message_expiry_interval)) + opt_entry(CONTENT_TYPE, opt_utf8(v.content_type))) == Ok::<WillPropertiesV, MQTTError>(WillPropertiesV { delay_interval: v.delay_interval, payload_format_indicator: v.payload_format_indicator, message_expiry_interval: v.message_expiry_interval, content_type: v.content_type, response_topic: None, correlation_data: None, user_property: Seq::empty() }));
        let a4 = WillPropertiesV { delay_interval: v.delay_interval, payload_format_indicator: v.payload_format_indicator, message_expiry_interval: v.message_expiry_interval, content_type: v.content_type, response_topic: None, correlation_data: None, user_property: Seq::empty() };
        lemma_merge_all_concat::<WillProperties>(e, opt_entry(WILL_DELAY_INTERVAL, opt_four(v.delay_interval)) + opt_entry(PAYLOAD_FORMAT_INDICATOR, opt_byte(v.payload_format_indicator)) + opt_entry(MESSAGE_EXPIRY_INTERVAL, opt_four(v.message_expiry_interval)) + opt_entry(CONTENT_TYPE, opt_utf8(v.content_type)), opt_entry(RESPONSE_TOPIC, opt_utf8(v.response_topic)));
        lemma_merge_all_opt::<WillProperties>(a4, RESPONSE_TOPIC, opt_utf8(v.response_topic));
        assert(merge_all::<WillProperties>(a4, opt_entry(RESPONSE_TOPIC, opt_utf8(v.response_topic))) == Ok::<WillPropertiesV, MQTTError>(WillPropertiesV { delay_interval: v.delay_interval, payload_format_indicator: v.payload_format_indicator, message_expiry_interval: v.message_expiry_interval, content_type: v.content_type, response_topic: v.response_topic, correlation_data: None, user_property: Seq::empty() }));
        assert(merge_all::<WillProperties>(e, opt_entry(WILL_DELAY_INTERVAL, opt_four(v.delay_interval)) + opt_entry(PAYLOAD_FORMAT_INDICATOR, opt_byte(v.payload_format_indicator)) + opt_entry(MESSAGE_EXPIRY_INTERVAL, opt_four(v.message_expiry_interval)) + opt_entry(CONTENT_TYPE, opt_utf8(v.content_type)) + opt_entry(RESPONSE_TOPIC, opt_utf8(v.response_topic))) == Ok::<WillPropertiesV, MQTTError>(WillPropertiesV { delay_interval: v.delay_interval, payload_format_indicator: v.payload_format_indicator, message_expiry_interval: v.message_expiry_interval, content_type: v.content_type, response_topic: v.response_topic, correlation_data: None, user_property: Seq::empty() }));
        let a5 = WillPropertiesV { delay_interval: v.delay_interval, payload_format_indicator: v.payload_format_indicator, message_expiry_interval: v.message_expiry_interval, content_type: v.content_type, response_topic: v.response_topic, correlation_data: None, user_property: Seq::empty() };
        lemma_merge_all_concat::<WillProperties>(e, opt_entry(WILL_DELAY_INTERVAL, opt_four(v.delay_interval)) + opt_entry(PAYLOAD_FORMAT_INDICATOR, opt_byte(v.payload_format_indicator)) + opt_entry(MESSAGE_EXPIRY_INTERVAL, opt_four(v.message_expiry_interval)) + opt_entry(CONTENT_TYPE, opt_utf8(v.content_type)) + opt_entry(RESPONSE_TOPIC, opt_utf8(v.response_topic)), opt_entry(CORRELATION_DATA, opt_binary(v.correlation_data)));
        lemma_merge_all_opt::<WillProperties>(a5, CORRELATION_DATA, opt_binary(v.correlation_data));
        assert(merge_all::<WillProperties>(a5, opt_entry(CORRELATION_DATA, opt_binary(v.correlation_data))) == Ok::<WillPropertiesV, MQTTError>(WillPropertiesV { delay_interval: v.delay_interval, payload_format_indicator: v.payload_format_indicator, message_expiry_interval: v.message_expiry_interval, content_type: v.content_type, response_topic: v.response_topic, correlation_data: v.correlation_data, user_property: Seq::empty() }));
        assert(merge_all::<WillProperties>(e, opt_entry(WILL_DELAY_INTERVAL, opt_four(v.delay_interval)) + opt_entry(PAYLOAD_FORMAT_INDICATOR, opt_byte(v.payload_format_indicator)) + opt_entry(MESSAGE_EXPIRY_INTERVAL, opt_four(v.message_expiry_interval)) + opt_entry(CONTENT_TYPE, opt_utf8(v.content_type)) + opt_entry(RESPONSE_TOPIC, opt_utf8(v.response_topic)) + opt_entry(CORRELATION_DATA, opt_binary(v.correlation_data))) == Ok::<WillPropertiesV, MQTTError>(WillPropertiesV { delay_interval: v.delay_interval, payload_format_indicator: v.payload_format_indicator, message_expiry_interval: v.message_expiry_interval, content_type: v.content_type, response_topic: v.response_topic, correlation_data: v.correlation_data, user_property: Seq::empty() }));
        let a6 = WillPropertiesV { delay_interval: v.delay_interval, payload_format_indicator: v.payload_format_indicator, message_expiry_interval: v.message_expiry_interval, content_type: v.content_type, response_topic: v.response_topic, correlation_data: v.correlation_data, user_property: Seq::empty() };
        lemma_merge_all_concat::<WillProperties>(e, opt_entry(WILL_DELAY_INTERVAL, opt_four(v.delay_interval)) + opt_entry(PAYLOAD_FORMAT_INDICATOR, opt_byte(v.payload_format_indicator)) + opt_entry(MESSAGE_EXPIRY_INTERVAL, opt_four(v.message_expiry_interval)) + opt_entry(CONTENT_TYPE, opt_utf8(v.content_type)) + opt_entry(RESPONSE_TOPIC, opt_utf8(v.response_topic)) + opt_entry(CORRELATION_DATA, opt_binary(v.correlation_data)), user_entries(v.user_property));
        Self::lemma_merge_users(a6, v.user_property);
        assert(Seq::<UserV>::empty() + v.user_property =~= v.user_property);
        assert(WillPropertiesV { user_property: a6.user_property + v.user_property, ..a6 } =~= WillPropertiesV { delay_interval: v.delay_interval, payload_format_indicator: v.payload_format_indicator, message_expiry_interval: v.message_expiry_interval, content_type: v.content_type, response_topic: v.response_topic, correlation_data: v.correlation_data, user_property: v.user_property });
        assert(merge_all::<WillProperties>(e, opt_entry(WILL_DELAY_INTERVAL, opt_four(v.delay_interval)) + opt_entry(PAYLOAD_FORMAT_INDICATOR, opt_byte(v.payload_format_indicator)) + opt_entry(MESSAGE_EXPIRY_INTERVAL, opt_four(v.message_expiry_interval)) + opt_entry(CONTENT_TYPE, opt_utf8(v.content_type)) + opt_entry(RESPONSE_TOPIC, opt_utf8(v.response_topic)) + opt_entry(CORRELATION_DATA, opt_binary(v.correlation_data)) + user_entries(v.user_property)) == Ok::<WillPropertiesV, MQTTError>(WillPropertiesV { delay_interval: v.delay_interval, payload_format_indicator: v.payload_format_indicator, message_expiry_interval: v.message_expiry_interval, content_type: v.content_type, response_topic: v.response_topic, correlation_data: v.correlation_data, user_property: v.user_property }));
        assert(WillPropertiesV { delay_interval: v.delay_interval, payload_format_indicator: v.payload_format_indicator, message_expiry_interval: v.message_expiry_interval, content_type: v.content_type, response_topic: v.response_topic, correlation_data: v.correlation_data, user_property: v.user_property } =~= v);
    }

    /// The Property Length.
    pub fn length(&self) -> (r: usize)
        requires
            entries_size(Self::spec_entries(self@)) <= usize::MAX,
        ensures
            r == entries_size(Self::spec_entries(self@)),
    {
        properties_length(self)
    }

    /// Writes the Property Length, then the present properties in order.
    pub fn write(&self, buf: &mut BytesMut) -> (r: Result<(), MQTTError>)
        requires
            bytes_mut_view(*old(buf)).len() + 4 + entries_size(Self::spec_entries(self@)) <= isize::MAX,
        ensures
            r == spec_write_properties(Self::spec_entries(self@)).0,
            bytes_mut_view(*final(buf)) == bytes_mut_view(*old(buf)) + spec_write_properties(
                Self::spec_entries(self@),
            ).1,
    {
        write_properties(self, buf)
    }

    /// Reads a property list; a property this packet does not allow is
    /// `UnexpectedProperty`, a second instance of a single property `DuplicateProperty`.
    pub fn read(buf: &mut Bytes) -> (r: Result<Self, MQTTError>)
        ensures
            match (r, parse_properties::<WillProperties>(bytes_view(*old(buf)), "WillProperties").0) {
                (Ok(t), Ok(v)) => t@ == v,
                (Err(e), Err(f)) => e == f,
                _ => false,
            },
            bytes_view(*final(buf)) == bytes_view(*old(buf)).skip(
                parse_properties::<WillProperties>(bytes_view(*old(buf)), "WillProperties").1 as int,
            ),
    {
        read_properties(buf, "WillProperties")
    }

    /// Reading written properties gives them back.
    pub proof fn lemma_write_read(v: WillPropertiesV, rest: Seq<u8>)
        requires
            entries_fit(Self::spec_entries(v)),
            entries_size(Self::spec_entries(v)) <= VARINT_MAX,
        ensures
            spec_write_properties(Self::spec_entries(v)).0 == Ok::<(), MQTTError>(()),
            parse_properties::<WillProperties>(spec_write_properties(Self::spec_entries(v)).1 + rest, "WillProperties") == (
                Ok::<WillPropertiesV, MQTTError>(v),
                spec_write_properties(Self::spec_entries(v)).1.len(),
            ),
    {
        Self::lemma_entries_merge(v);
        lemma_properties_roundtrip::<WillProperties>(v, rest, "WillProperties");
    }
}

impl Default for WillProperties {
    fn default() -> (r: Self)
        ensures
            r@ == Self::spec_empty(),
    {
        Self::empty()
    }
}

/// Each property is written under the identifier that MQTT 5 assigns to it
/// (section 2.2.2.2): a set holding one property, whatever its value, is
/// written as exactly that property under its identifier.
pub proof fn lemma_will_properties_identifiers_written(delay_interval: u32, payload_format_indicator: u8, message_expiry_interval: u32, content_type: Seq<char>, response_topic: Seq<char>, correlation_data: Seq<u8>, user_key: Seq<char>, user_value: Seq<char>)
    ensures
        WillProperties::spec_entries(WillPropertiesV { delay_interval: Some(delay_interval), ..WillProperties::spec_empty() }) == seq![(24u8, ValueV::FourByte(delay_interval))],
        WillProperties::spec_entries(WillPropertiesV { payload_format_indicator: Some(payload_format_indicator), ..WillProperties::spec_empty() }) == seq![(1u8, ValueV::Byte(payload_format_indicator))],
        WillProperties::spec_entries(WillPropertiesV { message_expiry_interval: Some(message_expiry_interval), ..WillProperties::spec_empty() }) == seq![(2u8, ValueV::FourByte(message_expiry_interval))],
        WillProperties::spec_entries(WillPropertiesV { content_type: Some(content_type), ..WillProperties::spec_empty() }) == seq![(3u8, ValueV::Utf8(content_type))],
        WillProperties::spec_entries(WillPropertiesV { response_topic: Some(response_topic), ..WillProperties::spec_empty() }) == seq![(8u8, ValueV::Utf8(response_topic))],
        WillProperties::spec_entries(WillPropertiesV { correlation_data: Some(correlation_data), ..WillProperties::spec_empty() }) == seq![(9u8, ValueV::Binary(correlation_data))],
        WillProperties::spec_entries(WillPropertiesV { user_property: seq![(user_key, user_value)], ..WillProperties::spec_empty() }) == seq![(38u8, ValueV::Pair(user_key, user_value))],
{
}

/// Reading a property under the identifier that MQTT 5 assigns to a field
/// sets that field and no other, into any set; a second one of a field that
/// may appear once is a duplicate, reported with its identifier.
pub proof fn lemma_will_properties_identifiers_read(v: WillPropertiesV, delay_interval: u32, payload_format_indicator: u8, message_expiry_interval: u32, content_type: Seq<char>, response_topic: Seq<char>, correlation_data: Seq<u8>, user_key: Seq<char>, user_value: Seq<char>)
    ensures
        WillProperties::spec_merge(v, (24u8, ValueV::FourByte(delay_interval))) == if v.delay_interval is Some {
            Err::<WillPropertiesV, MQTTError>(MQTTError::DuplicateProperty(24u8))
        } else {
            Ok::<WillPropertiesV, MQTTError>(WillPropertiesV { delay_interval: Some(delay_interval), ..v })
        },
        WillProperties::spec_merge(v, (1u8, ValueV::Byte(payload_format_indicator))) == if v.payload_format_indicator is Some {
            Err::<WillPropertiesV, MQTTError>(MQTTError::DuplicateProperty(1u8))
        } else {
            Ok::<WillPropertiesV, MQTTError>(WillPropertiesV { payload_format_indicator: Some(payload_format_indicator), ..v })
        },
        WillProperties::spec_merge(v, (2u8, ValueV::FourByte(message_expiry_interval))) == if v.message_expiry_interval is Some {
            Err::<WillPropertiesV, MQTTError>(MQTTError::DuplicateProperty(2u8))
        } else {
            Ok::<WillPropertiesV, MQTTError>(WillPropertiesV { message_expiry_interval: Some(message_expiry_interval), ..v })
        },
        WillProperties::spec_merge(v, (3u8, ValueV::Utf8(content_type))) == if v.content_type is Some {
            Err::<WillPropertiesV, MQTTError>(MQTTError::DuplicateProperty(3u8))
        } else {
            Ok::<WillPropertiesV, MQTTError>(WillPropertiesV { content_type: Some(content_type), ..v })
        },
        WillProperties::spec_merge(v, (8u8, ValueV::Utf8(response_topic))) == if v.response_topic is Some {
            Err::<WillPropertiesV, MQTTError>(MQTTError::DuplicateProperty(8u8))
        } else {
            Ok::<WillPropertiesV, MQTTError>(WillPropertiesV { response_topic: Some(response_topic), ..v })
        },
        WillProperties::spec_merge(v, (9u8, ValueV::Binary(correlation_data))) == if v.correlation_data is Some {
            Err::<WillPropertiesV, MQTTError>(MQTTError::DuplicateProperty(9u8))
        } else {
            Ok::<WillPropertiesV, MQTTError>(WillPropertiesV { correlation_data: Some(correlation_data), ..v })
        },
        WillProperties::spec_merge(v, (38u8, ValueV::Pair(user_key, user_value))) == Ok::<WillPropertiesV, MQTTError>(WillPropertiesV { user_property: v.user_property.push((user_key, user_value)), ..v }),
{
}

} // verus!
