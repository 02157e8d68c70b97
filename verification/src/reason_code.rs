//! The reason codes of the acknowledgement and control packets, each with its
//! byte value.
use vstd::prelude::*;

verus! {

/// Reason code values shared by several packets.
#[derive(Debug, Clone, Copy)]
pub struct ReasonCode;

impl ReasonCode {
    pub const SUCCESS: u64 = 0x00;
    pub const NORAMAL_DISCONNECTION: u64 = 0x00;
}
/// Reason codes of DISCONNECT (section 3.14.2.1).
#[derive(Debug, Clone, Copy, PartialEq, Eq, Structural)]
pub enum DisconnectReasonCode {
    NormalDisconnection,
    DisconnectWithWillMessage,
    UnspecifiedError,
    MalformedPacket,
    ProtocolError,
    ImplementationSpecificError,
    NotAuthorized,
    ServerBusy,
    ServerShuttingDown,
    KeepAliveTimeout,
    SessionTakenOver,
    TopicFilterInvalid,
    TopicNameInvalid,
    ReceiveMaximumExceeded,
    TopicAliasInvalid,
    PacketTooLarge,
    MessageRateTooHigh,
    QuotaExceeded,
    AdministrativeAction,
    PayloadFormatInvalid,
    RetainNotSupported,
    QoSNotSupported,
    UseAnotherServer,
    ServerMoved,
    SharedSubscriptionsNotSupported,
    ConnectionRateExceeded,
    MaximumConnectTime,
    SubscriptionIdentifiersNotSupported,
    WildcardSubscriptionsNotSupported,
}

impl DisconnectReasonCode {
    pub open spec fn spec_code(self) -> u8 {
        match self {
            DisconnectReasonCode::NormalDisconnection => 0x00,
            DisconnectReasonCode::DisconnectWithWillMessage => 0x04,
            DisconnectReasonCode::UnspecifiedError => 0x80,
            DisconnectReasonCode::MalformedPacket => 0x81,
            DisconnectReasonCode::ProtocolError => 0x82,
            DisconnectReasonCode::ImplementationSpecificError => 0x83,
            DisconnectReasonCode::NotAuthorized => 0x87,
            DisconnectReasonCode::ServerBusy => 0x89,
            DisconnectReasonCode::ServerShuttingDown => 0x8B,
            DisconnectReasonCode::KeepAliveTimeout => 0x8D,
            DisconnectReasonCode::SessionTakenOver => 0x8E,
            DisconnectReasonCode::TopicFilterInvalid => 0x8F,
            DisconnectReasonCode::TopicNameInvalid => 0x90,
            DisconnectReasonCode::ReceiveMaximumExceeded => 0x93,
            DisconnectReasonCode::TopicAliasInvalid => 0x94,
            DisconnectReasonCode::PacketTooLarge => 0x95,
            DisconnectReasonCode::MessageRateTooHigh => 0x96,
            DisconnectReasonCode::QuotaExceeded => 0x97,
            DisconnectReasonCode::AdministrativeAction => 0x98,
            DisconnectReasonCode::PayloadFormatInvalid => 0x99,
            DisconnectReasonCode::RetainNotSupported => 0x9A,
            DisconnectReasonCode::QoSNotSupported => 0x9B,
            DisconnectReasonCode::UseAnotherServer => 0x9C,
            DisconnectReasonCode::ServerMoved => 0x9D,
            DisconnectReasonCode::SharedSubscriptionsNotSupported => 0x9E,
            DisconnectReasonCode::ConnectionRateExceeded => 0x9F,
            DisconnectReasonCode::MaximumConnectTime => 0xA0,
            DisconnectReasonCode::SubscriptionIdentifiersNotSupported => 0xA1,
            DisconnectReasonCode::WildcardSubscriptionsNotSupported => 0xA2,
        }
    }

    /// The byte that stands for the code.
    pub fn code(self) -> (r: u8)
        ensures
            r == self.spec_code(),
    {
        match self {
            DisconnectReasonCode::NormalDisconnection => 0x00,
            DisconnectReasonCode::DisconnectWithWillMessage => 0x04,
            DisconnectReasonCode::UnspecifiedError => 0x80,
            DisconnectReasonCode::MalformedPacket => 0x81,
            DisconnectReasonCode::ProtocolError => 0x82,
            DisconnectReasonCode::ImplementationSpecificError => 0x83,
            DisconnectReasonCode::NotAuthorized => 0x87,
            DisconnectReasonCode::ServerBusy => 0x89,
            DisconnectReasonCode::ServerShuttingDown => 0x8B,
            DisconnectReasonCode::KeepAliveTimeout => 0x8D,
            DisconnectReasonCode::SessionTakenOver => 0x8E,
            DisconnectReasonCode::TopicFilterInvalid => 0x8F,
            DisconnectReasonCode::TopicNameInvalid => 0x90,
            DisconnectReasonCode::ReceiveMaximumExceeded => 0x93,
            DisconnectReasonCode::TopicAliasInvalid => 0x94,
            DisconnectReasonCode::PacketTooLarge => 0x95,
            DisconnectReasonCode::MessageRateTooHigh => 0x96,
            DisconnectReasonCode::QuotaExceeded => 0x97,
            DisconnectReasonCode::AdministrativeAction => 0x98,
            DisconnectReasonCode::PayloadFormatInvalid => 0x99,
            DisconnectReasonCode::RetainNotSupported => 0x9A,
            DisconnectReasonCode::QoSNotSupported => 0x9B,
            DisconnectReasonCode::UseAnotherServer => 0x9C,
            DisconnectReasonCode::ServerMoved => 0x9D,
            DisconnectReasonCode::SharedSubscriptionsNotSupported => 0x9E,
            DisconnectReasonCode::ConnectionRateExceeded => 0x9F,
            DisconnectReasonCode::MaximumConnectTime => 0xA0,
            DisconnectReasonCode::SubscriptionIdentifiersNotSupported => 0xA1,
            DisconnectReasonCode::WildcardSubscriptionsNotSupported => 0xA2,
        }
    }

    pub open spec fn spec_from_code(v: u8) -> Option<DisconnectReasonCode> {
        if v == 0x00 {
            Some(DisconnectReasonCode::NormalDisconnection)
        } else if v == 0x04 {
            Some(DisconnectReasonCode::DisconnectWithWillMessage)
        } else if v == 0x80 {
            Some(DisconnectReasonCode::UnspecifiedError)
        } else if v == 0x81 {
            Some(DisconnectReasonCode::MalformedPacket)
        } else if v == 0x82 {
            Some(DisconnectReasonCode::ProtocolError)
        } else if v == 0x83 {
            Some(DisconnectReasonCode::ImplementationSpecificError)
        } else if v == 0x87 {
            Some(DisconnectReasonCode::NotAuthorized)
        } else if v == 0x89 {
            Some(DisconnectReasonCode::ServerBusy)
        } else if v == 0x8B {
            Some(DisconnectReasonCode::ServerShuttingDown)
        } else if v == 0x8D {
            Some(DisconnectReasonCode::KeepAliveTimeout)
        } else if v == 0x8E {
            Some(DisconnectReasonCode::SessionTakenOver)
        } else if v == 0x8F {
            Some(DisconnectReasonCode::TopicFilterInvalid)
        } else if v == 0x90 {
            Some(DisconnectReasonCode::TopicNameInvalid)
        } else if v == 0x93 {
            Some(DisconnectReasonCode::ReceiveMaximumExceeded)
        } else if v == 0x94 {
            Some(DisconnectReasonCode::TopicAliasInvalid)
        } else if v == 0x95 {
            Some(DisconnectReasonCode::PacketTooLarge)
        } else if v == 0x96 {
            Some(DisconnectReasonCode::MessageRateTooHigh)
        } else if v == 0x97 {
            Some(DisconnectReasonCode::QuotaExceeded)
        } else if v == 0x98 {
            Some(DisconnectReasonCode::AdministrativeAction)
        } else if v == 0x99 {
            Some(DisconnectReasonCode::PayloadFormatInvalid)
        } else if v == 0x9A {
            Some(DisconnectReasonCode::RetainNotSupported)
        } else if v == 0x9B {
            Some(DisconnectReasonCode::QoSNotSupported)
        } else if v == 0x9C {
            Some(DisconnectReasonCode::UseAnotherServer)
        } else if v == 0x9D {
            Some(DisconnectReasonCode::ServerMoved)
        } else if v == 0x9E {
            Some(DisconnectReasonCode::SharedSubscriptionsNotSupported)
        } else if v == 0x9F {
            Some(DisconnectReasonCode::ConnectionRateExceeded)
        } else if v == 0xA0 {
            Some(DisconnectReasonCode::MaximumConnectTime)
        } else if v == 0xA1 {
            Some(DisconnectReasonCode::SubscriptionIdentifiersNotSupported)
        } else if v == 0xA2 {
            Some(DisconnectReasonCode::WildcardSubscriptionsNotSupported)
        } else {
            None
        }
    }

    /// The code that `v` stands for; `None` for a byte that is no code of this packet.
    pub fn from_code(v: u8) -> (r: Option<DisconnectReasonCode>)
        ensures
            r == Self::spec_from_code(v),
    {
        if v == 0x00 {
            Some(DisconnectReasonCode::NormalDisconnection)
        } else if v == 0x04 {
            Some(DisconnectReasonCode::DisconnectWithWillMessage)
        } else if v == 0x80 {
            Some(DisconnectReasonCode::UnspecifiedError)
        } else if v == 0x81 {
            Some(DisconnectReasonCode::MalformedPacket)
        } else if v == 0x82 {
            Some(DisconnectReasonCode::ProtocolError)
        } else if v == 0x83 {
            Some(DisconnectReasonCode::ImplementationSpecificError)
        } else if v == 0x87 {
            Some(DisconnectReasonCode::NotAuthorized)
        } else if v == 0x89 {
            Some(DisconnectReasonCode::ServerBusy)
        } else if v == 0x8B {
            Some(DisconnectReasonCode::ServerShuttingDown)
        } else if v == 0x8D {
            Some(DisconnectReasonCode::KeepAliveTimeout)
        } else if v == 0x8E {
            Some(DisconnectReasonCode::SessionTakenOver)
        } else if v == 0x8F {
            Some(DisconnectReasonCode::TopicFilterInvalid)
        } else if v == 0x90 {
            Some(DisconnectReasonCode::TopicNameInvalid)
        } else if v == 0x93 {
            Some(DisconnectReasonCode::ReceiveMaximumExceeded)
        } else if v == 0x94 {
            Some(DisconnectReasonCode::TopicAliasInvalid)
        } else if v == 0x95 {
            Some(DisconnectReasonCode::PacketTooLarge)
        } else if v == 0x96 {
            Some(DisconnectReasonCode::MessageRateTooHigh)
        } else if v == 0x97 {
            Some(DisconnectReasonCode::QuotaExceeded)
        } else if v == 0x98 {
            Some(DisconnectReasonCode::AdministrativeAction)
        } else if v == 0x99 {
            Some(DisconnectReasonCode::PayloadFormatInvalid)
        } else if v == 0x9A {
            Some(DisconnectReasonCode::RetainNotSupported)
        } else if v == 0x9B {
            Some(DisconnectReasonCode::QoSNotSupported)
        } else if v == 0x9C {
            Some(DisconnectReasonCode::UseAnotherServer)
        } else if v == 0x9D {
            Some(DisconnectReasonCode::ServerMoved)
        } else if v == 0x9E {
            Some(DisconnectReasonCode::SharedSubscriptionsNotSupported)
        } else if v == 0x9F {
            Some(DisconnectReasonCode::ConnectionRateExceeded)
        } else if v == 0xA0 {
            Some(DisconnectReasonCode::MaximumConnectTime)
        } else if v == 0xA1 {
            Some(DisconnectReasonCode::SubscriptionIdentifiersNotSupported)
        } else if v == 0xA2 {
            Some(DisconnectReasonCode::WildcardSubscriptionsNotSupported)
        } else {
            None
        }
    }

    /// Reading back the byte of a code gives the code.
    pub proof fn lemma_code_roundtrip(c: DisconnectReasonCode)
        ensures
            Self::spec_from_code(c.spec_code()) == Some(c),
    {
    }
}

impl Default for DisconnectReasonCode {
    fn default() -> (r: DisconnectReasonCode)
        ensures
            r == DisconnectReasonCode::NormalDisconnection,
    {
        DisconnectReasonCode::NormalDisconnection
    }
}

impl From<DisconnectReasonCode> for u8 {
    fn from(value: DisconnectReasonCode) -> (r: u8) {
        value.code()
    }
}

impl vstd::std_specs::convert::FromSpecImpl<DisconnectReasonCode> for u8 {
    open spec fn obeys_from_spec() -> bool {
        true
    }

    open spec fn from_spec(v: DisconnectReasonCode) -> u8 {
        v.spec_code()
    }
}

/// Reason codes of PUBACK and PUBREC (sections 3.4.2.1 and 3.5.2.1).
#[derive(Debug, Clone, Copy, PartialEq, Eq, Structural)]
pub enum PubAckReasonCode {
    Success,
    NoMatchingSubscribers,
    UnspecifiedError,
    ImplementationSpecificError,
    NotAuthorized,
    TopicNameInvalid,
    PacketIdentifierInUse,
    QuotaExceeded,
    PayloadFormatInvalid,
}

impl PubAckReasonCode {
    pub open spec fn spec_code(self) -> u8 {
        match self {
            PubAckReasonCode::Success => 0x00,
            PubAckReasonCode::NoMatchingSubscribers => 0x10,
            PubAckReasonCode::UnspecifiedError => 0x80,
            PubAckReasonCode::ImplementationSpecificError => 0x83,
            PubAckReasonCode::NotAuthorized => 0x87,
            PubAckReasonCode::TopicNameInvalid => 0x90,
            PubAckReasonCode::PacketIdentifierInUse => 0x91,
            PubAckReasonCode::QuotaExceeded => 0x97,
            PubAckReasonCode::PayloadFormatInvalid => 0x99,
        }
    }

    /// The byte that stands for the code.
    pub fn code(self) -> (r: u8)
        ensures
            r == self.spec_code(),
    {
        match self {
            PubAckReasonCode::Success => 0x00,
            PubAckReasonCode::NoMatchingSubscribers => 0x10,
            PubAckReasonCode::UnspecifiedError => 0x80,
            PubAckReasonCode::ImplementationSpecificError => 0x83,
            PubAckReasonCode::NotAuthorized => 0x87,
            PubAckReasonCode::TopicNameInvalid => 0x90,
            PubAckReasonCode::PacketIdentifierInUse => 0x91,
            PubAckReasonCode::QuotaExceeded => 0x97,
            PubAckReasonCode::PayloadFormatInvalid => 0x99,
        }
    }

    pub open spec fn spec_from_code(v: u8) -> Option<PubAckReasonCode> {
        if v == 0x00 {
            Some(PubAckReasonCode::Success)
        } else if v == 0x10 {
            Some(PubAckReasonCode::NoMatchingSubscribers)
        } else if v == 0x80 {
            Some(PubAckReasonCode::UnspecifiedError)
        } else if v == 0x83 {
            Some(PubAckReasonCode::ImplementationSpecificError)
        } else if v == 0x87 {
            Some(PubAckReasonCode::NotAuthorized)
        } else if v == 0x90 {
            Some(PubAckReasonCode::TopicNameInvalid)
        } else if v == 0x91 {
            Some(PubAckReasonCode::PacketIdentifierInUse)
        } else if v == 0x97 {
            Some(PubAckReasonCode::QuotaExceeded)
        } else if v == 0x99 {
            Some(PubAckReasonCode::PayloadFormatInvalid)
        } else {
            None
        }
    }

    /// The code that `v` stands for; `None` for a byte that is no code of this packet.
    pub fn from_code(v: u8) -> (r: Option<PubAckReasonCode>)
        ensures
            r == Self::spec_from_code(v),
    {
        if v == 0x00 {
            Some(PubAckReasonCode::Success)
        } else if v == 0x10 {
            Some(PubAckReasonCode::NoMatchingSubscribers)
        } else if v == 0x80 {
            Some(PubAckReasonCode::UnspecifiedError)
        } else if v == 0x83 {
            Some(PubAckReasonCode::ImplementationSpecificError)
        } else if v == 0x87 {
            Some(PubAckReasonCode::NotAuthorized)
        } else if v == 0x90 {
            Some(PubAckReasonCode::TopicNameInvalid)
        } else if v == 0x91 {
            Some(PubAckReasonCode::PacketIdentifierInUse)
        } else if v == 0x97 {
            Some(PubAckReasonCode::QuotaExceeded)
        } else if v == 0x99 {
            Some(PubAckReasonCode::PayloadFormatInvalid)
        } else {
            None
        }
    }

    /// Reading back the byte of a code gives the code.
    pub proof fn lemma_code_roundtrip(c: PubAckReasonCode)
        ensures
            Self::spec_from_code(c.spec_code()) == Some(c),
    {
    }
}

impl Default for PubAckReasonCode {
    fn default() -> (r: PubAckReasonCode)
        ensures
            r == PubAckReasonCode::Success,
    {
        PubAckReasonCode::Success
    }
}

impl From<PubAckReasonCode> for u8 {
    fn from(value: PubAckReasonCode) -> (r: u8) {
        value.code()
    }
}

impl vstd::std_specs::convert::FromSpecImpl<PubAckReasonCode> for u8 {
    open spec fn obeys_from_spec() -> bool {
        true
    }

    open spec fn from_spec(v: PubAckReasonCode) -> u8 {
        v.spec_code()
    }
}

/// Reason codes of PUBREL and PUBCOMP (sections 3.6.2.1 and 3.7.2.1).
#[derive(Debug, Clone, Copy, PartialEq, Eq, Structural)]
pub enum PubRelReasonCode {
    Success,
    PacketIdentifierNotFound,
}

impl PubRelReasonCode {
    pub open spec fn spec_code(self) -> u8 {
        match self {
            PubRelReasonCode::Success => 0x00,
            PubRelReasonCode::PacketIdentifierNotFound => 0x92,
        }
    }

    /// The byte that stands for the code.
    pub fn code(self) -> (r: u8)
        ensures
            r == self.spec_code(),
    {
        match self {
            PubRelReasonCode::Success => 0x00,
            PubRelReasonCode::PacketIdentifierNotFound => 0x92,
        }
    }

    pub open spec fn spec_from_code(v: u8) -> Option<PubRelReasonCode> {
        if v == 0x00 {
            Some(PubRelReasonCode::Success)
        } else if v == 0x92 {
            Some(PubRelReasonCode::PacketIdentifierNotFound)
        } else {
            None
        }
    }

    /// The code that `v` stands for; `None` for a byte that is no code of this packet.
    pub fn from_code(v: u8) -> (r: Option<PubRelReasonCode>)
        ensures
            r == Self::spec_from_code(v),
    {
        if v == 0x00 {
            Some(PubRelReasonCode::Success)
        } else if v == 0x92 {
            Some(PubRelReasonCode::PacketIdentifierNotFound)
        } else {
            None
        }
    }

    /// Reading back the byte of a code gives the code.
    pub proof fn lemma_code_roundtrip(c: PubRelReasonCode)
        ensures
            Self::spec_from_code(c.spec_code()) == Some(c),
    {
    }
}

impl Default for PubRelReasonCode {
    fn default() -> (r: PubRelReasonCode)
        ensures
            r == PubRelReasonCode::Success,
    {
        PubRelReasonCode::Success
    }
}

impl From<PubRelReasonCode> for u8 {
    fn from(value: PubRelReasonCode) -> (r: u8) {
        value.code()
    }
}

impl vstd::std_specs::convert::FromSpecImpl<PubRelReasonCode> for u8 {
    open spec fn obeys_from_spec() -> bool {
        true
    }

    open spec fn from_spec(v: PubRelReasonCode) -> u8 {
        v.spec_code()
    }
}

/// Reason codes of SUBACK (section 3.9.3).
#[derive(Debug, Clone, Copy, PartialEq, Eq, Structural)]
pub enum SubAckReasonCode {
    GrantedQoS0,
    GrantedQoS1,
    GrantedQoS2,
    UnspecifiedError,
    ImplementationSpecificError,
    NotAuthorized,
    TopicFilterInvalid,
    PacketIdentifierInUse,
    QuotaExceeded,
    SharedSubscriptionsNotSupported,
    SubscriptionIdentifiersNotSupported,
    WildcardSubscriptionsNotSupported,
}

impl SubAckReasonCode {
    pub open spec fn spec_code(self) -> u8 {
        match self {
            SubAckReasonCode::GrantedQoS0 => 0x00,
            SubAckReasonCode::GrantedQoS1 => 0x01,
            SubAckReasonCode::GrantedQoS2 => 0x02,
            SubAckReasonCode::UnspecifiedError => 0x80,
            SubAckReasonCode::ImplementationSpecificError => 0x83,
            SubAckReasonCode::NotAuthorized => 0x87,
            SubAckReasonCode::TopicFilterInvalid => 0x8F,
            SubAckReasonCode::PacketIdentifierInUse => 0x91,
            SubAckReasonCode::QuotaExceeded => 0x97,
            SubAckReasonCode::SharedSubscriptionsNotSupported => 0x9E,
            SubAckReasonCode::SubscriptionIdentifiersNotSupported => 0xA1,
            SubAckReasonCode::WildcardSubscriptionsNotSupported => 0xA2,
        }
    }

    /// The byte that stands for the code.
    pub fn code(self) -> (r: u8)
        ensures
            r == self.spec_code(),
    {
        match self {
            SubAckReasonCode::GrantedQoS0 => 0x00,
            SubAckReasonCode::GrantedQoS1 => 0x01,
            SubAckReasonCode::GrantedQoS2 => 0x02,
            SubAckReasonCode::UnspecifiedError => 0x80,
            SubAckReasonCode::ImplementationSpecificError => 0x83,
            SubAckReasonCode::NotAuthorized => 0x87,
            SubAckReasonCode::TopicFilterInvalid => 0x8F,
            SubAckReasonCode::PacketIdentifierInUse => 0x91,
            SubAckReasonCode::QuotaExceeded => 0x97,
            SubAckReasonCode::SharedSubscriptionsNotSupported => 0x9E,
            SubAckReasonCode::SubscriptionIdentifiersNotSupported => 0xA1,
            SubAckReasonCode::WildcardSubscriptionsNotSupported => 0xA2,
        }
    }

    pub open spec fn spec_from_code(v: u8) -> Option<SubAckReasonCode> {
        if v == 0x00 {
            Some(SubAckReasonCode::GrantedQoS0)
        } else if v == 0x01 {
            Some(SubAckReasonCode::GrantedQoS1)
        } else if v == 0x02 {
            Some(SubAckReasonCode::GrantedQoS2)
        } else if v == 0x80 {
            Some(SubAckReasonCode::UnspecifiedError)
        } else if v == 0x83 {
            Some(SubAckReasonCode::ImplementationSpecificError)
        } else if v == 0x87 {
            Some(SubAckReasonCode::NotAuthorized)
        } else if v == 0x8F {
            Some(SubAckReasonCode::TopicFilterInvalid)
        } else if v == 0x91 {
            Some(SubAckReasonCode::PacketIdentifierInUse)
        } else if v == 0x97 {
            Some(SubAckReasonCode::QuotaExceeded)
        } else if v == 0x9E {
            Some(SubAckReasonCode::SharedSubscriptionsNotSupported)
        } else if v == 0xA1 {
            Some(SubAckReasonCode::SubscriptionIdentifiersNotSupported)
        } else if v == 0xA2 {
            Some(SubAckReasonCode::WildcardSubscriptionsNotSupported)
        } else {
            None
        }
    }

    /// The code that `v` stands for; `None` for a byte that is no code of this packet.
    pub fn from_code(v: u8) -> (r: Option<SubAckReasonCode>)
        ensures
            r == Self::spec_from_code(v),
    {
        if v == 0x00 {
            Some(SubAckReasonCode::GrantedQoS0)
        } else if v == 0x01 {
            Some(SubAckReasonCode::GrantedQoS1)
        } else if v == 0x02 {
            Some(SubAckReasonCode::GrantedQoS2)
        } else if v == 0x80 {
            Some(SubAckReasonCode::UnspecifiedError)
        } else if v == 0x83 {
            Some(SubAckReasonCode::ImplementationSpecificError)
        } else if v == 0x87 {
            Some(SubAckReasonCode::NotAuthorized)
        } else if v == 0x8F {
            Some(SubAckReasonCode::TopicFilterInvalid)
        } else if v == 0x91 {
            Some(SubAckReasonCode::PacketIdentifierInUse)
        } else if v == 0x97 {
            Some(SubAckReasonCode::QuotaExceeded)
        } else if v == 0x9E {
            Some(SubAckReasonCode::SharedSubscriptionsNotSupported)
        } else if v == 0xA1 {
            Some(SubAckReasonCode::SubscriptionIdentifiersNotSupported)
        } else if v == 0xA2 {
            Some(SubAckReasonCode::WildcardSubscriptionsNotSupported)
        } else {
            None
        }
    }

    /// Reading back the byte of a code gives the code.
    pub proof fn lemma_code_roundtrip(c: SubAckReasonCode)
        ensures
            Self::spec_from_code(c.spec_code()) == Some(c),
    {
    }
}

impl Default for SubAckReasonCode {
    fn default() -> (r: SubAckReasonCode)
        ensures
            r == SubAckReasonCode::GrantedQoS0,
    {
        SubAckReasonCode::GrantedQoS0
    }
}

impl From<SubAckReasonCode> for u8 {
    fn from(value: SubAckReasonCode) -> (r: u8) {
        value.code()
    }
}

impl vstd::std_specs::convert::FromSpecImpl<SubAckReasonCode> for u8 {
    open spec fn obeys_from_spec() -> bool {
        true
    }

    open spec fn from_spec(v: SubAckReasonCode) -> u8 {
        v.spec_code()
    }
}

/// Reason codes of UNSUBACK (section 3.11.3).
#[derive(Debug, Clone, Copy, PartialEq, Eq, Structural)]
pub enum UnSubAckReasonCode {
    Success,
    NoSubscriptionExisted,
    UnspecifiedError,
    ImplementationSpecificError,
    NotAuthorized,
    TopicFilterInvalid,
    PacketIdentifierInUse,
}

impl UnSubAckReasonCode {
    pub open spec fn spec_code(self) -> u8 {
        match self {
            UnSubAckReasonCode::Success => 0x00,
            UnSubAckReasonCode::NoSubscriptionExisted => 0x11,
            UnSubAckReasonCode::UnspecifiedError => 0x80,
            UnSubAckReasonCode::ImplementationSpecificError => 0x83,
            UnSubAckReasonCode::NotAuthorized => 0x87,
            UnSubAckReasonCode::TopicFilterInvalid => 0x8F,
            UnSubAckReasonCode::PacketIdentifierInUse => 0x91,
        }
    }

    /// The byte that stands for the code.
    pub fn code(self) -> (r: u8)
        ensures
            r == self.spec_code(),
    {
        match self {
            UnSubAckReasonCode::Success => 0x00,
            UnSubAckReasonCode::NoSubscriptionExisted => 0x11,
            UnSubAckReasonCode::UnspecifiedError => 0x80,
            UnSubAckReasonCode::ImplementationSpecificError => 0x83,
            UnSubAckReasonCode::NotAuthorized => 0x87,
            UnSubAckReasonCode::TopicFilterInvalid => 0x8F,
            UnSubAckReasonCode::PacketIdentifierInUse => 0x91,
        }
    }

    pub open spec fn spec_from_code(v: u8) -> Option<UnSubAckReasonCode> {
        if v == 0x00 {
            Some(UnSubAckReasonCode::Success)
        } else if v == 0x11 {
            Some(UnSubAckReasonCode::NoSubscriptionExisted)
        } else if v == 0x80 {
            Some(UnSubAckReasonCode::UnspecifiedError)
        } else if v == 0x83 {
            Some(UnSubAckReasonCode::ImplementationSpecificError)
        } else if v == 0x87 {
            Some(UnSubAckReasonCode::NotAuthorized)
        } else if v == 0x8F {
            Some(UnSubAckReasonCode::TopicFilterInvalid)
        } else if v == 0x91 {
            Some(UnSubAckReasonCode::PacketIdentifierInUse)
        } else {
            None
        }
    }

    /// The code that `v` stands for; `None` for a byte that is no code of this packet.
    pub fn from_code(v: u8) -> (r: Option<UnSubAckReasonCode>)
        ensures
            r == Self::spec_from_code(v),
    {
        if v == 0x00 {
            Some(UnSubAckReasonCode::Success)
        } else if v == 0x11 {
            Some(UnSubAckReasonCode::NoSubscriptionExisted)
        } else if v == 0x80 {
            Some(UnSubAckReasonCode::UnspecifiedError)
        } else if v == 0x83 {
            Some(UnSubAckReasonCode::ImplementationSpecificError)
        } else if v == 0x87 {
            Some(UnSubAckReasonCode::NotAuthorized)
        } else if v == 0x8F {
            Some(UnSubAckReasonCode::TopicFilterInvalid)
        } else if v == 0x91 {
            Some(UnSubAckReasonCode::PacketIdentifierInUse)
        } else {
            None
        }
    }

    /// Reading back the byte of a code gives the code.
    pub proof fn lemma_code_roundtrip(c: UnSubAckReasonCode)
        ensures
            Self::spec_from_code(c.spec_code()) == Some(c),
    {
    }
}

impl Default for UnSubAckReasonCode {
    fn default() -> (r: UnSubAckReasonCode)
        ensures
            r == UnSubAckReasonCode::Success,
    {
        UnSubAckReasonCode::Success
    }
}

impl From<UnSubAckReasonCode> for u8 {
    fn from(value: UnSubAckReasonCode) -> (r: u8) {
        value.code()
    }
}

impl vstd::std_specs::convert::FromSpecImpl<UnSubAckReasonCode> for u8 {
    open spec fn obeys_from_spec() -> bool {
        true
    }

    open spec fn from_spec(v: UnSubAckReasonCode) -> u8 {
        v.spec_code()
    }
}

/// Reason codes of AUTH (section 3.15.2.1).
#[derive(Debug, Clone, Copy, PartialEq, Eq, Structural)]
pub enum AuthReasonCode {
    Success,
    ContinueAuthentication,
    ReAuthenticate,
}

impl AuthReasonCode {
    pub open spec fn spec_code(self) -> u8 {
        match self {
            AuthReasonCode::Success => 0x00,
            AuthReasonCode::ContinueAuthentication => 0x18,
            AuthReasonCode::ReAuthenticate => 0x19,
        }
    }

    /// The byte that stands for the code.
    pub fn code(self) -> (r: u8)
        ensures
            r == self.spec_code(),
    {
        match self {
            AuthReasonCode::Success => 0x00,
            AuthReasonCode::ContinueAuthentication => 0x18,
            AuthReasonCode::ReAuthenticate => 0x19,
        }
    }

    pub open spec fn spec_from_code(v: u8) -> Option<AuthReasonCode> {
        if v == 0x00 {
            Some(AuthReasonCode::Success)
        } else if v == 0x18 {
            Some(AuthReasonCode::ContinueAuthentication)
        } else if v == 0x19 {
            Some(AuthReasonCode::ReAuthenticate)
        } else {
            None
        }
    }

    /// The code that `v` stands for; `None` for a byte that is no code of this packet.
    pub fn from_code(v: u8) -> (r: Option<AuthReasonCode>)
        ensures
            r == Self::spec_from_code(v),
    {
        if v == 0x00 {
            Some(AuthReasonCode::Success)
        } else if v == 0x18 {
            Some(AuthReasonCode::ContinueAuthentication)
        } else if v == 0x19 {
            Some(AuthReasonCode::ReAuthenticate)
        } else {
            None
        }
    }

    /// Reading back the byte of a code gives the code.
    pub proof fn lemma_code_roundtrip(c: AuthReasonCode)
        ensures
            Self::spec_from_code(c.spec_code()) == Some(c),
    {
    }
}

impl Default for AuthReasonCode {
    fn default() -> (r: AuthReasonCode)
        ensures
            r == AuthReasonCode::Success,
    {
        AuthReasonCode::Success
    }
}

impl From<AuthReasonCode> for u8 {
    fn from(value: AuthReasonCode) -> (r: u8) {
        value.code()
    }
}

impl vstd::std_specs::convert::FromSpecImpl<AuthReasonCode> for u8 {
    open spec fn obeys_from_spec() -> bool {
        true
    }

    open spec fn from_spec(v: AuthReasonCode) -> u8 {
        v.spec_code()
    }
}

/// Reason codes of CONNACK (section 3.2.2.2).
#[derive(Debug, Clone, Copy, PartialEq, Eq, Structural)]
pub enum ConnAckReasonCode {
    Success,
    UnspecifiedError,
    MalformedPacket,
    ProtocolError,
    ImplementationSpecificError,
    UnsupportedProtocolVersion,
    ClientIdentifierNotValid,
    BadUserNameOrPassword,
    NotAuthorized,
    ServerUnavailable,
    ServerBusy,
    Banned,
    BadAuthenticationMethod,
    TopicNameInvalid,
    PacketTooLarge,
    QuotaExceeded,
    PayloadFormatInvalid,
    RetainNotSupported,
    QoSNotSupported,
    UseAnotherServer,
    ServerMoved,
    ConnectionRateExceeded,
}

impl ConnAckReasonCode {
    pub open spec fn spec_code(self) -> u8 {
        match self {
            ConnAckReasonCode::Success => 0x00,
            ConnAckReasonCode::UnspecifiedError => 0x80,
            ConnAckReasonCode::MalformedPacket => 0x81,
            ConnAckReasonCode::ProtocolError => 0x82,
            ConnAckReasonCode::ImplementationSpecificError => 0x83,
            ConnAckReasonCode::UnsupportedProtocolVersion => 0x84,
            ConnAckReasonCode::ClientIdentifierNotValid => 0x85,
            ConnAckReasonCode::BadUserNameOrPassword => 0x86,
            ConnAckReasonCode::NotAuthorized => 0x87,
            ConnAckReasonCode::ServerUnavailable => 0x88,
            ConnAckReasonCode::ServerBusy => 0x89,
            ConnAckReasonCode::Banned => 0x8A,
            ConnAckReasonCode::BadAuthenticationMethod => 0x8C,
            ConnAckReasonCode::TopicNameInvalid => 0x90,
            ConnAckReasonCode::PacketTooLarge => 0x95,
            ConnAckReasonCode::QuotaExceeded => 0x97,
            ConnAckReasonCode::PayloadFormatInvalid => 0x99,
            ConnAckReasonCode::RetainNotSupported => 0x9A,
            ConnAckReasonCode::QoSNotSupported => 0x9B,
            ConnAckReasonCode::UseAnotherServer => 0x9C,
            ConnAckReasonCode::ServerMoved => 0x9D,
            ConnAckReasonCode::ConnectionRateExceeded => 0x9F,
        }
    }

    /// The byte that stands for the code.
    pub fn code(self) -> (r: u8)
        ensures
            r == self.spec_code(),
    {
        match self {
            ConnAckReasonCode::Success => 0x00,
            ConnAckReasonCode::UnspecifiedError => 0x80,
            ConnAckReasonCode::MalformedPacket => 0x81,
            ConnAckReasonCode::ProtocolError => 0x82,
            ConnAckReasonCode::ImplementationSpecificError => 0x83,
            ConnAckReasonCode::UnsupportedProtocolVersion => 0x84,
            ConnAckReasonCode::ClientIdentifierNotValid => 0x85,
            ConnAckReasonCode::BadUserNameOrPassword => 0x86,
            ConnAckReasonCode::NotAuthorized => 0x87,
            ConnAckReasonCode::ServerUnavailable => 0x88,
            ConnAckReasonCode::ServerBusy => 0x89,
            ConnAckReasonCode::Banned => 0x8A,
            ConnAckReasonCode::BadAuthenticationMethod => 0x8C,
            ConnAckReasonCode::TopicNameInvalid => 0x90,
            ConnAckReasonCode::PacketTooLarge => 0x95,
            ConnAckReasonCode::QuotaExceeded => 0x97,
            ConnAckReasonCode::PayloadFormatInvalid => 0x99,
            ConnAckReasonCode::RetainNotSupported => 0x9A,
            ConnAckReasonCode::QoSNotSupported => 0x9B,
            ConnAckReasonCode::UseAnotherServer => 0x9C,
            ConnAckReasonCode::ServerMoved => 0x9D,
            ConnAckReasonCode::ConnectionRateExceeded => 0x9F,
        }
    }

    pub open spec fn spec_from_code(v: u8) -> Option<ConnAckReasonCode> {
        if v == 0x00 {
            Some(ConnAckReasonCode::Success)
        } else if v == 0x80 {
            Some(ConnAckReasonCode::UnspecifiedError)
        } else if v == 0x81 {
            Some(ConnAckReasonCode::MalformedPacket)
        } else if v == 0x82 {
            Some(ConnAckReasonCode::ProtocolError)
        } else if v == 0x83 {
            Some(ConnAckReasonCode::ImplementationSpecificError)
        } else if v == 0x84 {
            Some(ConnAckReasonCode::UnsupportedProtocolVersion)
        } else if v == 0x85 {
            Some(ConnAckReasonCode::ClientIdentifierNotValid)
        } else if v == 0x86 {
            Some(ConnAckReasonCode::BadUserNameOrPassword)
        } else if v == 0x87 {
            Some(ConnAckReasonCode::NotAuthorized)
        } else if v == 0x88 {
            Some(ConnAckReasonCode::ServerUnavailable)
        } else if v == 0x89 {
            Some(ConnAckReasonCode::ServerBusy)
        } else if v == 0x8A {
            Some(ConnAckReasonCode::Banned)
        } else if v == 0x8C {
            Some(ConnAckReasonCode::BadAuthenticationMethod)
        } else if v == 0x90 {
            Some(ConnAckReasonCode::TopicNameInvalid)
        } else if v == 0x95 {
            Some(ConnAckReasonCode::PacketTooLarge)
        } else if v == 0x97 {
            Some(ConnAckReasonCode::QuotaExceeded)
        } else if v == 0x99 {
            Some(ConnAckReasonCode::PayloadFormatInvalid)
        } else if v == 0x9A {
            Some(ConnAckReasonCode::RetainNotSupported)
        } else if v == 0x9B {
            Some(ConnAckReasonCode::QoSNotSupported)
        } else if v == 0x9C {
            Some(ConnAckReasonCode::UseAnotherServer)
        } else if v == 0x9D {
            Some(ConnAckReasonCode::ServerMoved)
        } else if v == 0x9F {
            Some(ConnAckReasonCode::ConnectionRateExceeded)
        } else {
            None
        }
    }

    /// The code that `v` stands for; `None` for a byte that is no code of this packet.
    pub fn from_code(v: u8) -> (r: Option<ConnAckReasonCode>)
        ensures
            r == Self::spec_from_code(v),
    {
        if v == 0x00 {
            Some(ConnAckReasonCode::Success)
        } else if v == 0x80 {
            Some(ConnAckReasonCode::UnspecifiedError)
        } else if v == 0x81 {
            Some(ConnAckReasonCode::MalformedPacket)
        } else if v == 0x82 {
            Some(ConnAckReasonCode::ProtocolError)
        } else if v == 0x83 {
            Some(ConnAckReasonCode::ImplementationSpecificError)
        } else if v == 0x84 {
            Some(ConnAckReasonCode::UnsupportedProtocolVersion)
        } else if v == 0x85 {
            Some(ConnAckReasonCode::ClientIdentifierNotValid)
        } else if v == 0x86 {
            Some(ConnAckReasonCode::BadUserNameOrPassword)
        } else if v == 0x87 {
            Some(ConnAckReasonCode::NotAuthorized)
        } else if v == 0x88 {
            Some(ConnAckReasonCode::ServerUnavailable)
        } else if v == 0x89 {
            Some(ConnAckReasonCode::ServerBusy)
        } else if v == 0x8A {
            Some(ConnAckReasonCode::Banned)
        } else if v == 0x8C {
            Some(ConnAckReasonCode::BadAuthenticationMethod)
        } else if v == 0x90 {
            Some(ConnAckReasonCode::TopicNameInvalid)
        } else if v == 0x95 {
            Some(ConnAckReasonCode::PacketTooLarge)
        } else if v == 0x97 {
            Some(ConnAckReasonCode::QuotaExceeded)
        } else if v == 0x99 {
            Some(ConnAckReasonCode::PayloadFormatInvalid)
        } else if v == 0x9A {
            Some(ConnAckReasonCode::RetainNotSupported)
        } else if v == 0x9B {
            Some(ConnAckReasonCode::QoSNotSupported)
        } else if v == 0x9C {
            Some(ConnAckReasonCode::UseAnotherServer)
        } else if v == 0x9D {
            Some(ConnAckReasonCode::ServerMoved)
        } else if v == 0x9F {
            Some(ConnAckReasonCode::ConnectionRateExceeded)
        } else {
            None
        }
    }

    /// Reading back the byte of a code gives the code.
    pub proof fn lemma_code_roundtrip(c: ConnAckReasonCode)
        ensures
            Self::spec_from_code(c.spec_code()) == Some(c),
    {
    }
}

impl Default for ConnAckReasonCode {
    fn default() -> (r: ConnAckReasonCode)
        ensures
            r == ConnAckReasonCode::Success,
    {
        ConnAckReasonCode::Success
    }
}

impl From<ConnAckReasonCode> for u8 {
    fn from(value: ConnAckReasonCode) -> (r: u8) {
        value.code()
    }
}

impl vstd::std_specs::convert::FromSpecImpl<ConnAckReasonCode> for u8 {
    open spec fn obeys_from_spec() -> bool {
        true
    }

    open spec fn from_spec(v: ConnAckReasonCode) -> u8 {
        v.spec_code()
    }
}

/// PUBREC carries the reason codes of PUBACK.
pub type PubRecReasonCode = PubAckReasonCode;

/// PUBCOMP carries the reason codes of PUBREL.
pub type PubCompReasonCode = PubRelReasonCode;

/// The byte of each DisconnectReasonCode is the one MQTT 5 gives it, and exactly those
/// bytes read as a code.
pub proof fn lemma_disconnect_reason_code_numbers(b: u8)
    ensures
        DisconnectReasonCode::NormalDisconnection.spec_code() == 0x00u8,
        DisconnectReasonCode::DisconnectWithWillMessage.spec_code() == 0x04u8,
        DisconnectReasonCode::UnspecifiedError.spec_code() == 0x80u8,
        DisconnectReasonCode::MalformedPacket.spec_code() == 0x81u8,
        DisconnectReasonCode::ProtocolError.spec_code() == 0x82u8,
        DisconnectReasonCode::ImplementationSpecificError.spec_code() == 0x83u8,
        DisconnectReasonCode::NotAuthorized.spec_code() == 0x87u8,
        DisconnectReasonCode::ServerBusy.spec_code() == 0x89u8,
        DisconnectReasonCode::ServerShuttingDown.spec_code() == 0x8Bu8,
        DisconnectReasonCode::KeepAliveTimeout.spec_code() == 0x8Du8,
        DisconnectReasonCode::SessionTakenOver.spec_code() == 0x8Eu8,
        DisconnectReasonCode::TopicFilterInvalid.spec_code() == 0x8Fu8,
        DisconnectReasonCode::TopicNameInvalid.spec_code() == 0x90u8,
        DisconnectReasonCode::ReceiveMaximumExceeded.spec_code() == 0x93u8,
        DisconnectReasonCode::TopicAliasInvalid.spec_code() == 0x94u8,
        DisconnectReasonCode::PacketTooLarge.spec_code() == 0x95u8,
        DisconnectReasonCode::MessageRateTooHigh.spec_code() == 0x96u8,
        DisconnectReasonCode::QuotaExceeded.spec_code() == 0x97u8,
        DisconnectReasonCode::AdministrativeAction.spec_code() == 0x98u8,
        DisconnectReasonCode::PayloadFormatInvalid.spec_code() == 0x99u8,
        DisconnectReasonCode::RetainNotSupported.spec_code() == 0x9Au8,
        DisconnectReasonCode::QoSNotSupported.spec_code() == 0x9Bu8,
        DisconnectReasonCode::UseAnotherServer.spec_code() == 0x9Cu8,
        DisconnectReasonCode::ServerMoved.spec_code() == 0x9Du8,
        DisconnectReasonCode::SharedSubscriptionsNotSupported.spec_code() == 0x9Eu8,
        DisconnectReasonCode::ConnectionRateExceeded.spec_code() == 0x9Fu8,
        DisconnectReasonCode::MaximumConnectTime.spec_code() == 0xA0u8,
        DisconnectReasonCode::SubscriptionIdentifiersNotSupported.spec_code() == 0xA1u8,
        DisconnectReasonCode::WildcardSubscriptionsNotSupported.spec_code() == 0xA2u8,
        DisconnectReasonCode::spec_from_code(b) is Some <==> (b == 0x00u8 || b == 0x04u8 || b == 0x80u8 || b == 0x81u8 || b == 0x82u8 || b == 0x83u8 || b == 0x87u8 || b == 0x89u8 || b == 0x8Bu8 || b == 0x8Du8 || b == 0x8Eu8 || b == 0x8Fu8 || b == 0x90u8 || b == 0x93u8 || b == 0x94u8 || b == 0x95u8 || b == 0x96u8 || b == 0x97u8 || b == 0x98u8 || b == 0x99u8 || b == 0x9Au8 || b == 0x9Bu8 || b == 0x9Cu8 || b == 0x9Du8 || b == 0x9Eu8 || b == 0x9Fu8 || b == 0xA0u8 || b == 0xA1u8 || b == 0xA2u8),
        DisconnectReasonCode::spec_from_code(b) matches Some(c) ==> c.spec_code() == b,
{
}

/// The byte of each PubAckReasonCode is the one MQTT 5 gives it, and exactly those
/// bytes read as a code.
pub proof fn lemma_pub_ack_reason_code_numbers(b: u8)
    ensures
        PubAckReasonCode::Success.spec_code() == 0x00u8,
        PubAckReasonCode::NoMatchingSubscribers.spec_code() == 0x10u8,
        PubAckReasonCode::UnspecifiedError.spec_code() == 0x80u8,
        PubAckReasonCode::ImplementationSpecificError.spec_code() == 0x83u8,
        PubAckReasonCode::NotAuthorized.spec_code() == 0x87u8,
        PubAckReasonCode::TopicNameInvalid.spec_code() == 0x90u8,
        PubAckReasonCode::PacketIdentifierInUse.spec_code() == 0x91u8,
        PubAckReasonCode::QuotaExceeded.spec_code() == 0x97u8,
        PubAckReasonCode::PayloadFormatInvalid.spec_code() == 0x99u8,
        PubAckReasonCode::spec_from_code(b) is Some <==> (b == 0x00u8 || b == 0x10u8 || b == 0x80u8 || b == 0x83u8 || b == 0x87u8 || b == 0x90u8 || b == 0x91u8 || b == 0x97u8 || b == 0x99u8),
        PubAckReasonCode::spec_from_code(b) matches Some(c) ==> c.spec_code() == b,
{
}

/// The byte of each PubRelReasonCode is the one MQTT 5 gives it, and exactly those
/// bytes read as a code.
pub proof fn lemma_pub_rel_reason_code_numbers(b: u8)
    ensures
        PubRelReasonCode::Success.spec_code() == 0x00u8,
        PubRelReasonCode::PacketIdentifierNotFound.spec_code() == 0x92u8,
        PubRelReasonCode::spec_from_code(b) is Some <==> (b == 0x00u8 || b == 0x92u8),
        PubRelReasonCode::spec_from_code(b) matches Some(c) ==> c.spec_code() == b,
{
}

/// The byte of each SubAckReasonCode is the one MQTT 5 gives it, and exactly those
/// bytes read as a code.
pub proof fn lemma_sub_ack_reason_code_numbers(b: u8)
    ensures
        SubAckReasonCode::GrantedQoS0.spec_code() == 0x00u8,
        SubAckReasonCode::GrantedQoS1.spec_code() == 0x01u8,
        SubAckReasonCode::GrantedQoS2.spec_code() == 0x02u8,
        SubAckReasonCode::UnspecifiedError.spec_code() == 0x80u8,
        SubAckReasonCode::ImplementationSpecificError.spec_code() == 0x83u8,
        SubAckReasonCode::NotAuthorized.spec_code() == 0x87u8,
        SubAckReasonCode::TopicFilterInvalid.spec_code() == 0x8Fu8,
        SubAckReasonCode::PacketIdentifierInUse.spec_code() == 0x91u8,
        SubAckReasonCode::QuotaExceeded.spec_code() == 0x97u8,
        SubAckReasonCode::SharedSubscriptionsNotSupported.spec_code() == 0x9Eu8,
        SubAckReasonCode::SubscriptionIdentifiersNotSupported.spec_code() == 0xA1u8,
        SubAckReasonCode::WildcardSubscriptionsNotSupported.spec_code() == 0xA2u8,
        SubAckReasonCode::spec_from_code(b) is Some <==> (b == 0x00u8 || b == 0x01u8 || b == 0x02u8 || b == 0x80u8 || b == 0x83u8 || b == 0x87u8 || b == 0x8Fu8 || b == 0x91u8 || b == 0x97u8 || b == 0x9Eu8 || b == 0xA1u8 || b == 0xA2u8),
        SubAckReasonCode::spec_from_code(b) matches Some(c) ==> c.spec_code() == b,
{
}

/// The byte of each UnSubAckReasonCode is the one MQTT 5 gives it, and exactly those
/// bytes read as a code.
pub proof fn lemma_un_sub_ack_reason_code_numbers(b: u8)
    ensures
        UnSubAckReasonCode::Success.spec_code() == 0x00u8,
        UnSubAckReasonCode::NoSubscriptionExisted.spec_code() == 0x11u8,
        UnSubAckReasonCode::UnspecifiedError.spec_code() == 0x80u8,
        UnSubAckReasonCode::ImplementationSpecificError.spec_code() == 0x83u8,
        UnSubAckReasonCode::NotAuthorized.spec_code() == 0x87u8,
        UnSubAckReasonCode::TopicFilterInvalid.spec_code() == 0x8Fu8,
        UnSubAckReasonCode::PacketIdentifierInUse.spec_code() == 0x91u8,
        UnSubAckReasonCode::spec_from_code(b) is Some <==> (b == 0x00u8 || b == 0x11u8 || b == 0x80u8 || b == 0x83u8 || b == 0x87u8 || b == 0x8Fu8 || b == 0x91u8),
        UnSubAckReasonCode::spec_from_code(b) matches Some(c) ==> c.spec_code() == b,
{
}

/// The byte of each AuthReasonCode is the one MQTT 5 gives it, and exactly those
/// bytes read as a code.
pub proof fn lemma_auth_reason_code_numbers(b: u8)
    ensures
        AuthReasonCode::Success.spec_code() == 0x00u8,
        AuthReasonCode::ContinueAuthentication.spec_code() == 0x18u8,
        AuthReasonCode::ReAuthenticate.spec_code() == 0x19u8,
        AuthReasonCode::spec_from_code(b) is Some <==> (b == 0x00u8 || b == 0x18u8 || b == 0x19u8),
        AuthReasonCode::spec_from_code(b) matches Some(c) ==> c.spec_code() == b,
{
}

/// The byte of each ConnAckReasonCode is the one MQTT 5 gives it, and exactly those
/// bytes read as a code.
pub proof fn lemma_conn_ack_reason_code_numbers(b: u8)
    ensures
        ConnAckReasonCode::Success.spec_code() == 0x00u8,
        ConnAckReasonCode::UnspecifiedError.spec_code() == 0x80u8,
        ConnAckReasonCode::MalformedPacket.spec_code() == 0x81u8,
        ConnAckReasonCode::ProtocolError.spec_code() == 0x82u8,
        ConnAckReasonCode::ImplementationSpecificError.spec_code() == 0x83u8,
        ConnAckReasonCode::UnsupportedProtocolVersion.spec_code() == 0x84u8,
        ConnAckReasonCode::ClientIdentifierNotValid.spec_code() == 0x85u8,
        ConnAckReasonCode::BadUserNameOrPassword.spec_code() == 0x86u8,
        ConnAckReasonCode::NotAuthorized.spec_code() == 0x87u8,
        ConnAckReasonCode::ServerUnavailable.spec_code() == 0x88u8,
        ConnAckReasonCode::ServerBusy.spec_code() == 0x89u8,
        ConnAckReasonCode::Banned.spec_code() == 0x8Au8,
        ConnAckReasonCode::BadAuthenticationMethod.spec_code() == 0x8Cu8,
        ConnAckReasonCode::TopicNameInvalid.spec_code() == 0x90u8,
        ConnAckReasonCode::PacketTooLarge.spec_code() == 0x95u8,
        ConnAckReasonCode::QuotaExceeded.spec_code() == 0x97u8,
        ConnAckReasonCode::PayloadFormatInvalid.spec_code() == 0x99u8,
        ConnAckReasonCode::RetainNotSupported.spec_code() == 0x9Au8,
        ConnAckReasonCode::QoSNotSupported.spec_code() == 0x9Bu8,
        ConnAckReasonCode::UseAnotherServer.spec_code() == 0x9Cu8,
        ConnAckReasonCode::ServerMoved.spec_code() == 0x9Du8,
        ConnAckReasonCode::ConnectionRateExceeded.spec_code() == 0x9Fu8,
        ConnAckReasonCode::spec_from_code(b) is Some <==> (b == 0x00u8 || b == 0x80u8 || b == 0x81u8 || b == 0x82u8 || b == 0x83u8 || b == 0x84u8 || b == 0x85u8 || b == 0x86u8 || b == 0x87u8 || b == 0x88u8 || b == 0x89u8 || b == 0x8Au8 || b == 0x8Cu8 || b == 0x90u8 || b == 0x95u8 || b == 0x97u8 || b == 0x99u8 || b == 0x9Au8 || b == 0x9Bu8 || b == 0x9Cu8 || b == 0x9Du8 || b == 0x9Fu8),
        ConnAckReasonCode::spec_from_code(b) matches Some(c) ==> c.spec_code() == b,
{
}

} // verus!
