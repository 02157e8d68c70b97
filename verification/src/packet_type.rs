//! The MQTT control packet types: the high four bits of the first byte of
//! every packet (section 2.1.2).
use vstd::prelude::*;

verus! {

#[derive(Debug, Clone, Copy, PartialEq, Eq, Structural)]
pub enum PacketType {
    /// Client -> Server (Connection Request)
    Connect,
    /// Server -> Client (Connection Acknowledgement)
    ConnAck,
    /// Publish message
    Publish,
    /// Publish acknowledgement (QoS 1)
    PubAck,
    /// Publish received (QoS 2 delivery part 1)
    PubRec,
    /// Publish release (QoS 2 delivery part 2)
    PubRel,
    /// Publish complete (QoS 2 delivery part 3)
    PubComp,
    /// Client -> Server (Subscribe request)
    Subscribe,
    /// Server -> Client (Subscribe acknowledgement)
    SubAck,
    /// Client -> Server (Unsubscribe request)
    UnSubscribe,
    /// Server -> Client (Unsubscribe acknowledgement)
    UnSubAck,
    /// Client -> Server (PING request)
    PingReq,
    /// Server -> Client (PING response)
    PingResp,
    /// Disconnect notification
    Disconnect,
    /// Authentication exchange
    Auth,
}

impl PacketType {
    /// The packet type in the high nibble of a byte, the low nibble zero.
    pub open spec fn spec_code(self) -> u8 {
        match self {
            PacketType::Connect => 0x10,
            PacketType::ConnAck => 0x20,
            PacketType::Publish => 0x30,
            PacketType::PubAck => 0x40,
            PacketType::PubRec => 0x50,
            PacketType::PubRel => 0x60,
            PacketType::PubComp => 0x70,
            PacketType::Subscribe => 0x80,
            PacketType::SubAck => 0x90,
            PacketType::UnSubscribe => 0xA0,
            PacketType::UnSubAck => 0xB0,
            PacketType::PingReq => 0xC0,
            PacketType::PingResp => 0xD0,
            PacketType::Disconnect => 0xE0,
            PacketType::Auth => 0xF0,
        }
    }

    pub fn code(self) -> (r: u8)
        ensures
            r == self.spec_code(),
    {
        match self {
            PacketType::Connect => 0x10,
            PacketType::ConnAck => 0x20,
            PacketType::Publish => 0x30,
            PacketType::PubAck => 0x40,
            PacketType::PubRec => 0x50,
            PacketType::PubRel => 0x60,
            PacketType::PubComp => 0x70,
            PacketType::Subscribe => 0x80,
            PacketType::SubAck => 0x90,
            PacketType::UnSubscribe => 0xA0,
            PacketType::UnSubAck => 0xB0,
            PacketType::PingReq => 0xC0,
            PacketType::PingResp => 0xD0,
            PacketType::Disconnect => 0xE0,
            PacketType::Auth => 0xF0,
        }
    }

    pub open spec fn spec_from_code(v: u8) -> Option<PacketType> {
        if v == 0x10 {
            Some(PacketType::Connect)
        } else if v == 0x20 {
            Some(PacketType::ConnAck)
        } else if v == 0x30 {
            Some(PacketType::Publish)
        } else if v == 0x40 {
            Some(PacketType::PubAck)
        } else if v == 0x50 {
            Some(PacketType::PubRec)
        } else if v == 0x60 {
            Some(PacketType::PubRel)
        } else if v == 0x70 {
            Some(PacketType::PubComp)
        } else if v == 0x80 {
            Some(PacketType::Subscribe)
        } else if v == 0x90 {
            Some(PacketType::SubAck)
        } else if v == 0xA0 {
            Some(PacketType::UnSubscribe)
        } else if v == 0xB0 {
            Some(PacketType::UnSubAck)
        } else if v == 0xC0 {
            Some(PacketType::PingReq)
        } else if v == 0xD0 {
            Some(PacketType::PingResp)
        } else if v == 0xE0 {
            Some(PacketType::Disconnect)
        } else if v == 0xF0 {
            Some(PacketType::Auth)
        } else {
            None
        }
    }

    /// The packet type whose code is `v`; `None` for 0x00 (reserved) and for
    /// any value with a low nibble.
    pub fn from_code(v: u8) -> (r: Option<PacketType>)
        ensures
            r == Self::spec_from_code(v),
    {
        if v == 0x10 {
            Some(PacketType::Connect)
        } else if v == 0x20 {
            Some(PacketType::ConnAck)
        } else if v == 0x30 {
            Some(PacketType::Publish)
        } else if v == 0x40 {
            Some(PacketType::PubAck)
        } else if v == 0x50 {
            Some(PacketType::PubRec)
        } else if v == 0x60 {
            Some(PacketType::PubRel)
        } else if v == 0x70 {
            Some(PacketType::PubComp)
        } else if v == 0x80 {
            Some(PacketType::Subscribe)
        } else if v == 0x90 {
            Some(PacketType::SubAck)
        } else if v == 0xA0 {
            Some(PacketType::UnSubscribe)
        } else if v == 0xB0 {
            Some(PacketType::UnSubAck)
        } else if v == 0xC0 {
            Some(PacketType::PingReq)
        } else if v == 0xD0 {
            Some(PacketType::PingResp)
        } else if v == 0xE0 {
            Some(PacketType::Disconnect)
        } else if v == 0xF0 {
            Some(PacketType::Auth)
        } else {
            None
        }
    }

    /// Reading back the code of a packet type gives the type.
    pub proof fn lemma_code_roundtrip(t: PacketType)
        ensures
            Self::spec_from_code(t.spec_code()) == Some(t),
            t.spec_code() % 16 == 0,
    {
    }
}

/// Each packet type is its MQTT 5 control packet type number (section
/// 2.1.2) in the high four bits of the first byte: CONNECT 1, CONNACK 2,
/// PUBLISH 3, PUBACK 4, PUBREC 5, PUBREL 6, PUBCOMP 7, SUBSCRIBE 8, SUBACK 9,
/// UNSUBSCRIBE 10, UNSUBACK 11, PINGREQ 12, PINGRESP 13, DISCONNECT 14,
/// AUTH 15. A byte is read as a packet type exactly when its low four bits
/// are zero and its high four bits are one of these numbers.
pub proof fn lemma_type_numbers(b: u8)
    ensures
        PacketType::Connect.spec_code() == 1 * 16,
        PacketType::ConnAck.spec_code() == 2 * 16,
        PacketType::Publish.spec_code() == 3 * 16,
        PacketType::PubAck.spec_code() == 4 * 16,
        PacketType::PubRec.spec_code() == 5 * 16,
        PacketType::PubRel.spec_code() == 6 * 16,
        PacketType::PubComp.spec_code() == 7 * 16,
        PacketType::Subscribe.spec_code() == 8 * 16,
        PacketType::SubAck.spec_code() == 9 * 16,
        PacketType::UnSubscribe.spec_code() == 10 * 16,
        PacketType::UnSubAck.spec_code() == 11 * 16,
        PacketType::PingReq.spec_code() == 12 * 16,
        PacketType::PingResp.spec_code() == 13 * 16,
        PacketType::Disconnect.spec_code() == 14 * 16,
        PacketType::Auth.spec_code() == 15 * 16,
        PacketType::spec_from_code(b) is Some <==> (b % 16 == 0 && 1 <= b / 16 <= 15),
        PacketType::spec_from_code(b) matches Some(t) ==> t.spec_code() == b,
{
}

} // verus!
