use std::string::FromUtf8Error;

use vstd::prelude::*;

verus! {

/// Every way in which decoding, encoding or a session step can fail.
#[derive(Clone, Debug, PartialEq, Eq)]
pub enum MQTTError {
    /// The bytes do not form a valid MQTT control packet.
    MalformedPacket,
    /// A length exceeds what a Variable Byte Integer can encode (268,435,455).
    PayloadTooLong,
    /// The packet stopped before its declared end.
    IncompletePacket,
    /// A PUBLISH carried a QoS value that is not 0, 1 or 2.
    UnsupportedQoS(u8),
    /// A field needed more bytes than were left: (field, expected, found).
    IncompleteData(&'static str, usize, usize),
    /// A property identifier that MQTT 5 does not define.
    UnknownProperty(u8),
    /// A property that may appear once appeared again (its identifier).
    DuplicateProperty(u8),
    /// A UTF-8 string field did not hold valid UTF-8 (the error that
    /// converting its bytes gave).
    Utf8Error(FromUtf8Error),
    /// A property that the packet does not allow (its identifier).
    UnexpectedProperty(u8),
    /// A protocol level other than 5.
    VersionNotSupported(u8),
    /// A value that has no meaning where it stands: a packet type or reason
    /// code byte, the packet identifier of an acknowledgement with no exchange
    /// in flight, a topic alias with no topic recorded, or 0 for a PUBLISH with
    /// neither topic name nor topic alias.
    UnknownData(u16),
    /// A packet identifier was given for a QoS 0 PUBLISH.
    PublishPacketId,
    /// A violation of a MQTT protocol rule.
    ProtocolError(&'static str),
    /// Fewer bytes than a fixed header needs.
    InsufficientBytes,
    /// A packet identifier that is already in use.
    PacketIdConflict(u16),
    /// A property value outside its allowed range (its identifier).
    InvalidProperty(u8),
    /// A QoS 1 or 2 PUBLISH without a packet identifier.
    PacketIdRequired,
    /// No packet identifier is free.
    PacketIdGenerationError,
}

} // verus!
