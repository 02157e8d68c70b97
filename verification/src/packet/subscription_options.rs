//! The Subscription Options byte of a SUBSCRIBE entry (section 3.8.3.1):
//! the maximum QoS in bits 0-1, No Local in bit 2, Retain As Published in
//! bit 3, Retain Handling in bits 4-5; bits 6 and 7 are reserved and must be 0.
use bytes::{Bytes, BytesMut};
use vstd::prelude::*;

use crate::buffer::{bytes_mut_view, bytes_view};
use crate::codec::{parse_u8, read_u8, write_u8, Parsed};
use crate::error::MQTTError;
use crate::qos::QoS;

verus! {

/// Whether retained messages are sent when the subscription is made.
#[derive(Debug, Clone, Copy, PartialEq, Eq, Structural)]
pub enum RetainHandling {
    /// Send retained messages at the time of the subscribe.
    SendAtSubscribe,
    /// Send them only if the subscription does not already exist.
    SendIfNew,
    /// Do not send them.
    DoNotSend,
}

impl RetainHandling {
    pub open spec fn spec_code(self) -> u8 {
        match self {
            RetainHandling::SendAtSubscribe => 0,
            RetainHandling::SendIfNew => 1,
            RetainHandling::DoNotSend => 2,
        }
    }

    pub fn code(self) -> (r: u8)
        ensures
            r == self.spec_code(),
    {
        match self {
            RetainHandling::SendAtSubscribe => 0,
            RetainHandling::SendIfNew => 1,
            RetainHandling::DoNotSend => 2,
        }
    }
}

#[derive(Debug, Clone, Copy, PartialEq, Eq, Structural)]
pub struct SubscriptionOptions {
    pub qos: QoS,
    pub no_local: bool,
    pub retain_as_published: bool,
    pub retain_handling: RetainHandling,
}

pub open spec fn bit(b: bool) -> int {
    if b {
        1
    } else {
        0
    }
}

impl SubscriptionOptions {
    /// The options byte.
    pub open spec fn spec_byte(self) -> u8 {
        (self.qos.spec_code() + 4 * bit(self.no_local) + 8 * bit(self.retain_as_published) + 16
            * self.retain_handling.spec_code()) as u8
    }

    /// The options that a byte stands for: set reserved bits or a Retain
    /// Handling of 3 are `MalformedPacket`, a QoS of 3 is `UnsupportedQoS(3)`.
    pub open spec fn spec_from_byte(b: u8) -> Result<SubscriptionOptions, MQTTError> {
        if b / 64 != 0 || b / 16 % 4 == 3 {
            Err(MQTTError::MalformedPacket)
        } else {
            match QoS::spec_from_code(b % 4) {
                Err(e) => Err(e),
                Ok(qos) => Ok(
                    SubscriptionOptions {
                        qos,
                        no_local: b / 4 % 2 == 1,
                        retain_as_published: b / 8 % 2 == 1,
                        retain_handling: if b / 16 % 4 == 0 {
                            RetainHandling::SendAtSubscribe
                        } else if b / 16 % 4 == 1 {
                            RetainHandling::SendIfNew
                        } else {
                            RetainHandling::DoNotSend
                        },
                    },
                ),
            }
        }
    }

    /// The options byte.
    pub fn byte(&self) -> (r: u8)
        ensures
            r == self.spec_byte(),
    {
        let nl: u8 = if self.no_local {
            4
        } else {
            0
        };
        let rap: u8 = if self.retain_as_published {
            8
        } else {
            0
        };
        self.qos.code() + nl + rap + 16 * self.retain_handling.code()
    }

    /// The options that `b` stands for.
    pub fn from_byte(b: u8) -> (r: Result<Self, MQTTError>)
        ensures
            r == Self::spec_from_byte(b),
    {
        if b / 64 != 0 || b / 16 % 4 == 3 {
            return Err(MQTTError::MalformedPacket);
        }
        let qos = match QoS::from_code(b % 4) {
            Ok(q) => q,
            Err(e) => return Err(e),
        };
        let rh = b / 16 % 4;
        Ok(SubscriptionOptions {
            qos,
            no_local: b / 4 % 2 == 1,
            retain_as_published: b / 8 % 2 == 1,
            retain_handling: if rh == 0 {
                RetainHandling::SendAtSubscribe
            } else if rh == 1 {
                RetainHandling::SendIfNew
            } else {
                RetainHandling::DoNotSend
            },
        })
    }

    /// Options read back from their byte are themselves.
    pub proof fn lemma_byte_roundtrip(o: SubscriptionOptions)
        ensures
            Self::spec_from_byte(o.spec_byte()) == Ok::<SubscriptionOptions, MQTTError>(o),
    {
        match o.qos {
            QoS::Zero => {},
            QoS::One => {},
            QoS::Two => {},
        }
        match o.retain_handling {
            RetainHandling::SendAtSubscribe => {},
            RetainHandling::SendIfNew => {},
            RetainHandling::DoNotSend => {},
        }
    }

    /// Writes the options byte.
    pub fn write(&self, buf: &mut BytesMut)
        requires
            bytes_mut_view(*old(buf)).len() + 1 <= isize::MAX,
        ensures
            bytes_mut_view(*final(buf)) == bytes_mut_view(*old(buf)).push(self.spec_byte()),
    {
        write_u8(buf, self.byte());
    }

    /// Reads an options byte.
    pub fn read(buf: &mut Bytes) -> (r: Result<Self, MQTTError>)
        ensures
            r == parse_options(bytes_view(*old(buf))).0,
            bytes_view(*final(buf)) == bytes_view(*old(buf)).skip(parse_options(bytes_view(*old(buf))).1 as int),
    {
        match read_u8(buf) {
            Ok(b) => Self::from_byte(b),
            Err(e) => Err(e),
        }
    }
}

/// Reading an options byte.
/// The layout of the Subscription Options byte (MQTT 5 section 3.8.3.1):
/// bits 1-0 maximum QoS, bit 2 No Local, bit 3 Retain As Published, bits 5-4
/// Retain Handling (0 send at subscribe, 1 send if new, 2 do not send), bits
/// 7-6 reserved and zero.
pub proof fn lemma_options_layout(o: SubscriptionOptions)
    ensures
        o.spec_byte() % 4 == o.qos.spec_code(),
        (o.spec_byte() / 4 % 2 == 1) == o.no_local,
        (o.spec_byte() / 8 % 2 == 1) == o.retain_as_published,
        o.spec_byte() / 16 % 4 == o.retain_handling.spec_code(),
        o.spec_byte() / 64 == 0,
        RetainHandling::SendAtSubscribe.spec_code() == 0,
        RetainHandling::SendIfNew.spec_code() == 1,
        RetainHandling::DoNotSend.spec_code() == 2,
{
    let q = o.qos.spec_code() as int;
    let h = o.retain_handling.spec_code() as int;
    assert(q <= 2) by {
        match o.qos {
            QoS::Zero => {},
            QoS::One => {},
            QoS::Two => {},
        }
    }
    assert(h <= 2) by {
        match o.retain_handling {
            RetainHandling::SendAtSubscribe => {},
            RetainHandling::SendIfNew => {},
            RetainHandling::DoNotSend => {},
        }
    }
    let n = q + 4 * bit(o.no_local) + 8 * bit(o.retain_as_published) + 16 * h;
    assert(o.spec_byte() as int == n);
}

pub open spec fn parse_options(s: Seq<u8>) -> Parsed<SubscriptionOptions> {
    match parse_u8(s) {
        (Err(e), n) => (Err(e), n),
        (Ok(b), n) => (SubscriptionOptions::spec_from_byte(b), n),
    }
}

impl Default for SubscriptionOptions {
    fn default() -> (r: Self)
        ensures
            r == (SubscriptionOptions {
                qos: QoS::Zero,
                no_local: false,
                retain_as_published: false,
                retain_handling: RetainHandling::SendAtSubscribe,
            }),
    {
        SubscriptionOptions {
            qos: QoS::Zero,
            no_local: false,
            retain_as_published: false,
            retain_handling: RetainHandling::SendAtSubscribe,
        }
    }
}

} // verus!
