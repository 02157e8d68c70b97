//! The Connect Flags byte of CONNECT (section 3.1.2.3): which optional fields
//! the payload holds, and how the Will Message is to be published.
use vstd::prelude::*;

use crate::error::MQTTError;
use crate::qos::QoS;

verus! {

#[derive(Debug, Clone, Copy, PartialEq, Eq, Structural)]
pub struct ConnectFlags {
    /// 3.1.2.8
    pub username: bool,
    /// 3.1.2.9
    pub password: bool,
    /// 3.1.2.7
    pub will_retain: bool,
    /// 3.1.2.6
    pub will_qos: QoS,
    /// 3.1.2.5
    pub will_flag: bool,
    /// 3.1.2.4
    pub clean_start: bool,
}

pub open spec fn bit(b: bool) -> nat {
    if b {
        1
    } else {
        0
    }
}

impl ConnectFlags {
    /// The byte: bit 7 user name, 6 password, 5 will retain, 4-3 will QoS,
    /// 2 will flag, 1 clean start, 0 reserved. Each flag is written to its
    /// own bits, whatever the others hold.
    pub open spec fn spec_to_byte(self) -> u8 {
        (bit(self.username) * 128 + bit(self.password) * 64 + bit(self.will_retain) * 32
            + self.will_qos.spec_code() * 8 + bit(self.will_flag) * 4 + bit(self.clean_start) * 2) as u8
    }

    /// The flags of a byte; a will QoS of 3 is `UnsupportedQoS(3)`.
    pub open spec fn spec_from_byte(b: u8) -> Result<ConnectFlags, MQTTError> {
        match QoS::spec_from_code(b / 8 % 4) {
            Err(e) => Err(e),
            Ok(q) => Ok(
                ConnectFlags {
                    username: b / 128 % 2 == 1,
                    password: b / 64 % 2 == 1,
                    will_retain: b / 32 % 2 == 1,
                    will_qos: q,
                    will_flag: b / 4 % 2 == 1,
                    clean_start: b / 2 % 2 == 1,
                },
            ),
        }
    }

    pub fn new(
        username: bool,
        password: bool,
        will_retain: bool,
        will_flag: bool,
        clean_start: bool,
        will_qos: QoS,
    ) -> (r: Self)
        ensures
            r == (ConnectFlags { username, password, will_retain, will_qos, will_flag, clean_start }),
    {
        ConnectFlags { username, password, will_retain, will_qos, will_flag, clean_start }
    }

    pub fn to_byte(&self) -> (r: u8)
        ensures
            r == self.spec_to_byte(),
    {
        let mut v: u8 = 0;
        if self.username {
            v = v + 128;
        }
        if self.password {
            v = v + 64;
        }
        if self.will_retain {
            v = v + 32;
        }
        v = v + self.will_qos.code() * 8;
        if self.will_flag {
            v = v + 4;
        }
        if self.clean_start {
            v = v + 2;
        }
        v
    }

    pub fn from_byte(b: u8) -> (r: Result<Self, MQTTError>)
        ensures
            r == Self::spec_from_byte(b),
    {
        let will_qos = match QoS::from_code(b / 8 % 4) {
            Ok(q) => q,
            Err(e) => return Err(e),
        };
        Ok(ConnectFlags {
            username: b / 128 % 2 == 1,
            password: b / 64 % 2 == 1,
            will_retain: b / 32 % 2 == 1,
            will_qos,
            will_flag: b / 4 % 2 == 1,
            clean_start: b / 2 % 2 == 1,
        })
    }

    /// Reading back the byte of flags gives the flags, for every set of flags.
    pub proof fn lemma_byte_roundtrip(f: ConnectFlags)
        ensures
            Self::spec_from_byte(f.spec_to_byte()) == Ok::<ConnectFlags, MQTTError>(f),
    {
        let b = f.spec_to_byte();
        let q = f.will_qos.spec_code() as int;
        let n = bit(f.username) * 128 + bit(f.password) * 64 + bit(f.will_retain) * 32 + q * 8
            + bit(f.will_flag) * 4 + bit(f.clean_start) * 2;
        assert(b as int == n);
        assert(b / 128 % 2 == bit(f.username));
        assert(b / 64 % 2 == bit(f.password));
        assert(b / 32 % 2 == bit(f.will_retain));
        assert(b / 8 % 4 == q);
        assert(b / 4 % 2 == bit(f.will_flag));
        assert(b / 2 % 2 == bit(f.clean_start));
    }
}

/// The layout of the Connect Flags byte (MQTT 5 section 3.1.2.3): bit 7 user
/// name, bit 6 password, bit 5 will retain, bits 4-3 will QoS, bit 2 will
/// flag, bit 1 clean start, bit 0 reserved and zero.
pub proof fn lemma_connect_flags_layout(f: ConnectFlags)
    ensures
        (f.spec_to_byte() / 128 % 2 == 1) == f.username,
        (f.spec_to_byte() / 64 % 2 == 1) == f.password,
        (f.spec_to_byte() / 32 % 2 == 1) == f.will_retain,
        f.spec_to_byte() / 8 % 4 == f.will_qos.spec_code(),
        (f.spec_to_byte() / 4 % 2 == 1) == f.will_flag,
        (f.spec_to_byte() / 2 % 2 == 1) == f.clean_start,
        f.spec_to_byte() % 2 == 0,
{
    let q = f.will_qos.spec_code() as int;
    assert(q <= 2) by {
        match f.will_qos {
            QoS::Zero => {},
            QoS::One => {},
            QoS::Two => {},
        }
    }
    let n = bit(f.username) * 128 + bit(f.password) * 64 + bit(f.will_retain) * 32 + q * 8
        + bit(f.will_flag) * 4 + bit(f.clean_start) * 2;
    assert(f.spec_to_byte() as int == n);
}

impl From<ConnectFlags> for u8 {
    fn from(value: ConnectFlags) -> (r: u8) {
        value.to_byte()
    }
}

impl vstd::std_specs::convert::FromSpecImpl<ConnectFlags> for u8 {
    open spec fn obeys_from_spec() -> bool {
        true
    }

    open spec fn from_spec(v: ConnectFlags) -> u8 {
        v.spec_to_byte()
    }
}

} // verus!
