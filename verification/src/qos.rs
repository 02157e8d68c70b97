//! Quality of Service levels (section 4.3).
use vstd::prelude::*;

use crate::error::MQTTError;

verus! {

/// The delivery guarantee of an application message.
#[derive(Debug, Clone, Copy, PartialEq, Eq, Structural, PartialOrd)]
pub enum QoS {
    /// At most once.
    Zero,
    /// At least once.
    One,
    /// Exactly once.
    Two,
}

impl QoS {
    pub open spec fn spec_code(self) -> u8 {
        match self {
            QoS::Zero => 0,
            QoS::One => 1,
            QoS::Two => 2,
        }
    }

    /// The two bit value that stands for the level on the wire.
    pub fn code(self) -> (r: u8)
        ensures
            r == self.spec_code(),
    {
        match self {
            QoS::Zero => 0,
            QoS::One => 1,
            QoS::Two => 2,
        }
    }

    pub open spec fn spec_from_code(v: u8) -> Result<QoS, MQTTError> {
        if v == 0 {
            Ok(QoS::Zero)
        } else if v == 1 {
            Ok(QoS::One)
        } else if v == 2 {
            Ok(QoS::Two)
        } else {
            Err(MQTTError::UnsupportedQoS(v))
        }
    }

    /// The level that `v` stands for; 3 and above are `UnsupportedQoS(v)`.
    pub fn from_code(v: u8) -> (r: Result<QoS, MQTTError>)
        ensures
            r == Self::spec_from_code(v),
    {
        if v == 0 {
            Ok(QoS::Zero)
        } else if v == 1 {
            Ok(QoS::One)
        } else if v == 2 {
            Ok(QoS::Two)
        } else {
            Err(MQTTError::UnsupportedQoS(v))
        }
    }

    /// Reading back the code of a level gives the level.
    pub proof fn lemma_code_roundtrip(q: QoS)
        ensures
            Self::spec_from_code(q.spec_code()) == Ok::<QoS, MQTTError>(q),
    {
    }
}

impl Default for QoS {
    fn default() -> (r: QoS)
        ensures
            r == QoS::Zero,
    {
        QoS::Zero
    }
}

impl From<QoS> for u8 {
    fn from(value: QoS) -> (r: u8) {
        value.code()
    }
}

impl vstd::std_specs::convert::FromSpecImpl<QoS> for u8 {
    open spec fn obeys_from_spec() -> bool {
        true
    }

    open spec fn from_spec(v: QoS) -> u8 {
        v.spec_code()
    }
}

/// The QoS levels are 0, 1 and 2 on the wire, and exactly those values read
/// as a level; any other is `UnsupportedQoS` with that value.
pub proof fn lemma_qos_numbers(v: u8)
    ensures
        QoS::Zero.spec_code() == 0u8,
        QoS::One.spec_code() == 1u8,
        QoS::Two.spec_code() == 2u8,
        QoS::spec_from_code(v) is Ok <==> v <= 2,
        QoS::spec_from_code(v) matches Ok(q) ==> q.spec_code() == v,
        v > 2 ==> QoS::spec_from_code(v) == Err::<QoS, MQTTError>(MQTTError::UnsupportedQoS(v)),
{
}

} // verus!
