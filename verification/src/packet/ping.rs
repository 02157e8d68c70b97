//! PINGREQ (section 3.12) and PINGRESP (section 3.13): a fixed header with a
//! Remaining Length of 0 and nothing else.
use bytes::{Bytes, BytesMut};
use vstd::prelude::*;

use crate::buffer::{bytes_mut_view, bytes_view};
use crate::error::MQTTError;
use crate::fixed_header::FixedHeader;
use crate::packet_type::PacketType;

verus! {

#[derive(Debug, Clone, Copy, PartialEq, Eq, Default)]
pub struct PingReq {}

#[derive(Debug, Clone, Copy, PartialEq, Eq, Default)]
pub struct PingResp {}

impl PingReq {
    /// Writes 0xC0 0x00.
    pub fn write(&self, buf: &mut BytesMut) -> (r: Result<(), MQTTError>)
        requires
            bytes_mut_view(*old(buf)).len() + 2 <= isize::MAX,
        ensures
            r == Ok::<(), MQTTError>(()),
            bytes_mut_view(*final(buf)) == bytes_mut_view(*old(buf)) + seq![0xC0u8, 0x00u8],
    {
        let r = FixedHeader::new(PacketType::PingReq, 0, 0).write(buf);
        assert(crate::varint::varint(0) == seq![0u8]);
        assert(0xC0u8 | 0u8 == 0xC0u8) by (bit_vector);
        assert(bytes_mut_view(*buf) =~= bytes_mut_view(*old(buf)) + seq![0xC0u8, 0x00u8]);
        r
    }

    /// A PINGREQ has no body; nothing is read.
    pub fn read(buf: &mut Bytes) -> (r: Result<Self, MQTTError>)
        ensures
            r == Ok::<PingReq, MQTTError>(PingReq {}),
            bytes_view(*final(buf)) == bytes_view(*old(buf)),
    {
        Ok(PingReq {})
    }
}

impl PingResp {
    /// Writes 0xD0 0x00.
    pub fn write(&self, buf: &mut BytesMut) -> (r: Result<(), MQTTError>)
        requires
            bytes_mut_view(*old(buf)).len() + 2 <= isize::MAX,
        ensures
            r == Ok::<(), MQTTError>(()),
            bytes_mut_view(*final(buf)) == bytes_mut_view(*old(buf)) + seq![0xD0u8, 0x00u8],
    {
        let r = FixedHeader::new(PacketType::PingResp, 0, 0).write(buf);
        assert(crate::varint::varint(0) == seq![0u8]);
        assert(0xD0u8 | 0u8 == 0xD0u8) by (bit_vector);
        assert(bytes_mut_view(*buf) =~= bytes_mut_view(*old(buf)) + seq![0xD0u8, 0x00u8]);
        r
    }

    /// A PINGRESP has no body; nothing is read.
    pub fn read(buf: &mut Bytes) -> (r: Result<Self, MQTTError>)
        ensures
            r == Ok::<PingResp, MQTTError>(PingResp {}),
            bytes_view(*final(buf)) == bytes_view(*old(buf)),
    {
        Ok(PingResp {})
    }
}

} // verus!
