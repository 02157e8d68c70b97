//! What the client does before a message goes to the network loop.
use bytes::Bytes;
use vstd::prelude::*;
use vstd::utf8::*;

use crate::buffer::{bytes_len, bytes_view};
use crate::codec::utf8_len;
use crate::error::MQTTError;
use crate::packet::publish::{publish_remaining_length, publish_size, Publish, PublishV};
use crate::packet::publish_properties::PublishProperties;
use crate::packet_id::{allocation, PacketIdManager};
use crate::properties::PropertySet;
use crate::qos::QoS;
use crate::varint::{spec_variable_length, variable_length, VARINT_MAX};

verus! {

/// The PUBLISH that a message becomes: not a duplicate, no properties.
pub open spec fn message(topic: Seq<char>, qos: QoS, retain: bool, payload: Seq<u8>, pkid: Option<u16>) -> PublishV {
    PublishV {
        dup: false,
        retain,
        qos,
        topic,
        pkid,
        properties: PublishProperties::spec_empty(),
        payload,
    }
}

/// Whether a PUBLISH fits the server's maximum packet size `max_size`: its
/// Remaining Length can be encoded, and it is written as at most `max_size` bytes.
pub open spec fn publish_within(p: PublishV, max_size: nat) -> bool {
    publish_remaining_length(p) <= VARINT_MAX && publish_size(p) <= max_size
}

/// The identifier a message gets, `id`, with the bitmaps `t` after: none at
/// QoS 0 (nothing changes), else what allocating gives.
pub open spec fn identifier_for(s: Seq<usize>, m: nat, qos: QoS, id: Option<u16>, t: Seq<usize>) -> bool {
    if qos == QoS::Zero {
        id is None && t == s
    } else {
        allocation(s, m, id, t)
    }
}

/// Whether a message without properties, with a topic of `topic_len` bytes and
/// a payload of `payload_len` bytes, fits `max_size`.
fn message_fits(topic_len: usize, payload_len: usize, qos: QoS, max_size: usize) -> (r: bool)
    ensures
        ({
            let rl = topic_len + 2 + 0 + spec_variable_length(0) + payload_len;
            r == (rl <= VARINT_MAX && 1 + spec_variable_length(rl as nat) + rl + (if qos != QoS::Zero {
                2int
            } else {
                0int
            }) + 2 + payload_len <= max_size)
        }),
{
    let rl: u128 = topic_len as u128 + 2 + variable_length(0) as u128 + payload_len as u128;
    if rl > VARINT_MAX as u128 {
        return false;
    }
    let pkid_len: u128 = if qos == QoS::Zero {
        0
    } else {
        2
    };
    let size: u128 = 1 + variable_length(rl as usize) as u128 + rl + pkid_len + 2 + payload_len as u128;
    size <= max_size as u128
}

/// The PUBLISH for a message: not a duplicate, no properties, and for QoS 1
/// and 2 a newly allocated packet identifier. When no identifier is free the
/// message is refused with `PacketIdGenerationError`; a message that does
/// not fit the server's maximum packet size `max_size` is refused with
/// `PayloadTooLong` (an identifier allocated for it stays allocated).
pub fn prepare_publish(
    topic: String,
    qos: QoS,
    retain: bool,
    payload: Bytes,
    max_size: usize,
    ids: &mut PacketIdManager,
) -> (r: Result<Publish, MQTTError>)
    requires
        old(ids).wf(),
    ensures
        final(ids).wf(),
        final(ids).max_packets() == old(ids).max_packets(),
        exists|id: Option<u16>|
            #[trigger] identifier_for(old(ids)@, old(ids).max_packets() as nat, qos, id, final(ids)@) && match r {
                Ok(p) => {
                    &&& p.pkid == id
                    &&& p@ == message(topic@, qos, retain, bytes_view(payload), id)
                    &&& publish_within(p@, max_size as nat)
                },
                Err(e) => if qos != QoS::Zero && id is None {
                    e == MQTTError::PacketIdGenerationError
                } else {
                    &&& e == MQTTError::PayloadTooLong
                    &&& !publish_within(message(topic@, qos, retain, bytes_view(payload), id), max_size as nat)
                },
            },
        r matches Ok(p) ==> (p.pkid is None <==> qos == QoS::Zero),
{
    let ghost s0 = ids@;
    let ghost m0 = ids.max_packets() as nat;
    let pkid = if qos == QoS::Zero {
        None
    } else {
        match ids.allocate() {
            Some(id) => Some(id),
            None => {
                assert(identifier_for(s0, m0, qos, None, ids@));
                return Err(MQTTError::PacketIdGenerationError);
            },
        }
    };
    assert(identifier_for(s0, m0, qos, pkid, ids@));
    let ghost m = message(topic@, qos, retain, bytes_view(payload), pkid);
    proof {
        assert(PublishProperties::spec_entries(PublishProperties::spec_empty()) =~= Seq::empty());
    }
    if !message_fits(utf8_len(&topic), bytes_len(&payload), qos, max_size) {
        assert(!publish_within(m, max_size as nat));
        return Err(MQTTError::PayloadTooLong);
    }
    let r = Publish { dup: false, retain, qos, topic, pkid, properties: PublishProperties::empty(), payload };
    Ok(r)
}

} // verus!
