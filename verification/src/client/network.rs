//! The decisions of the network loop: when to ping the server, when the
//! server has gone silent for too long, and what to do with each packet that
//! arrives or leaves. Reading, writing and the clock stay with the caller,
//! which reports what happened and carries out what it is told.
use vstd::prelude::*;

use crate::client::state::{
    incoming_in_range, spec_incoming_packet, State,
};
use crate::error::MQTTError;
use crate::packet::control::Packet;
use crate::reason_code::ConnAckReasonCode;
use crate::packet_id::PacketIdManager;

verus! {

/// The keep alive: whether pings are due at all, and whether one is
/// waiting for its PINGRESP.
#[derive(Debug, Clone, Copy, PartialEq, Eq, Structural)]
pub struct KeepAlive {
    /// In seconds.
    pub keep_alive: u16,
    /// Whether the clock runs: from the start when the keep alive is not 0,
    /// and from the first packet received.
    pub active: bool,
    pub expecting_pingresp: bool,
}

/// What the clock says.
#[derive(Debug, Clone, Copy, PartialEq, Eq, Structural)]
pub enum Tick {
    /// Nothing to do.
    Wait,
    /// Send PINGREQ now, and restart the clock.
    SendPing,
    /// No PINGRESP came in time: the connection is lost.
    TimedOut,
}

/// How long a PINGRESP is waited for: the keep alive times 3/2 in integer
/// arithmetic, where 3/2 is 1.
pub open spec fn spec_max_timeout(keep_alive: u16) -> u64 {
    (keep_alive * (3int / 2int)) as u64
}

/// What the clock says `since` seconds after the last ping or packet.
pub open spec fn spec_tick(k: KeepAlive, since: u64) -> (KeepAlive, Tick) {
    if !k.active {
        (k, Tick::Wait)
    } else if k.expecting_pingresp {
        if since >= spec_max_timeout(k.keep_alive) {
            (k, Tick::TimedOut)
        } else {
            (k, Tick::Wait)
        }
    } else if since >= k.keep_alive {
        (KeepAlive { expecting_pingresp: true, ..k }, Tick::SendPing)
    } else {
        (k, Tick::Wait)
    }
}

impl KeepAlive {
    pub fn new(keep_alive: u16) -> (r: Self)
        ensures
            r == Self::new_spec(keep_alive),
    {
        KeepAlive { keep_alive, active: keep_alive > 0, expecting_pingresp: false }
    }

    /// How long a PINGRESP is waited for.
    pub fn max_timeout(&self) -> (r: u64)
        ensures
            r == spec_max_timeout(self.keep_alive),
    {
        self.keep_alive as u64 * (3 / 2)
    }

    /// Decides, `since` seconds after the last ping or packet, whether to
    /// ping or to give up.
    pub fn tick(&mut self, since: u64) -> (r: Tick)
        ensures
            (*final(self), r) == spec_tick(*old(self), since),
    {
        if !self.active {
            return Tick::Wait;
        }
        if self.expecting_pingresp {
            if since >= self.max_timeout() {
                return Tick::TimedOut;
            }
            return Tick::Wait;
        }
        if since >= self.keep_alive as u64 {
            self.expecting_pingresp = true;
            return Tick::SendPing;
        }
        Tick::Wait
    }
}

/// What to do with a packet received.
#[derive(Debug)]
pub enum Received {
    /// Hand the packet to the user, then send the reply, if any.
    Deliver(Option<Packet>),
    /// Hand the packet to the user and end the loop.
    Closed,
}

/// Takes a packet received. A PINGRESP ends the wait for it; a DISCONNECT
/// ends the loop; any other packet goes to the session state, whose reply is
/// to be sent. Every packet but a DISCONNECT starts the keep alive clock.
pub fn on_received(
    state: &mut State,
    ids: &mut PacketIdManager,
    keep_alive: &mut KeepAlive,
    packet: &mut Packet,
) -> (r: Result<Received, MQTTError>)
    requires
        old(state).wf(),
        old(ids).wf(),
        incoming_in_range(old(state)@, *old(packet)),
    ensures
        final(state).wf(),
        final(ids).wf(),
        final(ids).max_packets() == old(ids).max_packets(),
        match *old(packet) {
            Packet::PingResp(_) => {
                &&& r matches Ok(Received::Deliver(None))
                &&& *final(keep_alive) == (KeepAlive { active: true, expecting_pingresp: false, ..*old(keep_alive) })
                &&& final(state)@ == old(state)@
                &&& final(ids)@ == old(ids)@
                &&& *final(packet) == *old(packet)
            },
            Packet::Disconnect(_) => {
                &&& r matches Ok(Received::Closed)
                &&& *final(keep_alive) == *old(keep_alive)
                &&& final(state)@ == old(state)@
                &&& final(ids)@ == old(ids)@
                &&& *final(packet) == *old(packet)
            },
            _ => {
                let (s, x, t) = spec_incoming_packet(old(state)@, *old(packet), old(ids)@);
                &&& final(state)@ == s
                &&& final(ids)@ == t
                &&& match (r, x) {
                    (Ok(Received::Deliver(p)), Ok(y)) => crate::packet::control::is_reply(p, y),
                    (Err(e), Err(f)) => e == f,
                    _ => false,
                }
                &&& *final(keep_alive) == (if x is Ok {
                    KeepAlive { active: true, ..*old(keep_alive) }
                } else {
                    *old(keep_alive)
                })
            },
        },
{
    match packet {
        Packet::PingResp(_) => {
            keep_alive.expecting_pingresp = false;
            keep_alive.active = true;
            Ok(Received::Deliver(None))
        },
        Packet::Disconnect(_) => Ok(Received::Closed),
        _ => {
            let reply = match state.handle_incoming_packet(packet, ids) {
                Ok(r) => r,
                Err(e) => return Err(e),
            };
            keep_alive.active = true;
            Ok(Received::Deliver(reply))
        },
    }
}

impl KeepAlive {
    pub open spec fn new_spec(keep_alive: u16) -> KeepAlive {
        KeepAlive { keep_alive, active: keep_alive > 0, expecting_pingresp: false }
    }
}

/// A ping that went unanswered for the keep alive time makes the clock give
/// up; a PINGRESP before that makes it wait for the next ping.
pub proof fn lemma_ping_cycle(k: KeepAlive, since: u64)
    requires
        k.active,
        !k.expecting_pingresp,
        since >= k.keep_alive,
    ensures
        spec_tick(k, since).1 == Tick::SendPing,
        spec_tick(spec_tick(k, since).0, since).1 == Tick::TimedOut,
        spec_tick(KeepAlive { expecting_pingresp: false, ..spec_tick(k, since).0 }, since).1 == Tick::SendPing,
{
}

/// What the first packet from the server makes of a connection attempt.
#[derive(Debug, Clone, Copy, PartialEq, Eq, Structural)]
pub enum Handshake {
    /// The server took the connection; the client may use this many packet
    /// identifiers at once.
    Accepted(u16),
    /// The server refused the connection, with this reason code.
    Refused(u8),
    /// The server answered with something other than a CONNACK.
    NotConnAck,
}

/// A CONNACK with reason code Success accepts the connection, with the
/// server's Receive Maximum, or 100 where it sent none; any other reason code
/// refuses it; any other packet is no answer.
pub open spec fn spec_handshake(p: Packet) -> Handshake {
    match p {
        Packet::ConnAck(a) => if a.reason == ConnAckReasonCode::Success {
            Handshake::Accepted(
                match a.properties.receive_maximum {
                    Some(m) => m,
                    None => 100u16,
                },
            )
        } else {
            Handshake::Refused(a.reason.spec_code())
        },
        _ => Handshake::NotConnAck,
    }
}

/// Reads the server's answer to CONNECT.
pub fn handshake(packet: &Packet) -> (r: Handshake)
    ensures
        r == spec_handshake(*packet),
{
    match packet {
        Packet::ConnAck(a) => {
            if a.reason == ConnAckReasonCode::Success {
                Handshake::Accepted(
                    match a.properties.receive_maximum {
                        Some(m) => m,
                        None => 100,
                    },
                )
            } else {
                Handshake::Refused(a.reason.code())
            }
        },
        _ => Handshake::NotConnAck,
    }
}

/// The keep-alive clock: a new clock runs from the start exactly when the
/// keep alive is not 0, with no ping waiting; until it runs nothing is due. While no ping waits
/// for its answer, a PINGREQ is due once `keep_alive` seconds have passed
/// since the last ping or packet, and then the ping waits. While a ping
/// waits, the connection is given up once the wait has lasted the keep alive
/// times 3/2 in integer arithmetic (the keep alive itself), else nothing is
/// due. Only sending a ping changes the clock.
pub proof fn lemma_keep_alive_clock(k: KeepAlive, since: u64)
    ensures
        KeepAlive::new_spec(k.keep_alive).active == (k.keep_alive > 0),
        !KeepAlive::new_spec(k.keep_alive).expecting_pingresp,
        !k.active ==> spec_tick(k, since) == (k, Tick::Wait),
        k.active && !k.expecting_pingresp ==> (spec_tick(k, since).1 == Tick::SendPing <==> since >= k.keep_alive),
        k.active && !k.expecting_pingresp && since >= k.keep_alive ==> spec_tick(k, since).0 == (KeepAlive {
            expecting_pingresp: true,
            ..k
        }),
        k.active && k.expecting_pingresp ==> (spec_tick(k, since).1 == Tick::TimedOut <==> since >= k.keep_alive),
        spec_tick(k, since).1 != Tick::SendPing ==> spec_tick(k, since).0 == k,
        spec_tick(k, since).1 == Tick::TimedOut ==> k.expecting_pingresp,
{
}

/// The answer to CONNECT: a CONNACK whose reason code is Success (0x00)
/// accepts the connection, with the Receive Maximum that it carries or 100
/// without one; a CONNACK with any other reason code refuses it with that
/// code; any other packet is no answer.
pub proof fn lemma_handshake_outcomes(p: Packet)
    ensures
        match p {
            Packet::ConnAck(a) => if a.reason.spec_code() == 0 {
                spec_handshake(p) == Handshake::Accepted(
                    match a.properties.receive_maximum {
                        Some(m) => m,
                        None => 100u16,
                    },
                )
            } else {
                spec_handshake(p) == Handshake::Refused(a.reason.spec_code())
            },
            _ => true,
        },
        !(p is ConnAck) ==> spec_handshake(p) == Handshake::NotConnAck,
{
    if let Packet::ConnAck(a) = p {
        crate::reason_code::lemma_conn_ack_reason_code_numbers(0);
        assert(a.reason.spec_code() == 0 <==> a.reason == ConnAckReasonCode::Success) by {
            match a.reason {
                ConnAckReasonCode::Success => {},
                _ => {},
            }
        }
    }
}

} // verus!
