//! The client side of connection establishment and the ping/pong latency
//! probe: the session handle and the pure decision steps of both flows.
//!
//! The socket itself, clock readings and the blocking receive live with
//! the caller; each flow is driven by handing every arriving datagram to
//! the matching step function below.

use vstd::prelude::*;

use crate::datatype::RaknetAddr;
use crate::error::RaknetError;
use crate::packet::OpenConnectionReply1;
use crate::packet::OpenConnectionReply2;
use crate::packet::OpenConnectionRequest1;
use crate::packet::OpenConnectionRequest2;
use crate::packet::PacketID;
use crate::packet::PacketUnconnectedPing;
use crate::packet::read_packet_connection_open_reply_1;
use crate::packet::read_packet_connection_open_reply_2;
use crate::packet::read_packet_incompatible_protocol_version;
use crate::packet::read_packet_pong;
use crate::packet::spec_packet_tag;
use crate::packet::spec_parse_incompatible;
use crate::packet::spec_parse_pong;
use crate::packet::spec_parse_reply1;
use crate::packet::spec_parse_reply2;
use crate::packet::spec_ping_wire;
use crate::packet::spec_request1_wire;
use crate::packet::spec_request2_wire;
use crate::packet::transaction_packet_id_to_u8;
use crate::packet::write_packet_connection_open_request_1;
use crate::packet::write_packet_connection_open_request_2;
use crate::packet::write_packet_ping;

verus! {

/// The protocol version this client advertises in its first request.
pub const RAKNET_PROTOCOL_VERSION: u8 = 0xa;

/// The MTU the client proposes in its first request.
pub const DEFAULT_MTU_SIZE: u16 = 1500;

/// Relies on rand::random: a freshly drawn 64-bit value; nothing is
/// promised of it.
#[verifier::external_body]
fn random_guid() -> u64 {
    rand::random()
}

/// A completed session handle: the resolved local address, the peer, and
/// this endpoint's GUID. It is only ever built whole, so no caller sees a
/// half-established session.
pub struct RaknetSocket {
    local_addr: RaknetAddr,
    peer_addr: RaknetAddr,
    guid: u64,
}

impl RaknetSocket {
    /// The peer this session speaks to.
    pub closed spec fn spec_peer_addr(self) -> RaknetAddr {
        self.peer_addr
    }

    /// The locally bound address.
    pub closed spec fn spec_local_addr(self) -> RaknetAddr {
        self.local_addr
    }

    /// The GUID this endpoint advertised.
    pub closed spec fn spec_guid(self) -> u64 {
        self.guid
    }

    /// A session handle for an already-known peer on an already-bound
    /// endpoint, with a freshly drawn GUID: the path a listener takes when
    /// it hands off an accepted peer.
    pub fn from(addr: &RaknetAddr, local_addr: &RaknetAddr) -> (r: Self)
        ensures
            r.spec_peer_addr() == *addr,
            r.spec_local_addr() == *local_addr,
    {
        RaknetSocket { peer_addr: *addr, local_addr: *local_addr, guid: random_guid() }
    }

    /// A session handle with every field known: the path the client
    /// handshake takes once its final reply has decoded.
    pub fn from_parts(addr: &RaknetAddr, local_addr: &RaknetAddr, guid: u64) -> (r: Self)
        ensures
            r.spec_peer_addr() == *addr,
            r.spec_local_addr() == *local_addr,
            r.spec_guid() == guid,
    {
        RaknetSocket { peer_addr: *addr, local_addr: *local_addr, guid }
    }

    /// The peer this session speaks to.
    pub fn peer_addr(&self) -> (r: Result<RaknetAddr, RaknetError>)
        ensures
            r == Ok::<RaknetAddr, RaknetError>(self.spec_peer_addr()),
    {
        Ok(self.peer_addr)
    }

    /// The locally bound address.
    pub fn local_addr(&self) -> (r: Result<RaknetAddr, RaknetError>)
        ensures
            r == Ok::<RaknetAddr, RaknetError>(self.spec_local_addr()),
    {
        Ok(self.local_addr)
    }
}

/// Builds the first request of a connect flow: the fixed protocol version
/// and the default MTU probe, padded out so the datagram's own length
/// carries the MTU.
pub fn connect_request1() -> (r: Vec<u8>)
    ensures
        r@ == spec_request1_wire(RAKNET_PROTOCOL_VERSION, DEFAULT_MTU_SIZE),
        r@.len() == DEFAULT_MTU_SIZE - 29,
{
    let packet = OpenConnectionRequest1 {
        magic: true,
        protocol_version: RAKNET_PROTOCOL_VERSION,
        mtu_size: DEFAULT_MTU_SIZE,
    };
    match write_packet_connection_open_request_1(&packet) {
        Ok(v) => v,
        Err(_) => {
            proof {
                assert(false);
            }
            Vec::new()
        },
    }
}

/// The connect flow's dispatch on the datagram answering the first
/// request: a first-reply tag is decoded, a version-refusal tag becomes a
/// protocol mismatch carrying the peer's version, and any other tag is
/// reported as unexpected.
pub fn connect_handle_reply1(buf: &[u8]) -> (r: Result<OpenConnectionReply1, RaknetError>)
    ensures
        buf@.len() == 0 ==> r == Err::<OpenConnectionReply1, RaknetError>(
            RaknetError::NotEnoughData,
        ),
        buf@.len() > 0 && buf@[0] == spec_packet_tag(PacketID::OpenConnectionReply1) ==> r
            == match spec_parse_reply1(buf@) {
            Some(p) => Ok::<OpenConnectionReply1, RaknetError>(p),
            None => Err::<OpenConnectionReply1, RaknetError>(RaknetError::NotEnoughData),
        },
        buf@.len() > 0 && buf@[0] != spec_packet_tag(PacketID::OpenConnectionReply1) && buf@[0]
            == spec_packet_tag(PacketID::IncompatibleProtocolVersion) ==> r == match
            spec_parse_incompatible(buf@) {
            Some(q) => Err::<OpenConnectionReply1, RaknetError>(
                RaknetError::ProtocolMismatch(q.server_protocol),
            ),
            None => Err::<OpenConnectionReply1, RaknetError>(RaknetError::NotEnoughData),
        },
        buf@.len() > 0 && buf@[0] != spec_packet_tag(PacketID::OpenConnectionReply1) && buf@[0]
            != spec_packet_tag(PacketID::IncompatibleProtocolVersion) ==> r == Err::<
            OpenConnectionReply1,
            RaknetError,
        >(RaknetError::UnexpectedPacket(buf@[0])),
{
    if buf.len() == 0 {
        return Err(RaknetError::NotEnoughData);
    }
    let tag = buf[0];
    if tag != transaction_packet_id_to_u8(PacketID::OpenConnectionReply1) {
        if tag == transaction_packet_id_to_u8(PacketID::IncompatibleProtocolVersion) {
            let packet = match read_packet_incompatible_protocol_version(buf) {
                Ok(p) => p,
                Err(e) => {
                    return Err(e);
                },
            };
            return Err(RaknetError::ProtocolMismatch(packet.server_protocol));
        } else {
            return Err(RaknetError::UnexpectedPacket(tag));
        }
    }
    read_packet_connection_open_reply_1(buf)
}

/// Builds the second request of a connect flow: the address the first
/// reply arrived from, the MTU it granted, and this client's GUID.
pub fn connect_request2(peer: &RaknetAddr, mtu: u16, guid: u64) -> (r: Vec<u8>)
    ensures
        r@ == spec_request2_wire(*peer, mtu, guid),
{
    let packet = OpenConnectionRequest2 { magic: true, address: *peer, mtu, guid };
    match write_packet_connection_open_request_2(&packet) {
        Ok(v) => v,
        Err(_) => {
            proof {
                assert(false);
            }
            Vec::new()
        },
    }
}

/// The connect flow's dispatch on the datagram answering the second
/// request, branching as after the first: second reply, version refusal,
/// or unexpected tag.
pub fn connect_handle_reply2(buf: &[u8]) -> (r: Result<OpenConnectionReply2, RaknetError>)
    ensures
        buf@.len() == 0 ==> r == Err::<OpenConnectionReply2, RaknetError>(
            RaknetError::NotEnoughData,
        ),
        buf@.len() > 0 && buf@[0] == spec_packet_tag(PacketID::OpenConnectionReply2) ==> r
            == match spec_parse_reply2(buf@) {
            Some(p) => Ok::<OpenConnectionReply2, RaknetError>(p),
            None => Err::<OpenConnectionReply2, RaknetError>(RaknetError::NotEnoughData),
        },
        buf@.len() > 0 && buf@[0] != spec_packet_tag(PacketID::OpenConnectionReply2) && buf@[0]
            == spec_packet_tag(PacketID::IncompatibleProtocolVersion) ==> r == match
            spec_parse_incompatible(buf@) {
            Some(q) => Err::<OpenConnectionReply2, RaknetError>(
                RaknetError::ProtocolMismatch(q.server_protocol),
            ),
            None => Err::<OpenConnectionReply2, RaknetError>(RaknetError::NotEnoughData),
        },
        buf@.len() > 0 && buf@[0] != spec_packet_tag(PacketID::OpenConnectionReply2) && buf@[0]
            != spec_packet_tag(PacketID::IncompatibleProtocolVersion) ==> r == Err::<
            OpenConnectionReply2,
            RaknetError,
        >(RaknetError::UnexpectedPacket(buf@[0])),
{
    if buf.len() == 0 {
        return Err(RaknetError::NotEnoughData);
    }
    let tag = buf[0];
    if tag != transaction_packet_id_to_u8(PacketID::OpenConnectionReply2) {
        if tag == transaction_packet_id_to_u8(PacketID::IncompatibleProtocolVersion) {
            let packet = match read_packet_incompatible_protocol_version(buf) {
                Ok(p) => p,
                Err(e) => {
                    return Err(e);
                },
            };
            return Err(RaknetError::ProtocolMismatch(packet.server_protocol));
        } else {
            return Err(RaknetError::UnexpectedPacket(tag));
        }
    }
    read_packet_connection_open_reply_2(buf)
}

/// Builds the probe of a ping flow from the injected clock reading and a
/// freshly drawn GUID.
pub fn ping_request(time: i64) -> (r: Vec<u8>)
    ensures
        exists|guid: u64| r@ == spec_ping_wire(time, guid),
{
    let packet = PacketUnconnectedPing { time, magic: true, guid: random_guid() };
    match write_packet_ping(&packet) {
        Ok(v) => v,
        Err(_) => {
            proof {
                assert(false);
            }
            Vec::new()
        },
    }
}

/// The ping flow's handling of the one datagram it waits for: decoded as
/// a pong whatever its tag or origin — the flow accepts any reply — and
/// turned into the peer's clock minus the probe's clock, wrapping as
/// 64-bit arithmetic does.
pub fn ping_handle_pong(buf: &[u8], sent_time: i64) -> (r: Result<i64, RaknetError>)
    ensures
        match r {
            Ok(latency) => spec_parse_pong(buf@) matches Some(pf) && latency == pf.time.wrapping_sub(
                sent_time,
            ),
            Err(e) => spec_parse_pong(buf@) is None && (e == RaknetError::NotEnoughData || e
                == RaknetError::InvalidUtf8),
        },
{
    let pong = match read_packet_pong(buf) {
        Ok(p) => p,
        Err(e) => {
            return Err(e);
        },
    };
    Ok(pong.time.wrapping_sub(sent_time))
}

} // verus!
