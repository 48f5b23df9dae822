//! The closed set of offline messages: a one-byte tag followed by the
//! type's fields in declared order, encoded and decoded through the codec.

use vstd::prelude::*;

use vstd::slice::slice_to_vec;
use vstd::utf8::decode_utf8;
use vstd::utf8::encode_utf8;
use vstd::utf8::valid_utf8;

use crate::datatype::Endian;
use crate::datatype::RaknetAddr;
use crate::datatype::RaknetReader;
use crate::datatype::RaknetWriter;
use crate::datatype::lemma_addr_at_offset;
use crate::datatype::lemma_addr_round_trip;
use crate::datatype::lemma_i64_codec;
use crate::datatype::lemma_string_codec;
use crate::datatype::lemma_u16_at_offset;
use crate::datatype::lemma_u16_codec;
use crate::datatype::lemma_u64_at_offset;
use crate::datatype::lemma_u64_codec;
use crate::datatype::spec_addr_at;
use crate::datatype::spec_addr_bytes;
use crate::datatype::spec_addr_in_range;
use crate::datatype::spec_addr_size;
use crate::datatype::spec_i64_at;
use crate::datatype::spec_i64_bytes;
use crate::datatype::spec_magic;
use crate::datatype::spec_string_bytes;
use crate::datatype::spec_string_in_range;
use crate::datatype::spec_string_payload;
use crate::datatype::spec_strlen_at;
use crate::datatype::spec_u16_at;
use crate::datatype::spec_u16_bytes;
use crate::datatype::spec_u64_at;
use crate::datatype::spec_u64_bytes;
use crate::error::RaknetError;

verus! {

/// The message kinds of the offline handshake, one per wire tag.
#[derive(Clone, Copy, Debug, PartialEq, Eq, Structural)]
pub enum PacketID {
    UnconnectedPing1,
    UnconnectedPing2,
    UnconnectedPong,
    OpenConnectionRequest1,
    OpenConnectionReply1,
    OpenConnectionRequest2,
    OpenConnectionReply2,
    IncompatibleProtocolVersion,
    Unknown,
}

/// The message kind a wire tag names; unassigned tags map to `Unknown`.
pub open spec fn spec_packet_id(id: u8) -> PacketID {
    match id {
        0x01u8 => PacketID::UnconnectedPing1,
        0x02u8 => PacketID::UnconnectedPing2,
        0x1cu8 => PacketID::UnconnectedPong,
        0x05u8 => PacketID::OpenConnectionRequest1,
        0x06u8 => PacketID::OpenConnectionReply1,
        0x07u8 => PacketID::OpenConnectionRequest2,
        0x08u8 => PacketID::OpenConnectionReply2,
        0x19u8 => PacketID::IncompatibleProtocolVersion,
        _ => PacketID::Unknown,
    }
}

/// The wire tag of a message kind; `Unknown` carries the reserved 0xff.
pub open spec fn spec_packet_tag(packetid: PacketID) -> u8 {
    match packetid {
        PacketID::UnconnectedPing1 => 0x01u8,
        PacketID::UnconnectedPing2 => 0x02u8,
        PacketID::UnconnectedPong => 0x1cu8,
        PacketID::OpenConnectionRequest1 => 0x05u8,
        PacketID::OpenConnectionReply1 => 0x06u8,
        PacketID::OpenConnectionRequest2 => 0x07u8,
        PacketID::OpenConnectionReply2 => 0x08u8,
        PacketID::IncompatibleProtocolVersion => 0x19u8,
        PacketID::Unknown => 0xffu8,
    }
}

/// Maps a wire tag to the message kind it names.
pub fn transaction_packet_id(id: u8) -> (r: PacketID)
    ensures
        r == spec_packet_id(id),
{
    match id {
        0x01 => PacketID::UnconnectedPing1,
        0x02 => PacketID::UnconnectedPing2,
        0x1c => PacketID::UnconnectedPong,
        0x05 => PacketID::OpenConnectionRequest1,
        0x06 => PacketID::OpenConnectionReply1,
        0x07 => PacketID::OpenConnectionRequest2,
        0x08 => PacketID::OpenConnectionReply2,
        0x19 => PacketID::IncompatibleProtocolVersion,
        _ => PacketID::Unknown,
    }
}

/// Maps a message kind to its wire tag.
pub fn transaction_packet_id_to_u8(packetid: PacketID) -> (r: u8)
    ensures
        r == spec_packet_tag(packetid),
{
    match packetid {
        PacketID::UnconnectedPing1 => 0x01,
        PacketID::UnconnectedPing2 => 0x02,
        PacketID::UnconnectedPong => 0x1c,
        PacketID::OpenConnectionRequest1 => 0x05,
        PacketID::OpenConnectionReply1 => 0x06,
        PacketID::OpenConnectionRequest2 => 0x07,
        PacketID::OpenConnectionReply2 => 0x08,
        PacketID::IncompatibleProtocolVersion => 0x19,
        PacketID::Unknown => 0xff,
    }
}

/// The fire-and-forget liveness probe.
#[derive(Clone, Debug, PartialEq, Eq)]
pub struct PacketUnconnectedPing {
    pub time: i64,
    pub magic: bool,
    pub guid: u64,
}

/// The probe's reply, carrying the peer's clock and message of the day.
#[derive(Clone, Debug, PartialEq, Eq)]
pub struct PacketUnconnectedPong {
    pub time: i64,
    pub guid: u64,
    pub magic: bool,
    pub motd: String,
}

/// First handshake message: advertises a protocol version and probes the
/// path's MTU through its own padded length.
#[derive(Clone, Debug, PartialEq, Eq)]
pub struct OpenConnectionRequest1 {
    pub magic: bool,
    pub protocol_version: u8,
    pub mtu_size: u16,
}

/// Third handshake message: echoes the negotiated MTU and the client GUID.
#[derive(Clone, Debug, PartialEq, Eq)]
pub struct OpenConnectionRequest2 {
    pub magic: bool,
    pub address: RaknetAddr,
    pub mtu: u16,
    pub guid: u64,
}

/// Second handshake message: the peer's GUID and accepted MTU.
#[derive(Clone, Debug, PartialEq, Eq)]
pub struct OpenConnectionReply1 {
    pub magic: bool,
    pub guid: u64,
    pub use_encryption: u8,
    pub mtu_size: u16,
}

/// Fourth handshake message: completes the exchange.
#[derive(Clone, Debug, PartialEq, Eq)]
pub struct OpenConnectionReply2 {
    pub magic: bool,
    pub guid: u64,
    pub address: RaknetAddr,
    pub mtu: u16,
    pub encryption_enabled: u8,
}

/// The peer's refusal, carrying the version it supports instead.
#[derive(Clone, Debug, PartialEq, Eq)]
pub struct IncompatibleProtocolVersion {
    pub server_protocol: u8,
    pub magic: bool,
    pub server_guid: u64,
}

/// The field values of a decoded pong, with the message of the day as its
/// characters; stands in for the owned packet inside specifications.
pub struct PongFields {
    pub time: i64,
    pub guid: u64,
    pub magic: bool,
    pub motd: Seq<char>,
}

/// Wire form of a ping.
pub open spec fn spec_ping_wire(time: i64, guid: u64) -> Seq<u8> {
    seq![0x01u8] + spec_i64_bytes(Endian::Big, time) + spec_magic() + spec_u64_bytes(
        Endian::Big,
        guid,
    )
}

/// The ping a buffer decodes to, if it is long enough.
pub open spec fn spec_parse_ping(s: Seq<u8>) -> Option<PacketUnconnectedPing> {
    if s.len() >= 33 {
        Some(
            PacketUnconnectedPing {
                time: spec_i64_at(Endian::Big, s, 1),
                magic: s.subrange(9, 25) == spec_magic(),
                guid: spec_u64_at(Endian::Big, s, 25),
            },
        )
    } else {
        None
    }
}

/// Wire form of a pong with the given message-of-the-day characters.
pub open spec fn spec_pong_wire(time: i64, guid: u64, motd: Seq<char>) -> Seq<u8> {
    seq![0x1cu8] + spec_i64_bytes(Endian::Big, time) + spec_u64_bytes(Endian::Big, guid)
        + spec_magic() + spec_string_bytes(motd)
}

/// The pong fields a buffer decodes to: present exactly when the buffer
/// covers the declared string and that string is valid UTF-8.
pub open spec fn spec_parse_pong(s: Seq<u8>) -> Option<PongFields> {
    if s.len() >= 35 && spec_string_in_range(s, 33) && valid_utf8(spec_string_payload(s, 33)) {
        Some(
            PongFields {
                time: spec_i64_at(Endian::Big, s, 1),
                guid: spec_u64_at(Endian::Big, s, 9),
                magic: s.subrange(17, 33) == spec_magic(),
                motd: decode_utf8(spec_string_payload(s, 33)),
            },
        )
    } else {
        None
    }
}

/// Wire form of the first request: after the version byte, zero padding
/// brings the length to `mtu - 29`, so the length itself carries the MTU.
pub open spec fn spec_request1_wire(version: u8, mtu: u16) -> Seq<u8> {
    seq![0x05u8] + spec_magic() + seq![version] + Seq::new((mtu - 47) as nat, |i: int| 0u8)
}

/// The first request a buffer decodes to; its MTU is inferred from the
/// received length, not read from a field.
pub open spec fn spec_parse_request1(s: Seq<u8>) -> Option<OpenConnectionRequest1> {
    if s.len() >= 18 && s.len() + 29 <= 65535 {
        Some(
            OpenConnectionRequest1 {
                magic: s.subrange(1, 17) == spec_magic(),
                protocol_version: s[17],
                mtu_size: (s.len() + 29) as u16,
            },
        )
    } else {
        None
    }
}

/// Wire form of the second request.
pub open spec fn spec_request2_wire(address: RaknetAddr, mtu: u16, guid: u64) -> Seq<u8> {
    seq![0x07u8] + spec_magic() + spec_addr_bytes(address) + spec_u16_bytes(Endian::Big, mtu)
        + spec_u64_bytes(Endian::Big, guid)
}

/// The second request a buffer decodes to.
pub open spec fn spec_parse_request2(s: Seq<u8>) -> Option<OpenConnectionRequest2> {
    if spec_addr_in_range(s, 17) && 17 + spec_addr_size(s, 17) + 10 <= s.len() {
        Some(
            OpenConnectionRequest2 {
                magic: s.subrange(1, 17) == spec_magic(),
                address: spec_addr_at(s, 17),
                mtu: spec_u16_at(Endian::Big, s, 17 + spec_addr_size(s, 17)),
                guid: spec_u64_at(Endian::Big, s, 17 + spec_addr_size(s, 17) + 2),
            },
        )
    } else {
        None
    }
}

/// Wire form of the first reply.
pub open spec fn spec_reply1_wire(guid: u64, use_encryption: u8, mtu: u16) -> Seq<u8> {
    seq![0x06u8] + spec_magic() + spec_u64_bytes(Endian::Big, guid) + seq![use_encryption]
        + spec_u16_bytes(Endian::Big, mtu)
}

/// The first reply a buffer decodes to.
pub open spec fn spec_parse_reply1(s: Seq<u8>) -> Option<OpenConnectionReply1> {
    if s.len() >= 28 {
        Some(
            OpenConnectionReply1 {
                magic: s.subrange(1, 17) == spec_magic(),
                guid: spec_u64_at(Endian::Big, s, 17),
                use_encryption: s[25],
                mtu_size: spec_u16_at(Endian::Big, s, 26),
            },
        )
    } else {
        None
    }
}

/// Wire form of the second reply.
pub open spec fn spec_reply2_wire(
    guid: u64,
    address: RaknetAddr,
    mtu: u16,
    encryption_enabled: u8,
) -> Seq<u8> {
    seq![0x08u8] + spec_magic() + spec_u64_bytes(Endian::Big, guid) + spec_addr_bytes(address)
        + spec_u16_bytes(Endian::Big, mtu) + seq![encryption_enabled]
}

/// The second reply a buffer decodes to.
pub open spec fn spec_parse_reply2(s: Seq<u8>) -> Option<OpenConnectionReply2> {
    if spec_addr_in_range(s, 25) && 25 + spec_addr_size(s, 25) + 3 <= s.len() {
        Some(
            OpenConnectionReply2 {
                magic: s.subrange(1, 17) == spec_magic(),
                guid: spec_u64_at(Endian::Big, s, 17),
                address: spec_addr_at(s, 25),
                mtu: spec_u16_at(Endian::Big, s, 25 + spec_addr_size(s, 25)),
                encryption_enabled: s[25 + spec_addr_size(s, 25) + 2],
            },
        )
    } else {
        None
    }
}

/// Wire form of the version refusal.
pub open spec fn spec_incompatible_wire(server_protocol: u8, server_guid: u64) -> Seq<u8> {
    seq![0x19u8, server_protocol] + spec_magic() + spec_u64_bytes(Endian::Big, server_guid)
}

/// The version refusal a buffer decodes to.
pub open spec fn spec_parse_incompatible(s: Seq<u8>) -> Option<IncompatibleProtocolVersion> {
    if s.len() >= 26 {
        Some(
            IncompatibleProtocolVersion {
                server_protocol: s[1],
                magic: s.subrange(2, 18) == spec_magic(),
                server_guid: spec_u64_at(Endian::Big, s, 18),
            },
        )
    } else {
        None
    }
}

/// Decodes a ping; fails exactly when the buffer is too short.
pub fn read_packet_ping(buf: &[u8]) -> (r: Result<PacketUnconnectedPing, RaknetError>)
    ensures
        match r {
            Ok(p) => spec_parse_ping(buf@) == Some(p),
            Err(e) => spec_parse_ping(buf@) is None && e == RaknetError::NotEnoughData,
        },
{
    let mut cursor = RaknetReader::new(slice_to_vec(buf));
    match cursor.read_u8() {
        Ok(_) => (),
        Err(e) => {
            return Err(e);
        },
    }
    let time = match cursor.read_i64(Endian::Big) {
        Ok(v) => v,
        Err(e) => {
            return Err(e);
        },
    };
    let magic = match cursor.read_magic() {
        Ok(v) => v,
        Err(e) => {
            return Err(e);
        },
    };
    let guid = match cursor.read_u64(Endian::Big) {
        Ok(v) => v,
        Err(e) => {
            return Err(e);
        },
    };
    Ok(PacketUnconnectedPing { time, magic, guid })
}

/// Encodes a ping: tag, time, marker, GUID.
pub fn write_packet_ping(packet: &PacketUnconnectedPing) -> (r: Result<Vec<u8>, RaknetError>)
    ensures
        r matches Ok(v) && v@ == spec_ping_wire(packet.time, packet.guid),
{
    let mut cursor = RaknetWriter::new();
    let _ = cursor.write_u8(transaction_packet_id_to_u8(PacketID::UnconnectedPing1));
    let _ = cursor.write_i64(packet.time, Endian::Big);
    let _ = cursor.write_magic();
    let _ = cursor.write_u64(packet.guid, Endian::Big);
    proof {
        assert(cursor.bytes() =~= spec_ping_wire(packet.time, packet.guid));
    }
    Ok(cursor.get_raw_payload())
}

/// Decodes a pong; fails exactly when the buffer is shorter than declared
/// or the message of the day is not UTF-8.
pub fn read_packet_pong(buf: &[u8]) -> (r: Result<PacketUnconnectedPong, RaknetError>)
    ensures
        match r {
            Ok(p) => spec_parse_pong(buf@) matches Some(pf) && pf.time == p.time && pf.guid
                == p.guid && pf.magic == p.magic && pf.motd == p.motd@,
            Err(e) => spec_parse_pong(buf@) is None,
        },
        buf@.len() < 33 || !spec_string_in_range(buf@, 33) ==> r == Err::<
            PacketUnconnectedPong,
            RaknetError,
        >(RaknetError::NotEnoughData),
        buf@.len() >= 33 && spec_string_in_range(buf@, 33) && !valid_utf8(
            spec_string_payload(buf@, 33),
        ) ==> r == Err::<PacketUnconnectedPong, RaknetError>(RaknetError::InvalidUtf8),
{
    let mut cursor = RaknetReader::new(slice_to_vec(buf));
    match cursor.read_u8() {
        Ok(_) => (),
        Err(e) => {
            return Err(e);
        },
    }
    let time = match cursor.read_i64(Endian::Big) {
        Ok(v) => v,
        Err(e) => {
            return Err(e);
        },
    };
    let guid = match cursor.read_u64(Endian::Big) {
        Ok(v) => v,
        Err(e) => {
            return Err(e);
        },
    };
    let magic = match cursor.read_magic() {
        Ok(v) => v,
        Err(e) => {
            return Err(e);
        },
    };
    let motd = match cursor.read_string() {
        Ok(v) => v,
        Err(e) => {
            return Err(e);
        },
    };
    Ok(PacketUnconnectedPong { time, guid, magic, motd })
}

/// Encodes a pong: tag, time, GUID, marker, message of the day; fails
/// exactly when the message does not fit the length prefix.
pub fn write_packet_pong(packet: &PacketUnconnectedPong) -> (r: Result<Vec<u8>, RaknetError>)
    ensures
        encode_utf8(packet.motd@).len() <= 65535 ==> (r matches Ok(v) && v@ == spec_pong_wire(
            packet.time,
            packet.guid,
            packet.motd@,
        )),
        encode_utf8(packet.motd@).len() > 65535 ==> r == Err::<Vec<u8>, RaknetError>(
            RaknetError::StringTooLong,
        ),
{
    let mut cursor = RaknetWriter::new();
    let _ = cursor.write_u8(transaction_packet_id_to_u8(PacketID::UnconnectedPong));
    let _ = cursor.write_i64(packet.time, Endian::Big);
    let _ = cursor.write_u64(packet.guid, Endian::Big);
    let _ = cursor.write_magic();
    match cursor.write_string(packet.motd.as_str()) {
        Ok(()) => (),
        Err(e) => {
            return Err(e);
        },
    }
    proof {
        assert(cursor.bytes() =~= spec_pong_wire(packet.time, packet.guid, packet.motd@));
    }
    Ok(cursor.get_raw_payload())
}

/// Decodes a first request, inferring its MTU from the received length;
/// fails exactly when too short, or too long for the MTU to fit 16 bits.
pub fn read_packet_connection_open_request_1(buf: &[u8]) -> (r: Result<
    OpenConnectionRequest1,
    RaknetError,
>)
    ensures
        match r {
            Ok(p) => spec_parse_request1(buf@) == Some(p),
            Err(e) => spec_parse_request1(buf@) is None,
        },
        buf@.len() < 18 ==> r == Err::<OpenConnectionRequest1, RaknetError>(
            RaknetError::NotEnoughData,
        ),
        buf@.len() >= 18 && buf@.len() + 29 > 65535 ==> r == Err::<
            OpenConnectionRequest1,
            RaknetError,
        >(RaknetError::DatagramTooLarge),
{
    let mut cursor = RaknetReader::new(slice_to_vec(buf));
    match cursor.read_u8() {
        Ok(_) => (),
        Err(e) => {
            return Err(e);
        },
    }
    let magic = match cursor.read_magic() {
        Ok(v) => v,
        Err(e) => {
            return Err(e);
        },
    };
    let protocol_version = match cursor.read_u8() {
        Ok(v) => v,
        Err(e) => {
            return Err(e);
        },
    };
    if buf.len() > 65535 - 29 {
        return Err(RaknetError::DatagramTooLarge);
    }
    let mtu_size = (buf.len() + 29) as u16;
    Ok(OpenConnectionRequest1 { magic, protocol_version, mtu_size })
}

/// Encodes a first request: tag, marker, version, then zero padding out to
/// `mtu_size - 29` bytes, the off-by-one arithmetic of the wire format
/// included; the padded length is what carries the MTU to the peer.
pub fn write_packet_connection_open_request_1(packet: &OpenConnectionRequest1) -> (r: Result<
    Vec<u8>,
    RaknetError,
>)
    requires
        packet.mtu_size >= 47,
    ensures
        r matches Ok(v) && v@ == spec_request1_wire(packet.protocol_version, packet.mtu_size)
            && v@.len() == packet.mtu_size - 29,
{
    let mut cursor = RaknetWriter::new();
    let _ = cursor.write_u8(transaction_packet_id_to_u8(PacketID::OpenConnectionRequest1));
    let _ = cursor.write_magic();
    let _ = cursor.write_u8(packet.protocol_version);
    let pad: usize = (packet.mtu_size as usize) - (cursor.pos() as usize + 28) - 1;
    let zeros: Vec<u8> = vec![0u8; pad];
    let _ = cursor.write(zeros.as_slice());
    proof {
        assert(cursor.bytes() =~= spec_request1_wire(packet.protocol_version, packet.mtu_size));
    }
    Ok(cursor.get_raw_payload())
}

/// Decodes a second request; fails exactly when the buffer is too short
/// for the address form its own bytes declare.
pub fn read_packet_connection_open_request_2(buf: &[u8]) -> (r: Result<
    OpenConnectionRequest2,
    RaknetError,
>)
    ensures
        match r {
            Ok(p) => spec_parse_request2(buf@) == Some(p),
            Err(e) => spec_parse_request2(buf@) is None && e == RaknetError::NotEnoughData,
        },
{
    let mut cursor = RaknetReader::new(slice_to_vec(buf));
    match cursor.read_u8() {
        Ok(_) => (),
        Err(e) => {
            return Err(e);
        },
    }
    let magic = match cursor.read_magic() {
        Ok(v) => v,
        Err(e) => {
            return Err(e);
        },
    };
    let address = match cursor.read_address() {
        Ok(v) => v,
        Err(e) => {
            return Err(e);
        },
    };
    let mtu = match cursor.read_u16(Endian::Big) {
        Ok(v) => v,
        Err(e) => {
            return Err(e);
        },
    };
    let guid = match cursor.read_u64(Endian::Big) {
        Ok(v) => v,
        Err(e) => {
            return Err(e);
        },
    };
    Ok(OpenConnectionRequest2 { magic, address, mtu, guid })
}

/// Encodes a second request: tag, marker, address, MTU, GUID.
pub fn write_packet_connection_open_request_2(packet: &OpenConnectionRequest2) -> (r: Result<
    Vec<u8>,
    RaknetError,
>)
    ensures
        r matches Ok(v) && v@ == spec_request2_wire(packet.address, packet.mtu, packet.guid),
{
    let mut cursor = RaknetWriter::new();
    let _ = cursor.write_u8(transaction_packet_id_to_u8(PacketID::OpenConnectionRequest2));
    let _ = cursor.write_magic();
    let _ = cursor.write_address(packet.address);
    let _ = cursor.write_u16(packet.mtu, Endian::Big);
    let _ = cursor.write_u64(packet.guid, Endian::Big);
    proof {
        assert(cursor.bytes() =~= spec_request2_wire(packet.address, packet.mtu, packet.guid));
    }
    Ok(cursor.get_raw_payload())
}

/// Decodes a first reply; fails exactly when the buffer is too short.
pub fn read_packet_connection_open_reply_1(buf: &[u8]) -> (r: Result<
    OpenConnectionReply1,
    RaknetError,
>)
    ensures
        match r {
            Ok(p) => spec_parse_reply1(buf@) == Some(p),
            Err(e) => spec_parse_reply1(buf@) is None && e == RaknetError::NotEnoughData,
        },
{
    let mut cursor = RaknetReader::new(slice_to_vec(buf));
    match cursor.read_u8() {
        Ok(_) => (),
        Err(e) => {
            return Err(e);
        },
    }
    let magic = match cursor.read_magic() {
        Ok(v) => v,
        Err(e) => {
            return Err(e);
        },
    };
    let guid = match cursor.read_u64(Endian::Big) {
        Ok(v) => v,
        Err(e) => {
            return Err(e);
        },
    };
    let use_encryption = match cursor.read_u8() {
        Ok(v) => v,
        Err(e) => {
            return Err(e);
        },
    };
    let mtu_size = match cursor.read_u16(Endian::Big) {
        Ok(v) => v,
        Err(e) => {
            return Err(e);
        },
    };
    Ok(OpenConnectionReply1 { magic, guid, use_encryption, mtu_size })
}

/// Encodes a first reply: tag, marker, GUID, encryption flag, MTU.
pub fn write_packet_connection_open_reply_1(packet: &OpenConnectionReply1) -> (r: Result<
    Vec<u8>,
    RaknetError,
>)
    ensures
        r matches Ok(v) && v@ == spec_reply1_wire(
            packet.guid,
            packet.use_encryption,
            packet.mtu_size,
        ),
{
    let mut cursor = RaknetWriter::new();
    let _ = cursor.write_u8(transaction_packet_id_to_u8(PacketID::OpenConnectionReply1));
    let _ = cursor.write_magic();
    let _ = cursor.write_u64(packet.guid, Endian::Big);
    let _ = cursor.write_u8(packet.use_encryption);
    let _ = cursor.write_u16(packet.mtu_size, Endian::Big);
    proof {
        assert(cursor.bytes() =~= spec_reply1_wire(
            packet.guid,
            packet.use_encryption,
            packet.mtu_size,
        ));
    }
    Ok(cursor.get_raw_payload())
}

/// Decodes a second reply; fails exactly when the buffer is too short for
/// the address form its own bytes declare.
pub fn read_packet_connection_open_reply_2(buf: &[u8]) -> (r: Result<
    OpenConnectionReply2,
    RaknetError,
>)
    ensures
        match r {
            Ok(p) => spec_parse_reply2(buf@) == Some(p),
            Err(e) => spec_parse_reply2(buf@) is None && e == RaknetError::NotEnoughData,
        },
{
    let mut cursor = RaknetReader::new(slice_to_vec(buf));
    match cursor.read_u8() {
        Ok(_) => (),
        Err(e) => {
            return Err(e);
        },
    }
    let magic = match cursor.read_magic() {
        Ok(v) => v,
        Err(e) => {
            return Err(e);
        },
    };
    let guid = match cursor.read_u64(Endian::Big) {
        Ok(v) => v,
        Err(e) => {
            return Err(e);
        },
    };
    let address = match cursor.read_address() {
        Ok(v) => v,
        Err(e) => {
            return Err(e);
        },
    };
    let mtu = match cursor.read_u16(Endian::Big) {
        Ok(v) => v,
        Err(e) => {
            return Err(e);
        },
    };
    let encryption_enabled = match cursor.read_u8() {
        Ok(v) => v,
        Err(e) => {
            return Err(e);
        },
    };
    Ok(OpenConnectionReply2 { magic, guid, address, mtu, encryption_enabled })
}

/// Encodes a second reply: tag, marker, GUID, address, MTU, encryption
/// flag.
pub fn write_packet_connection_open_reply_2(packet: &OpenConnectionReply2) -> (r: Result<
    Vec<u8>,
    RaknetError,
>)
    ensures
        r matches Ok(v) && v@ == spec_reply2_wire(
            packet.guid,
            packet.address,
            packet.mtu,
            packet.encryption_enabled,
        ),
{
    let mut cursor = RaknetWriter::new();
    let _ = cursor.write_u8(transaction_packet_id_to_u8(PacketID::OpenConnectionReply2));
    let _ = cursor.write_magic();
    let _ = cursor.write_u64(packet.guid, Endian::Big);
    let _ = cursor.write_address(packet.address);
    let _ = cursor.write_u16(packet.mtu, Endian::Big);
    let _ = cursor.write_u8(packet.encryption_enabled);
    proof {
        assert(cursor.bytes() =~= spec_reply2_wire(
            packet.guid,
            packet.address,
            packet.mtu,
            packet.encryption_enabled,
        ));
    }
    Ok(cursor.get_raw_payload())
}

/// Decodes a version refusal; fails exactly when the buffer is too short.
pub fn read_packet_incompatible_protocol_version(buf: &[u8]) -> (r: Result<
    IncompatibleProtocolVersion,
    RaknetError,
>)
    ensures
        match r {
            Ok(p) => spec_parse_incompatible(buf@) == Some(p),
            Err(e) => spec_parse_incompatible(buf@) is None && e == RaknetError::NotEnoughData,
        },
{
    let mut cursor = RaknetReader::new(slice_to_vec(buf));
    match cursor.read_u8() {
        Ok(_) => (),
        Err(e) => {
            return Err(e);
        },
    }
    let server_protocol = match cursor.read_u8() {
        Ok(v) => v,
        Err(e) => {
            return Err(e);
        },
    };
    let magic = match cursor.read_magic() {
        Ok(v) => v,
        Err(e) => {
            return Err(e);
        },
    };
    let server_guid = match cursor.read_u64(Endian::Big) {
        Ok(v) => v,
        Err(e) => {
            return Err(e);
        },
    };
    Ok(IncompatibleProtocolVersion { server_protocol, magic, server_guid })
}

/// Encodes a version refusal: tag, version, marker, GUID.
pub fn write_packet_incompatible_protocol_version(packet: &IncompatibleProtocolVersion) -> (r:
    Result<Vec<u8>, RaknetError>)
    ensures
        r matches Ok(v) && v@ == spec_incompatible_wire(packet.server_protocol, packet.server_guid),
{
    let mut cursor = RaknetWriter::new();
    let _ = cursor.write_u8(transaction_packet_id_to_u8(PacketID::IncompatibleProtocolVersion));
    let _ = cursor.write_u8(packet.server_protocol);
    let _ = cursor.write_magic();
    let _ = cursor.write_u64(packet.server_guid, Endian::Big);
    proof {
        assert(cursor.bytes() =~= spec_incompatible_wire(
            packet.server_protocol,
            packet.server_guid,
        ));
    }
    Ok(cursor.get_raw_payload())
}


/// Round trip: a ping with the marker decodes from its own wire form.
pub proof fn lemma_ping_round_trip(p: PacketUnconnectedPing)
    requires
        p.magic,
    ensures
        spec_parse_ping(spec_ping_wire(p.time, p.guid)) == Some(p),
{
    let w = spec_ping_wire(p.time, p.guid);
    let tb = spec_i64_bytes(Endian::Big, p.time);
    let gb = spec_u64_bytes(Endian::Big, p.guid);
    assert(w.len() == 33);
    assert(w.subrange(1, 9) =~= tb);
    assert(w.subrange(9, 25) =~= spec_magic());
    assert(w.subrange(25, 33) =~= gb);
    lemma_u64_at_offset(Endian::Big, w, 1, tb);
    lemma_i64_codec(Endian::Big, p.time);
    lemma_u64_at_offset(Endian::Big, w, 25, gb);
    lemma_u64_codec(Endian::Big, p.guid);
}

/// Round trip: a pong with the marker and a message of the day that fits
/// the length prefix decodes from its own wire form, its message's UTF-8
/// byte length kept exactly.
pub proof fn lemma_pong_round_trip(time: i64, guid: u64, motd: Seq<char>)
    requires
        encode_utf8(motd).len() <= 65535,
    ensures
        spec_parse_pong(spec_pong_wire(time, guid, motd)) matches Some(pf) && pf.time == time
            && pf.guid == guid && pf.magic && pf.motd == motd,
        spec_strlen_at(spec_pong_wire(time, guid, motd), 33) == encode_utf8(motd).len(),
{
    let w = spec_pong_wire(time, guid, motd);
    let tb = spec_i64_bytes(Endian::Big, time);
    let gb = spec_u64_bytes(Endian::Big, guid);
    let lf = spec_u16_bytes(Endian::Big, encode_utf8(motd).len() as u16);
    lemma_string_codec(motd);
    let lv = encode_utf8(motd).len() as int;
    assert(w.len() == 35 + lv);
    assert(w.subrange(1, 9) =~= tb);
    assert(w.subrange(9, 17) =~= gb);
    assert(w.subrange(17, 33) =~= spec_magic());
    assert(w.subrange(33, 35) =~= lf);
    lemma_u64_at_offset(Endian::Big, w, 1, tb);
    lemma_i64_codec(Endian::Big, time);
    lemma_u64_at_offset(Endian::Big, w, 9, gb);
    lemma_u64_codec(Endian::Big, guid);
    lemma_u16_at_offset(Endian::Big, w, 33, lf);
    lemma_u16_codec(Endian::Big, encode_utf8(motd).len() as u16);
    assert(spec_strlen_at(w, 33) == lv);
    assert(spec_string_in_range(w, 33));
    assert(spec_string_payload(w, 33) =~= encode_utf8(motd));
}

/// Round trip: a first request with the marker and an MTU the padding
/// formula admits decodes from its own wire form — the padded length
/// carries the MTU back exactly.
pub proof fn lemma_request1_round_trip(p: OpenConnectionRequest1)
    requires
        p.magic,
        p.mtu_size >= 47,
    ensures
        spec_request1_wire(p.protocol_version, p.mtu_size).len() == p.mtu_size - 29,
        spec_parse_request1(spec_request1_wire(p.protocol_version, p.mtu_size)) == Some(p),
{
    let w = spec_request1_wire(p.protocol_version, p.mtu_size);
    assert(w.len() == p.mtu_size - 29);
    assert(w.subrange(1, 17) =~= spec_magic());
    assert(w[17] == p.protocol_version);
}

/// Round trip: a second request with the marker decodes from its own wire
/// form, its address restored octet for octet.
pub proof fn lemma_request2_round_trip(p: OpenConnectionRequest2)
    requires
        p.magic,
    ensures
        spec_parse_request2(spec_request2_wire(p.address, p.mtu, p.guid)) == Some(p),
{
    let w = spec_request2_wire(p.address, p.mtu, p.guid);
    let ab = spec_addr_bytes(p.address);
    let mb = spec_u16_bytes(Endian::Big, p.mtu);
    let gb = spec_u64_bytes(Endian::Big, p.guid);
    lemma_addr_round_trip(p.address);
    let asz = ab.len() as int;
    assert(w.len() == 27 + asz);
    assert(w.subrange(1, 17) =~= spec_magic());
    assert(w.subrange(17, 17 + asz) =~= ab);
    lemma_addr_at_offset(w, 17, ab);
    assert(w.subrange(17 + asz, 19 + asz) =~= mb);
    lemma_u16_at_offset(Endian::Big, w, 17 + asz, mb);
    lemma_u16_codec(Endian::Big, p.mtu);
    assert(w.subrange(19 + asz, 27 + asz) =~= gb);
    lemma_u64_at_offset(Endian::Big, w, 19 + asz, gb);
    lemma_u64_codec(Endian::Big, p.guid);
}

/// Round trip: a first reply with the marker decodes from its own wire
/// form.
pub proof fn lemma_reply1_round_trip(p: OpenConnectionReply1)
    requires
        p.magic,
    ensures
        spec_parse_reply1(spec_reply1_wire(p.guid, p.use_encryption, p.mtu_size)) == Some(p),
{
    let w = spec_reply1_wire(p.guid, p.use_encryption, p.mtu_size);
    let gb = spec_u64_bytes(Endian::Big, p.guid);
    let mb = spec_u16_bytes(Endian::Big, p.mtu_size);
    assert(w.len() == 28);
    assert(w.subrange(1, 17) =~= spec_magic());
    assert(w.subrange(17, 25) =~= gb);
    assert(w[25] == p.use_encryption);
    assert(w.subrange(26, 28) =~= mb);
    lemma_u64_at_offset(Endian::Big, w, 17, gb);
    lemma_u64_codec(Endian::Big, p.guid);
    lemma_u16_at_offset(Endian::Big, w, 26, mb);
    lemma_u16_codec(Endian::Big, p.mtu_size);
}

/// Round trip: a second reply with the marker decodes from its own wire
/// form, its address restored octet for octet.
#[verifier::rlimit(60)]
pub proof fn lemma_reply2_round_trip(p: OpenConnectionReply2)
    requires
        p.magic,
    ensures
        spec_parse_reply2(spec_reply2_wire(p.guid, p.address, p.mtu, p.encryption_enabled))
            == Some(p),
{
    let w = spec_reply2_wire(p.guid, p.address, p.mtu, p.encryption_enabled);
    let ab = spec_addr_bytes(p.address);
    let gb = spec_u64_bytes(Endian::Big, p.guid);
    let mb = spec_u16_bytes(Endian::Big, p.mtu);
    lemma_addr_round_trip(p.address);
    let asz = ab.len() as int;
    assert(w.len() == 28 + asz);
    assert(w.subrange(1, 17) =~= spec_magic());
    assert(w.subrange(17, 25) =~= gb);
    assert(w.subrange(25, 25 + asz) =~= ab);
    lemma_addr_at_offset(w, 25, ab);
    lemma_u64_at_offset(Endian::Big, w, 17, gb);
    lemma_u64_codec(Endian::Big, p.guid);
    assert(w.subrange(25 + asz, 27 + asz) =~= mb);
    lemma_u16_at_offset(Endian::Big, w, 25 + asz, mb);
    lemma_u16_codec(Endian::Big, p.mtu);
    assert(w[27 + asz] == p.encryption_enabled);
}

/// Round trip: a version refusal with the marker decodes from its own
/// wire form.
pub proof fn lemma_incompatible_round_trip(p: IncompatibleProtocolVersion)
    requires
        p.magic,
    ensures
        spec_parse_incompatible(spec_incompatible_wire(p.server_protocol, p.server_guid)) == Some(
            p,
        ),
{
    let w = spec_incompatible_wire(p.server_protocol, p.server_guid);
    let gb = spec_u64_bytes(Endian::Big, p.server_guid);
    assert(w.len() == 26);
    assert(w[1] == p.server_protocol);
    assert(w.subrange(2, 18) =~= spec_magic());
    assert(w.subrange(18, 26) =~= gb);
    lemma_u64_at_offset(Endian::Big, w, 18, gb);
    lemma_u64_codec(Endian::Big, p.server_guid);
}

} // verus!
