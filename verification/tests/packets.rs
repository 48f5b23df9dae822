use raknet::datatype::RaknetAddr;
use raknet::error::RaknetError;
use raknet::packet::IncompatibleProtocolVersion;
use raknet::packet::OpenConnectionReply1;
use raknet::packet::OpenConnectionReply2;
use raknet::packet::OpenConnectionRequest1;
use raknet::packet::OpenConnectionRequest2;
use raknet::packet::PacketID;
use raknet::packet::PacketUnconnectedPing;
use raknet::packet::PacketUnconnectedPong;
use raknet::packet::read_packet_connection_open_reply_1;
use raknet::packet::read_packet_connection_open_reply_2;
use raknet::packet::read_packet_connection_open_request_1;
use raknet::packet::read_packet_connection_open_request_2;
use raknet::packet::read_packet_incompatible_protocol_version;
use raknet::packet::read_packet_ping;
use raknet::packet::read_packet_pong;
use raknet::packet::transaction_packet_id;
use raknet::packet::transaction_packet_id_to_u8;
use raknet::packet::write_packet_connection_open_reply_1;
use raknet::packet::write_packet_connection_open_reply_2;
use raknet::packet::write_packet_connection_open_request_1;
use raknet::packet::write_packet_connection_open_request_2;
use raknet::packet::write_packet_incompatible_protocol_version;
use raknet::packet::write_packet_ping;
use raknet::packet::write_packet_pong;

#[test]
fn test_packet_id_mapping_is_mutually_inverse() {
    let pairs = [
        (0x01u8, PacketID::UnconnectedPing1),
        (0x02, PacketID::UnconnectedPing2),
        (0x1c, PacketID::UnconnectedPong),
        (0x05, PacketID::OpenConnectionRequest1),
        (0x06, PacketID::OpenConnectionReply1),
        (0x07, PacketID::OpenConnectionRequest2),
        (0x08, PacketID::OpenConnectionReply2),
        (0x19, PacketID::IncompatibleProtocolVersion),
    ];
    for (tag, id) in pairs {
        assert_eq!(transaction_packet_id(tag), id);
        assert_eq!(transaction_packet_id_to_u8(id), tag);
    }
    assert_eq!(transaction_packet_id(0x42), PacketID::Unknown);
    assert_eq!(transaction_packet_id_to_u8(PacketID::Unknown), 0xff);
}

#[test]
fn test_ping_roundtrip_boundary_values() {
    for time in [0i64, 1000, -1, i64::MIN, i64::MAX] {
        for guid in [0u64, 1, u64::MAX] {
            let p = PacketUnconnectedPing { time, magic: true, guid };
            let buf = write_packet_ping(&p).unwrap();
            assert_eq!(buf.len(), 33);
            assert_eq!(buf[0], 0x01);
            let q = read_packet_ping(&buf).unwrap();
            assert_eq!(q, p);
        }
    }
}

#[test]
fn test_ping_short_buffer_fails() {
    let p = PacketUnconnectedPing { time: 7, magic: true, guid: 9 };
    let buf = write_packet_ping(&p).unwrap();
    let r = read_packet_ping(&buf[..32]);
    assert_eq!(r.unwrap_err(), RaknetError::NotEnoughData);
}

#[test]
fn test_pong_roundtrip() {
    let p = PacketUnconnectedPong {
        time: 123456789,
        guid: 0xdead_beef_cafe_f00d,
        magic: true,
        motd: String::from("MCPE;Demo;486;1.18.11;0;10;1;level;Survival;1;19132;"),
    };
    let buf = write_packet_pong(&p).unwrap();
    assert_eq!(buf[0], 0x1c);
    let q = read_packet_pong(&buf).unwrap();
    assert_eq!(q, p);
}

#[test]
fn test_pong_too_long_motd_fails() {
    let p = PacketUnconnectedPong {
        time: 0,
        guid: 0,
        magic: true,
        motd: "m".repeat(70000),
    };
    assert_eq!(write_packet_pong(&p).unwrap_err(), RaknetError::StringTooLong);
}

#[test]
fn test_request1_mtu_padding_arithmetic() {
    // The padded datagram's total length is mtu - 29, and decode infers
    // the MTU back from that length alone.
    let p = OpenConnectionRequest1 { magic: true, protocol_version: 0xa, mtu_size: 1500 };
    let buf = write_packet_connection_open_request_1(&p).unwrap();
    assert_eq!(buf.len(), 1471);
    assert_eq!(buf[0], 0x05);
    assert_eq!(buf[17], 0xa);
    assert!(buf[18..].iter().all(|b| *b == 0));
    let q = read_packet_connection_open_request_1(&buf).unwrap();
    assert_eq!(q.mtu_size, 1500);
    assert_eq!(q, p);
}

#[test]
fn test_request1_smallest_mtu() {
    let p = OpenConnectionRequest1 { magic: true, protocol_version: 11, mtu_size: 47 };
    let buf = write_packet_connection_open_request_1(&p).unwrap();
    assert_eq!(buf.len(), 18);
    let q = read_packet_connection_open_request_1(&buf).unwrap();
    assert_eq!(q, p);
}

#[test]
fn test_request1_short_and_oversize_buffers_fail() {
    let r = read_packet_connection_open_request_1(&[0x05; 17]);
    assert_eq!(r.unwrap_err(), RaknetError::NotEnoughData);
    let big = vec![0u8; 65507];
    let r = read_packet_connection_open_request_1(&big);
    assert_eq!(r.unwrap_err(), RaknetError::DatagramTooLarge);
}

#[test]
fn test_request2_roundtrip() {
    let p = OpenConnectionRequest2 {
        magic: true,
        address: RaknetAddr::V4 { o0: 127, o1: 0, o2: 0, o3: 1, port: 19132 },
        mtu: 1492,
        guid: 42,
    };
    let buf = write_packet_connection_open_request_2(&p).unwrap();
    assert_eq!(buf[0], 0x07);
    assert_eq!(buf.len(), 34);
    let q = read_packet_connection_open_request_2(&buf).unwrap();
    assert_eq!(q, p);
}

#[test]
fn test_reply1_roundtrip() {
    let p = OpenConnectionReply1 {
        magic: true,
        guid: 0x1122_3344_5566_7788,
        use_encryption: 0,
        mtu_size: 1492,
    };
    let buf = write_packet_connection_open_reply_1(&p).unwrap();
    assert_eq!(buf[0], 0x06);
    assert_eq!(buf.len(), 28);
    let q = read_packet_connection_open_reply_1(&buf).unwrap();
    assert_eq!(q, p);
}

#[test]
fn test_reply2_roundtrip_with_v6_address() {
    let p = OpenConnectionReply2 {
        magic: true,
        guid: 77,
        address: RaknetAddr::V6 {
            s0: 0x2001,
            s1: 0x0db8,
            s2: 0,
            s3: 0,
            s4: 0,
            s5: 0,
            s6: 0,
            s7: 1,
            port: 4444,
        },
        mtu: 1400,
        encryption_enabled: 1,
    };
    let buf = write_packet_connection_open_reply_2(&p).unwrap();
    assert_eq!(buf[0], 0x08);
    assert_eq!(buf.len(), 28 + 28);
    let q = read_packet_connection_open_reply_2(&buf).unwrap();
    assert_eq!(q, p);
}

#[test]
fn test_incompatible_roundtrip() {
    let p = IncompatibleProtocolVersion { server_protocol: 9, magic: true, server_guid: 5 };
    let buf = write_packet_incompatible_protocol_version(&p).unwrap();
    assert_eq!(buf[0], 0x19);
    assert_eq!(buf.len(), 26);
    let q = read_packet_incompatible_protocol_version(&buf).unwrap();
    assert_eq!(q, p);
}

#[test]
fn test_decode_does_not_revalidate_tag() {
    // The caller picks the decoder by peeking the tag; the decoder itself
    // reads fields only, so a foreign tag still decodes positionally.
    let p = OpenConnectionReply1 { magic: true, guid: 3, use_encryption: 0, mtu_size: 500 };
    let mut buf = write_packet_connection_open_reply_1(&p).unwrap();
    buf[0] = 0xee;
    let q = read_packet_connection_open_reply_1(&buf).unwrap();
    assert_eq!(q, p);
}

#[test]
fn test_tampered_magic_decodes_as_false_not_error() {
    let p = PacketUnconnectedPing { time: 5, magic: true, guid: 6 };
    let mut buf = write_packet_ping(&p).unwrap();
    buf[9] ^= 0x01;
    let q = read_packet_ping(&buf).unwrap();
    assert_eq!(q.magic, false);
    assert_eq!(q.time, 5);
    assert_eq!(q.guid, 6);
}
