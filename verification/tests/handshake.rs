use raknet::datatype::RaknetAddr;
use raknet::error::RaknetError;
use raknet::packet::OpenConnectionReply1;
use raknet::packet::OpenConnectionReply2;
use raknet::packet::PacketUnconnectedPing;
use raknet::packet::PacketUnconnectedPong;
use raknet::packet::read_packet_connection_open_request_1;
use raknet::packet::read_packet_connection_open_request_2;
use raknet::packet::read_packet_ping;
use raknet::packet::write_packet_connection_open_reply_1;
use raknet::packet::write_packet_connection_open_reply_2;
use raknet::packet::write_packet_incompatible_protocol_version;
use raknet::packet::write_packet_ping;
use raknet::packet::write_packet_pong;
use raknet::packet::IncompatibleProtocolVersion;
use raknet::socket::connect_handle_reply1;
use raknet::socket::connect_handle_reply2;
use raknet::socket::connect_request1;
use raknet::socket::connect_request2;
use raknet::socket::ping_handle_pong;
use raknet::socket::ping_request;
use raknet::socket::RaknetSocket;
use raknet::socket::DEFAULT_MTU_SIZE;
use raknet::socket::RAKNET_PROTOCOL_VERSION;

#[test]
fn test_connect_happy_path() {
    let server_addr = RaknetAddr::V4 { o0: 10, o1: 0, o2: 0, o3: 9, port: 19132 };
    let client_observed = RaknetAddr::V4 { o0: 10, o1: 0, o2: 0, o3: 7, port: 50000 };
    let server_guid = 0xfeed_f00d_dead_beef_u64;
    let client_guid = 0x0123_4567_89ab_cdef_u64;

    // Step 1: the client's first request reaches the peer, which reads the
    // advertised version and the MTU carried by the padded length.
    let req1 = connect_request1();
    let seen1 = read_packet_connection_open_request_1(&req1).unwrap();
    assert!(seen1.magic);
    assert_eq!(seen1.protocol_version, RAKNET_PROTOCOL_VERSION);
    assert_eq!(seen1.mtu_size, DEFAULT_MTU_SIZE);

    // Step 2: the peer grants a smaller MTU in its first reply.
    let reply1_bytes = write_packet_connection_open_reply_1(&OpenConnectionReply1 {
        magic: true,
        guid: server_guid,
        use_encryption: 0,
        mtu_size: 1492,
    })
    .unwrap();
    let reply1 = connect_handle_reply1(&reply1_bytes).unwrap();
    assert_eq!(reply1.guid, server_guid);
    assert_eq!(reply1.mtu_size, 1492);

    // Step 3: the client echoes the granted MTU and its own GUID, and the
    // peer sees both along with the address field.
    let req2 = connect_request2(&server_addr, reply1.mtu_size, client_guid);
    let seen2 = read_packet_connection_open_request_2(&req2).unwrap();
    assert!(seen2.magic);
    assert_eq!(seen2.address, server_addr);
    assert_eq!(seen2.mtu, 1492);
    assert_eq!(seen2.guid, client_guid);

    // Step 4: the peer's second reply completes the exchange and only then
    // is a session handle built.
    let reply2_bytes = write_packet_connection_open_reply_2(&OpenConnectionReply2 {
        magic: true,
        guid: server_guid,
        address: client_observed,
        mtu: 1492,
        encryption_enabled: 0,
    })
    .unwrap();
    let reply2 = connect_handle_reply2(&reply2_bytes).unwrap();
    assert_eq!(reply2.guid, server_guid);
    assert_eq!(reply2.address, client_observed);

    let local = RaknetAddr::V4 { o0: 0, o1: 0, o2: 0, o3: 0, port: 50000 };
    let session = RaknetSocket::from_parts(&server_addr, &local, client_guid);
    assert_eq!(session.peer_addr().unwrap(), server_addr);
    assert_eq!(session.local_addr().unwrap(), local);
}

#[test]
fn test_connect_version_mismatch() {
    // The peer answers the first request with a version refusal carrying
    // its own protocol version; connect surfaces exactly that version and
    // no session handle is produced.
    let refusal = write_packet_incompatible_protocol_version(&IncompatibleProtocolVersion {
        server_protocol: 9,
        magic: true,
        server_guid: 11,
    })
    .unwrap();
    let r = connect_handle_reply1(&refusal);
    assert_eq!(r.unwrap_err(), RaknetError::ProtocolMismatch(9));
    let r = connect_handle_reply2(&refusal);
    assert_eq!(r.unwrap_err(), RaknetError::ProtocolMismatch(9));
}

#[test]
fn test_connect_unexpected_tag() {
    let stray = vec![0xee, 1, 2, 3];
    assert_eq!(
        connect_handle_reply1(&stray).unwrap_err(),
        RaknetError::UnexpectedPacket(0xee)
    );
    assert_eq!(
        connect_handle_reply2(&stray).unwrap_err(),
        RaknetError::UnexpectedPacket(0xee)
    );
}

#[test]
fn test_connect_truncated_reply_is_framing_error() {
    // A well-tagged but truncated first reply fails as a framing error,
    // not as an unexpected packet.
    let reply1_bytes = write_packet_connection_open_reply_1(&OpenConnectionReply1 {
        magic: true,
        guid: 1,
        use_encryption: 0,
        mtu_size: 1400,
    })
    .unwrap();
    let r = connect_handle_reply1(&reply1_bytes[..20]);
    assert_eq!(r.unwrap_err(), RaknetError::NotEnoughData);
    let r = connect_handle_reply1(&[]);
    assert_eq!(r.unwrap_err(), RaknetError::NotEnoughData);
}

#[test]
fn test_ping_pong_latency() {
    // The probe goes out with the injected clock reading; the peer answers
    // with its own clock; the flow reports the difference.
    let ping = write_packet_ping(&PacketUnconnectedPing { time: 1000, magic: true, guid: 77 })
        .unwrap();
    let seen = read_packet_ping(&ping).unwrap();
    assert_eq!(seen.time, 1000);
    assert!(seen.magic);

    let pong = write_packet_pong(&PacketUnconnectedPong {
        time: 1007,
        guid: 5,
        magic: true,
        motd: String::from("MCPE;Demo;486;1.18.11;0;10;1;level;Survival;1;19132;"),
    })
    .unwrap();
    assert_eq!(ping_handle_pong(&pong, 1000).unwrap(), 7);
}

#[test]
fn test_ping_request_is_wellformed() {
    let buf = ping_request(1000);
    let seen = read_packet_ping(&buf).unwrap();
    assert_eq!(seen.time, 1000);
    assert!(seen.magic);
}

#[test]
fn test_ping_garbage_reply_fails() {
    assert_eq!(
        ping_handle_pong(&[0u8; 10], 0).unwrap_err(),
        RaknetError::NotEnoughData
    );
}

#[test]
fn test_session_from_known_peer() {
    let peer = RaknetAddr::V4 { o0: 1, o1: 2, o2: 3, o3: 4, port: 5 };
    let local = RaknetAddr::V4 { o0: 0, o1: 0, o2: 0, o3: 0, port: 6 };
    let s = RaknetSocket::from(&peer, &local);
    assert_eq!(s.peer_addr().unwrap(), peer);
    assert_eq!(s.local_addr().unwrap(), local);
}
