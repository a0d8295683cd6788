use wormhole::discovery::{
    broadcast_addresses, handle_discovery_datagram, DiscoveryMessage, IfaceV4, DISCOVERY_PORT,
    LIMITED_BROADCAST, LOCALHOST_V4,
};
use wormhole::node::NetAddr;

#[test]
fn test_announce_roundtrip() {
    let msg = DiscoveryMessage {
        name: "test-node".to_string(),
        port: 7890,
    };
    let bytes = msg.to_bytes();
    let decoded = DiscoveryMessage::from_bytes(&bytes).unwrap();
    assert_eq!(decoded.name, "test-node");
    assert_eq!(decoded.port, 7890);
}

#[test]
fn test_invalid_magic() {
    let data = b"XXXX\x01\x00\x10\x04test";
    assert!(DiscoveryMessage::from_bytes(data).is_none());
}

#[test]
fn announce_truncation_rejected() {
    let msg = DiscoveryMessage {
        name: "node".to_string(),
        port: 7890,
    };
    let bytes = msg.to_bytes();
    for cut in 0..bytes.len() {
        assert!(DiscoveryMessage::from_bytes(&bytes[..cut]).is_none());
    }
}

#[test]
fn own_announce_is_ignored() {
    let msg = DiscoveryMessage {
        name: "me".to_string(),
        port: 7000,
    };
    let bytes = msg.to_bytes();
    assert!(handle_discovery_datagram("me", &bytes, 0, 0x0A000001).is_none());
}

#[test]
fn foreign_announce_yields_peer_and_reply() {
    let msg = DiscoveryMessage {
        name: "other".to_string(),
        port: 7000,
    };
    let bytes = msg.to_bytes();
    let (peer, reply) = handle_discovery_datagram("me", &bytes, 0, 0x0A000001).unwrap();
    assert_eq!(peer.name, "other");
    assert_eq!(
        peer.addr,
        NetAddr {
            ip_hi: 0,
            ip_lo: 0x0A000001,
            port: 7000
        }
    );
    assert_eq!(
        reply,
        NetAddr {
            ip_hi: 0,
            ip_lo: 0x0A000001,
            port: DISCOVERY_PORT
        }
    );
}

#[test]
fn garbage_datagram_yields_nothing() {
    assert!(handle_discovery_datagram("me", b"not a discovery packet", 0, 1).is_none());
}

#[test]
fn broadcast_addresses_prefers_reported() {
    let ifaces = vec![
        IfaceV4 {
            loopback: true,
            ip: 0x7F000001,
            broadcast: None,
        },
        IfaceV4 {
            loopback: false,
            ip: 0x0A000002,
            broadcast: Some(0x0A0000FF),
        },
        IfaceV4 {
            loopback: false,
            ip: 0xC0A80105,
            broadcast: None,
        },
    ];
    let addrs = broadcast_addresses(&ifaces, 0);
    // reported broadcast, /24 fallback, loopback last
    assert_eq!(addrs, vec![0x0A0000FF, 0xC0A801FF, LOCALHOST_V4]);
}

#[test]
fn broadcast_addresses_bind_filter_and_fallback() {
    let ifaces = vec![
        IfaceV4 {
            loopback: false,
            ip: 0x0A000002,
            broadcast: Some(0x0A0000FF),
        },
        IfaceV4 {
            loopback: false,
            ip: 0xC0A80105,
            broadcast: Some(0xC0A801FF),
        },
    ];
    // bind to the second interface: only its broadcast is used
    let addrs = broadcast_addresses(&ifaces, 0xC0A80105);
    assert_eq!(addrs, vec![0xC0A801FF, LOCALHOST_V4]);
    // no interface matches: fall back to the limited broadcast
    let none = broadcast_addresses(&ifaces, 0x01020304);
    assert_eq!(none, vec![LIMITED_BROADCAST, LOCALHOST_V4]);
}

#[test]
fn broadcast_addresses_deduplicates() {
    let ifaces = vec![
        IfaceV4 {
            loopback: false,
            ip: 0x0A000002,
            broadcast: Some(0x0A0000FF),
        },
        IfaceV4 {
            loopback: false,
            ip: 0x0A000003,
            broadcast: Some(0x0A0000FF),
        },
    ];
    let addrs = broadcast_addresses(&ifaces, 0);
    assert_eq!(addrs, vec![0x0A0000FF, LOCALHOST_V4]);
}
