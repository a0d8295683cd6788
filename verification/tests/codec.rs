use wormhole::codec::Message;

#[test]
fn test_message_roundtrip() {
    let msg = Message::Chat {
        from: "Alice".to_string(),
        text: "Hello, world!".to_string(),
    };
    let bytes = msg.to_bytes();
    let decoded = Message::from_bytes(&bytes).unwrap();
    match decoded {
        Message::Chat { from, text } => {
            assert_eq!(from, "Alice");
            assert_eq!(text, "Hello, world!");
        }
        _ => panic!("Wrong message type"),
    }
}

#[test]
fn test_ping_pong_roundtrip() {
    let ping = Message::Ping { seq: 42 };
    let bytes = ping.to_bytes();
    let decoded = Message::from_bytes(&bytes).unwrap();
    match decoded {
        Message::Ping { seq } => assert_eq!(seq, 42),
        _ => panic!("Wrong message type"),
    }
}

#[test]
fn test_video_frame_roundtrip() {
    let frame = Message::VideoFrame {
        from: "Bob".to_string(),
        width: 80,
        height: 44,
        pixels: vec![0, 128, 255, 64, 192],
    };
    let bytes = frame.to_bytes();
    let decoded = Message::from_bytes(&bytes).unwrap();
    match decoded {
        Message::VideoFrame {
            from,
            width,
            height,
            pixels,
        } => {
            assert_eq!(from, "Bob");
            assert_eq!(width, 80);
            assert_eq!(height, 44);
            assert_eq!(pixels, vec![0, 128, 255, 64, 192]);
        }
        _ => panic!("Wrong message type"),
    }
}

#[test]
fn all_variants_roundtrip() {
    let msgs = vec![
        Message::Chat {
            from: "a".to_string(),
            text: "b".to_string(),
        },
        Message::Ping { seq: 0 },
        Message::Pong { seq: u32::MAX },
        Message::Join {
            name: "node-1".to_string(),
        },
        Message::Leave {
            name: "node-1".to_string(),
        },
        Message::CallRequest {
            from: "caller".to_string(),
        },
        Message::CallHangup {
            from: "caller".to_string(),
        },
        Message::CallReject {
            from: "busy".to_string(),
        },
        Message::StreamFrame {
            from: "s".to_string(),
            lines: vec!["one".to_string(), "".to_string(), "three".to_string()],
        },
        Message::VideoFrame {
            from: "v".to_string(),
            width: 2,
            height: 2,
            pixels: vec![1, 2, 3, 4],
        },
        Message::VideoFrameFragment {
            from: "f".to_string(),
            width: 10,
            height: 20,
            frame_id: 7,
            fragment_idx: 3,
            total_fragments: 9,
            data: vec![9, 8, 7],
        },
        Message::DiscoveryAnnounce {
            name: "ann".to_string(),
            port: 7890,
        },
    ];
    for msg in msgs {
        let bytes = msg.to_bytes();
        let decoded = Message::from_bytes(&bytes).expect("decode failed");
        let bytes2 = decoded.to_bytes();
        assert_eq!(bytes, bytes2, "re-encoding differs");
    }
}

#[test]
fn truncations_never_decode() {
    let msgs = vec![
        Message::Chat {
            from: "Alice".to_string(),
            text: "Hello, world!".to_string(),
        },
        Message::Ping { seq: 42 },
        Message::Join {
            name: "node".to_string(),
        },
        Message::StreamFrame {
            from: "s".to_string(),
            lines: vec!["line one".to_string(), "line two".to_string()],
        },
        Message::VideoFrame {
            from: "v".to_string(),
            width: 4,
            height: 1,
            pixels: vec![10, 20, 30, 40],
        },
        Message::VideoFrameFragment {
            from: "f".to_string(),
            width: 1,
            height: 1,
            frame_id: 1,
            fragment_idx: 0,
            total_fragments: 1,
            data: vec![1, 2, 3, 4, 5],
        },
        Message::DiscoveryAnnounce {
            name: "ann".to_string(),
            port: 7890,
        },
    ];
    for msg in msgs {
        let bytes = msg.to_bytes();
        for cut in 0..bytes.len() {
            assert!(
                Message::from_bytes(&bytes[..cut]).is_none(),
                "truncation to {} bytes decoded",
                cut
            );
        }
    }
}

#[test]
fn unknown_tag_and_empty_input() {
    assert!(Message::from_bytes(&[]).is_none());
    assert!(Message::from_bytes(&[0x00]).is_none());
    assert!(Message::from_bytes(&[0x0D]).is_none());
    assert!(Message::from_bytes(&[0xFF, 1, 2, 3]).is_none());
}

#[test]
fn short_inputs_by_tag() {
    // one byte fewer than each tag's minimum
    assert!(Message::from_bytes(&[0x01, 0, 0]).is_none());
    assert!(Message::from_bytes(&[0x02, 0, 0, 0]).is_none());
    assert!(Message::from_bytes(&[0x03, 0, 0, 0]).is_none());
    assert!(Message::from_bytes(&[0x04]).is_none());
    assert!(Message::from_bytes(&[0x06, 0]).is_none());
    assert!(Message::from_bytes(&[0x0B, 0, 0]).is_none());
}

#[test]
fn corrupt_video_payload_decodes_none() {
    // a frame whose compressed section is replaced by garbage is dropped
    let frame = Message::VideoFrame {
        from: "v".to_string(),
        width: 2,
        height: 2,
        pixels: vec![1, 2, 3, 4],
    };
    let mut bytes = frame.to_bytes();
    // the compressed block begins after the 15-byte header and its own
    // 4-byte size prefix; an impossible token stream there fails decoding
    let n = bytes.len();
    for b in bytes[19..n].iter_mut() {
        *b = 0xFF;
    }
    assert!(Message::from_bytes(&bytes).is_none());
}

#[test]
fn chat_trailing_bytes_ignored() {
    let msg = Message::Chat {
        from: "A".to_string(),
        text: "hi".to_string(),
    };
    let mut bytes = msg.to_bytes();
    bytes.push(0xEE);
    bytes.push(0xEE);
    match Message::from_bytes(&bytes) {
        Some(Message::Chat { from, text }) => {
            assert_eq!(from, "A");
            assert_eq!(text, "hi");
        }
        _ => panic!("expected chat"),
    }
}
