use zellij_relay::conversion::{
    decode_control_frame, decode_terminal_frame, ControlMessage, TerminalMessage,
};
use zellij_relay::control_frame::Payload;
use zellij_relay::protocol::{
    ControlFrame, ProtocolError, RevokeToken, TerminalFrame, PROTOCOL_VERSION,
};

#[test]
fn control_auth_roundtrip() {
    let original = ControlMessage::Auth {
        token: "t".into(),
        session_name: "s".into(),
        protocol_version: PROTOCOL_VERSION,
        zellij_version: "z".into(),
        requested_slug: "prev-slug".into(),
    };
    let bytes = original.encode();
    let decoded = decode_control_frame(&bytes).expect("decode ok");
    match decoded {
        ControlMessage::Auth {
            token,
            session_name,
            protocol_version,
            zellij_version,
            requested_slug,
        } => {
            assert_eq!(token, "t");
            assert_eq!(session_name, "s");
            assert_eq!(protocol_version, PROTOCOL_VERSION);
            assert_eq!(zellij_version, "z");
            assert_eq!(requested_slug, "prev-slug");
        },
        other => panic!("expected Auth, got {:?}", other),
    }
}

#[test]
fn control_established_roundtrip() {
    let original = ControlMessage::Established {
        public_url: "http://localhost:8765/r/abc".into(),
        slug: "abc".into(),
        tunnel_id: "deadbeef-0000".into(),
    };
    let bytes = original.encode();
    let decoded = decode_control_frame(&bytes).expect("decode ok");
    match decoded {
        ControlMessage::Established {
            public_url,
            slug,
            tunnel_id,
        } => {
            assert_eq!(public_url, "http://localhost:8765/r/abc");
            assert_eq!(slug, "abc");
            assert_eq!(tunnel_id, "deadbeef-0000");
        },
        other => panic!("expected Established, got {:?}", other),
    }
}

#[test]
fn control_error_roundtrip() {
    let original = ControlMessage::Error {
        message: "something went wrong".into(),
    };
    let bytes = original.encode();
    let decoded = decode_control_frame(&bytes).expect("decode ok");
    match decoded {
        ControlMessage::Error { message } => {
            assert_eq!(message, "something went wrong");
        },
        other => panic!("expected Error, got {:?}", other),
    }
}

#[test]
fn terminal_ready_roundtrip() {
    let original = TerminalMessage::Ready {
        tunnel_id: "t-id-123".into(),
    };
    let bytes = original.encode();
    let decoded = decode_terminal_frame(&bytes).expect("decode ok");
    match decoded {
        TerminalMessage::Ready { tunnel_id } => {
            assert_eq!(tunnel_id, "t-id-123");
        },
        other => panic!("expected Ready, got {:?}", other),
    }
}

#[test]
fn terminal_error_roundtrip() {
    let original = TerminalMessage::Error {
        message: "bad tunnel".into(),
    };
    let bytes = original.encode();
    let decoded = decode_terminal_frame(&bytes).expect("decode ok");
    match decoded {
        TerminalMessage::Error { message } => {
            assert_eq!(message, "bad tunnel");
        },
        other => panic!("expected Error, got {:?}", other),
    }
}

#[test]
fn control_frame_without_payload_errors() {
    let frame = ControlFrame { payload: None };
    let bytes = frame.encode_to_vec();
    let err = decode_control_frame(&bytes).expect_err("should fail");
    let msg = err.message();
    assert!(
        msg.contains("no payload"),
        "expected error mentioning 'no payload', got: {msg}"
    );
}

#[test]
fn terminal_frame_without_payload_errors() {
    let frame = TerminalFrame { payload: None };
    let bytes = frame.encode_to_vec();
    let err = decode_terminal_frame(&bytes).expect_err("should fail");
    let msg = err.message();
    assert!(
        msg.contains("no payload"),
        "expected error mentioning 'no payload', got: {msg}"
    );
}

#[test]
fn control_frame_tolerates_unknown_trailing_bytes() {
    let original = ControlMessage::Auth {
        token: "tok".into(),
        session_name: "sess".into(),
        protocol_version: PROTOCOL_VERSION,
        zellij_version: "0.45.0".into(),
        requested_slug: String::new(),
    };
    let mut bytes = original.encode();
    bytes.extend_from_slice(&[0x78, 0x2a]);
    let decoded = decode_control_frame(&bytes).expect("decode should tolerate unknown bytes");
    match decoded {
        ControlMessage::Auth {
            token,
            session_name,
            protocol_version,
            zellij_version,
            requested_slug: _,
        } => {
            assert_eq!(token, "tok");
            assert_eq!(session_name, "sess");
            assert_eq!(protocol_version, PROTOCOL_VERSION);
            assert_eq!(zellij_version, "0.45.0");
        },
        other => panic!("expected Auth, got {:?}", other),
    }
}

#[test]
fn protocol_version_is_one() {
    assert_eq!(PROTOCOL_VERSION, 1);
}

#[test]
fn auth_challenge_roundtrip() {
    let original = ControlMessage::AuthChallenge {
        request_id: vec![1, 2, 3, 4],
        token_hash: "abc".into(),
    };
    let decoded = decode_control_frame(&original.encode()).unwrap();
    match decoded {
        ControlMessage::AuthChallenge {
            request_id,
            token_hash,
        } => {
            assert_eq!(request_id, vec![1, 2, 3, 4]);
            assert_eq!(token_hash, "abc");
        },
        other => panic!("expected AuthChallenge, got {:?}", other),
    }
}

#[test]
fn auth_response_roundtrip() {
    let original = ControlMessage::AuthResponse {
        request_id: vec![9, 9],
        client_id: 42,
        accepted: true,
        is_read_only: true,
        session_token_hash: "hash".into(),
        e2e_encrypted: true,
    };
    let decoded = decode_control_frame(&original.encode()).unwrap();
    match decoded {
        ControlMessage::AuthResponse {
            request_id,
            client_id,
            accepted,
            is_read_only,
            session_token_hash,
            e2e_encrypted,
        } => {
            assert_eq!(request_id, vec![9, 9]);
            assert_eq!(client_id, 42);
            assert!(accepted);
            assert!(is_read_only);
            assert_eq!(session_token_hash, "hash");
            assert!(e2e_encrypted);
        },
        other => panic!("expected AuthResponse, got {:?}", other),
    }
}

#[test]
fn auth_response_e2e_flag_roundtrip_false() {
    let original = ControlMessage::AuthResponse {
        request_id: vec![1],
        client_id: 1,
        accepted: true,
        is_read_only: false,
        session_token_hash: "h".into(),
        e2e_encrypted: false,
    };
    match decode_control_frame(&original.encode()).unwrap() {
        ControlMessage::AuthResponse { e2e_encrypted, .. } => assert!(!e2e_encrypted),
        other => panic!("expected AuthResponse, got {:?}", other),
    }
}

#[test]
fn client_connected_and_disconnected_roundtrip() {
    let a = ControlMessage::ClientConnected { client_id: 7 };
    match decode_control_frame(&a.encode()).unwrap() {
        ControlMessage::ClientConnected { client_id } => assert_eq!(client_id, 7),
        other => panic!("expected ClientConnected, got {:?}", other),
    }

    let b = ControlMessage::ClientDisconnected { client_id: 7 };
    match decode_control_frame(&b.encode()).unwrap() {
        ControlMessage::ClientDisconnected { client_id } => assert_eq!(client_id, 7),
        other => panic!("expected ClientDisconnected, got {:?}", other),
    }
}

#[test]
fn control_frame_data_roundtrip() {
    let original = ControlMessage::ControlFrameData {
        client_id: 3,
        data: b"hello".to_vec(),
    };
    match decode_control_frame(&original.encode()).unwrap() {
        ControlMessage::ControlFrameData { client_id, data } => {
            assert_eq!(client_id, 3);
            assert_eq!(data, b"hello");
        },
        other => panic!("expected ControlFrameData, got {:?}", other),
    }
}

#[test]
fn read_only_viewer_update_zero_count_roundtrip() {
    let original = ControlMessage::ReadOnlyViewerUpdate {
        token_hash: "deadbeef".into(),
        count: 0,
    };
    match decode_control_frame(&original.encode()).unwrap() {
        ControlMessage::ReadOnlyViewerUpdate { token_hash, count } => {
            assert_eq!(token_hash, "deadbeef");
            assert_eq!(count, 0);
        },
        other => panic!("expected ReadOnlyViewerUpdate, got {:?}", other),
    }
}

#[test]
fn read_only_viewer_update_positive_count_roundtrip() {
    let original = ControlMessage::ReadOnlyViewerUpdate {
        token_hash: "cafebabe".into(),
        count: 17,
    };
    match decode_control_frame(&original.encode()).unwrap() {
        ControlMessage::ReadOnlyViewerUpdate { token_hash, count } => {
            assert_eq!(token_hash, "cafebabe");
            assert_eq!(count, 17);
        },
        other => panic!("expected ReadOnlyViewerUpdate, got {:?}", other),
    }
}

#[test]
fn session_size_roundtrip() {
    let original = ControlMessage::SessionSize {
        client_id: 7,
        rows: 40,
        cols: 120,
    };
    match decode_control_frame(&original.encode()).unwrap() {
        ControlMessage::SessionSize {
            client_id,
            rows,
            cols,
        } => {
            assert_eq!(client_id, 7);
            assert_eq!(rows, 40);
            assert_eq!(cols, 120);
        },
        other => panic!("expected SessionSize, got {:?}", other),
    }
}

#[test]
fn session_size_zero_dimensions_roundtrip() {
    let original = ControlMessage::SessionSize {
        client_id: 0,
        rows: 0,
        cols: 0,
    };
    match decode_control_frame(&original.encode()).unwrap() {
        ControlMessage::SessionSize {
            client_id,
            rows,
            cols,
        } => {
            assert_eq!(client_id, 0);
            assert_eq!(rows, 0);
            assert_eq!(cols, 0);
        },
        other => panic!("expected SessionSize, got {:?}", other),
    }
}

#[test]
fn terminal_frame_data_roundtrip() {
    let original = TerminalMessage::TerminalFrameData {
        client_id: 11,
        data: vec![0xde, 0xad, 0xbe, 0xef],
    };
    match decode_terminal_frame(&original.encode()).unwrap() {
        TerminalMessage::TerminalFrameData { client_id, data } => {
            assert_eq!(client_id, 11);
            assert_eq!(data, vec![0xde, 0xad, 0xbe, 0xef]);
        },
        other => panic!("expected TerminalFrameData, got {:?}", other),
    }
}

fn error_message(text: &str) -> ControlMessage {
    ControlMessage::Error {
        message: text.to_string(),
    }
}

#[test]
fn written_bytes_are_the_wire_format() {
    let connected = ControlMessage::ClientConnected { client_id: 7 };
    assert_eq!(connected.encode(), vec![0x32, 0x02, 0x08, 0x07]);
    let large = ControlMessage::ClientConnected { client_id: 300 };
    assert_eq!(large.encode(), vec![0x32, 0x03, 0x08, 0xac, 0x02]);
    let default = ControlMessage::ClientConnected { client_id: 0 };
    assert_eq!(default.encode(), vec![0x32, 0x00]);
    assert_eq!(
        error_message("ab").encode(),
        vec![0x1a, 0x04, 0x0a, 0x02, b'a', b'b']
    );
    let data = TerminalMessage::TerminalFrameData {
        client_id: 11,
        data: vec![0xff],
    };
    assert_eq!(
        data.encode(),
        vec![0x1a, 0x05, 0x08, 0x0b, 0x12, 0x01, 0xff]
    );
}

#[test]
fn written_bytes_agree_with_the_encoding_primitives() {
    let message = ControlMessage::AuthResponse {
        request_id: vec![1, 2, 3],
        client_id: 70_000,
        accepted: true,
        is_read_only: false,
        session_token_hash: "håsh".to_string(),
        e2e_encrypted: true,
    };
    let mut body = Vec::new();
    prost::encoding::bytes::encode(1, &vec![1u8, 2, 3], &mut body);
    prost::encoding::uint32::encode(2, &70_000, &mut body);
    prost::encoding::bool::encode(3, &true, &mut body);
    prost::encoding::string::encode(5, &"håsh".to_string(), &mut body);
    prost::encoding::bool::encode(6, &true, &mut body);
    let mut frame = Vec::new();
    prost::encoding::bytes::encode(5, &body, &mut frame);
    assert_eq!(message.encode(), frame);
}

#[test]
fn numbers_of_all_lengths_come_back() {
    for n in [0u32, 1, 127, 128, 16_383, 16_384, 2_097_151, 2_097_152, 268_435_456, u32::MAX] {
        let message = ControlMessage::ClientDisconnected { client_id: n };
        match decode_control_frame(&message.encode()) {
            Ok(ControlMessage::ClientDisconnected { client_id }) => assert_eq!(client_id, n),
            other => panic!("{:?}", other),
        }
    }
}

#[test]
fn malformed_frames_are_refused() {
    let cases: Vec<Vec<u8>> = vec![
        vec![0xff],
        vec![0x32, 0x05, 0x08],
        vec![0x30, 0x01],
        vec![0x32, 0x02, 0x0a, 0x00],
        vec![0x1a, 0x03, 0x0a, 0x01, 0xff],
        vec![0x07],
        vec![0x00],
        vec![0x74],
    ];
    for bytes in cases {
        let err = decode_control_frame(&bytes).expect_err("should fail");
        assert_eq!(err, ProtocolError::Malformed, "{:?}", bytes);
        assert_eq!(err.message(), "failed to decode frame");
    }
}

#[test]
fn later_payload_wins_and_like_ones_merge() {
    let mut bytes = error_message("first").encode();
    bytes.extend(ControlMessage::ClientConnected { client_id: 5 }.encode());
    match decode_control_frame(&bytes) {
        Ok(ControlMessage::ClientConnected { client_id }) => assert_eq!(client_id, 5),
        other => panic!("{:?}", other),
    }

    let mut halves = ControlMessage::SessionSize {
        client_id: 3,
        rows: 40,
        cols: 0,
    }
    .encode();
    halves.extend(
        ControlMessage::SessionSize {
            client_id: 0,
            rows: 0,
            cols: 120,
        }
        .encode(),
    );
    match decode_control_frame(&halves) {
        Ok(ControlMessage::SessionSize {
            client_id,
            rows,
            cols,
        }) => {
            assert_eq!((client_id, rows, cols), (3, 40, 120));
        },
        other => panic!("{:?}", other),
    }
}

#[test]
fn unknown_fields_of_every_kind_are_passed_over() {
    let tails: Vec<Vec<u8>> = vec![
        vec![0x78, 0x2a],
        vec![0x79, 1, 2, 3, 4, 5, 6, 7, 8],
        vec![0x7a, 0x02, 9, 9],
        vec![0x7d, 1, 2, 3, 4],
        vec![0x7b, 0x08, 0x01, 0x7c],
    ];
    for tail in tails {
        let mut bytes = TerminalMessage::Ready {
            tunnel_id: "t".to_string(),
        }
        .encode();
        bytes.extend(tail);
        match decode_terminal_frame(&bytes) {
            Ok(TerminalMessage::Ready { tunnel_id }) => assert_eq!(tunnel_id, "t"),
            other => panic!("{:?}", other),
        }
    }
}

#[test]
fn frames_and_messages_turn_into_each_other() {
    let message = ControlMessage::RevokeToken {
        token_hash: "feed".to_string(),
    };
    let frame: ControlFrame = message.into();
    assert_eq!(
        frame.payload,
        Some(Payload::RevokeToken(RevokeToken {
            token_hash: "feed".to_string()
        }))
    );
    let bytes = frame.encode_to_vec();
    assert_eq!(ControlFrame::decode(&bytes), Ok(frame));
    match decode_control_frame(&bytes) {
        Ok(ControlMessage::RevokeToken { token_hash }) => assert_eq!(token_hash, "feed"),
        other => panic!("{:?}", other),
    }
}

#[test]
fn empty_terminal_frame_says_so() {
    assert_eq!(
        decode_terminal_frame(&[]).expect_err("should fail"),
        ProtocolError::TerminalFrameWithoutPayload
    );
    assert_eq!(
        decode_control_frame(&[]).expect_err("should fail"),
        ProtocolError::ControlFrameWithoutPayload
    );
}
