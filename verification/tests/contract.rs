use zellij_relay::instruction_for_web_server::Instruction;
use zellij_relay::protobuf_conversion::{
    decode_instruction, decode_response, encode_instruction, encode_response,
};
use zellij_relay::web_server_commands::{InstructionForWebServer, VersionInfo, WebServerResponse};
use zellij_relay::web_server_contract::{
    ContractError, InstructionForWebServer as ProtoInstructionForWebServer,
    WebServerResponse as ProtoWebServerResponse,
};

fn roundtrip_instruction(original: InstructionForWebServer) -> InstructionForWebServer {
    let proto: ProtoInstructionForWebServer = original.into();
    proto.try_into().expect("roundtrip ok")
}

fn roundtrip_response(original: WebServerResponse) -> WebServerResponse {
    let proto: ProtoWebServerResponse = original.into();
    proto.try_into().expect("roundtrip ok")
}

#[test]
fn start_relay_tunnel_roundtrip() {
    let original = InstructionForWebServer::StartRelayTunnel {
        client_id: 7,
        session_name: "foo".into(),
        relay_url: "ws://x".into(),
        zellij_version: "0.45.0".into(),
        relay_tunnel_auth_token: "secret-token".into(),
    };
    let decoded = roundtrip_instruction(original.clone());
    match (original, decoded) {
        (
            InstructionForWebServer::StartRelayTunnel {
                client_id: a1,
                session_name: a2,
                relay_url: a3,
                zellij_version: a4,
                relay_tunnel_auth_token: a5,
            },
            InstructionForWebServer::StartRelayTunnel {
                client_id: b1,
                session_name: b2,
                relay_url: b3,
                zellij_version: b4,
                relay_tunnel_auth_token: b5,
            },
        ) => {
            assert_eq!(a1, b1);
            assert_eq!(a2, b2);
            assert_eq!(a3, b3);
            assert_eq!(a4, b4);
            assert_eq!(a5, b5);
        },
        (_, other) => panic!("expected StartRelayTunnel, got {:?}", other),
    }

    let proto: ProtoInstructionForWebServer = InstructionForWebServer::StartRelayTunnel {
        client_id: 1,
        session_name: "n".into(),
        relay_url: "r".into(),
        zellij_version: "v".into(),
        relay_tunnel_auth_token: String::new(),
    }
    .into();
    assert!(matches!(
        proto.instruction,
        Some(Instruction::StartRelayTunnel(_))
    ));
}

#[test]
fn stop_relay_tunnel_roundtrip() {
    let original = InstructionForWebServer::StopRelayTunnel { client_id: 42 };
    let decoded = roundtrip_instruction(original.clone());
    match decoded {
        InstructionForWebServer::StopRelayTunnel { client_id } => {
            assert_eq!(client_id, 42);
        },
        other => panic!("expected StopRelayTunnel, got {:?}", other),
    }
}

#[test]
fn relay_tunnel_established_response_roundtrip() {
    let original = WebServerResponse::RelayTunnelEstablished {
        client_id: 3,
        public_url: "http://x/r/abc".into(),
        slug: "abc".into(),
        tunnel_id: "t-1".into(),
    };
    match roundtrip_response(original) {
        WebServerResponse::RelayTunnelEstablished {
            client_id,
            public_url,
            slug,
            tunnel_id,
        } => {
            assert_eq!(client_id, 3);
            assert_eq!(public_url, "http://x/r/abc");
            assert_eq!(slug, "abc");
            assert_eq!(tunnel_id, "t-1");
        },
        other => panic!("wrong variant: {:?}", other),
    }
}

#[test]
fn relay_tunnel_stopped_response_roundtrip() {
    let original = WebServerResponse::RelayTunnelStopped { client_id: 9 };
    match roundtrip_response(original) {
        WebServerResponse::RelayTunnelStopped { client_id } => assert_eq!(client_id, 9),
        other => panic!("wrong variant: {:?}", other),
    }
}

#[test]
fn relay_tunnel_error_response_roundtrip() {
    let original = WebServerResponse::RelayTunnelError {
        client_id: 11,
        message: "nope".into(),
    };
    match roundtrip_response(original) {
        WebServerResponse::RelayTunnelError { client_id, message } => {
            assert_eq!(client_id, 11);
            assert_eq!(message, "nope");
        },
        other => panic!("wrong variant: {:?}", other),
    }
}

#[test]
fn instructions_come_back_from_bytes() {
    let instructions = vec![
        InstructionForWebServer::ShutdownWebServer,
        InstructionForWebServer::QueryVersion,
        InstructionForWebServer::StartRelayTunnel {
            client_id: 65_535,
            session_name: "s".to_string(),
            relay_url: "wss://relay".to_string(),
            zellij_version: "0.45.0".to_string(),
            relay_tunnel_auth_token: String::new(),
        },
        InstructionForWebServer::StopRelayTunnel { client_id: 0 },
        InstructionForWebServer::GetRelayTunnelStatus { client_id: 3 },
        InstructionForWebServer::RevokeRelayToken {
            token_hash: "feed".to_string(),
        },
    ];
    for instruction in instructions {
        let shown = format!("{:?}", instruction);
        let bytes = encode_instruction(instruction);
        let decoded = decode_instruction(&bytes).expect("decode ok");
        assert_eq!(format!("{:?}", decoded), shown);
    }
}

#[test]
fn responses_come_back_from_bytes() {
    let responses = vec![
        WebServerResponse::Version(VersionInfo {
            version: "0.45.0".to_string(),
            ip: "127.0.0.1".to_string(),
            port: 8082,
        }),
        WebServerResponse::RelayTunnelStopped { client_id: 4 },
        WebServerResponse::RelayTunnelStatusReport {
            client_id: 4,
            status_url: None,
        },
        WebServerResponse::RelayTunnelStatusReport {
            client_id: 4,
            status_url: Some(String::new()),
        },
    ];
    for response in responses {
        let shown = format!("{:?}", response);
        let bytes = encode_response(response);
        let decoded = decode_response(&bytes).expect("decode ok");
        assert_eq!(format!("{:?}", decoded), shown);
    }
}

#[test]
fn instruction_bytes_are_the_wire_format() {
    assert_eq!(
        encode_instruction(InstructionForWebServer::ShutdownWebServer),
        vec![0x0a, 0x00]
    );
    assert_eq!(
        encode_instruction(InstructionForWebServer::StopRelayTunnel { client_id: 42 }),
        vec![0x22, 0x02, 0x08, 0x2a]
    );
}

#[test]
fn empty_and_malformed_envelopes_are_told_apart() {
    assert!(matches!(
        decode_instruction(&[]),
        Err(ContractError::MissingInstruction)
    ));
    assert!(matches!(
        decode_response(&[]),
        Err(ContractError::MissingResponse)
    ));
    assert!(matches!(
        decode_instruction(&[0xff]),
        Err(ContractError::Malformed)
    ));
    assert_eq!(
        ContractError::MissingInstruction.message(),
        "Missing instruction in InstructionForWebServer"
    );
    assert_eq!(
        ContractError::MissingResponse.message(),
        "Missing response in WebServerResponse"
    );
    assert_eq!(
        ContractError::Malformed.message(),
        "failed to decode message"
    );
}
