use zellij_relay::conversion::{ControlMessage, TerminalMessage};
use zellij_relay::crypto::{decrypt, derive_key, encrypt, hash_token, NONCE_LEN};
use zellij_relay::multiplexer::{
    dispatch_control_message, exit_reason, inbound_terminal, outbound_control, outbound_terminal,
    outbound_terminal_with, relay_virtual_web_client_id, set_config_frame, ClientChannels,
    ControlInput, Heartbeat, HostControlAction, MultiplexerEvent, MultiplexerExitReason, OutboundControl, RelayTunnelState,
    RelayVirtualClient, TokenValidation,
};
use zellij_relay::relay_tunnel::{
    auth_message, control_reply, control_tunnel_url, ready_message, start_relay_tunnel,
    terminal_tunnel_url, ControlTunnelSession, RelayContext,
};
use zellij_relay::relay_types::{RelayTunnelRegistry, RelayTunnelStatus};
use zellij_relay::socket::{read_control, ControlRead, SocketFrame};
use zellij_relay::tunnel_control::session_size_json;

const CHANNELS: ClientChannels = ClientChannels {
    terminal_input_tx: 1,
    control_input_tx: 2,
    shutdown: 3,
};

fn make_state() -> RelayTunnelState {
    RelayTunnelState::new("tid-test".to_string(), "sess".to_string())
}

fn valid(is_read_only: bool) -> TokenValidation {
    TokenValidation::Valid { is_read_only }
}

#[test]
fn session_size_changed_json_shape_matches_browser_contract() {
    let wire = session_size_json(40, 120);
    let parsed: serde_json::Value = serde_json::from_str(&wire).expect("parse as generic json");
    assert_eq!(parsed["type"], "SessionSizeChanged");
    assert_eq!(parsed["rows"], 40);
    assert_eq!(parsed["cols"], 120);

    let roundtrip: serde_json::Value =
        serde_json::from_str(&serde_json::to_string(&parsed).expect("serialize"))
            .expect("roundtrip");
    match roundtrip["type"].as_str() {
        Some("SessionSizeChanged") => {
            assert_eq!(roundtrip["rows"], 40);
            assert_eq!(roundtrip["cols"], 120);
        },
        other => panic!("expected SessionSizeChanged, got {:?}", other),
    }
}

#[test]
fn read_only_viewer_update_zero_tears_down_virtual_client() {
    let mut state = make_state();
    let client_id = 7u32;
    let token_hash = "deadbeef".to_string();
    let web_client_id = relay_virtual_web_client_id(client_id);

    state
        .token_hash_to_client_id
        .insert(token_hash.clone(), client_id);
    state.clients.insert(
        client_id,
        RelayVirtualClient {
            web_client_id: web_client_id.clone(),
            is_read_only: true,
            terminal_input_tx: 1,
            control_input_tx: 2,
            shutdown: None,
        },
    );

    let removed = state.handle_read_only_viewer_update(token_hash.clone(), 0);

    assert_eq!(removed.map(|c| c.web_client_id), Some(web_client_id));
    assert!(state.clients.is_empty());
    assert!(!state.token_hash_to_client_id.contains_key(&token_hash));
}

#[test]
fn read_only_viewer_update_positive_count_leaves_state_intact() {
    let mut state = make_state();
    let client_id = 11u32;
    let token_hash = "cafebabe".to_string();
    state
        .token_hash_to_client_id
        .insert(token_hash.clone(), client_id);

    let removed = state.handle_read_only_viewer_update(token_hash.clone(), 3);

    assert!(removed.is_none());
    assert_eq!(
        state.token_hash_to_client_id.get(&token_hash).copied(),
        Some(client_id)
    );
}

#[test]
fn challenges_are_answered_by_the_books() {
    let mut state = make_state();
    let (response, spawn) =
        state.handle_auth_challenge(vec![9], "hash-a".to_string(), valid(false));
    match response {
        ControlMessage::AuthResponse {
            request_id,
            client_id,
            accepted,
            is_read_only,
            session_token_hash,
            e2e_encrypted,
        } => {
            assert_eq!(request_id, vec![9]);
            assert_eq!(client_id, 1);
            assert!(accepted);
            assert!(!is_read_only);
            assert_eq!(session_token_hash, "hash-a");
            assert!(e2e_encrypted);
        },
        other => panic!("{:?}", other),
    }
    assert_eq!(spawn, None);
    assert_eq!(
        state.pending_e2e_keys[&1],
        derive_key("hash-a", "tid-test")
    );

    let (_, spawn) = state.handle_auth_challenge(vec![9], "hash-b".to_string(), valid(true));
    assert_eq!(spawn, Some(2));
    assert_eq!(state.token_hash_to_client_id.get("hash-b"), Some(&2));

    for outcome in [TokenValidation::Unknown, TokenValidation::Failed] {
        let (response, spawn) =
            state.handle_auth_challenge(vec![1], "bad".to_string(), outcome);
        match response {
            ControlMessage::AuthResponse {
                client_id,
                accepted,
                is_read_only,
                session_token_hash,
                e2e_encrypted,
                ..
            } => {
                assert_eq!(client_id, 0);
                assert!(!accepted);
                assert!(!is_read_only);
                assert_eq!(session_token_hash, "bad");
                assert!(!e2e_encrypted);
            },
            other => panic!("{:?}", other),
        }
        assert_eq!(spawn, None);
    }
    assert_eq!(state.next_client_id, 3);
}

#[test]
fn client_numbers_start_over_after_the_last() {
    let mut state = make_state();
    state.next_client_id = u32::MAX;
    let _ = state.handle_auth_challenge(vec![1], "h".to_string(), valid(false));
    assert_eq!(state.next_client_id, 0);
    assert!(state.pending_read_only.contains_key(&u32::MAX));
}

#[test]
fn an_accepted_viewer_becomes_a_client_once() {
    let mut state = make_state();
    let _ = state.handle_auth_challenge(vec![1], "hash".to_string(), valid(true));
    let client = state.spawn_virtual_client(1, Ok(()), CHANNELS).unwrap();
    assert_eq!(client.web_client_id, "relay-client-1");
    assert_eq!(client.tunnel_session_hash, "relay-tunnel-1");
    assert_eq!(client.e2e_key, derive_key("hash", "tid-test"));
    assert!(client.is_read_only);
    assert_eq!(
        state.spawn_virtual_client(1, Ok(()), CHANNELS).unwrap_err(),
        "no pending e2e key for client_id=1 — ClientConnected without prior AuthChallenge"
    );
}

#[test]
fn clients_that_cannot_be_made_are_reported() {
    let mut state = make_state();
    assert_eq!(
        state
            .spawn_virtual_client(4, Err("no socket".to_string()), CHANNELS)
            .unwrap_err(),
        "create_client_os_api: no socket"
    );
    state.pending_e2e_keys.insert(4, [0; 32]);
    assert_eq!(
        state.spawn_virtual_client(4, Ok(()), CHANNELS).unwrap_err(),
        "no pending is_read_only flag for client_id=4 — spawn without prior AuthChallenge"
    );
    assert!(state.pending_e2e_keys.is_empty());
    match state.handle_client_connected(4, Ok(()), CHANNELS) {
        Err(ControlMessage::ClientDisconnected { client_id }) => assert_eq!(client_id, 4),
        other => panic!("{:?}", other),
    }
}

#[test]
fn messages_of_the_relay_are_dispatched() {
    let mut state = make_state();
    let _ = state.handle_auth_challenge(vec![1], "hash".to_string(), valid(false));
    assert!(state.handle_client_connected(1, Ok(()), CHANNELS).is_ok());

    let challenge = ControlMessage::AuthChallenge {
        request_id: vec![5],
        token_hash: "h".to_string(),
    };
    match state.dispatch_relay_control(challenge) {
        HostControlAction::Validate {
            request_id,
            token_hash,
        } => {
            assert_eq!(request_id, vec![5]);
            assert_eq!(token_hash, "h");
        },
        other => panic!("{:?}", other),
    }
    assert!(matches!(
        state.dispatch_relay_control(ControlMessage::ClientConnected { client_id: 9 }),
        HostControlAction::Spawn { client_id: 9 }
    ));
    let data = |client_id: u32, data: &[u8]| ControlMessage::ControlFrameData {
        client_id,
        data: data.to_vec(),
    };
    match state.dispatch_relay_control(data(1, "{å}".as_bytes())) {
        HostControlAction::Input { channel, text } => {
            assert_eq!(channel, 2);
            assert_eq!(text, "{å}");
        },
        other => panic!("{:?}", other),
    }
    assert!(matches!(
        state.dispatch_relay_control(data(1, &[0xff])),
        HostControlAction::Nothing
    ));
    assert!(matches!(
        state.dispatch_relay_control(data(2, b"{}")),
        HostControlAction::Nothing
    ));
    let typed = |client_id: u32| TerminalMessage::TerminalFrameData {
        client_id,
        data: vec![7],
    };
    assert_eq!(state.dispatch_relay_terminal(typed(1)), Some((1, vec![7])));
    assert_eq!(state.dispatch_relay_terminal(typed(2)), None);
    match state.dispatch_relay_control(ControlMessage::ClientDisconnected { client_id: 1 }) {
        HostControlAction::TearDown { client } => assert_eq!(client.shutdown, Some(3)),
        other => panic!("{:?}", other),
    }
    assert!(matches!(
        state.dispatch_relay_control(ControlMessage::ClientDisconnected { client_id: 1 }),
        HostControlAction::Nothing
    ));
    assert!(matches!(
        state.dispatch_relay_control(ControlMessage::RevokeToken {
            token_hash: "h".to_string()
        }),
        HostControlAction::Nothing
    ));
}

#[test]
fn all_clients_end_with_the_tunnel() {
    let mut state = make_state();
    for _ in 0..3 {
        let _ = state.handle_auth_challenge(vec![1], "hash".to_string(), valid(false));
    }
    for client_id in [1, 3] {
        assert!(state
            .spawn_virtual_client(client_id, Ok(()), CHANNELS)
            .is_ok());
    }
    let mut ids: Vec<u32> = state.drain_clients().into_iter().map(|(id, _)| id).collect();
    ids.sort();
    assert_eq!(ids, vec![1, 3]);
    assert!(state.clients.is_empty());
    assert!(state.pending_e2e_keys.contains_key(&2));
}

#[test]
fn the_viewer_reads_what_the_host_sends() {
    let token_hash = hash_token("raw-token");
    let key = derive_key(&token_hash, "tid-test");
    match outbound_terminal(&key, 3, "héllo") {
        Some(TerminalMessage::TerminalFrameData { client_id, data }) => {
            assert_eq!(client_id, 3);
            assert_eq!(decrypt(&key, &data).unwrap(), "héllo".as_bytes());
        },
        other => panic!("{:?}", other),
    }
    match outbound_terminal_with(&key, &[7; NONCE_LEN], 3, "x") {
        Some(TerminalMessage::TerminalFrameData { data, .. }) => {
            assert_eq!(data[..NONCE_LEN], [7; NONCE_LEN]);
            assert_eq!(decrypt(&key, &data).unwrap(), b"x");
        },
        other => panic!("{:?}", other),
    }
}

#[test]
fn only_encrypted_input_of_writers_gets_through() {
    let key = derive_key("hash", "tid-test");
    let typed = encrypt(&key, b"ls\n").unwrap();
    assert_eq!(
        inbound_terminal(&key, false, &typed),
        Some(b"ls\n".to_vec())
    );
    assert_eq!(inbound_terminal(&key, true, &typed), None);
    assert_eq!(inbound_terminal(&key, false, b"plain"), None);
    let other = derive_key("hash", "other-tunnel");
    assert_eq!(inbound_terminal(&other, false, &typed), None);
}

#[test]
fn control_messages_for_a_viewer() {
    match outbound_control(3, SocketFrame::Text("{}".to_string()), Some((40, 120))) {
        OutboundControl::Send(ControlMessage::SessionSize {
            client_id,
            rows,
            cols,
        }) => assert_eq!((client_id, rows, cols), (3, 40, 120)),
        other => panic!("{:?}", other),
    }
    match outbound_control(3, SocketFrame::Text("{}".to_string()), None) {
        OutboundControl::Send(ControlMessage::ControlFrameData { client_id, data }) => {
            assert_eq!(client_id, 3);
            assert_eq!(data, b"{}".to_vec());
        },
        other => panic!("{:?}", other),
    }
    match outbound_control(3, SocketFrame::Binary(vec![1]), None) {
        OutboundControl::Send(ControlMessage::ControlFrameData { data, .. }) => {
            assert_eq!(data, vec![1])
        },
        other => panic!("{:?}", other),
    }
    assert!(matches!(
        outbound_control(3, SocketFrame::Close, None),
        OutboundControl::Ended
    ));
    assert!(matches!(
        outbound_control(3, SocketFrame::Other, None),
        OutboundControl::Skipped
    ));
    match set_config_frame(3, "{\"a\":1}".to_string()) {
        ControlMessage::ControlFrameData { client_id, data } => {
            assert_eq!(client_id, 3);
            assert_eq!(data, b"{\"a\":1}".to_vec());
        },
        other => panic!("{:?}", other),
    }
}

#[test]
fn every_second_tick_pings_and_silence_trips() {
    let mut heartbeat = Heartbeat::new();
    let first = heartbeat.tick_at(1_000, 16_000);
    assert!(!first.ping && !first.tripped);
    let second = heartbeat.tick_at(1_000, 61_000);
    assert!(second.ping && !second.tripped);
    let third = heartbeat.tick_at(1_000, 61_001);
    assert!(!third.ping && third.tripped);
    let back = heartbeat.tick_at(100_000, 5);
    assert!(back.ping && !back.tripped);
    let mut now = Heartbeat::new();
    assert!(now.tick(0).tripped);
    assert!(!now.tick(u64::MAX).tripped);
}

#[test]
fn only_a_request_ends_a_tunnel_for_good() {
    assert_eq!(
        exit_reason(MultiplexerEvent::ShutdownRequested),
        MultiplexerExitReason::Shutdown
    );
    for event in [
        MultiplexerEvent::ControlSocketClosed,
        MultiplexerEvent::TerminalSocketClosed,
        MultiplexerEvent::ControlSilent,
        MultiplexerEvent::TerminalSilent,
    ] {
        assert_eq!(exit_reason(event), MultiplexerExitReason::TunnelDropped);
    }
}

#[test]
fn tunnel_addresses() {
    assert_eq!(
        control_tunnel_url("ws://relay:1//"),
        "ws://relay:1/tunnel/control"
    );
    assert_eq!(
        terminal_tunnel_url("ws://relay:1", "abc"),
        "ws://relay:1/tunnel/terminal?slug=abc"
    );
}

#[test]
fn first_words_of_a_host() {
    match auth_message(
        "tok".to_string(),
        "sess".to_string(),
        "0.45.0".to_string(),
        String::new(),
    ) {
        ControlMessage::Auth {
            token,
            session_name,
            protocol_version,
            zellij_version,
            requested_slug,
        } => {
            assert_eq!(token, "tok");
            assert_eq!(session_name, "sess");
            assert_eq!(protocol_version, 1);
            assert_eq!(zellij_version, "0.45.0");
            assert_eq!(requested_slug, "");
        },
        other => panic!("{:?}", other),
    }
    match ready_message("tid".to_string()) {
        TerminalMessage::Ready { tunnel_id } => assert_eq!(tunnel_id, "tid"),
        other => panic!("{:?}", other),
    }
}

#[test]
fn a_tunnel_starts_and_stops_once() {
    let established = ControlMessage::Established {
        public_url: "http://localhost:8765/r/abc12345".to_string(),
        slug: "abc12345".to_string(),
        tunnel_id: "tid-happy".to_string(),
    };
    let session = control_reply(read_control(Some(SocketFrame::Binary(established.encode()))))
        .expect("an answer");
    let mut registry = RelayTunnelRegistry::new();
    let started =
        start_relay_tunnel(&mut registry, 1, "sess".to_string(), session, Ok(()), 10, 20)
            .expect("start_relay_tunnel ok");
    assert_eq!(started.public_url, "http://localhost:8765/r/abc12345");
    assert_eq!(started.state.tunnel_id, "tid-happy");
    assert_eq!(started.state.next_client_id, 1);
    assert_eq!(
        registry.status_sentinel(1),
        Some("http://localhost:8765/r/abc12345".to_string())
    );
    let handle = registry.stop_relay_tunnel(1).expect("a tunnel");
    assert!(handle.stop_requested);
    assert_eq!(handle.shutdown_tx, Some(10));
    assert!(registry.stop_relay_tunnel(1).is_none());
    assert!(registry.stop_relay_tunnel(999).is_none());
}

#[test]
fn a_refused_tunnel_is_not_kept() {
    let refusal = ControlMessage::Error {
        message: "rejected".to_string(),
    };
    let reply = control_reply(read_control(Some(SocketFrame::Binary(refusal.encode()))))
        .expect("an answer");
    let mut registry = RelayTunnelRegistry::new();
    let err = start_relay_tunnel(&mut registry, 2, "sess".to_string(), reply, Ok(()), 10, 20)
        .expect_err("should be rejected");
    assert!(err.contains("rejected"), "got: {err}");
    assert!(registry.stop_relay_tunnel(2).is_none());

    let closed = control_reply(ControlRead::Ended).expect("an answer");
    assert!(closed.is_err());
    assert!(control_reply(ControlRead::Skipped).is_none());

    let session = ControlTunnelSession {
        public_url: "u".to_string(),
        slug: "s".to_string(),
        tunnel_id: "t".to_string(),
    };
    let no_terminal = Err("no terminal".to_string());
    let err = start_relay_tunnel(
        &mut registry,
        3,
        "sess".to_string(),
        Ok(session),
        no_terminal,
        10,
        20,
    )
    .expect_err("no terminal tunnel");
    assert_eq!(err, "no terminal");
    assert!(registry.remove(3).is_none());
}

#[test]
fn tunnel_status_as_one_text() {
    let connected = RelayTunnelStatus::Connected("https://x/r/a".to_string());
    assert_eq!(
        connected.to_mode_info_sentinel(),
        Some("https://x/r/a".to_string())
    );
    let reconnecting = RelayTunnelStatus::Reconnecting {
        last_known_url: None,
        attempt: 12,
    };
    assert_eq!(
        reconnecting.to_mode_info_sentinel(),
        Some("__RELAY_RECONNECTING__:12".to_string())
    );
    let failed = RelayTunnelStatus::Failed("gone".to_string());
    assert_eq!(
        failed.to_mode_info_sentinel(),
        Some("__RELAY_FAILED__:gone".to_string())
    );
}

#[test]
fn a_revoked_token_is_told_to_every_relay() {
    let mut registry = RelayTunnelRegistry::new();
    for (client_id, control_tx) in [(1u16, 21u64), (2, 22)] {
        let session = ControlTunnelSession {
            public_url: "u".to_string(),
            slug: "s".to_string(),
            tunnel_id: "t".to_string(),
        };
        assert!(start_relay_tunnel(
            &mut registry,
            client_id,
            "sess".to_string(),
            Ok(session),
            Ok(()),
            10,
            control_tx,
        )
        .is_ok());
    }
    let (mut channels, message) = registry.broadcast_revoke_token("feed".to_string());
    channels.sort();
    assert_eq!(channels, vec![21, 22]);
    match message {
        ControlMessage::RevokeToken { token_hash } => assert_eq!(token_hash, "feed"),
        other => panic!("{:?}", other),
    }
    assert_eq!(registry.with_handle(2, |h| h.control_tx), Some(Some(22)));
    assert_eq!(registry.with_handle(3, |h| h.control_tx), None);
}

#[test]
fn kitty_protocol_is_on_unless_turned_off() {
    for (setting, expected) in [(None, false), (Some(true), false), (Some(false), true)] {
        let context = RelayContext {
            config_file_path: "/tmp/config".to_string(),
            support_kitty_keyboard_protocol: setting,
        };
        assert_eq!(context.disables_kitty_protocol(), expected);
    }
}

#[test]
fn a_client_carries_its_traffic_in_order() {
    let mut state = make_state();
    let token_hash = hash_token("raw-token");
    let _ = state.handle_auth_challenge(vec![1], token_hash.clone(), valid(false));
    let client_id = 1;
    let client = state
        .spawn_virtual_client(client_id, Ok(()), CHANNELS)
        .expect("a client");
    let viewer_key = derive_key(&token_hash, "tid-test");

    let outputs = ["one", "", "two", "one"];
    let read: Vec<Vec<u8>> = outputs
        .iter()
        .filter_map(|output| outbound_terminal(&client.e2e_key, client_id, output))
        .map(|message| match message {
            TerminalMessage::TerminalFrameData { client_id: id, data } => {
                assert_eq!(id, client_id);
                decrypt(&viewer_key, &data).expect("readable")
            },
            other => panic!("{:?}", other),
        })
        .collect();
    let expected: Vec<Vec<u8>> = outputs.iter().map(|o| o.as_bytes().to_vec()).collect();
    assert_eq!(read, expected);

    let first = encrypt(&viewer_key, b"a").unwrap();
    let second = encrypt(&viewer_key, b"b").unwrap();
    let inputs: Vec<&[u8]> = vec![&first, b"noise that does not decrypt at all", &second];
    let taken: Vec<Vec<u8>> = inputs
        .iter()
        .filter_map(|data| inbound_terminal(&client.e2e_key, client.is_read_only, data))
        .collect();
    assert_eq!(taken, vec![b"a".to_vec(), b"b".to_vec()]);
    assert!(inputs
        .iter()
        .all(|data| inbound_terminal(&client.e2e_key, true, data).is_none()));
}

#[test]
fn a_control_message_goes_to_the_client_that_it_names() {
    let connected = vec!["relay-client-1".to_string(), "relay-client-2".to_string()];
    match dispatch_control_message(Some(("relay-client-2".to_string(), 5)), &connected) {
        ControlInput::Deliver {
            web_client_id,
            payload,
        } => {
            assert_eq!(web_client_id, "relay-client-2");
            assert_eq!(payload, 5);
        },
        other => panic!("{:?}", other),
    }
    match dispatch_control_message(Some(("relay-client-3".to_string(), 5)), &connected) {
        ControlInput::UnknownClient(id) => assert_eq!(id, "relay-client-3"),
        other => panic!("{:?}", other),
    }
    assert!(matches!(
        dispatch_control_message::<u8>(None, &connected),
        ControlInput::Malformed
    ));
}
