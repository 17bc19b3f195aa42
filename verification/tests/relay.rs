use zellij_relay::conversion::{ControlMessage, TerminalMessage};
use zellij_relay::crypto::hash_token;
use zellij_relay::registry::{AuthResponseResult, TunnelEntry, ViewerRouting, ViewerSession};
use zellij_relay::router::{
    format_public_url, AppState, Purpose, SessionLookup, SocketGate, ViewerReply, ViewerStep,
    UNAUTHORISED_BODY, UNAUTHORISED_CONTENT_TYPE, UNAUTHORISED_STATUS,
};
use zellij_relay::slug::{generate, slug_from, ALPHABET, SLUG_LEN};
use zellij_relay::socket::{
    frame_content, read_control, read_terminal, ControlRead, FrameContent, SocketFrame,
    TerminalRead,
};
use zellij_relay::tunnel_control::{
    control_handshake, session_size_json, ControlDispatch, ControlHandshake,
};
use zellij_relay::tunnel_terminal::{
    terminal_request, TerminalDispatch, TerminalHandshake, TerminalRequest,
};
use zellij_relay::viewer::{
    tunnel_path_text, virtual_web_client_id, PendingChallenge, RegisterStep, SessionRequest,
};

/// A relay with one tunnel; gives its slug and its id.
fn relay_with_tunnel() -> (AppState, String, String) {
    let mut state = AppState::new("http://localhost/r/{slug}".to_string());
    let (slug, message) =
        state.open_tunnel("test".to_string(), "0.45.0".to_string(), String::new());
    match message {
        ControlMessage::Established {
            public_url,
            slug: told,
            tunnel_id,
        } => {
            assert_eq!(told, slug);
            assert_eq!(public_url, format!("http://localhost/r/{}", slug));
            (state, slug, tunnel_id)
        },
        other => panic!("{:?}", other),
    }
}

fn accepted(client_id: u32, is_read_only: bool, token_hash: &str) -> AuthResponseResult {
    AuthResponseResult {
        accepted: true,
        client_id,
        is_read_only,
        session_token_hash: token_hash.to_string(),
        e2e_encrypted: true,
    }
}

fn session_of(gate: SocketGate) -> ViewerSession {
    match gate {
        SocketGate::Admitted { session, .. } => session,
        other => panic!("{:?}", other),
    }
}

fn cookie_pair(cookie: &str) -> String {
    cookie.split(';').next().unwrap().to_string()
}

/// Attaches a viewer who needs a question to the host; gives the cookie.
fn attach_after_challenge(
    state: &mut AppState,
    slug: &str,
    token: &str,
    client_id: u32,
    is_read_only: bool,
) -> (String, Vec<ControlMessage>) {
    let mut to_host = Vec::new();
    let challenge = match state.start_viewer(slug, token, Purpose::Session, 50) {
        ViewerStep::Challenge { challenge, message } => {
            match &message {
                ControlMessage::AuthChallenge {
                    request_id,
                    token_hash,
                } => {
                    assert_eq!(request_id.len(), 16);
                    assert_eq!(token_hash, &hash_token(token));
                },
                other => panic!("{:?}", other),
            }
            to_host.push(message);
            challenge
        },
        other => panic!("{:?}", other),
    };
    let answer = accepted(client_id, is_read_only, &challenge.token_hash);
    match state.conclude_viewer(slug, challenge, Some(answer), Purpose::Session) {
        ViewerStep::Done {
            reply:
                ViewerReply::Session {
                    response,
                    cookie: Some(cookie),
                },
            to_host: message,
        } => {
            assert_eq!(response.client_id, client_id);
            to_host.extend(message);
            (cookie, to_host)
        },
        ViewerStep::Announce { viewer, message } => {
            to_host.push(message);
            match state.admit_viewer(slug, viewer, true, Purpose::Session) {
                ViewerReply::Session {
                    response,
                    cookie: Some(cookie),
                } => {
                    assert_eq!(response.client_id, client_id);
                    (cookie, to_host)
                },
                other => panic!("{:?}", other),
            }
        },
        other => panic!("{:?}", other),
    }
}

#[test]
fn viewer_attaches_and_ciphertext_passes_untouched() {
    let (mut state, slug, tunnel_id) = relay_with_tunnel();
    let (cookie, to_host) =
        attach_after_challenge(&mut state, &slug, "viewer-raw-token", 42, false);
    assert_eq!(to_host.len(), 2);
    assert!(matches!(
        to_host[1],
        ControlMessage::ClientConnected { client_id: 42 }
    ));
    assert!(cookie.starts_with("relay_session="));
    assert!(cookie.contains("; HttpOnly"));
    assert!(cookie.contains(&format!("; Path=/r/{}", slug)));

    let headers = vec![cookie_pair(&cookie)];
    match state.session_by_cookie(&slug, &headers) {
        SessionLookup::Answer(ViewerReply::Session { response, cookie }) => {
            assert_eq!(response.web_client_id, "relay-client-42");
            assert_eq!(response.client_id, 42);
            assert!(!response.is_read_only);
            assert!(response.e2e_encrypted);
            assert_eq!(response.tunnel_id, tunnel_id);
            assert_eq!(cookie, None);
        },
        other => panic!("{:?}", other),
    }

    let session = session_of(state.socket_gate(&slug, &headers));
    assert!(matches!(session.routing, ViewerRouting::Rw(42)));
    let mut entry = state.registry.remove(&slug).expect("tunnel");
    let ready = TerminalMessage::Ready { tunnel_id };
    assert!(matches!(
        entry.terminal_handshake(Some(SocketFrame::Binary(ready.encode())), 900),
        TerminalHandshake::Linked
    ));
    let _ = entry.attach_terminal(&session, 700, 701);
    let _ = entry.attach_control(&session, 800, 801);

    let ciphertext = vec![0xde, 0xad, 0x00, 0xff];
    let frame = TerminalMessage::TerminalFrameData {
        client_id: 42,
        data: ciphertext.clone(),
    };
    match entry.dispatch_terminal(frame) {
        TerminalDispatch::SendBinary { sinks, data } => {
            assert_eq!(sinks, vec![700]);
            assert_eq!(data, ciphertext);
        },
        other => panic!("{:?}", other),
    }

    match entry.terminal_input(&session, vec![1, 2, 3]) {
        Some((channel, TerminalMessage::TerminalFrameData { client_id, data })) => {
            assert_eq!(channel, 900);
            assert_eq!(client_id, 42);
            assert_eq!(data, vec![1, 2, 3]);
        },
        other => panic!("{:?}", other),
    }
    match entry.control_input(&session, b"{}".to_vec()) {
        Some(ControlMessage::ControlFrameData { client_id, data }) => {
            assert_eq!(client_id, 42);
            assert_eq!(data, b"{}".to_vec());
        },
        other => panic!("{:?}", other),
    }

    match entry.cleanup_viewer(&session) {
        Some((handle, ControlMessage::ClientDisconnected { client_id })) => {
            assert_eq!(client_id, 42);
            assert_eq!(handle.terminal_sink_tx, Some(700));
            assert_eq!(handle.control_sink_tx, Some(800));
        },
        other => panic!("{:?}", other),
    }
    assert!(entry.cleanup_viewer(&session).is_none());
    assert_eq!(entry.viewers.len(), 0);
    assert_eq!(entry.client_id_to_viewer.len(), 0);
}

#[test]
fn three_viewers_share_one_read_only_client() {
    let (mut state, slug, tunnel_id) = relay_with_tunnel();
    let token = "ro-shared-token";
    let (cookie_a, to_host) = attach_after_challenge(&mut state, &slug, token, 77, true);
    match &to_host[1] {
        ControlMessage::ReadOnlyViewerUpdate { token_hash, count } => {
            assert_eq!(token_hash, &hash_token(token));
            assert_eq!(*count, 1);
        },
        other => panic!("{:?}", other),
    }

    let mut cookies = vec![cookie_a];
    for expected in [2u32, 3] {
        match state.start_viewer(&slug, token, Purpose::Session, 51) {
            ViewerStep::Done {
                reply:
                    ViewerReply::Session {
                        response,
                        cookie: Some(cookie),
                    },
                to_host: Some(ControlMessage::ReadOnlyViewerUpdate { count, .. }),
            } => {
                assert_eq!(count, expected);
                assert_eq!(response.client_id, 77);
                assert!(response.is_read_only);
                cookies.push(cookie);
            },
            other => panic!("{:?}", other),
        }
    }

    let sessions: Vec<ViewerSession> = cookies
        .iter()
        .map(|c| session_of(state.socket_gate(&slug, &[cookie_pair(c)])))
        .collect();
    let mut entry = state.registry.remove(&slug).expect("tunnel");
    let ready = TerminalMessage::Ready { tunnel_id };
    let _ = entry.terminal_handshake(Some(SocketFrame::Binary(ready.encode())), 900);
    for (i, session) in sessions.iter().enumerate() {
        let _ = entry.attach_terminal(session, 100 + i as u64, 200 + i as u64);
        let _ = entry.attach_control(session, 300 + i as u64, 400 + i as u64);
        assert!(entry.terminal_input(session, vec![1]).is_none());
        assert!(entry.control_input(session, vec![1]).is_none());
    }

    let frame = TerminalMessage::TerminalFrameData {
        client_id: 77,
        data: vec![9, 9],
    };
    match entry.dispatch_terminal(frame) {
        TerminalDispatch::SendBinary { mut sinks, data } => {
            sinks.sort();
            assert_eq!(sinks, vec![100, 101, 102]);
            assert_eq!(data, vec![9, 9]);
        },
        other => panic!("{:?}", other),
    }

    let size = ControlMessage::SessionSize {
        client_id: 77,
        rows: 40,
        cols: 120,
    };
    match entry.dispatch_control(size) {
        ControlDispatch::SendText { mut sinks, text } => {
            sinks.sort();
            assert_eq!(sinks, vec![300, 301, 302]);
            assert_eq!(text, session_size_json(40, 120));
        },
        other => panic!("{:?}", other),
    }

    for (session, expected) in sessions.iter().zip([2u32, 1, 0]) {
        match entry.cleanup_viewer(session) {
            Some((_, ControlMessage::ReadOnlyViewerUpdate { count, .. })) => {
                assert_eq!(count, expected)
            },
            other => panic!("{:?}", other),
        }
    }
    let frame = TerminalMessage::TerminalFrameData {
        client_id: 77,
        data: vec![9],
    };
    match entry.dispatch_terminal(frame) {
        TerminalDispatch::Nothing => {},
        TerminalDispatch::SendBinary { sinks, .. } => assert_eq!(sinks.len(), 0),
    }

    // A viewer who comes to the group when it is empty wakes it up again.
    state.registry.insert(entry);
    let (_, to_host) = attach_after_challenge(&mut state, &slug, token, 78, true);
    match &to_host[1] {
        ControlMessage::ReadOnlyViewerUpdate { count, .. } => assert_eq!(*count, 1),
        other => panic!("{:?}", other),
    }
    let entry = state.registry.get(&slug).expect("tunnel");
    assert_eq!(entry.viewers_for_client_id(77).len(), 0);
    assert_eq!(entry.viewers_for_client_id(78).len(), 1);
}

#[test]
fn refusals_look_the_same() {
    let (mut state, slug, _) = relay_with_tunnel();
    let unknown = state.start_viewer("doesnotexist", "t", Purpose::Login, 1);
    assert!(matches!(
        unknown,
        ViewerStep::Done {
            reply: ViewerReply::Unauthorised,
            to_host: None
        }
    ));

    for answer in [
        None,
        Some(AuthResponseResult {
            accepted: false,
            client_id: 0,
            is_read_only: false,
            session_token_hash: String::new(),
            e2e_encrypted: false,
        }),
    ] {
        let challenge = match state.start_viewer(&slug, "wrong", Purpose::Login, 1) {
            ViewerStep::Challenge { challenge, .. } => challenge,
            other => panic!("{:?}", other),
        };
        let refused = state.conclude_viewer(&slug, challenge, answer, Purpose::Login);
        assert!(matches!(
            refused,
            ViewerStep::Done {
                reply: ViewerReply::Unauthorised,
                to_host: None
            }
        ));
    }
    assert_eq!(UNAUTHORISED_STATUS, 401);
    assert_eq!(UNAUTHORISED_CONTENT_TYPE, "application/json");
    assert_eq!(UNAUTHORISED_BODY, "{\"error\":\"unauthorised\"}");
}

#[test]
fn login_sets_the_same_cookie_as_a_session() {
    let (mut state, slug, _) = relay_with_tunnel();
    let challenge = match state.start_viewer(&slug, "tok", Purpose::Login, 1) {
        ViewerStep::Challenge { challenge, .. } => challenge,
        other => panic!("{:?}", other),
    };
    let answer = accepted(3, true, &challenge.token_hash);
    match state.conclude_viewer(&slug, challenge, Some(answer), Purpose::Login) {
        ViewerStep::Done {
            reply: ViewerReply::LoggedIn { response, cookie },
            ..
        } => {
            assert!(response.success);
            assert_eq!(response.message, "Login successful");
            let session = session_of(state.socket_gate(&slug, &[cookie_pair(&cookie)]));
            assert!(session.is_read_only);
            match session.routing {
                ViewerRouting::Ro(hash) => assert_eq!(hash, hash_token("tok")),
                other => panic!("{:?}", other),
            }
        },
        other => panic!("{:?}", other),
    }
}

#[test]
fn a_host_that_cannot_be_told_lets_nobody_in() {
    let (mut state, slug, _) = relay_with_tunnel();
    let challenge = match state.start_viewer(&slug, "tok", Purpose::Session, 1) {
        ViewerStep::Challenge { challenge, .. } => challenge,
        other => panic!("{:?}", other),
    };
    let answer = accepted(3, false, &challenge.token_hash);
    let viewer = match state.conclude_viewer(&slug, challenge, Some(answer), Purpose::Session) {
        ViewerStep::Announce { viewer, .. } => viewer,
        other => panic!("{:?}", other),
    };
    assert!(matches!(
        state.admit_viewer(&slug, viewer, false, Purpose::Session),
        ViewerReply::Unauthorised
    ));
    assert_eq!(state.registry.get(&slug).unwrap().sessions.len(), 0);
}

#[test]
fn sockets_need_a_cookie_of_the_tunnel() {
    let (state, slug, _) = relay_with_tunnel();
    assert!(matches!(
        state.socket_gate("doesnotexist", &[]),
        SocketGate::NotFound
    ));
    assert!(matches!(
        state.socket_gate(&slug, &[]),
        SocketGate::Unauthorised
    ));
    for bad in [
        "relay_session=not-a-uuid",
        "other=00000000-0000-0000-0000-000000000000",
        "relay_session=00000000-0000-0000-0000-000000000000",
    ] {
        assert!(matches!(
            state.socket_gate(&slug, &[bad.to_string()]),
            SocketGate::Unauthorised
        ));
    }
    assert!(matches!(
        state.session_by_cookie(&slug, &[]),
        SessionLookup::NeedsToken
    ));
}

#[test]
fn a_challenge_is_answered_once() {
    let (mut state, slug, _) = relay_with_tunnel();
    let request_id = match state.start_viewer(&slug, "tok", Purpose::Session, 77) {
        ViewerStep::Challenge {
            message: ControlMessage::AuthChallenge { request_id, .. },
            ..
        } => request_id,
        other => panic!("{:?}", other),
    };
    let mut entry = state.registry.remove(&slug).expect("tunnel");
    let response = ControlMessage::AuthResponse {
        request_id,
        client_id: 4,
        accepted: true,
        is_read_only: true,
        session_token_hash: "h".to_string(),
        e2e_encrypted: true,
    };
    match entry.dispatch_control(response.clone()) {
        ControlDispatch::Resolve { waiter, result } => {
            assert_eq!(waiter, 77);
            assert!(result.accepted);
            assert_eq!(result.client_id, 4);
            assert!(result.is_read_only);
            assert_eq!(result.session_token_hash, "h");
            assert!(result.e2e_encrypted);
        },
        other => panic!("{:?}", other),
    }
    assert!(matches!(
        entry.dispatch_control(response),
        ControlDispatch::Nothing
    ));
}

#[test]
fn a_revoked_token_disconnects_its_viewers() {
    let (mut state, slug, _) = relay_with_tunnel();
    let (cookie, _) = attach_after_challenge(&mut state, &slug, "gone", 5, false);
    let (other, _) = attach_after_challenge(&mut state, &slug, "stays", 6, false);
    for (c, sink) in [(&cookie, 10), (&other, 20)] {
        let session = session_of(state.socket_gate(&slug, &[cookie_pair(c)]));
        let mut entry = state.registry.remove(&slug).expect("tunnel");
        let _ = entry.attach_terminal(&session, sink, sink + 1);
        state.registry.insert(entry);
    }
    let mut entry = state.registry.remove(&slug).expect("tunnel");
    let revoke = ControlMessage::RevokeToken {
        token_hash: hash_token("gone"),
    };
    match entry.dispatch_control(revoke) {
        ControlDispatch::Disconnect { viewers } => {
            assert_eq!(viewers.len(), 1);
            assert_eq!(viewers[0].1.disconnect_terminal, Some(11));
        },
        other => panic!("{:?}", other),
    }
    state.registry.insert(entry);
    assert!(matches!(
        state.socket_gate(&slug, &[cookie_pair(&cookie)]),
        SocketGate::Unauthorised
    ));
    assert!(matches!(
        state.socket_gate(&slug, &[cookie_pair(&other)]),
        SocketGate::Admitted { .. }
    ));
}

#[test]
fn closing_a_tunnel_forgets_it_and_its_viewers() {
    let (mut state, slug, _) = relay_with_tunnel();
    let (cookie, _) = attach_after_challenge(&mut state, &slug, "t", 5, false);
    assert_eq!(state.version(&slug), "0.45.0");
    let session = session_of(state.socket_gate(&slug, &[cookie_pair(&cookie)]));
    let mut entry = state.registry.remove(&slug).expect("tunnel");
    let _ = entry.attach_control(&session, 30, 31);
    state.registry.insert(entry);
    let viewers = state.close_tunnel(&slug);
    assert_eq!(viewers.len(), 1);
    assert_eq!(state.close_tunnel(&slug).len(), 0);
    assert!(state.registry.get(&slug).is_none());
    assert!(matches!(
        state.socket_gate(&slug, &[cookie_pair(&cookie)]),
        SocketGate::NotFound
    ));
}

#[test]
fn handshake_of_a_control_tunnel() {
    let auth = ControlMessage::Auth {
        token: "t".to_string(),
        session_name: "sess".to_string(),
        protocol_version: 1,
        zellij_version: "0.45.0".to_string(),
        requested_slug: "prev".to_string(),
    };
    match control_handshake(Some(SocketFrame::Binary(auth.encode()))) {
        ControlHandshake::Accepted {
            session_name,
            zellij_version,
            requested_slug,
        } => {
            assert_eq!(session_name, "sess");
            assert_eq!(zellij_version, "0.45.0");
            assert_eq!(requested_slug, "prev");
        },
        other => panic!("{:?}", other),
    }
    let cases = vec![
        (
            SocketFrame::Text("hi".to_string()),
            "expected binary TunnelAuth frame",
        ),
        (SocketFrame::Binary(vec![0xff]), "malformed ControlFrame"),
        (
            SocketFrame::Binary(ControlMessage::ClientConnected { client_id: 1 }.encode()),
            "first frame must be TunnelAuth",
        ),
    ];
    for (frame, expected) in cases {
        match control_handshake(Some(frame)) {
            ControlHandshake::Rejected(ControlMessage::Error { message }) => {
                assert_eq!(message, expected)
            },
            other => panic!("{:?}", other),
        }
    }
    assert!(matches!(control_handshake(None), ControlHandshake::Dropped));
}

#[test]
fn handshake_of_a_terminal_tunnel() {
    let (mut state, slug, tunnel_id) = relay_with_tunnel();
    assert!(matches!(
        terminal_request(&state.registry, &slug),
        TerminalRequest::Welcome { .. }
    ));
    for (asked, expected) in [
        ("doesnotexist", "unknown slug"),
        ("", "missing ?slug query parameter"),
    ] {
        match terminal_request(&state.registry, asked) {
            TerminalRequest::Rejected(TerminalMessage::Error { message }) => {
                assert_eq!(message, expected)
            },
            other => panic!("{:?}", other),
        }
    }
    let mut entry = state.registry.remove(&slug).expect("tunnel");
    let bogus = TerminalMessage::Ready {
        tunnel_id: "bogus-id".to_string(),
    };
    match entry.terminal_handshake(Some(SocketFrame::Binary(bogus.encode())), 1) {
        TerminalHandshake::Rejected(TerminalMessage::Error { message }) => assert_eq!(
            message,
            "first frame must be TunnelReady with matching tunnel_id"
        ),
        other => panic!("{:?}", other),
    }
    assert!(!entry.terminal_linked_flag);
    let ready = TerminalMessage::Ready { tunnel_id };
    assert!(matches!(
        entry.terminal_handshake(Some(SocketFrame::Binary(ready.encode())), 9),
        TerminalHandshake::Linked
    ));
    assert!(entry.terminal_linked_flag);
    assert_eq!(entry.terminal_tx, Some(9));
    entry.terminal_closed();
    assert_eq!(entry.terminal_tx, None);
    assert!(entry.terminal_linked_flag);
}

#[test]
fn a_free_slug_can_be_asked_for() {
    let mut state = AppState::new("https://relay.example/r/{slug}".to_string());
    let (first, _) = state.open_tunnel("s".to_string(), "v".to_string(), "wanted".to_string());
    assert_eq!(first, "wanted");
    let (second, _) = state.open_tunnel("s".to_string(), "v".to_string(), "wanted".to_string());
    assert_ne!(second, "wanted");
    assert_eq!(second.len(), SLUG_LEN);
    assert_eq!(state.registry.len(), 2);
}

#[test]
fn public_urls_are_made_from_the_template() {
    assert_eq!(
        format_public_url("https://{slug}.relay/{slug}", "ab"),
        "https://ab.relay/ab"
    );
    let state = AppState::new("http://localhost:8765/r/{slug}".to_string());
    assert_eq!(
        state.render_public_url("abc12345"),
        "http://localhost:8765/r/abc12345"
    );
    assert_eq!(tunnel_path_text("abc"), "/r/abc/");
    assert_eq!(virtual_web_client_id(42), "relay-client-42");
}

#[test]
fn slugs_are_made_of_the_alphabet() {
    assert_eq!(slug_from(&[0, 1, 31, 32, 255, 26, 33, 64]), "ab7a72ba");
    for _ in 0..100 {
        let slug = generate();
        assert_eq!(slug.len(), SLUG_LEN);
        assert!(slug.chars().all(|c| ALPHABET.contains(c)));
    }
    assert_ne!(generate(), generate());
}

#[test]
fn session_size_message_is_json() {
    assert_eq!(
        session_size_json(40, 120),
        "{\"type\":\"SessionSizeChanged\",\"rows\":40,\"cols\":120}"
    );
}

#[test]
fn frames_are_read_by_their_kind() {
    assert!(matches!(
        frame_content(Some(SocketFrame::Other)),
        FrameContent::Skipped
    ));
    for end in [None, Some(SocketFrame::Close), Some(SocketFrame::Failed)] {
        assert!(matches!(frame_content(end), FrameContent::Ended));
    }
    match frame_content(Some(SocketFrame::Text("å".to_string()))) {
        FrameContent::Bytes(bytes) => assert_eq!(bytes, vec![0xc3, 0xa5]),
        other => panic!("{:?}", other),
    }
    let message = ControlMessage::ClientConnected { client_id: 7 };
    assert!(matches!(
        read_control(Some(SocketFrame::Binary(message.encode()))),
        ControlRead::Message(ControlMessage::ClientConnected { client_id: 7 })
    ));
    assert!(matches!(
        read_control(Some(SocketFrame::Binary(vec![0xff]))),
        ControlRead::Skipped
    ));
    assert!(matches!(read_control(None), ControlRead::Ended));
    assert!(matches!(
        read_terminal(Some(SocketFrame::Close)),
        TerminalRead::Ended
    ));
    assert!(matches!(
        read_terminal(Some(SocketFrame::Text("x".to_string()))),
        TerminalRead::Skipped
    ));
}

#[test]
fn a_viewer_is_registered_by_the_hash_of_its_token() {
    let mut entry = TunnelEntry::new(
        1,
        "abc".to_string(),
        "http://localhost/r/abc".to_string(),
        "s".to_string(),
        "v".to_string(),
    );
    let hash = hash_token("tok");
    match entry.start_hash_registration("abc", hash.clone(), 5, vec![1, 2], 77) {
        RegisterStep::Challenge { challenge, message } => {
            assert_eq!(challenge.token_hash, hash);
            assert_eq!(challenge.request_id, vec![1, 2]);
            assert!(!challenge.dormant);
            match message {
                ControlMessage::AuthChallenge {
                    request_id,
                    token_hash,
                } => {
                    assert_eq!(request_id, vec![1, 2]);
                    assert_eq!(token_hash, hash);
                },
                other => panic!("{:?}", other),
            }
        },
        other => panic!("{:?}", other),
    }
    assert_eq!(entry.pending_auths.get(&vec![1, 2]), Some(&77));

    let (first, _) = entry.finalise_ro_first("abc", &hash, 9, true, 5);
    assert_eq!(first.client_id, 9);
    match entry.start_hash_registration("abc", hash, 6, vec![3], 78) {
        RegisterStep::Joined { outcome, update } => {
            assert_eq!(outcome.session.viewer_id, 6);
            assert_eq!(
                outcome.cookie,
                "relay_session=00000000-0000-0000-0000-000000000006; HttpOnly; \
                 SameSite=Strict; Path=/r/abc/"
            );
            match update {
                ControlMessage::ReadOnlyViewerUpdate { count, .. } => assert_eq!(count, 2),
                other => panic!("{:?}", other),
            }
        },
        other => panic!("{:?}", other),
    }
    let session = entry.session_of(6).expect("a session");
    assert!(session.is_read_only);
    assert!(entry.session_of(7).is_none());
    let cookie = "relay_session=00000000-0000-0000-0000-000000000006".to_string();
    assert_eq!(
        entry.resolve_session(&[cookie]).map(|s| s.viewer_id),
        Some(6)
    );
}

#[test]
fn a_client_that_the_host_ends_gets_no_frames() {
    let (mut state, slug, _) = relay_with_tunnel();
    let (cookie, _) = attach_after_challenge(&mut state, &slug, "t", 5, false);
    let session = session_of(state.socket_gate(&slug, &[cookie_pair(&cookie)]));
    let mut entry = state.registry.remove(&slug).expect("tunnel");
    let _ = entry.attach_terminal(&session, 30, 31);
    let _ = entry.attach_control(&session, 40, 41);
    match entry.dispatch_control(ControlMessage::ClientDisconnected { client_id: 5 }) {
        ControlDispatch::Disconnect { viewers } => {
            assert_eq!(viewers.len(), 1);
            assert_eq!(viewers[0].1.disconnect_terminal, Some(31));
            assert_eq!(viewers[0].1.disconnect_control, Some(41));
        },
        other => panic!("{:?}", other),
    }
    let frame = TerminalMessage::TerminalFrameData {
        client_id: 5,
        data: vec![1],
    };
    match entry.dispatch_terminal(frame) {
        TerminalDispatch::SendBinary { sinks, .. } => assert_eq!(sinks.len(), 0),
        TerminalDispatch::Nothing => {},
    }
    let text = ControlMessage::ControlFrameData {
        client_id: 5,
        data: b"{}".to_vec(),
    };
    match entry.dispatch_control(text) {
        ControlDispatch::SendText { sinks, .. } => assert_eq!(sinks.len(), 0),
        ControlDispatch::Nothing => {},
        other => panic!("{:?}", other),
    }
}

/// A relay with a tunnel under the slug `abc` and this id.
fn relay_with_slug(tunnel_id: u128) -> AppState {
    let mut state = AppState::new("http://localhost/r/{slug}".to_string());
    reopen(&mut state, tunnel_id);
    state
}

fn reopen(state: &mut AppState, tunnel_id: u128) {
    let (slug, _) = state.open_tunnel_with(
        "s".to_string(),
        "v".to_string(),
        "abc".to_string(),
        &[0; SLUG_LEN],
        tunnel_id,
    );
    assert_eq!(slug, "abc");
}

fn asked(state: &mut AppState, token: &str, viewer_id: u128, request: u8) -> PendingChallenge {
    let purpose = Purpose::Session;
    match state.start_viewer_with("abc", token, purpose, viewer_id, vec![request], 50) {
        ViewerStep::Challenge { challenge, .. } => challenge,
        other => panic!("{:?}", other),
    }
}

fn is_turned_away(step: &ViewerStep) -> bool {
    matches!(
        step,
        ViewerStep::Done {
            reply: ViewerReply::Unauthorised,
            to_host: None
        }
    )
}

#[test]
fn an_answer_does_not_reach_the_next_tunnel_with_the_slug() {
    let mut state = relay_with_slug(1);
    let challenge = asked(&mut state, "tok", 5, 1);
    assert_eq!(challenge.tunnel_id, 1);
    let _ = state.close_tunnel("abc");
    reopen(&mut state, 2);

    // The viewer whom the first host let in is told so; its session is in the
    // tunnel that has closed.
    let answer = accepted(7, true, &challenge.token_hash);
    match state.conclude_viewer_with("abc", challenge, Some(answer), Purpose::Session, 6) {
        ViewerStep::Done {
            reply: ViewerReply::Session { response, cookie },
            to_host: Some(ControlMessage::ReadOnlyViewerUpdate { count, .. }),
        } => {
            assert_eq!(response.client_id, 7);
            assert_eq!(response.tunnel_id, "00000000-0000-0000-0000-000000000001");
            assert!(cookie.expect("a cookie").contains("; Path=/r/abc/"));
            assert_eq!(count, 1);
        },
        other => panic!("{:?}", other),
    }
    assert_eq!(state.closed.get(&1).map(|e| e.sessions.len()), Some(1));
    let entry = state.registry.get("abc").expect("tunnel");
    assert_eq!(entry.tunnel_id, 2);
    assert_eq!(entry.sessions.len(), 0);
    assert_eq!(entry.ro_groups.len(), 0);
    assert_eq!(entry.client_id_to_token_hash.len(), 0);
    let cookie = "relay_session=00000000-0000-0000-0000-000000000006".to_string();
    assert!(matches!(
        state.socket_gate("abc", &[cookie]),
        SocketGate::Unauthorised
    ));
    state.forget_tunnel(1);
    assert_eq!(state.closed.len(), 0);
}

#[test]
fn an_answer_for_a_forgotten_tunnel_counts_for_nothing() {
    let mut state = relay_with_slug(1);
    let challenge = asked(&mut state, "tok", 5, 1);
    let _ = state.close_tunnel("abc");
    state.forget_tunnel(1);
    reopen(&mut state, 2);
    let answer = accepted(7, true, &challenge.token_hash);
    let step = state.conclude_viewer_with("abc", challenge, Some(answer), Purpose::Session, 6);
    assert!(is_turned_away(&step));
    assert_eq!(state.registry.get("abc").map(|e| e.sessions.len()), Some(0));
}

#[test]
fn a_question_that_timed_out_leaves_the_next_tunnel_alone() {
    let mut state = relay_with_slug(1);
    let challenge = asked(&mut state, "tok", 5, 1);
    let _ = state.close_tunnel("abc");
    reopen(&mut state, 2);
    let other = asked(&mut state, "tok", 6, 1);
    assert_eq!(other.tunnel_id, 2);
    let step = state.conclude_viewer_with("abc", challenge, None, Purpose::Session, 7);
    assert!(is_turned_away(&step));
    let entry = state.registry.get("abc").expect("tunnel");
    assert_eq!(entry.pending_auths.get(&vec![1]), Some(&50));
}

#[test]
fn an_admission_does_not_reach_the_next_tunnel_with_the_slug() {
    for sent in [true, false] {
        let mut state = relay_with_slug(1);
        let challenge = asked(&mut state, "tok", 5, 1);
        let answer = accepted(7, false, &challenge.token_hash);
        let step = state.conclude_viewer_with("abc", challenge, Some(answer), Purpose::Session, 6);
        let viewer = match step {
            ViewerStep::Announce { viewer, .. } => viewer,
            other => panic!("{:?}", other),
        };
        assert_eq!(viewer.tunnel_id, 1);
        let _ = state.close_tunnel("abc");
        reopen(&mut state, 2);
        match state.admit_viewer_with("abc", viewer, sent, Purpose::Session, 6) {
            ViewerReply::Session { response, .. } => {
                assert!(sent);
                assert_eq!(response.client_id, 7);
            },
            ViewerReply::Unauthorised => assert!(!sent),
            other => panic!("{:?}", other),
        }
        assert_eq!(
            state.closed.get(&1).map(|e| e.sessions.len()),
            Some(if sent { 1 } else { 0 })
        );
        let entry = state.registry.get("abc").expect("tunnel");
        assert_eq!(entry.sessions.len(), 0);
        assert_eq!(entry.client_id_to_viewer.len(), 0);
    }
}

#[test]
fn a_taken_slug_is_not_given_away() {
    let mut state = relay_with_slug(1);
    let mut open = |requested: &str, drawn: u8, tunnel_id| {
        let (slug, _) = state.open_tunnel_with(
            "s".to_string(),
            "v".to_string(),
            requested.to_string(),
            &[drawn; SLUG_LEN],
            tunnel_id,
        );
        slug
    };
    assert_eq!(open("abc", 0, 2), "aaaaaaaa");
    assert_eq!(open("", 0, 3), "aaaaaaab");
    assert_eq!(open("aaaaaaab", 32, 4), "aaaaaaac");
    assert_eq!(open("", 31, 5), "77777777");
    assert_eq!(open("", 31, 6), "aaaaaaad");
    assert_eq!(state.registry.len(), 6);
    for (slug, tunnel_id) in [
        ("abc", 1),
        ("aaaaaaaa", 2),
        ("aaaaaaab", 3),
        ("aaaaaaac", 4),
        ("77777777", 5),
        ("aaaaaaad", 6),
    ] {
        assert_eq!(
            state.registry.get(slug).map(|e| e.tunnel_id),
            Some(tunnel_id)
        );
    }
    let (slug, _) =
        state.open_tunnel("s".to_string(), "v".to_string(), "abc".to_string());
    assert_eq!(slug.len(), SLUG_LEN);
    assert!(slug.chars().all(|c| ALPHABET.contains(c)));
    assert_eq!(state.registry.len(), 7);
}

#[test]
fn a_socket_is_for_one_tunnel() {
    let mut state = relay_with_slug(1);
    let challenge = asked(&mut state, "tok", 5, 1);
    let answer = accepted(7, true, &challenge.token_hash);
    let step = state.conclude_viewer_with("abc", challenge, Some(answer), Purpose::Session, 6);
    assert!(!is_turned_away(&step));
    let cookie = "relay_session=00000000-0000-0000-0000-000000000006".to_string();
    match state.socket_gate("abc", &[cookie]) {
        SocketGate::Admitted { tunnel_id, session } => {
            assert_eq!(tunnel_id, 1);
            assert_eq!(session.viewer_id, 6);
        },
        other => panic!("{:?}", other),
    }
    match terminal_request(&state.registry, "abc") {
        TerminalRequest::Welcome { tunnel_id } => assert_eq!(tunnel_id, 1),
        other => panic!("{:?}", other),
    }
    let _ = state.close_tunnel("abc");
    reopen(&mut state, 2);
    assert!(state.registry.take_tunnel("abc", 1).is_none());
    assert_eq!(state.registry.len(), 1);
    let taken = state.registry.take_tunnel("abc", 2).expect("tunnel");
    assert_eq!(taken.tunnel_id, 2);
    assert_eq!(state.registry.len(), 0);
    assert!(state.registry.take_tunnel("abc", 2).is_none());
}

#[test]
fn overlapping_registrations_share_one_group() {
    let mut state = relay_with_slug(1);
    let first = asked(&mut state, "tok", 1, 1);
    let second = asked(&mut state, "tok", 2, 2);
    assert!(!first.dormant && !second.dormant);
    let hash = hash_token("tok");
    for (challenge, client_id, viewer_id, expected) in [(first, 7, 11, 1u32), (second, 8, 12, 2)] {
        let answer = accepted(client_id, true, &hash);
        let purpose = Purpose::Session;
        match state.conclude_viewer_with("abc", challenge, Some(answer), purpose, viewer_id) {
            ViewerStep::Done {
                reply: ViewerReply::Session { response, .. },
                to_host: Some(ControlMessage::ReadOnlyViewerUpdate { count, .. }),
            } => {
                assert_eq!(response.client_id, client_id);
                assert_eq!(count, expected);
            },
            other => panic!("{:?}", other),
        }
    }
    let mut entry = state.registry.remove("abc").expect("tunnel");
    assert_eq!(entry.viewers_for_client_id(8), vec![11, 12]);
    assert_eq!(entry.viewers_for_client_id(7).len(), 0);
    assert_eq!(entry.client_id_to_token_hash.len(), 1);

    // Revoking the token leaves nothing behind.
    let _ = entry.dispatch_control(ControlMessage::RevokeToken { token_hash: hash });
    assert_eq!(entry.client_id_to_token_hash.len(), 0);
    assert_eq!(entry.ro_groups.len(), 0);
    assert_eq!(entry.sessions.len(), 0);
}

#[test]
fn a_client_watches_for_one_group() {
    let mut entry = TunnelEntry::new(
        1,
        "abc".to_string(),
        "u".to_string(),
        "s".to_string(),
        "v".to_string(),
    );
    let _ = entry.finalise_ro_first("abc", "one", 7, true, 11);
    let _ = entry.finalise_ro_first("abc", "two", 7, true, 12);
    assert_eq!(entry.viewers_for_client_id(7), vec![12]);
    let one = entry.ro_groups.get("one").expect("a group");
    assert_eq!(one.active_client_id, None);
    assert_eq!(one.viewer_ids, vec![11]);

    // The first group gets a client of its own again with its next viewer.
    let _ = entry.finalise_ro_revive("abc", "one", 8, true, 13);
    assert_eq!(entry.viewers_for_client_id(8), vec![11, 13]);
    assert_eq!(entry.viewers_for_client_id(7), vec![12]);

    // A group that changes its client leaves the former one.
    let _ = entry.finalise_ro_revive("abc", "one", 9, true, 13);
    assert_eq!(entry.viewers_for_client_id(9), vec![11, 13]);
    assert_eq!(entry.viewers_for_client_id(8).len(), 0);
}

#[test]
fn viewers_of_a_group_are_told_the_size_of_the_session() {
    let mut state = relay_with_slug(1);
    let challenge = asked(&mut state, "tok", 1, 1);
    let answer = accepted(7, true, &challenge.token_hash);
    let purpose = Purpose::Session;
    match state.conclude_viewer_with("abc", challenge, Some(answer), purpose, 11) {
        ViewerStep::Done {
            reply: ViewerReply::Session { response, .. },
            ..
        } => assert_eq!((response.session_rows, response.session_cols), (0, 0)),
        other => panic!("{:?}", other),
    }
    let mut entry = state.registry.remove("abc").expect("tunnel");
    let _ = entry.dispatch_control(ControlMessage::SessionSize {
        client_id: 7,
        rows: 40,
        cols: 120,
    });
    state.registry.insert(entry);
    match state.start_viewer_with("abc", "tok", purpose, 12, vec![2], 50) {
        ViewerStep::Done {
            reply: ViewerReply::Session { response, .. },
            ..
        } => assert_eq!((response.session_rows, response.session_cols), (40, 120)),
        other => panic!("{:?}", other),
    }
    let cookie = "relay_session=00000000-0000-0000-0000-00000000000b".to_string();
    match state.session_by_cookie("abc", &[cookie]) {
        SessionLookup::Answer(ViewerReply::Session { response, .. }) => {
            assert_eq!((response.session_rows, response.session_cols), (40, 120))
        },
        other => panic!("{:?}", other),
    }

    let challenge = asked(&mut state, "own", 13, 3);
    let answer = accepted(9, false, &challenge.token_hash);
    match state.conclude_viewer_with("abc", challenge, Some(answer), purpose, 14) {
        ViewerStep::Announce { viewer, .. } => {
            match state.admit_viewer_with("abc", viewer, true, purpose, 14) {
                ViewerReply::Session { response, .. } => {
                    assert_eq!((response.session_rows, response.session_cols), (0, 0))
                },
                other => panic!("{:?}", other),
            }
        },
        other => panic!("{:?}", other),
    }
}

#[test]
fn a_session_is_asked_for_with_a_token() {
    let mut state = relay_with_slug(1);
    for request in [None, Some(SessionRequest { auth_token: None })] {
        let step = state.start_session_with("abc", request, 5, vec![1], 50);
        assert!(is_turned_away(&step));
    }
    let entry = state.registry.get("abc").expect("tunnel");
    assert_eq!(entry.pending_auths.len(), 0);
    let request = SessionRequest {
        auth_token: Some("tok".to_string()),
    };
    match state.start_session("abc", Some(request), 50) {
        ViewerStep::Challenge { challenge, .. } => {
            assert_eq!(challenge.token_hash, hash_token("tok"));
            let answer = accepted(7, true, &challenge.token_hash);
            let purpose = Purpose::Session;
            match state.conclude_viewer_with("abc", challenge, Some(answer), purpose, 11) {
                ViewerStep::Done { reply, .. } => {
                    assert_eq!(reply.status(), 200);
                    let cookie = reply.set_cookie().expect("a cookie");
                    assert!(cookie.starts_with("relay_session=00000000-"));
                },
                other => panic!("{:?}", other),
            }
        },
        other => panic!("{:?}", other),
    }
    assert_eq!(ViewerReply::Unauthorised.status(), 401);
    assert_eq!(ViewerReply::Unauthorised.set_cookie(), None);
}
