use zellij_relay::crypto::{derive_key, hash_token};
use zellij_relay::keyed_map::KeyedMap;
use zellij_relay::multiplexer::{RelayTunnelState, TokenValidation};
use zellij_relay::remote_attach::{
    attach_target, attach_to_remote_session, derive_e2e_key_if_needed, expected_e2e_banner,
    lacks_tunnel_id, remote_attach, remote_attach_with_session_token, saved_session_e2e,
    saved_session_usable, try_to_connect_with_saved_session_token, AttachedSession,
    AttemptOutcome, AuthRetry, SavedOutcome, SavedRemoteSession, DOWNGRADE_MESSAGE,
    MAX_AUTH_ATTEMPTS, PAGE_DOWNGRADE_NOTICE, SAVED_DOWNGRADE_NOTICE, SESSION_DOWNGRADE_NOTICE,
};
use zellij_relay::remote_auth::{
    authenticate, first_session_cookie, login, login_url, session_url, validate_session_token,
    AuthResult, HttpReply, RememberedCookie, SessionResponse,
};
use zellij_relay::remote_error::RemoteClientError;
use zellij_relay::remote_url::{
    address_fits, extract_server_url, extract_session_name, host_is_known_relay, host_matches,
    hosts_from_urls, known_relay_url, preserved_path, probe_expected_e2e, session_of_path,
    EXPECTED_E2E_MARK, URL_LIMIT,
};

fn server_of(url: &str) -> String {
    extract_server_url(url).expect("an address")
}

fn session_of(url: &str) -> String {
    extract_session_name(url).expect("an address")
}

#[test]
fn server_of_a_local_address_is_its_origin() {
    assert_eq!(server_of("https://host/session-name"), "https://host");
    assert_eq!(server_of("https://host:8082/a/b?q=1#f"), "https://host:8082");
    assert_eq!(server_of("http://host"), "http://host");
    assert_eq!(server_of("https://HOST/r"), "https://host");
}

#[test]
fn server_of_a_relay_address_keeps_the_slug() {
    assert_eq!(server_of("https://host/r/slug"), "https://host/r/slug");
    assert_eq!(
        server_of("https://host/r/slug/session?x=y"),
        "https://host/r/slug"
    );
    assert_eq!(
        server_of("https://host//r//slug//deep/er/"),
        "https://host/r/slug"
    );
}

#[test]
fn session_is_what_stands_behind_the_server() {
    assert_eq!(session_of("https://host/path/to/session"), "path/to/session");
    assert_eq!(session_of("https://host/my-session/"), "my-session");
    assert_eq!(session_of("https://host/"), "");
    assert_eq!(session_of("https://host"), "");
    assert_eq!(session_of("https://host/r/slug"), "");
    assert_eq!(session_of("https://host/r/slug/mine"), "mine");
    assert_eq!(session_of("https://host/r/slug/a//b"), "a/b");
    assert_eq!(session_of("https://host/r"), "r");
}

#[test]
fn paths_are_taken_apart() {
    assert_eq!(preserved_path("/r/abc"), "/r/abc");
    assert_eq!(preserved_path("/r/abc/session"), "/r/abc");
    assert_eq!(preserved_path("/r/"), "");
    assert_eq!(preserved_path("/x/abc"), "");
    assert_eq!(session_of_path("/name/rest"), "name/rest");
    assert_eq!(session_of_path("name"), "");
}

#[test]
fn what_is_no_address_is_told() {
    match extract_server_url("not a url") {
        Err(RemoteClientError::UrlParseError(message)) => {
            assert_eq!(message, "relative URL without a base")
        },
        other => panic!("{:?}", other),
    }
    assert!(matches!(
        extract_session_name("https://"),
        Err(RemoteClientError::UrlParseError(_))
    ));
    assert!(matches!(
        attach_target("nope"),
        Err(RemoteClientError::UrlParseError(_))
    ));
}

#[test]
fn known_relays_and_what_is_under_them() {
    assert!(host_is_known_relay("zellij.dev", &[]));
    assert!(host_is_known_relay("Share.ZELLIJ.dev", &[]));
    assert!(!host_is_known_relay("evilzellij.dev", &[]));
    assert!(!host_is_known_relay("zellij.dev.evil", &[]));
    let extra = vec![" Relay.Example ".to_string(), String::new()];
    assert!(host_is_known_relay("relay.example", &extra));
    assert!(host_is_known_relay("a.relay.example", &extra));
    assert!(!host_is_known_relay("example", &extra));
    assert!(!host_matches("", ""));
    assert!(!host_matches("a.", ""));
}

#[test]
fn hosts_of_addresses() {
    let urls = vec![
        "wss://Relay.Example:9/x".to_string(),
        "not a url".to_string(),
        "data:text/plain,Stuff".to_string(),
        "http://127.0.0.1/".to_string(),
    ];
    assert_eq!(
        hosts_from_urls(&urls),
        vec!["relay.example".to_string(), "127.0.0.1".to_string()]
    );
}

#[test]
fn encryption_is_expected_of_relays_and_where_the_page_says_so() {
    let page = format!("<input {} >", EXPECTED_E2E_MARK);
    let silent = Some("<html></html>".to_string());
    assert!(known_relay_url("https://zellij.dev/r/abc", &[]));
    assert!(probe_expected_e2e("https://zellij.dev/r/abc", &[], silent));
    assert!(probe_expected_e2e("https://host/s", &[], Some(page)));
    assert!(!probe_expected_e2e(
        "https://host/s",
        &[],
        Some("id=\"zellij-expected-e2e\" value=\"false\"".to_string())
    ));
    assert!(!probe_expected_e2e("https://host/s", &[], None));
    assert!(probe_expected_e2e(
        "https://host/s",
        &["host".to_string()],
        None
    ));
}

fn session_response(e2e_encrypted: bool) -> SessionResponse {
    SessionResponse {
        web_client_id: "relay-client-1".to_string(),
        e2e_encrypted,
        tunnel_id: Some("tid".to_string()),
    }
}

fn answer(status: u16) -> HttpReply<SessionResponse> {
    HttpReply::Answer {
        status,
        body: Ok(session_response(true)),
    }
}

#[test]
fn endpoints_are_under_the_server() {
    assert_eq!(
        login_url("https://host/r/abc"),
        "https://host/r/abc/command/login"
    );
    assert_eq!(session_url("https://host"), "https://host/session");
}

#[test]
fn a_login_fails_in_its_own_ways() {
    let reply = |status: u16| HttpReply::Answer {
        status,
        body: Ok(()),
    };
    assert!(login(reply(200)).is_ok());
    assert!(login(reply(299)).is_ok());
    assert!(login(HttpReply::Answer {
        status: 204,
        body: Err("no body".to_string())
    })
    .is_ok());
    assert!(matches!(
        login(reply(401)),
        Err(RemoteClientError::InvalidAuthToken)
    ));
    match login(reply(503)) {
        Err(RemoteClientError::ConnectionFailed(message)) => {
            assert_eq!(message, "Server returned status 503")
        },
        other => panic!("{:?}", other),
    }
    match login(HttpReply::Unreachable("refused".to_string())) {
        Err(RemoteClientError::ConnectionFailed(message)) => assert_eq!(message, "refused"),
        other => panic!("{:?}", other),
    }
    match login(HttpReply::Unsendable("bad".to_string())) {
        Err(RemoteClientError::Other(message)) => assert_eq!(message, "bad"),
        other => panic!("{:?}", other),
    }
}

#[test]
fn a_session_fails_in_its_own_ways() {
    let cookies: KeyedMap<String, String> = KeyedMap::new();
    assert!(matches!(
        authenticate(answer(401), (), &cookies, false),
        Err(RemoteClientError::Unauthorized)
    ));
    assert!(matches!(
        validate_session_token(answer(401)),
        Err(RemoteClientError::SessionTokenExpired)
    ));
    assert!(matches!(
        validate_session_token(answer(302)),
        Err(RemoteClientError::ConnectionFailed(_))
    ));
    match validate_session_token(HttpReply::Answer {
        status: 200,
        body: Err("not json".to_string()),
    }) {
        Err(RemoteClientError::Other(message)) => assert_eq!(message, "not json"),
        other => panic!("{:?}", other),
    }
    let session = validate_session_token(answer(200)).unwrap();
    assert_eq!(session.web_client_id, "relay-client-1");
}

#[test]
fn the_cookie_is_kept_where_the_user_wishes_it() {
    let mut cookies: KeyedMap<String, String> = KeyedMap::new();
    assert!(first_session_cookie(&cookies).is_none());
    cookies.insert("theme".to_string(), "dark".to_string());
    assert!(first_session_cookie(&cookies).is_none());
    cookies.insert("relay_session".to_string(), "r".to_string());
    let cookie = first_session_cookie(&cookies).unwrap();
    assert_eq!((cookie.name.as_str(), cookie.value.as_str()), ("relay_session", "r"));
    cookies.insert("session_token".to_string(), "s".to_string());
    let cookie = first_session_cookie(&cookies).unwrap();
    assert_eq!((cookie.name.as_str(), cookie.value.as_str()), ("session_token", "s"));

    let kept = authenticate(answer(200), 5u8, &cookies, true).unwrap();
    assert_eq!(kept.http_client, 5);
    assert_eq!(kept.web_client_id, "relay-client-1");
    assert_eq!(kept.tunnel_id, Some("tid".to_string()));
    assert!(kept.e2e_encrypted);
    assert_eq!(kept.remembered.map(|c| c.value), Some("s".to_string()));
    let dropped = authenticate(answer(200), 5u8, &cookies, false).unwrap();
    assert!(dropped.remembered.is_none());
}

fn auth_result(e2e_encrypted: bool, tunnel_id: Option<&str>) -> AuthResult<()> {
    AuthResult {
        web_client_id: "w".to_string(),
        http_client: (),
        remembered: None,
        e2e_encrypted,
        tunnel_id: tunnel_id.map(|t| t.to_string()),
    }
}

#[test]
fn host_and_viewer_derive_the_same_key() {
    let key = derive_e2e_key_if_needed(&auth_result(true, Some("tid")), "raw");
    assert_eq!(key, Some(derive_key(&hash_token("raw"), "tid")));
    let mut host = RelayTunnelState::new("tid".to_string(), "sess".to_string());
    let valid = TokenValidation::Valid { is_read_only: true };
    let _ = host.handle_auth_challenge(vec![1], hash_token("raw"), valid);
    assert_eq!(key, Some(host.pending_e2e_keys[&1]));
}

#[test]
fn no_key_without_encryption_or_tunnel() {
    assert_eq!(
        derive_e2e_key_if_needed(&auth_result(false, Some("tid")), "raw"),
        None
    );
    assert_eq!(
        derive_e2e_key_if_needed(&auth_result(true, None), "raw"),
        None
    );
    assert!(lacks_tunnel_id(&auth_result(true, None)));
    assert!(!lacks_tunnel_id(&auth_result(true, Some("t"))));
    assert!(!lacks_tunnel_id(&auth_result(false, None)));
}

#[test]
fn attempts_give_sessions() {
    let (session, remembered) =
        remote_attach(auth_result(true, Some("tid")), "raw", Ok("sockets")).unwrap();
    assert_eq!(session.connections, "sockets");
    assert!(session.e2e_encrypted);
    assert_eq!(session.e2e_key, Some(derive_key(&hash_token("raw"), "tid")));
    assert!(remembered.is_none());
    let failed: Result<(AttachedSession<()>, Option<RememberedCookie>), RemoteClientError> =
        remote_attach(auth_result(true, Some("tid")), "raw", Err("closed".to_string()));
    assert!(matches!(
        failed,
        Err(RemoteClientError::ConnectionFailed(_))
    ));
    let reused = remote_attach_with_session_token(session_response(true), Ok(1)).unwrap();
    assert_eq!(reused.e2e_key, None);
    assert!(reused.e2e_encrypted);
    let plain = AttachedSession::plain(2);
    assert_eq!(plain.connections, 2);
    assert_eq!(plain.e2e_key, None);
    assert!(!plain.e2e_encrypted);
}

#[test]
fn a_token_makes_saved_sessions_worthless() {
    let plan = attach_to_remote_session(
        "https://host/r/abc/s",
        true,
        false,
        &["wss://Relay.Example".to_string()],
    )
    .unwrap();
    assert_eq!(plan.server_url, "https://host/r/abc");
    assert!(plan.forget_saved && !plan.try_saved);
    assert_eq!(plan.extra_known_hosts, vec!["relay.example".to_string()]);
    let plan = attach_to_remote_session("https://host/s", false, false, &[]).unwrap();
    assert!(!plan.forget_saved && plan.try_saved);
    let plan = attach_to_remote_session("https://host/s", false, true, &[]).unwrap();
    assert!(plan.forget_saved && plan.try_saved);
    assert!(attach_to_remote_session("nope", false, true, &[]).is_err());
}

fn saved(e2e_encrypted: bool) -> Option<SavedRemoteSession> {
    Some(SavedRemoteSession {
        cookie_name: "relay_session".to_string(),
        cookie_value: "v".to_string(),
        e2e_encrypted,
    })
}

fn plain_session(e2e_encrypted: bool) -> AttachedSession<u8> {
    AttachedSession {
        connections: 1,
        e2e_key: None,
        e2e_encrypted,
    }
}

#[test]
fn saved_sessions_are_tried_unless_they_were_encrypted() {
    assert!(saved_session_usable(&saved(false)));
    assert!(!saved_session_usable(&saved(true)));
    assert!(!saved_session_usable(&None));
    assert!(saved_session_e2e(&saved(true)));
    assert!(!saved_session_e2e(&saved(false)));
    assert!(!saved_session_e2e(&None));
    assert!(matches!(
        try_to_connect_with_saved_session_token(false, Ok(plain_session(false))),
        SavedOutcome::Attached(_)
    ));
    match try_to_connect_with_saved_session_token(true, Ok(plain_session(false))) {
        SavedOutcome::Refused {
            notice,
            error: RemoteClientError::ConnectionFailed(message),
        } => {
            assert_eq!(notice, SESSION_DOWNGRADE_NOTICE);
            assert_eq!(message, DOWNGRADE_MESSAGE);
        },
        other => panic!("{:?}", other),
    }
    let expired: SavedOutcome<u8> = try_to_connect_with_saved_session_token(
        false,
        Err(RemoteClientError::SessionTokenExpired),
    );
    assert!(matches!(expired, SavedOutcome::Expired));
    let failed: SavedOutcome<u8> =
        try_to_connect_with_saved_session_token(false, Err(RemoteClientError::Unauthorized));
    assert!(matches!(
        failed,
        SavedOutcome::Failed(RemoteClientError::Unauthorized)
    ));
}

#[test]
fn less_encryption_than_expected_is_refused() {
    for (expected, saved, notice_of) in [
        (true, false, PAGE_DOWNGRADE_NOTICE),
        (true, true, PAGE_DOWNGRADE_NOTICE),
        (false, true, SAVED_DOWNGRADE_NOTICE),
    ] {
        let state = AuthRetry::new(None, expected, saved);
        match state.finish_attempt("https://host/s", Ok((plain_session(false), None))) {
            AttemptOutcome::Refused {
                notice,
                error: RemoteClientError::ConnectionFailed(message),
            } => {
                assert_eq!(notice, notice_of);
                assert_eq!(message, "E2E downgrade refused");
            },
            other => panic!("{:?}", other),
        }
        assert!(matches!(
            state.finish_attempt("https://host/s", Ok((plain_session(true), None))),
            AttemptOutcome::Attached { save: None, .. }
        ));
    }
}

#[test]
fn a_kept_cookie_is_saved_for_the_server() {
    let state = AuthRetry::new(None, false, false);
    let cookie = RememberedCookie {
        name: "relay_session".to_string(),
        value: "v".to_string(),
    };
    match state.finish_attempt(
        "https://host/r/abc/s",
        Ok((plain_session(true), Some(cookie))),
    ) {
        AttemptOutcome::Attached {
            session,
            save: Some(saved),
        } => {
            assert_eq!(session.connections, 1);
            assert_eq!(saved.server_url, "https://host/r/abc");
            assert_eq!(saved.cookie.value, "v");
            assert!(saved.e2e_encrypted);
        },
        other => panic!("{:?}", other),
    }
}

#[test]
fn a_wrong_token_can_be_mended_twice() {
    let mut state = AuthRetry::new(Some("first".to_string()), false, false);
    assert_eq!(state.start_attempt(), Some("first".to_string()));
    for attempt in 1..=MAX_AUTH_ATTEMPTS {
        assert_eq!(state.attempt, attempt);
        let outcome: AttemptOutcome<u8> =
            state.finish_attempt("https://host/s", Err(RemoteClientError::InvalidAuthToken));
        if attempt < MAX_AUTH_ATTEMPTS {
            assert!(matches!(outcome, AttemptOutcome::AskAgain));
            assert!(state.answered(Ok(true)).is_ok());
            assert_eq!(state.start_attempt(), None);
        } else {
            match outcome {
                AttemptOutcome::Exhausted {
                    notice,
                    error: RemoteClientError::InvalidAuthToken,
                } => assert_eq!(notice, "Maximum authentication attempts (3) exceeded."),
                other => panic!("{:?}", other),
            }
        }
    }
    assert!(matches!(
        state.answered(Ok(false)),
        Err(RemoteClientError::InvalidAuthToken)
    ));
    assert!(matches!(
        state.answered(Err("no terminal".to_string())),
        Err(RemoteClientError::IoError(_))
    ));
    let other: AttemptOutcome<u8> =
        state.finish_attempt("https://host/s", Err(RemoteClientError::Unauthorized));
    assert!(matches!(
        other,
        AttemptOutcome::Failed(RemoteClientError::Unauthorized)
    ));
}

#[test]
fn the_banner_tells_the_encryption() {
    assert_eq!(
        expected_e2e_banner(true, "https://h"),
        "Connecting to https://h — session is \u{1b}[1;32mend-to-end encrypted\u{1b}[0m"
    );
    assert_eq!(
        expected_e2e_banner(false, "https://h"),
        "Connecting to https://h — session is \u{1b}[1;33mnot end-to-end encrypted\u{1b}[0m"
    );
}

#[test]
fn addresses_are_bounded() {
    assert!(address_fits("https://zellij.dev/r/abc/session"));
    assert!(address_fits(&"x".repeat(URL_LIMIT)));
    assert!(!address_fits(&"x".repeat(URL_LIMIT + 1)));
}
