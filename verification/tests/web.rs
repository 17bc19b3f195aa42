use include_dir::{Dir, DirEntry, File};
use zellij_relay::cookies::find_cookie;
use zellij_relay::crypto::derive_key;
use zellij_relay::http_handlers::{
    create_new_client, create_new_client_with, get_static_asset, html_escape, login_handler,
    serve_html, serve_relay_html, LoginReply, StaticAsset,
};
use zellij_relay::ids::id_bytes;
use zellij_relay::ipc_listener::{
    message_length, next_listener_action, response_frame, tunnel_start_response,
    tunnel_status_response, tunnel_stop_response, ListenerAction, ListenerEvent,
};
use zellij_relay::protobuf_conversion::decode_response;
use zellij_relay::text::{decimal_text, hex_text, replace_all, split, trim};
use zellij_relay::versioned_assets;
use zellij_relay::versioned_assets::ServedAsset;
use zellij_relay::web_client_assets::{lookup, mime_type_for_extension, trim_leading_slashes};
use zellij_relay::web_server_commands::{InstructionForWebServer, WebServerResponse};

const PAGE: &str =
    "IS_AUTHENTICATED EXPECTED_E2E IS_READ_ONLY SESSION_ROWS SESSION_COLS AUTH_MODE BASE_URL";

#[test]
fn local_page_is_filled_in() {
    let cookies = vec!["a=b; session_token=x".to_string()];
    assert_eq!(
        serve_html(PAGE, &cookies, true, None),
        "true true false 0 0 local /"
    );
    assert_eq!(
        serve_html(PAGE, &[], false, Some("/a\"<b>&'".to_string())),
        "false false false 0 0 local /a&quot;&lt;b&gt;&amp;&#x27;"
    );
}

#[test]
fn relay_page_always_expects_encryption() {
    assert_eq!(
        serve_relay_html("IS_AUTHENTICATED EXPECTED_E2E BASE_URL", "abc"),
        "false true /r/abc/"
    );
}

#[test]
fn escaped_text_has_no_markup() {
    assert_eq!(
        html_escape("<a href=\"x\">'&amp;'</a>"),
        "&lt;a href=&quot;x&quot;&gt;&#x27;&amp;amp;&#x27;&lt;/a&gt;"
    );
    assert_eq!(html_escape("plain å"), "plain å");
}

#[test]
fn logins_are_answered_with_a_cookie() {
    match login_handler(Some("tok".to_string()), Some(true), true) {
        LoginReply::Accepted { response, cookie } => {
            assert!(response.success);
            assert_eq!(response.message, "Login successful");
            assert_eq!(
                cookie,
                "session_token=tok; HttpOnly; SameSite=Strict; Secure; Path=/; Max-Age=2419200"
            );
        },
        other => panic!("{:?}", other),
    }
    match login_handler(Some("tok".to_string()), None, false) {
        LoginReply::Accepted { cookie, .. } => {
            assert_eq!(cookie, "session_token=tok; HttpOnly; SameSite=Strict; Path=/")
        },
        other => panic!("{:?}", other),
    }
    match login_handler(None, Some(true), true) {
        LoginReply::Rejected { response } => {
            assert!(!response.success);
            assert_eq!(response.message, "Invalid authentication token");
        },
        other => panic!("{:?}", other),
    }
}

#[test]
fn new_clients_get_what_their_login_allows() {
    let client = create_new_client_with(
        Some(false),
        Some("session".to_string()),
        Some("auth".to_string()),
        Ok(()),
        true,
        "tid",
        "web-1".to_string(),
    )
    .unwrap();
    assert_eq!(client.session_token_hash, "session");
    assert_eq!(client.e2e_key, Some(derive_key("auth", "tid")));
    assert_eq!(client.response.web_client_id, "web-1");
    assert!(!client.response.is_read_only);
    assert!(client.response.e2e_encrypted);
    assert_eq!(client.response.tunnel_id, "tid");
    assert_eq!(
        (client.response.session_rows, client.response.session_cols),
        (0, 0)
    );

    let unnamed = create_new_client(None, None, None, Ok(()), true, "tid");
    assert_eq!(unnamed.unwrap_err(), "Missing session info");
    let failed = create_new_client(
        None,
        Some("s".to_string()),
        None,
        Err("no socket".to_string()),
        true,
        "tid",
    );
    assert_eq!(failed.unwrap_err(), "no socket");
    let a = create_new_client(None, Some("s".to_string()), None, Ok(()), true, "tid").unwrap();
    let b = create_new_client(None, Some("s".to_string()), None, Ok(()), true, "tid").unwrap();
    assert!(a.response.is_read_only);
    assert!(!a.response.e2e_encrypted);
    assert_eq!(a.e2e_key, None);
    assert_ne!(a.response.web_client_id, b.response.web_client_id);
    assert_eq!(a.response.web_client_id.len(), 36);
}

#[test]
fn cookies_are_found_by_name() {
    let headers = vec![
        "a=1; b=2".to_string(),
        "garbage".to_string(),
        " relay_session = x ; b=3".to_string(),
    ];
    assert_eq!(find_cookie(&headers, "a"), Some("1".to_string()));
    assert_eq!(find_cookie(&headers, "b"), Some("3".to_string()));
    assert_eq!(
        find_cookie(&headers, "relay_session"),
        Some("x".to_string())
    );
    assert_eq!(find_cookie(&headers, "c"), None);
    assert_eq!(find_cookie(&[], "a"), None);
}

/// A directory with these files, for as long as the program runs.
fn files_of(files: &[(&'static str, &'static [u8])]) -> Dir<'static> {
    let entries: Vec<DirEntry<'static>> = files
        .iter()
        .map(|(path, contents)| DirEntry::File(File::new(path, contents)))
        .collect();
    Dir::new("", Box::leak(entries.into_boxed_slice()))
}

fn assets() -> Dir<'static> {
    files_of(&[
        ("index.html", b"<html>"),
        ("style.css", b"body{}"),
        ("app.js", b"let a;"),
        ("icon.png", b"png"),
        ("LICENSE", b"MIT"),
    ])
}

#[test]
fn bundled_files_are_found() {
    let dir = assets();
    let found = lookup(&dir, None, "//style.css").expect("a file");
    assert_eq!(found.content_type, "text/css");
    assert_eq!(found.contents, b"body{}");
    assert!(lookup(&dir, None, "missing.css").is_none());
    assert!(lookup(&dir, None, "clip.wasm").is_none());
    let clip = lookup(&dir, Some(b"wasm"), "/clip.wasm").expect("the module");
    assert_eq!(clip.content_type, "application/wasm");
    assert_eq!(clip.contents, b"wasm");
    match get_static_asset(&dir, None, "app.js") {
        StaticAsset::Found(response) => {
            assert_eq!(response.content_type, "application/javascript")
        },
        other => panic!("{:?}", other),
    }
    assert!(matches!(
        get_static_asset(&dir, None, "no"),
        StaticAsset::Missing
    ));
}

#[test]
fn content_types_go_by_the_extension() {
    for (ext, expected) in [
        (Some("html"), "text/html"),
        (Some("css"), "text/css"),
        (Some("js"), "application/javascript"),
        (Some("wasm"), "application/wasm"),
        (Some("png"), "image/png"),
        (Some("ico"), "image/x-icon"),
        (Some("svg"), "image/svg+xml"),
        (Some("HTML"), "text/plain"),
        (None, "text/plain"),
    ] {
        assert_eq!(mime_type_for_extension(ext), expected, "{:?}", ext);
    }
    assert_eq!(trim_leading_slashes("///a/b"), "a/b");
}

#[test]
fn versions_have_their_own_copies() {
    let current = assets();
    let inner: Vec<DirEntry<'static>> =
        vec![DirEntry::File(File::new("0.44.0/app.js", b"old"))];
    let version = Dir::new("0.44.0", Box::leak(inner.into_boxed_slice()));
    let copies = Dir::new(
        "",
        Box::leak(vec![DirEntry::Dir(version)].into_boxed_slice()),
    );
    assert!(versioned_assets::has_version(&copies, "0.44.0"));
    assert!(versioned_assets::has_version(
        &copies,
        versioned_assets::RELAY_VERSION
    ));
    assert!(!versioned_assets::has_version(&copies, "0.43.0"));
    let old = versioned_assets::lookup(&current, None, &copies, "0.44.0", "/app.js")
        .expect("a file");
    assert_eq!(old.contents, b"old");
    assert_eq!(old.content_type, "application/javascript");
    let own = versioned_assets::lookup(
        &current,
        None,
        &copies,
        versioned_assets::RELAY_VERSION,
        "app.js",
    )
    .expect("a file");
    assert_eq!(own.contents, b"let a;");
    assert!(versioned_assets::lookup(&current, None, &copies, "0.43.0", "app.js").is_none());
    let serve = |version, path| {
        versioned_assets::serve_asset(&current, Some(b"wasm"), &copies, version, path)
    };
    assert!(matches!(
        serve("0.43.0", "app.js"),
        ServedAsset::UnsupportedVersion
    ));
    assert!(matches!(serve("0.44.0", "clip.wasm"), ServedAsset::Missing));
    match serve("0.44.0", "app.js") {
        ServedAsset::Found(response) => assert_eq!(response.contents, b"old"),
        other => panic!("{:?}", other),
    }
    match serve(versioned_assets::RELAY_VERSION, "/clip.wasm") {
        ServedAsset::Found(response) => assert_eq!(response.contents, b"wasm"),
        other => panic!("{:?}", other),
    }
}

#[test]
fn instructions_lead_to_actions() {
    let act = |instruction| {
        next_listener_action(
            ListenerEvent::Received(instruction),
            "0.45.0",
            "127.0.0.1",
            8082,
        )
    };
    assert!(matches!(
        next_listener_action(ListenerEvent::NotListening, "", "", 0),
        ListenerAction::Stop
    ));
    assert!(matches!(
        next_listener_action(ListenerEvent::NotReceived, "", "", 0),
        ListenerAction::KeepListening
    ));
    assert!(matches!(
        act(InstructionForWebServer::ShutdownWebServer),
        ListenerAction::ShutDown
    ));
    match act(InstructionForWebServer::QueryVersion) {
        ListenerAction::Respond(WebServerResponse::Version(info)) => {
            assert_eq!(info.version, "0.45.0");
            assert_eq!(info.ip, "127.0.0.1");
            assert_eq!(info.port, 8082);
        },
        other => panic!("{:?}", other),
    }
    match act(InstructionForWebServer::StartRelayTunnel {
        client_id: 7,
        session_name: "foo".to_string(),
        relay_url: "ws://x".to_string(),
        zellij_version: "0.45.0".to_string(),
        relay_tunnel_auth_token: "secret-token".to_string(),
    }) {
        ListenerAction::StartTunnel {
            client_id,
            session_name,
            relay_url,
            zellij_version,
            relay_tunnel_auth_token,
        } => {
            assert_eq!(client_id, 7);
            assert_eq!(session_name, "foo");
            assert_eq!(relay_url, "ws://x");
            assert_eq!(zellij_version, "0.45.0");
            assert_eq!(relay_tunnel_auth_token, "secret-token");
        },
        other => panic!("{:?}", other),
    }
    assert!(matches!(
        act(InstructionForWebServer::StopRelayTunnel { client_id: 4 }),
        ListenerAction::StopTunnel { client_id: 4 }
    ));
    assert!(matches!(
        act(InstructionForWebServer::GetRelayTunnelStatus { client_id: 4 }),
        ListenerAction::ReportStatus { client_id: 4 }
    ));
    match act(InstructionForWebServer::RevokeRelayToken {
        token_hash: "h".to_string(),
    }) {
        ListenerAction::RevokeToken { token_hash } => assert_eq!(token_hash, "h"),
        other => panic!("{:?}", other),
    }
}

#[test]
fn responses_are_framed_with_their_length() {
    let frame = response_frame(tunnel_stop_response(9));
    assert_eq!(message_length([frame[0], frame[1], frame[2], frame[3]]), 4);
    assert_eq!(message_length([1, 2, 3, 4]), 0x0403_0201);
    match decode_response(&frame[4..]) {
        Ok(WebServerResponse::RelayTunnelStopped { client_id }) => assert_eq!(client_id, 9),
        other => panic!("{:?}", other),
    }
}

#[test]
fn tunnel_requests_are_answered() {
    match tunnel_start_response(3, Ok("http://x/r/abc".to_string())) {
        WebServerResponse::RelayTunnelEstablished {
            client_id,
            public_url,
            slug,
            tunnel_id,
        } => {
            assert_eq!(client_id, 3);
            assert_eq!(public_url, "http://x/r/abc");
            assert_eq!(slug, "");
            assert_eq!(tunnel_id, "");
        },
        other => panic!("{:?}", other),
    }
    match tunnel_start_response(3, Err("nope".to_string())) {
        WebServerResponse::RelayTunnelError { client_id, message } => {
            assert_eq!(client_id, 3);
            assert_eq!(message, "nope");
        },
        other => panic!("{:?}", other),
    }
    match tunnel_status_response(3, Some("u".to_string())) {
        WebServerResponse::RelayTunnelStatusReport {
            client_id,
            status_url,
        } => {
            assert_eq!(client_id, 3);
            assert_eq!(status_url, Some("u".to_string()));
        },
        other => panic!("{:?}", other),
    }
}

#[test]
fn texts_and_numbers() {
    assert_eq!(decimal_text(0), "0");
    assert_eq!(decimal_text(u64::MAX), "18446744073709551615");
    assert_eq!(hex_text(&[0x00, 0x0f, 0xab]), "000fab");
    assert_eq!(replace_all("aaa", "aa", "b"), "ba");
    assert_eq!(trim("\u{3000} a b\n"), "a b");
    assert_eq!(
        split("a//b", '/'),
        vec!["a".to_string(), String::new(), "b".to_string()]
    );
    assert_eq!(id_bytes(0x0102), {
        let mut bytes = vec![0u8; 14];
        bytes.extend([1, 2]);
        bytes
    });
}

#[test]
fn slashes_at_the_front_make_no_difference() {
    let dir = assets();
    for path in ["style.css", "LICENSE", "missing"] {
        let plain = lookup(&dir, None, path);
        let slashed = lookup(&dir, None, &format!("//{}", path));
        assert_eq!(
            plain.map(|r| (r.content_type, r.contents)),
            slashed.map(|r| (r.content_type, r.contents))
        );
    }
}

#[test]
fn an_unknown_version_has_no_files() {
    let current = assets();
    let stray = vec![DirEntry::File(File::new("0.43.0/app.js", b"stray"))];
    let copies = Dir::new("", Box::leak(stray.into_boxed_slice()));
    assert!(!versioned_assets::has_version(&copies, "0.43.0"));
    assert!(versioned_assets::lookup(&current, None, &copies, "0.43.0", "app.js").is_none());
}

#[test]
fn the_content_type_goes_by_the_path_that_is_asked_for() {
    let dir = assets();
    for (path, content_type) in [
        ("style.css", "text/css"),
        ("style.css/", "text/css"),
        ("style.css/.", "text/css"),
        ("LICENSE", "text/plain"),
        ("app.js", "application/javascript"),
    ] {
        assert_eq!(
            lookup(&dir, None, path).map(|r| r.content_type),
            Some(content_type),
            "{}",
            path
        );
    }
}
