# zellij_relay

Sharing terminal sessions through a relay, as a verified library.

A *session host* opens a tunnel to a *relay*; the relay gives the tunnel a slug
and a public address; *viewers* reach the session there. Host and viewer derive
a key from the viewer's token and the tunnel's id, and everything that the
terminal shows or takes is encrypted with it. The relay knows hashes of tokens
and passes ciphertext on.

## Layout

`src/` is the library; Verus verifies all of it.

| Modules | What they hold |
| --- | --- |
| `wire_format`, `wire_codec`, `wire_laws` | the protobuf wire format: what it is, code that reads and writes it, what holds of it |
| `protocol`, `control_frame`, `terminal_frame`, `conversion` | the messages between host and relay |
| `crypto` | key derivation and authenticated encryption |
| `registry`, `viewer`, `viewer_laws`, `tunnel_control`, `tunnel_terminal`, `router` | the relay: tunnels, viewers, read-only groups, who gets which frame |
| `multiplexer`, `relay_tunnel`, `relay_types` | the host's end of a tunnel |
| `web_server_*`, `instruction_for_web_server`, `protobuf_conversion`, `ipc_listener` | instructions to the host's web server |
| `http_handlers`, `cookies`, `web_client_assets`, `versioned_assets` | pages, logins, files of the web client |
| `remote_url`, `remote_auth`, `remote_attach`, `remote_error` | the client that attaches to a remote session |
| `text`, `keyed_map`, `collections`, `ids`, `slug`, `socket`, `random` | what the others share |

Public proof functions whose names begin with `law_` state what holds of several
functions together.

Calls into other crates stand in functions marked `external_body`, or behind an
`assume_specification`; the doc comment of each says what is believed of the
call. What such a call returns is named by a spec function without a body where
it would take pages to write down: `hkdf_sha256`, `aes256_gcm_sealed`,
`aes256_gcm_opened`, `sha256_digest`, `parsed_uuid`, `parsed_url`,
`url_with_path`, `lowercased`, `bundled_files`, `bundled_dirs`.

`tests/` runs the library. `app/` is ordinary Rust around it: the relay server,
the host's web server, the attaching client.
