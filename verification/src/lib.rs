//! Relay for sharing terminal sessions: the wire protocol between a session
//! host and the relay, the relay's own bookkeeping, and the host's and the
//! viewer's side of a tunnel.

pub mod collections;
pub mod control_frame;
pub mod conversion;
pub mod cookies;
pub mod crypto;
pub mod fanout_laws;
pub mod host_laws;
pub mod http_handlers;
pub mod ids;
pub mod instruction_for_web_server;
pub mod ipc_listener;
pub mod keyed_map;
pub mod multiplexer;
pub mod page_laws;
pub mod protobuf_conversion;
pub mod protocol;
pub mod protocol_laws;
mod random;
pub mod registry;
pub mod relay_laws;
pub mod relay_tunnel;
pub mod relay_types;
pub mod remote_attach;
pub mod remote_auth;
pub mod remote_error;
pub mod remote_laws;
pub mod remote_url;
pub mod router;
pub mod session_laws;
pub mod slug;
pub mod socket;
pub mod terminal_frame;
pub mod text;
pub mod text_laws;
pub mod tunnel_control;
pub mod tunnel_terminal;
pub mod versioned_assets;
pub mod viewer;
pub mod viewer_laws;
pub mod web_client_assets;
pub mod web_server_commands;
pub mod web_server_contract;
pub mod web_server_response;
pub mod wire_codec;
pub mod wire_format;
pub mod wire_laws;
