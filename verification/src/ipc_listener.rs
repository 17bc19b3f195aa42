//! The socket on which the running web server takes instructions: how
//! messages are framed on it, and what the server does about each
//! instruction.

use crate::protobuf_conversion;
use crate::web_server_commands::{InstructionForWebServer, VersionInfo, WebServerResponse};
use crate::web_server_response::ResponseView;
use vstd::prelude::*;

verus! {

/// A 32-bit number in four bytes, the lowest first.
pub open spec fn le32(n: nat) -> Seq<u8> {
    seq![
        (n % 0x100) as u8,
        (n / 0x100 % 0x100) as u8,
        (n / 0x1_0000 % 0x100) as u8,
        (n / 0x100_0000 % 0x100) as u8,
    ]
}

/// The number that four bytes stand for, the lowest first.
pub open spec fn le32_value(bytes: Seq<u8>) -> nat {
    (bytes[0] + 0x100 * bytes[1] + 0x1_0000 * bytes[2] + 0x100_0000 * bytes[3]) as nat
}

/// Four bytes give back the number that they were made of.
pub proof fn law_le32_roundtrip(n: nat)
    requires
        n <= u32::MAX,
    ensures
        le32_value(le32(n)) == n,
{
}

/// The length that stands in front of a message.
pub fn message_length(prefix: [u8; 4]) -> (len: u32)
    ensures
        len == le32_value(prefix@),
{
    prefix[0] as u32 + 0x100 * prefix[1] as u32 + 0x1_0000 * prefix[2] as u32 + 0x100_0000
        * prefix[3] as u32
}

/// A message with its length in front. A length of more than 32 bits loses its
/// high bits.
pub open spec fn framed(message: Seq<u8>) -> Seq<u8> {
    le32(message.len() % 0x1_0000_0000) + message
}

fn le32_bytes(n: u32) -> (bytes: Vec<u8>)
    ensures
        bytes@ == le32(n as nat),
{
    let bytes: Vec<u8> = vec![
        (n % 0x100) as u8,
        (n / 0x100 % 0x100) as u8,
        (n / 0x1_0000 % 0x100) as u8,
        (n / 0x100_0000 % 0x100) as u8,
    ];
    proof {
        assert(bytes@ =~= le32(n as nat));
    }
    bytes
}

/// What is sent for a response.
pub fn response_frame(response: WebServerResponse) -> (frame: Vec<u8>)
    ensures
        frame@ == framed(response@.encoded()),
{
    let encoded = protobuf_conversion::encode_response(response);
    let len: u64 = encoded.len() as u64 % 0x1_0000_0000;
    let mut frame: Vec<u8> = le32_bytes(len as u32);
    frame.extend_from_slice(encoded.as_slice());
    proof {
        assert(frame@ =~= framed(encoded@));
    }
    frame
}

/// A message of less than four gigabytes is found again behind its length.
pub proof fn law_framed_message_found(message: Seq<u8>)
    requires
        message.len() <= u32::MAX,
    ensures
        le32_value(framed(message).take(4)) == message.len(),
        framed(message).skip(4) == message,
{
    law_le32_roundtrip(message.len());
    assert(framed(message).take(4) =~= le32(message.len()));
    assert(framed(message).skip(4) =~= message);
}

/// What happened at the socket.
#[derive(Debug)]
pub enum ListenerEvent {
    /// The socket could not be opened.
    NotListening,
    /// Someone connected, but what came was no instruction.
    NotReceived,
    Received(InstructionForWebServer),
}

/// What the server does next. After all but `Stop` and `ShutDown` it goes on
/// listening.
#[derive(Debug)]
pub enum ListenerAction {
    Stop,
    ShutDown,
    KeepListening,
    Respond(WebServerResponse),
    /// Open a tunnel and answer with [`tunnel_start_response`].
    StartTunnel {
        client_id: u16,
        session_name: String,
        relay_url: String,
        zellij_version: String,
        relay_tunnel_auth_token: String,
    },
    /// Close the client's tunnel if it has one and answer with
    /// [`tunnel_stop_response`].
    StopTunnel { client_id: u16 },
    /// Look up how the client's tunnel fares and answer with
    /// [`tunnel_status_response`].
    ReportStatus { client_id: u16 },
    /// Tell every open tunnel that a token is revoked. There is no answer.
    RevokeToken { token_hash: String },
}

/// What [`next_listener_action`] returns.
pub open spec fn listener_acts(
    event: ListenerEvent,
    version: Seq<char>,
    ip: Seq<char>,
    port: u16,
    action: ListenerAction,
) -> bool {
    match event {
        ListenerEvent::NotListening => action == ListenerAction::Stop,
        ListenerEvent::NotReceived => action == ListenerAction::KeepListening,
        ListenerEvent::Received(instruction) => match instruction {
            InstructionForWebServer::ShutdownWebServer => action == ListenerAction::ShutDown,
            InstructionForWebServer::QueryVersion => action matches ListenerAction::Respond(
                response,
            ) && response@ == (ResponseView::Version {
                version,
                ip,
                port: port as u32,
            }),
            InstructionForWebServer::StartRelayTunnel {
                client_id,
                session_name,
                relay_url,
                zellij_version,
                relay_tunnel_auth_token,
            } => action == (ListenerAction::StartTunnel {
                client_id,
                session_name,
                relay_url,
                zellij_version,
                relay_tunnel_auth_token,
            }),
            InstructionForWebServer::StopRelayTunnel { client_id } => action == (
            ListenerAction::StopTunnel { client_id }),
            InstructionForWebServer::GetRelayTunnelStatus { client_id } => action == (
            ListenerAction::ReportStatus { client_id }),
            InstructionForWebServer::RevokeRelayToken { token_hash } => action == (
            ListenerAction::RevokeToken { token_hash }),
        },
    }
}

/// What the server does about an event. `version`, `ip` and `port` are its own.
pub fn next_listener_action(
    event: ListenerEvent,
    version: &str,
    ip: &str,
    port: u16,
) -> (action: ListenerAction)
    ensures
        listener_acts(event, version@, ip@, port, action),
{
    match event {
        ListenerEvent::NotListening => ListenerAction::Stop,
        ListenerEvent::NotReceived => ListenerAction::KeepListening,
        ListenerEvent::Received(instruction) => match instruction {
            InstructionForWebServer::ShutdownWebServer => ListenerAction::ShutDown,
            InstructionForWebServer::QueryVersion => ListenerAction::Respond(
                WebServerResponse::Version(
                    VersionInfo { version: version.to_string(), ip: ip.to_string(), port },
                ),
            ),
            InstructionForWebServer::StartRelayTunnel {
                client_id,
                session_name,
                relay_url,
                zellij_version,
                relay_tunnel_auth_token,
            } => ListenerAction::StartTunnel {
                client_id,
                session_name,
                relay_url,
                zellij_version,
                relay_tunnel_auth_token,
            },
            InstructionForWebServer::StopRelayTunnel { client_id } => ListenerAction::StopTunnel {
                client_id,
            },
            InstructionForWebServer::GetRelayTunnelStatus { client_id } =>
                ListenerAction::ReportStatus { client_id },
            InstructionForWebServer::RevokeRelayToken { token_hash } =>
                ListenerAction::RevokeToken { token_hash },
        },
    }
}

/// The answer to a request for a tunnel: the public address of the tunnel, or
/// why there is none. Slug and id of the tunnel are not given away.
pub fn tunnel_start_response(client_id: u16, outcome: Result<String, String>) -> (response:
    WebServerResponse)
    ensures
        response@ == match outcome {
            Ok(public_url) => ResponseView::RelayTunnelEstablished {
                client_id: client_id as u32,
                public_url: public_url@,
                slug: Seq::empty(),
                tunnel_id: Seq::empty(),
            },
            Err(message) => ResponseView::RelayTunnelError {
                client_id: client_id as u32,
                message: message@,
            },
        },
{
    match outcome {
        Ok(public_url) => WebServerResponse::RelayTunnelEstablished {
            client_id,
            public_url,
            slug: String::new(),
            tunnel_id: String::new(),
        },
        Err(message) => WebServerResponse::RelayTunnelError { client_id, message },
    }
}

/// The answer to a request to stop a tunnel, whether or not there was one.
pub fn tunnel_stop_response(client_id: u16) -> (response: WebServerResponse)
    ensures
        response@ == (ResponseView::RelayTunnelStopped { client_id: client_id as u32 }),
{
    WebServerResponse::RelayTunnelStopped { client_id }
}

/// The answer to a question after a tunnel's status.
pub fn tunnel_status_response(client_id: u16, status_url: Option<String>) -> (response:
    WebServerResponse)
    ensures
        response@ == (ResponseView::RelayTunnelStatusReport {
            client_id: client_id as u32,
            status_url: match status_url {
                Some(s) => Some(s@),
                None => None,
            },
        }),
{
    WebServerResponse::RelayTunnelStatusReport { client_id, status_url }
}

/// The server stops only when it cannot listen, and shuts down only when told to;
/// whatever is no instruction it passes over. Every instruction about a client
/// is carried out for that client, with what came with it.
pub proof fn law_listener(
    event: ListenerEvent,
    version: Seq<char>,
    ip: Seq<char>,
    port: u16,
    action: ListenerAction,
)
    requires
        listener_acts(event, version, ip, port, action),
    ensures
        action is Stop <==> event is NotListening,
        action is KeepListening <==> event is NotReceived,
        action is ShutDown <==> (event matches ListenerEvent::Received(i) && i
            is ShutdownWebServer),
        action is Respond <==> (event matches ListenerEvent::Received(i) && i is QueryVersion),
        action matches ListenerAction::Respond(response) ==> response@ == (ResponseView::Version {
            version,
            ip,
            port: port as u32,
        }),
        event matches ListenerEvent::Received(
            InstructionForWebServer::StopRelayTunnel { client_id },
        ) ==> action == (ListenerAction::StopTunnel { client_id }),
        event matches ListenerEvent::Received(
            InstructionForWebServer::GetRelayTunnelStatus { client_id },
        ) ==> action == (ListenerAction::ReportStatus { client_id }),
        event matches ListenerEvent::Received(
            InstructionForWebServer::RevokeRelayToken { token_hash },
        ) ==> action == (ListenerAction::RevokeToken { token_hash }),
        action matches ListenerAction::StartTunnel {
            client_id,
            session_name,
            relay_url,
            zellij_version,
            relay_tunnel_auth_token,
        } ==> event == ListenerEvent::Received(
            InstructionForWebServer::StartRelayTunnel {
                client_id,
                session_name,
                relay_url,
                zellij_version,
                relay_tunnel_auth_token,
            },
        ),
        event matches ListenerEvent::Received(i) ==> i is StartRelayTunnel ==> action
            is StartTunnel,
{
}

} // verus!
