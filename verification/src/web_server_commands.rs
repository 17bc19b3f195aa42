//! Instructions for the web server and its responses, as the rest of the
//! library handles them.

use crate::instruction_for_web_server::InstructionView;
use crate::web_server_response::ResponseView;
use vstd::prelude::*;

verus! {

/// The running version, and where the server listens.
#[derive(Debug, Clone)]
pub struct VersionInfo {
    pub version: String,
    pub ip: String,
    pub port: u16,
}

/// What the web server is told to do.
#[derive(Debug, Clone)]
pub enum InstructionForWebServer {
    ShutdownWebServer,
    QueryVersion,
    StartRelayTunnel {
        client_id: u16,
        session_name: String,
        relay_url: String,
        zellij_version: String,
        relay_tunnel_auth_token: String,
    },
    StopRelayTunnel { client_id: u16 },
    GetRelayTunnelStatus { client_id: u16 },
    RevokeRelayToken { token_hash: String },
}

impl View for InstructionForWebServer {
    type V = InstructionView;

    open spec fn view(&self) -> InstructionView {
        match *self {
            InstructionForWebServer::ShutdownWebServer => InstructionView::ShutdownWebServer,
            InstructionForWebServer::QueryVersion => InstructionView::QueryVersion,
            InstructionForWebServer::StartRelayTunnel {
                client_id,
                session_name,
                relay_url,
                zellij_version,
                relay_tunnel_auth_token,
            } => InstructionView::StartRelayTunnel {
                client_id: client_id as u32,
                session_name: session_name@,
                relay_url: relay_url@,
                zellij_version: zellij_version@,
                relay_tunnel_auth_token: relay_tunnel_auth_token@,
            },
            InstructionForWebServer::StopRelayTunnel {
                client_id,
            } => InstructionView::StopRelayTunnel {
                client_id: client_id as u32,
            },
            InstructionForWebServer::GetRelayTunnelStatus {
                client_id,
            } => InstructionView::GetRelayTunnelStatus {
                client_id: client_id as u32,
            },
            InstructionForWebServer::RevokeRelayToken {
                token_hash,
            } => InstructionView::RevokeRelayToken {
                token_hash: token_hash@,
            },
        }
    }
}

/// What the web server answers.
#[derive(Debug, Clone)]
pub enum WebServerResponse {
    Version(VersionInfo),
    RelayTunnelEstablished { client_id: u16, public_url: String, slug: String, tunnel_id: String },
    RelayTunnelStopped { client_id: u16 },
    RelayTunnelError { client_id: u16, message: String },
    RelayTunnelStatusReport { client_id: u16, status_url: Option<String> },
}

impl View for WebServerResponse {
    type V = ResponseView;

    open spec fn view(&self) -> ResponseView {
        match *self {
            WebServerResponse::Version(v) => ResponseView::Version {
                version: v.version@,
                ip: v.ip@,
                port: v.port as u32,
            },
            WebServerResponse::RelayTunnelEstablished {
                client_id,
                public_url,
                slug,
                tunnel_id,
            } => ResponseView::RelayTunnelEstablished {
                client_id: client_id as u32,
                public_url: public_url@,
                slug: slug@,
                tunnel_id: tunnel_id@,
            },
            WebServerResponse::RelayTunnelStopped {
                client_id,
            } => ResponseView::RelayTunnelStopped {
                client_id: client_id as u32,
            },
            WebServerResponse::RelayTunnelError {
                client_id,
                message,
            } => ResponseView::RelayTunnelError {
                client_id: client_id as u32,
                message: message@,
            },
            WebServerResponse::RelayTunnelStatusReport {
                client_id,
                status_url,
            } => ResponseView::RelayTunnelStatusReport {
                client_id: client_id as u32,
                status_url: (match status_url { Some(s) => Some(s@), None => None }),
            },
        }
    }
}

} // verus!
