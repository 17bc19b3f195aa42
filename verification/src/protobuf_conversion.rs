//! Between the messages of the web server and the envelopes they travel in.
//! Client ids and ports have sixteen bits and travel as 32-bit numbers; what
//! comes in is cut to sixteen bits.

use crate::instruction_for_web_server;
use crate::instruction_for_web_server::{Instruction, InstructionView};
use crate::web_server_commands::{InstructionForWebServer, VersionInfo, WebServerResponse};
use crate::web_server_contract;
use crate::web_server_contract::{
    ContractError, GetRelayTunnelStatusMsg, QueryVersionMsg, RelayTunnelErrorMsg,
    RelayTunnelEstablishedMsg, RelayTunnelStatusReportMsg, RelayTunnelStoppedMsg,
    RevokeRelayTokenMsg, ShutdownWebServerMsg, StartRelayTunnelMsg, StopRelayTunnelMsg,
    VersionResponseMsg,
};
use crate::web_server_response;
use crate::web_server_response::{Response, ResponseView};
use crate::wire_format;
use crate::wire_laws;
use vstd::prelude::*;

verus! {

impl From<InstructionForWebServer> for web_server_contract::InstructionForWebServer {
    fn from(message: InstructionForWebServer) -> (
        envelope: web_server_contract::InstructionForWebServer
    ) {
        let inner = match message {
            InstructionForWebServer::ShutdownWebServer => Instruction::ShutdownWebServer(
                ShutdownWebServerMsg {  },
            ),
            InstructionForWebServer::QueryVersion => Instruction::QueryVersion(
                QueryVersionMsg {  },
            ),
            InstructionForWebServer::StartRelayTunnel {
                client_id,
                session_name,
                relay_url,
                zellij_version,
                relay_tunnel_auth_token,
            } => Instruction::StartRelayTunnel(
                StartRelayTunnelMsg {
                    client_id: client_id as u32,
                    session_name,
                    relay_url,
                    zellij_version,
                    relay_tunnel_auth_token,
                },
            ),
            InstructionForWebServer::StopRelayTunnel { client_id } => Instruction::StopRelayTunnel(
                StopRelayTunnelMsg { client_id: client_id as u32 },
            ),
            InstructionForWebServer::GetRelayTunnelStatus {
                client_id,
            } => Instruction::GetRelayTunnelStatus(
                GetRelayTunnelStatusMsg { client_id: client_id as u32 },
            ),
            InstructionForWebServer::RevokeRelayToken {
                token_hash,
            } => Instruction::RevokeRelayToken(
                RevokeRelayTokenMsg { token_hash },
            ),
        };
        web_server_contract::InstructionForWebServer { instruction: Some(inner) }
    }
}

impl vstd::std_specs::convert::FromSpecImpl<InstructionForWebServer> for web_server_contract::InstructionForWebServer {
    open spec fn obeys_from_spec() -> bool {
        true
    }

    open spec fn from_spec(
        message: InstructionForWebServer,
    ) -> web_server_contract::InstructionForWebServer {
        web_server_contract::InstructionForWebServer {
            instruction: Some(
                match message {
                    InstructionForWebServer::ShutdownWebServer => Instruction::ShutdownWebServer(
                        ShutdownWebServerMsg {  },
                    ),
                    InstructionForWebServer::QueryVersion => Instruction::QueryVersion(
                        QueryVersionMsg {  },
                    ),
                    InstructionForWebServer::StartRelayTunnel {
                        client_id,
                        session_name,
                        relay_url,
                        zellij_version,
                        relay_tunnel_auth_token,
                    } => Instruction::StartRelayTunnel(
                        StartRelayTunnelMsg {
                            client_id: client_id as u32,
                            session_name,
                            relay_url,
                            zellij_version,
                            relay_tunnel_auth_token,
                        },
                    ),
                    InstructionForWebServer::StopRelayTunnel {
                        client_id,
                    } => Instruction::StopRelayTunnel(
                        StopRelayTunnelMsg { client_id: client_id as u32 },
                    ),
                    InstructionForWebServer::GetRelayTunnelStatus {
                        client_id,
                    } => Instruction::GetRelayTunnelStatus(
                        GetRelayTunnelStatusMsg { client_id: client_id as u32 },
                    ),
                    InstructionForWebServer::RevokeRelayToken {
                        token_hash,
                    } => Instruction::RevokeRelayToken(
                        RevokeRelayTokenMsg { token_hash },
                    ),
                },
            ),
        }
    }
}

impl TryFrom<web_server_contract::InstructionForWebServer> for InstructionForWebServer {
    type Error = ContractError;

    fn try_from(envelope: web_server_contract::InstructionForWebServer) -> (r:
        Result<InstructionForWebServer, ContractError>) {
        match envelope.instruction {
            None => Err(ContractError::MissingInstruction),
            Some(inner) => Ok(
                match inner {
                    Instruction::ShutdownWebServer(_) => InstructionForWebServer::ShutdownWebServer,
                    Instruction::QueryVersion(_) => InstructionForWebServer::QueryVersion,
                    Instruction::StartRelayTunnel(m) => InstructionForWebServer::StartRelayTunnel {
                        client_id: #[verifier::truncate] (m.client_id as u16),
                        session_name: m.session_name,
                        relay_url: m.relay_url,
                        zellij_version: m.zellij_version,
                        relay_tunnel_auth_token: m.relay_tunnel_auth_token,
                    },
                    Instruction::StopRelayTunnel(m) => InstructionForWebServer::StopRelayTunnel {
                        client_id: #[verifier::truncate] (m.client_id as u16),
                    },
                    Instruction::GetRelayTunnelStatus(
                        m,
                    ) => InstructionForWebServer::GetRelayTunnelStatus {
                        client_id: #[verifier::truncate] (m.client_id as u16),
                    },
                    Instruction::RevokeRelayToken(m) => InstructionForWebServer::RevokeRelayToken {
                        token_hash: m.token_hash,
                    },
                },
            ),
        }
    }
}

impl vstd::std_specs::convert::TryFromSpecImpl<web_server_contract::InstructionForWebServer> for InstructionForWebServer {
    open spec fn obeys_try_from_spec() -> bool {
        true
    }

    open spec fn try_from_spec(
        envelope: web_server_contract::InstructionForWebServer,
    ) -> Result<InstructionForWebServer, ContractError> {
        match envelope.instruction {
            None => Err(ContractError::MissingInstruction),
            Some(inner) => Ok(
                match inner {
                    Instruction::ShutdownWebServer(_) => InstructionForWebServer::ShutdownWebServer,
                    Instruction::QueryVersion(_) => InstructionForWebServer::QueryVersion,
                    Instruction::StartRelayTunnel(m) => InstructionForWebServer::StartRelayTunnel {
                        client_id: m.client_id as u16,
                        session_name: m.session_name,
                        relay_url: m.relay_url,
                        zellij_version: m.zellij_version,
                        relay_tunnel_auth_token: m.relay_tunnel_auth_token,
                    },
                    Instruction::StopRelayTunnel(m) => InstructionForWebServer::StopRelayTunnel {
                        client_id: m.client_id as u16,
                    },
                    Instruction::GetRelayTunnelStatus(
                        m,
                    ) => InstructionForWebServer::GetRelayTunnelStatus {
                        client_id: m.client_id as u16,
                    },
                    Instruction::RevokeRelayToken(m) => InstructionForWebServer::RevokeRelayToken {
                        token_hash: m.token_hash,
                    },
                },
            ),
        }
    }
}

/// A instruction is unchanged by the way through its envelope.
pub proof fn law_instruction_envelope_inverse(message: InstructionForWebServer)
    ensures
        <InstructionForWebServer as vstd::std_specs::convert::TryFromSpec<web_server_contract::InstructionForWebServer>>::try_from_spec(
            <web_server_contract::InstructionForWebServer as vstd::std_specs::convert::FromSpec<InstructionForWebServer>>::from_spec(
                message,
            ),
        ) == Ok::<InstructionForWebServer, ContractError>(message),
{
}

/// The bytes of a instruction.
pub fn encode_instruction(message: InstructionForWebServer) -> (bytes: Vec<u8>)
    ensures
        bytes@ == message@.encoded(),
{
    let envelope = web_server_contract::InstructionForWebServer::from(message);
    envelope.encode_to_vec()
}

/// Reads a instruction.
pub fn decode_instruction(bytes: &[u8]) -> (r: Result<InstructionForWebServer, ContractError>)
    ensures
        match wire_format::decode_frame(instruction_for_web_server::schema(), bytes@) {
            None => r == Err::<InstructionForWebServer, ContractError>(ContractError::Malformed),
            Some(None) => r == Err::<InstructionForWebServer, ContractError>(
                ContractError::MissingInstruction,
            ),
            Some(Some(content)) => r matches Ok(message) && message@ == InstructionView::of_content(
                content,
            ).narrowed(),
        },
{
    let envelope = match web_server_contract::InstructionForWebServer::decode(bytes) {
        Ok(envelope) => envelope,
        Err(e) => {
            return Err(e);
        },
    };
    proof {
        if envelope.instruction is Some {
            instruction_for_web_server::lemma_content(envelope.instruction->0@);
        }
        lemma_narrow();
    }
    InstructionForWebServer::try_from(envelope)
}

/// A instruction is decoded from its own bytes.
pub proof fn law_instruction_roundtrip(message: InstructionForWebServer)
    requires
        message@.encoded().len() <= u64::MAX,
    ensures
        wire_format::decode_frame(instruction_for_web_server::schema(), message@.encoded()) == Some(
            Some(message@.content()),
        ),
        InstructionView::of_content(message@.content()).narrowed() == message@,
{
    instruction_for_web_server::lemma_content(message@);
    wire_laws::law_frame_roundtrip(instruction_for_web_server::schema(), Some(message@.content()));
}

impl From<WebServerResponse> for web_server_contract::WebServerResponse {
    fn from(message: WebServerResponse) -> (envelope: web_server_contract::WebServerResponse) {
        let inner = match message {
            WebServerResponse::Version(v) => Response::Version(
                VersionResponseMsg { version: v.version, ip: v.ip, port: v.port as u32 },
            ),
            WebServerResponse::RelayTunnelEstablished {
                client_id,
                public_url,
                slug,
                tunnel_id,
            } => Response::RelayTunnelEstablished(
                RelayTunnelEstablishedMsg {
                    client_id: client_id as u32,
                    public_url,
                    slug,
                    tunnel_id,
                },
            ),
            WebServerResponse::RelayTunnelStopped { client_id } => Response::RelayTunnelStopped(
                RelayTunnelStoppedMsg { client_id: client_id as u32 },
            ),
            WebServerResponse::RelayTunnelError {
                client_id,
                message,
            } => Response::RelayTunnelError(
                RelayTunnelErrorMsg { client_id: client_id as u32, message },
            ),
            WebServerResponse::RelayTunnelStatusReport {
                client_id,
                status_url,
            } => Response::RelayTunnelStatusReport(
                RelayTunnelStatusReportMsg { client_id: client_id as u32, status_url },
            ),
        };
        web_server_contract::WebServerResponse { response: Some(inner) }
    }
}

impl vstd::std_specs::convert::FromSpecImpl<WebServerResponse> for web_server_contract::WebServerResponse {
    open spec fn obeys_from_spec() -> bool {
        true
    }

    open spec fn from_spec(message: WebServerResponse) -> web_server_contract::WebServerResponse {
        web_server_contract::WebServerResponse {
            response: Some(
                match message {
                    WebServerResponse::Version(v) => Response::Version(
                        VersionResponseMsg { version: v.version, ip: v.ip, port: v.port as u32 },
                    ),
                    WebServerResponse::RelayTunnelEstablished {
                        client_id,
                        public_url,
                        slug,
                        tunnel_id,
                    } => Response::RelayTunnelEstablished(
                        RelayTunnelEstablishedMsg {
                            client_id: client_id as u32,
                            public_url,
                            slug,
                            tunnel_id,
                        },
                    ),
                    WebServerResponse::RelayTunnelStopped {
                        client_id,
                    } => Response::RelayTunnelStopped(
                        RelayTunnelStoppedMsg { client_id: client_id as u32 },
                    ),
                    WebServerResponse::RelayTunnelError {
                        client_id,
                        message,
                    } => Response::RelayTunnelError(
                        RelayTunnelErrorMsg { client_id: client_id as u32, message },
                    ),
                    WebServerResponse::RelayTunnelStatusReport {
                        client_id,
                        status_url,
                    } => Response::RelayTunnelStatusReport(
                        RelayTunnelStatusReportMsg { client_id: client_id as u32, status_url },
                    ),
                },
            ),
        }
    }
}

impl TryFrom<web_server_contract::WebServerResponse> for WebServerResponse {
    type Error = ContractError;

    fn try_from(envelope: web_server_contract::WebServerResponse) -> (r:
        Result<WebServerResponse, ContractError>) {
        match envelope.response {
            None => Err(ContractError::MissingResponse),
            Some(inner) => Ok(
                match inner {
                    Response::Version(m) => WebServerResponse::Version(
                        VersionInfo {
                            version: m.version,
                            ip: m.ip,
                            port: #[verifier::truncate] (m.port as u16),
                        },
                    ),
                    Response::RelayTunnelEstablished(
                        m,
                    ) => WebServerResponse::RelayTunnelEstablished {
                        client_id: #[verifier::truncate] (m.client_id as u16),
                        public_url: m.public_url,
                        slug: m.slug,
                        tunnel_id: m.tunnel_id,
                    },
                    Response::RelayTunnelStopped(m) => WebServerResponse::RelayTunnelStopped {
                        client_id: #[verifier::truncate] (m.client_id as u16),
                    },
                    Response::RelayTunnelError(m) => WebServerResponse::RelayTunnelError {
                        client_id: #[verifier::truncate] (m.client_id as u16),
                        message: m.message,
                    },
                    Response::RelayTunnelStatusReport(
                        m,
                    ) => WebServerResponse::RelayTunnelStatusReport {
                        client_id: #[verifier::truncate] (m.client_id as u16),
                        status_url: m.status_url,
                    },
                },
            ),
        }
    }
}

impl vstd::std_specs::convert::TryFromSpecImpl<web_server_contract::WebServerResponse> for WebServerResponse {
    open spec fn obeys_try_from_spec() -> bool {
        true
    }

    open spec fn try_from_spec(
        envelope: web_server_contract::WebServerResponse,
    ) -> Result<WebServerResponse, ContractError> {
        match envelope.response {
            None => Err(ContractError::MissingResponse),
            Some(inner) => Ok(
                match inner {
                    Response::Version(m) => WebServerResponse::Version(
                        VersionInfo { version: m.version, ip: m.ip, port: m.port as u16 },
                    ),
                    Response::RelayTunnelEstablished(
                        m,
                    ) => WebServerResponse::RelayTunnelEstablished {
                        client_id: m.client_id as u16,
                        public_url: m.public_url,
                        slug: m.slug,
                        tunnel_id: m.tunnel_id,
                    },
                    Response::RelayTunnelStopped(m) => WebServerResponse::RelayTunnelStopped {
                        client_id: m.client_id as u16,
                    },
                    Response::RelayTunnelError(m) => WebServerResponse::RelayTunnelError {
                        client_id: m.client_id as u16,
                        message: m.message,
                    },
                    Response::RelayTunnelStatusReport(
                        m,
                    ) => WebServerResponse::RelayTunnelStatusReport {
                        client_id: m.client_id as u16,
                        status_url: m.status_url,
                    },
                },
            ),
        }
    }
}

/// A response is unchanged by the way through its envelope.
pub proof fn law_response_envelope_inverse(message: WebServerResponse)
    ensures
        <WebServerResponse as vstd::std_specs::convert::TryFromSpec<web_server_contract::WebServerResponse>>::try_from_spec(
            <web_server_contract::WebServerResponse as vstd::std_specs::convert::FromSpec<WebServerResponse>>::from_spec(
                message,
            ),
        ) == Ok::<WebServerResponse, ContractError>(message),
{
}

/// The bytes of a response.
pub fn encode_response(message: WebServerResponse) -> (bytes: Vec<u8>)
    ensures
        bytes@ == message@.encoded(),
{
    let envelope = web_server_contract::WebServerResponse::from(message);
    envelope.encode_to_vec()
}

/// Reads a response.
pub fn decode_response(bytes: &[u8]) -> (r: Result<WebServerResponse, ContractError>)
    ensures
        match wire_format::decode_frame(web_server_response::schema(), bytes@) {
            None => r == Err::<WebServerResponse, ContractError>(ContractError::Malformed),
            Some(None) => r == Err::<WebServerResponse, ContractError>(
                ContractError::MissingResponse,
            ),
            Some(Some(content)) => r matches Ok(message) && message@ == ResponseView::of_content(
                content,
            ).narrowed(),
        },
{
    let envelope = match web_server_contract::WebServerResponse::decode(bytes) {
        Ok(envelope) => envelope,
        Err(e) => {
            return Err(e);
        },
    };
    proof {
        if envelope.response is Some {
            web_server_response::lemma_content(envelope.response->0@);
        }
        lemma_narrow();
    }
    WebServerResponse::try_from(envelope)
}

/// A response is decoded from its own bytes.
pub proof fn law_response_roundtrip(message: WebServerResponse)
    requires
        message@.encoded().len() <= u64::MAX,
    ensures
        wire_format::decode_frame(web_server_response::schema(), message@.encoded()) == Some(
            Some(message@.content()),
        ),
        ResponseView::of_content(message@.content()).narrowed() == message@,
{
    web_server_response::lemma_content(message@);
    wire_laws::law_frame_roundtrip(web_server_response::schema(), Some(message@.content()));
}

proof fn lemma_narrow()
    ensures
        forall|n: u32| #[trigger] (n as u16) == n % 0x1_0000,
{
    assert forall|n: u32| #[trigger] (n as u16) == n % 0x1_0000 by {
        assert(n as u16 == n % 0x1_0000u32) by (bit_vector);
    }
}

} // verus!
