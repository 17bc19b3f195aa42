//! The messages between the command line and the running web server.

use crate::instruction_for_web_server;
use crate::instruction_for_web_server::{Instruction, InstructionView};
use crate::web_server_response;
use crate::web_server_response::{Response, ResponseView};
use crate::wire_codec;
use crate::wire_codec::Content;
use crate::wire_format;
use crate::wire_format::FieldView;
use crate::wire_laws;
use vstd::prelude::*;

verus! {

/// Why bytes are no instruction or response.
#[derive(Clone, Copy, PartialEq, Eq, Structural, Debug)]
pub enum ContractError {
    Malformed,
    MissingInstruction,
    MissingResponse,
}

impl ContractError {
    pub open spec fn text(self) -> Seq<char> {
        match self {
            ContractError::Malformed => "failed to decode message"@,
            ContractError::MissingInstruction => "Missing instruction in InstructionForWebServer"@,
            ContractError::MissingResponse => "Missing response in WebServerResponse"@,
        }
    }

    /// The error in words.
    pub fn message(&self) -> (text: String)
        ensures
            text@ == self.text(),
    {
        match self {
            ContractError::Malformed => "failed to decode message".to_string(),
            ContractError::MissingInstruction =>
                "Missing instruction in InstructionForWebServer".to_string(),
            ContractError::MissingResponse => "Missing response in WebServerResponse".to_string(),
        }
    }
}

/// Shut the server down.
#[derive(Clone, Debug, PartialEq)]
pub struct ShutdownWebServerMsg {}

/// Ask which version is running, and where.
#[derive(Clone, Debug, PartialEq)]
pub struct QueryVersionMsg {}

/// Share a session through a relay.
#[derive(Clone, Debug, PartialEq)]
pub struct StartRelayTunnelMsg {
    pub client_id: u32,
    pub session_name: String,
    pub relay_url: String,
    pub zellij_version: String,
    pub relay_tunnel_auth_token: String,
}

/// Stop sharing a session.
#[derive(Clone, Debug, PartialEq)]
pub struct StopRelayTunnelMsg {
    pub client_id: u32,
}

/// Ask how a client's tunnel fares.
#[derive(Clone, Debug, PartialEq)]
pub struct GetRelayTunnelStatusMsg {
    pub client_id: u32,
}

/// Turn out every viewer that came in with a token.
#[derive(Clone, Debug, PartialEq)]
pub struct RevokeRelayTokenMsg {
    pub token_hash: String,
}

/// The running version, and where the server listens.
#[derive(Clone, Debug, PartialEq)]
pub struct VersionResponseMsg {
    pub version: String,
    pub ip: String,
    pub port: u32,
}

/// The session is shared.
#[derive(Clone, Debug, PartialEq)]
pub struct RelayTunnelEstablishedMsg {
    pub client_id: u32,
    pub public_url: String,
    pub slug: String,
    pub tunnel_id: String,
}

/// The session is no longer shared.
#[derive(Clone, Debug, PartialEq)]
pub struct RelayTunnelStoppedMsg {
    pub client_id: u32,
}

/// The session could not be shared.
#[derive(Clone, Debug, PartialEq)]
pub struct RelayTunnelErrorMsg {
    pub client_id: u32,
    pub message: String,
}

/// How a client's tunnel fares; nothing where it has none.
#[derive(Clone, Debug, PartialEq)]
pub struct RelayTunnelStatusReportMsg {
    pub client_id: u32,
    pub status_url: Option<String>,
}

/// The envelope of every instruction.
#[derive(Clone, Debug, PartialEq)]
pub struct InstructionForWebServer {
    pub instruction: Option<Instruction>,
}

impl View for InstructionForWebServer {
    type V = Option<InstructionView>;

    open spec fn view(&self) -> Option<InstructionView> {
        match self.instruction {
            Some(message) => Some(message@),
            None => None,
        }
    }
}

impl InstructionForWebServer {
    /// The tag and the fields of the message in the envelope.
    pub open spec fn content(self) -> Option<(nat, Seq<FieldView>)> {
        match self.instruction {
            Some(message) => Some(message@.content()),
            None => None,
        }
    }

    pub fn encode_to_vec(&self) -> (bytes: Vec<u8>)
        ensures
            bytes@ == wire_format::encode_frame(self.content()),
    {
        let content: Content = match &self.instruction {
            Some(message) => {
                proof {
                    instruction_for_web_server::lemma_content(message@);
                }
                Some(message.to_fields())
            },
            None => None,
        };
        wire_codec::encode_frame(&content)
    }

    pub fn decode(bytes: &[u8]) -> (r: Result<InstructionForWebServer, ContractError>)
        ensures
            match wire_format::decode_frame(instruction_for_web_server::schema(), bytes@) {
                None => r == Err::<InstructionForWebServer, ContractError>(
                    ContractError::Malformed,
                ),
                Some(content) => r matches Ok(envelope) && envelope.content() == content,
            },
    {
        let table = instruction_for_web_server::schema_table();
        proof {
            wire_laws::law_decoded_kinds(instruction_for_web_server::schema(), bytes@);
        }
        match wire_codec::decode_frame(table.as_slice(), bytes) {
            Some(Some((tag, fields))) => {
                let message = Instruction::from_fields(tag, fields);
                Ok(InstructionForWebServer { instruction: Some(message) })
            },
            Some(None) => Ok(InstructionForWebServer { instruction: None }),
            None => Err(ContractError::Malformed),
        }
    }
}

/// The envelope of every response.
#[derive(Clone, Debug, PartialEq)]
pub struct WebServerResponse {
    pub response: Option<Response>,
}

impl View for WebServerResponse {
    type V = Option<ResponseView>;

    open spec fn view(&self) -> Option<ResponseView> {
        match self.response {
            Some(message) => Some(message@),
            None => None,
        }
    }
}

impl WebServerResponse {
    /// The tag and the fields of the message in the envelope.
    pub open spec fn content(self) -> Option<(nat, Seq<FieldView>)> {
        match self.response {
            Some(message) => Some(message@.content()),
            None => None,
        }
    }

    pub fn encode_to_vec(&self) -> (bytes: Vec<u8>)
        ensures
            bytes@ == wire_format::encode_frame(self.content()),
    {
        let content: Content = match &self.response {
            Some(message) => {
                proof {
                    web_server_response::lemma_content(message@);
                }
                Some(message.to_fields())
            },
            None => None,
        };
        wire_codec::encode_frame(&content)
    }

    pub fn decode(bytes: &[u8]) -> (r: Result<WebServerResponse, ContractError>)
        ensures
            match wire_format::decode_frame(web_server_response::schema(), bytes@) {
                None => r == Err::<WebServerResponse, ContractError>(ContractError::Malformed),
                Some(content) => r matches Ok(envelope) && envelope.content() == content,
            },
    {
        let table = web_server_response::schema_table();
        proof {
            wire_laws::law_decoded_kinds(web_server_response::schema(), bytes@);
        }
        match wire_codec::decode_frame(table.as_slice(), bytes) {
            Some(Some((tag, fields))) => {
                let message = Response::from_fields(tag, fields);
                Ok(WebServerResponse { response: Some(message) })
            },
            Some(None) => Ok(WebServerResponse { response: None }),
            None => Err(ContractError::Malformed),
        }
    }
}

} // verus!
