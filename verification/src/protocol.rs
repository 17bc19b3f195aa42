//! The messages of the relay protocol, version 1, and the frames they travel
//! in.

use crate::control_frame;
use crate::conversion;
use crate::conversion::{ControlView, TerminalView};
use crate::terminal_frame;
use crate::wire_codec;
use crate::wire_codec::Content;
use crate::wire_format;
use crate::wire_format::FieldView;
use crate::wire_laws;
use vstd::prelude::*;

verus! {

/// The version of the protocol that a session host announces.
pub const PROTOCOL_VERSION: u32 = 1;

/// Why bytes are no message.
#[derive(Clone, Copy, PartialEq, Eq, Structural, Debug)]
pub enum ProtocolError {
    Malformed,
    ControlFrameWithoutPayload,
    TerminalFrameWithoutPayload,
}

impl ProtocolError {
    pub open spec fn text(self) -> Seq<char> {
        match self {
            ProtocolError::Malformed => "failed to decode frame"@,
            ProtocolError::ControlFrameWithoutPayload => "ControlFrame has no payload"@,
            ProtocolError::TerminalFrameWithoutPayload => "TerminalFrame has no payload"@,
        }
    }

    /// The error in words.
    pub fn message(&self) -> (text: String)
        ensures
            text@ == self.text(),
    {
        match self {
            ProtocolError::Malformed => "failed to decode frame".to_string(),
            ProtocolError::ControlFrameWithoutPayload => "ControlFrame has no payload".to_string(),
            ProtocolError::TerminalFrameWithoutPayload => "TerminalFrame has no payload".to_string(),
        }
    }
}

/// First message of a session host on the control tunnel.
#[derive(Clone, Debug, PartialEq)]
pub struct TunnelAuth {
    pub token: String,
    pub session_name: String,
    pub protocol_version: u32,
    pub zellij_version: String,
    /// The slug of an earlier tunnel that the host asks to keep; empty when it
    /// has none.
    pub requested_slug: String,
}

/// The relay's answer to a session host that it let in.
#[derive(Clone, Debug, PartialEq)]
pub struct TunnelEstablished {
    pub public_url: String,
    pub slug: String,
    pub tunnel_id: String,
}

/// A refusal, on either tunnel.
#[derive(Clone, Debug, PartialEq)]
pub struct TunnelError {
    pub message: String,
}

/// The relay asks the host whether a viewer with this token hash may attach.
/// The answer carries the same `request_id`.
#[derive(Clone, Debug, PartialEq)]
pub struct AuthChallenge {
    pub request_id: Vec<u8>,
    pub token_hash: String,
}

/// The host's answer to an [`AuthChallenge`].
#[derive(Clone, Debug, PartialEq)]
pub struct AuthResponse {
    pub request_id: Vec<u8>,
    pub client_id: u32,
    pub accepted: bool,
    pub is_read_only: bool,
    pub session_token_hash: String,
    /// Whether the host encrypts the terminal data for this client.
    pub e2e_encrypted: bool,
}

/// A viewer has attached.
#[derive(Clone, Debug, PartialEq)]
pub struct ClientConnected {
    pub client_id: u32,
}

/// A viewer is gone; no more data travels for this client.
#[derive(Clone, Debug, PartialEq)]
pub struct ClientDisconnected {
    pub client_id: u32,
}

/// Control data of one client.
#[derive(Clone, Debug, PartialEq)]
pub struct ControlFrameData {
    pub client_id: u32,
    pub data: Vec<u8>,
}

/// How many viewers a read-only group has now; none means that the group is
/// dormant.
#[derive(Clone, Debug, PartialEq)]
pub struct ReadOnlyViewerUpdate {
    pub token_hash: String,
    pub count: u32,
}

/// The size of the session that a read-only group watches.
#[derive(Clone, Debug, PartialEq)]
pub struct SessionSize {
    pub client_id: u32,
    pub rows: u32,
    pub cols: u32,
}

/// Every viewer that came in with this token has to leave.
#[derive(Clone, Debug, PartialEq)]
pub struct RevokeToken {
    pub token_hash: String,
}

/// First message of a session host on the terminal tunnel: the tunnel it
/// belongs to.
#[derive(Clone, Debug, PartialEq)]
pub struct TunnelReady {
    pub tunnel_id: String,
}

/// Terminal data of one client, encrypted end to end.
#[derive(Clone, Debug, PartialEq)]
pub struct TerminalFrameData {
    pub client_id: u32,
    pub data: Vec<u8>,
}

/// The envelope of every message of the control tunnel.
#[derive(Clone, Debug, PartialEq)]
pub struct ControlFrame {
    pub payload: Option<control_frame::Payload>,
}

impl View for ControlFrame {
    type V = Option<ControlView>;

    open spec fn view(&self) -> Option<ControlView> {
        match self.payload {
            Some(payload) => Some(payload@),
            None => None,
        }
    }
}

impl ControlFrame {
    /// The tag and the fields of the message in the frame.
    pub open spec fn content(self) -> Option<(nat, Seq<FieldView>)> {
        match self.payload {
            Some(payload) => Some(payload@.content()),
            None => None,
        }
    }

    pub fn encode_to_vec(&self) -> (bytes: Vec<u8>)
        ensures
            bytes@ == wire_format::encode_frame(self.content()),
    {
        let content: Content = match &self.payload {
            Some(payload) => {
                proof {
                    conversion::lemma_control_content(payload@);
                }
                Some(payload.to_fields())
            },
            None => None,
        };
        wire_codec::encode_frame(&content)
    }

    pub fn decode(bytes: &[u8]) -> (r: Result<ControlFrame, ProtocolError>)
        ensures
            match wire_format::decode_frame(control_frame::schema(), bytes@) {
                None => r == Err::<ControlFrame, ProtocolError>(ProtocolError::Malformed),
                Some(content) => r matches Ok(frame) && frame.content() == content,
            },
    {
        let table = control_frame::schema_table();
        proof {
            wire_laws::law_decoded_kinds(control_frame::schema(), bytes@);
        }
        match wire_codec::decode_frame(table.as_slice(), bytes) {
            Some(Some((tag, fields))) => {
                let payload = control_frame::Payload::from_fields(tag, fields);
                Ok(ControlFrame { payload: Some(payload) })
            },
            Some(None) => Ok(ControlFrame { payload: None }),
            None => Err(ProtocolError::Malformed),
        }
    }
}

/// The envelope of every message of the terminal tunnel.
#[derive(Clone, Debug, PartialEq)]
pub struct TerminalFrame {
    pub payload: Option<terminal_frame::Payload>,
}

impl View for TerminalFrame {
    type V = Option<TerminalView>;

    open spec fn view(&self) -> Option<TerminalView> {
        match self.payload {
            Some(payload) => Some(payload@),
            None => None,
        }
    }
}

impl TerminalFrame {
    /// The tag and the fields of the message in the frame.
    pub open spec fn content(self) -> Option<(nat, Seq<FieldView>)> {
        match self.payload {
            Some(payload) => Some(payload@.content()),
            None => None,
        }
    }

    pub fn encode_to_vec(&self) -> (bytes: Vec<u8>)
        ensures
            bytes@ == wire_format::encode_frame(self.content()),
    {
        let content: Content = match &self.payload {
            Some(payload) => {
                proof {
                    conversion::lemma_terminal_content(payload@);
                }
                Some(payload.to_fields())
            },
            None => None,
        };
        wire_codec::encode_frame(&content)
    }

    pub fn decode(bytes: &[u8]) -> (r: Result<TerminalFrame, ProtocolError>)
        ensures
            match wire_format::decode_frame(terminal_frame::schema(), bytes@) {
                None => r == Err::<TerminalFrame, ProtocolError>(ProtocolError::Malformed),
                Some(content) => r matches Ok(frame) && frame.content() == content,
            },
    {
        let table = terminal_frame::schema_table();
        proof {
            wire_laws::law_decoded_kinds(terminal_frame::schema(), bytes@);
        }
        match wire_codec::decode_frame(table.as_slice(), bytes) {
            Some(Some((tag, fields))) => {
                let payload = terminal_frame::Payload::from_fields(tag, fields);
                Ok(TerminalFrame { payload: Some(payload) })
            },
            Some(None) => Ok(TerminalFrame { payload: None }),
            None => Err(ProtocolError::Malformed),
        }
    }
}

} // verus!
