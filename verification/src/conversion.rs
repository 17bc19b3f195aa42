//! The messages of the two tunnels as the rest of the library handles them.

use crate::control_frame;
use crate::protocol::{
    AuthChallenge, AuthResponse, ClientConnected, ClientDisconnected, ControlFrame,
    ControlFrameData, ProtocolError, ReadOnlyViewerUpdate, RevokeToken, SessionSize, TerminalFrame,
    TerminalFrameData, TunnelAuth, TunnelError, TunnelEstablished, TunnelReady,
};
use crate::terminal_frame;
use crate::wire_format;
use crate::wire_format::FieldView;
use crate::wire_laws;
use vstd::prelude::*;

verus! {

/// A message of the control tunnel.
#[derive(Debug)]
pub enum ControlMessage {
    Auth {
        token: String,
        session_name: String,
        protocol_version: u32,
        zellij_version: String,
        requested_slug: String,
    },
    Established { public_url: String, slug: String, tunnel_id: String },
    Error { message: String },
    AuthChallenge { request_id: Vec<u8>, token_hash: String },
    AuthResponse {
        request_id: Vec<u8>,
        client_id: u32,
        accepted: bool,
        is_read_only: bool,
        session_token_hash: String,
        e2e_encrypted: bool,
    },
    ClientConnected { client_id: u32 },
    ClientDisconnected { client_id: u32 },
    ControlFrameData { client_id: u32, data: Vec<u8> },
    ReadOnlyViewerUpdate { token_hash: String, count: u32 },
    SessionSize { client_id: u32, rows: u32, cols: u32 },
    RevokeToken { token_hash: String },
}

/// The mathematical value of a [`ControlMessage`].
#[verifier::ext_equal]
pub enum ControlView {
    Auth {
        token: Seq<char>,
        session_name: Seq<char>,
        protocol_version: u32,
        zellij_version: Seq<char>,
        requested_slug: Seq<char>,
    },
    Established { public_url: Seq<char>, slug: Seq<char>, tunnel_id: Seq<char> },
    Error { message: Seq<char> },
    AuthChallenge { request_id: Seq<u8>, token_hash: Seq<char> },
    AuthResponse {
        request_id: Seq<u8>,
        client_id: u32,
        accepted: bool,
        is_read_only: bool,
        session_token_hash: Seq<char>,
        e2e_encrypted: bool,
    },
    ClientConnected { client_id: u32 },
    ClientDisconnected { client_id: u32 },
    ControlFrameData { client_id: u32, data: Seq<u8> },
    ReadOnlyViewerUpdate { token_hash: Seq<char>, count: u32 },
    SessionSize { client_id: u32, rows: u32, cols: u32 },
    RevokeToken { token_hash: Seq<char> },
}

impl View for ControlMessage {
    type V = ControlView;

    open spec fn view(&self) -> ControlView {
        match *self {
            ControlMessage::Auth {
                token,
                session_name,
                protocol_version,
                zellij_version,
                requested_slug,
            } => ControlView::Auth {
                token: token@,
                session_name: session_name@,
                protocol_version,
                zellij_version: zellij_version@,
                requested_slug: requested_slug@,
            },
            ControlMessage::Established {
                public_url,
                slug,
                tunnel_id,
            } => ControlView::Established {
                public_url: public_url@,
                slug: slug@,
                tunnel_id: tunnel_id@,
            },
            ControlMessage::Error { message } => ControlView::Error { message: message@ },
            ControlMessage::AuthChallenge { request_id, token_hash } => ControlView::AuthChallenge {
                request_id: request_id@,
                token_hash: token_hash@,
            },
            ControlMessage::AuthResponse {
                request_id,
                client_id,
                accepted,
                is_read_only,
                session_token_hash,
                e2e_encrypted,
            } => ControlView::AuthResponse {
                request_id: request_id@,
                client_id,
                accepted,
                is_read_only,
                session_token_hash: session_token_hash@,
                e2e_encrypted,
            },
            ControlMessage::ClientConnected {
                client_id,
            } => ControlView::ClientConnected { client_id },
            ControlMessage::ClientDisconnected {
                client_id,
            } => ControlView::ClientDisconnected { client_id },
            ControlMessage::ControlFrameData { client_id, data } => ControlView::ControlFrameData {
                client_id,
                data: data@,
            },
            ControlMessage::ReadOnlyViewerUpdate {
                token_hash,
                count,
            } => ControlView::ReadOnlyViewerUpdate {
                token_hash: token_hash@,
                count,
            },
            ControlMessage::SessionSize {
                client_id,
                rows,
                cols,
            } => ControlView::SessionSize { client_id, rows, cols },
            ControlMessage::RevokeToken { token_hash } => ControlView::RevokeToken {
                token_hash: token_hash@,
            },
        }
    }
}

impl ControlView {
    /// The tag and the fields that the message is written as.
    pub open spec fn content(self) -> (nat, Seq<FieldView>) {
        match self {
            ControlView::Auth {
                token,
                session_name,
                protocol_version,
                zellij_version,
                requested_slug,
            } => (
                1,
                seq![
                    FieldView::Text(token),
                    FieldView::Text(session_name),
                    FieldView::Uint32(protocol_version),
                    FieldView::Text(zellij_version),
                    FieldView::Text(requested_slug),
                ],
            ),
            ControlView::Established { public_url, slug, tunnel_id } => (
                2,
                seq![
                    FieldView::Text(public_url),
                    FieldView::Text(slug),
                    FieldView::Text(tunnel_id),
                ],
            ),
            ControlView::Error { message } => (3, seq![FieldView::Text(message)]),
            ControlView::AuthChallenge { request_id, token_hash } => (
                4,
                seq![FieldView::Bytes(request_id), FieldView::Text(token_hash)],
            ),
            ControlView::AuthResponse {
                request_id,
                client_id,
                accepted,
                is_read_only,
                session_token_hash,
                e2e_encrypted,
            } => (
                5,
                seq![
                    FieldView::Bytes(request_id),
                    FieldView::Uint32(client_id),
                    FieldView::Bool(accepted),
                    FieldView::Bool(is_read_only),
                    FieldView::Text(session_token_hash),
                    FieldView::Bool(e2e_encrypted),
                ],
            ),
            ControlView::ClientConnected { client_id } => (6, seq![FieldView::Uint32(client_id)]),
            ControlView::ClientDisconnected { client_id } => (
                7,
                seq![FieldView::Uint32(client_id)],
            ),
            ControlView::ControlFrameData { client_id, data } => (
                8,
                seq![FieldView::Uint32(client_id), FieldView::Bytes(data)],
            ),
            ControlView::ReadOnlyViewerUpdate { token_hash, count } => (
                9,
                seq![FieldView::Text(token_hash), FieldView::Uint32(count)],
            ),
            ControlView::SessionSize { client_id, rows, cols } => (
                10,
                seq![
                    FieldView::Uint32(client_id),
                    FieldView::Uint32(rows),
                    FieldView::Uint32(cols),
                ],
            ),
            ControlView::RevokeToken { token_hash } => (11, seq![FieldView::Text(token_hash)]),
        }
    }

    /// The bytes of the message.
    pub open spec fn encoded(self) -> Seq<u8> {
        wire_format::encode_frame(Some(self.content()))
    }
}

/// A message is known by its tag and fields.
pub proof fn law_control_content_injective(a: ControlView, b: ControlView)
    requires
        a.content() == b.content(),
    ensures
        a == b,
{
    let (x, y) = (a.content().1, b.content().1);
    assert(x[0] == y[0]);
    assert(x[1] == y[1]);
    assert(x[2] == y[2]);
    assert(x[3] == y[3]);
    assert(x[4] == y[4]);
    assert(x[5] == y[5]);
}

pub proof fn lemma_control_content(message: ControlView)
    ensures
        1 <= message.content().0 <= control_frame::schema().len(),
        wire_format::has_kinds(
            message.content().1,
            control_frame::schema()[message.content().0 - 1],
        ),
        message.content().1.len() <= 6,
        control_frame::schema().len() == 11,
{
}

/// A control message is decoded from its own bytes.
pub proof fn law_control_message_roundtrip(message: ControlView)
    requires
        message.encoded().len() <= u64::MAX,
    ensures
        wire_format::decode_frame(control_frame::schema(), message.encoded()) == Some(
            Some(message.content()),
        ),
{
    lemma_control_content(message);
    wire_laws::law_frame_roundtrip(control_frame::schema(), Some(message.content()));
}

/// A control message with a field of an unknown tag behind it is decoded as if the
/// field were not there.
pub proof fn law_control_message_unknown_field(
    message: ControlView,
    tag: nat,
    wire: u8,
    value: Seq<u8>,
)
    requires
        message.encoded().len() <= u64::MAX,
        control_frame::schema().len() < tag,
        8 * tag + 7 <= u32::MAX,
        wire <= 5,
        wire_format::skip_value(tag, wire, value, wire_format::RECURSION_LIMIT as nat) == Some(
            value.len(),
        ),
    ensures
        wire_format::decode_frame(
            control_frame::schema(),
            message.encoded() + (wire_format::field_key(tag, wire) + value),
        ) == Some(Some(message.content())),
{
    law_control_message_roundtrip(message);
    wire_laws::law_unknown_field_ignored(
        control_frame::schema(),
        message.encoded(),
        tag,
        wire,
        value,
    );
}

impl ControlMessage {
    /// The bytes that the message travels as.
    pub fn encode(&self) -> (bytes: Vec<u8>)
        ensures
            bytes@ == self@.encoded(),
    {
        let frame = ControlFrame::from(self.clone());
        frame.encode_to_vec()
    }
}

impl Clone for ControlMessage {
    fn clone(&self) -> (copy: ControlMessage)
        ensures
            copy@ == self@,
    {
        match self {
            ControlMessage::Auth {
                token,
                session_name,
                protocol_version,
                zellij_version,
                requested_slug,
            } => ControlMessage::Auth {
                token: token.clone(),
                session_name: session_name.clone(),
                protocol_version: *protocol_version,
                zellij_version: zellij_version.clone(),
                requested_slug: requested_slug.clone(),
            },
            ControlMessage::Established {
                public_url,
                slug,
                tunnel_id,
            } => ControlMessage::Established {
                public_url: public_url.clone(),
                slug: slug.clone(),
                tunnel_id: tunnel_id.clone(),
            },
            ControlMessage::Error { message } => ControlMessage::Error { message: message.clone() },
            ControlMessage::AuthChallenge {
                request_id,
                token_hash,
            } => ControlMessage::AuthChallenge {
                request_id: crate::wire_codec::clone_bytes(request_id),
                token_hash: token_hash.clone(),
            },
            ControlMessage::AuthResponse {
                request_id,
                client_id,
                accepted,
                is_read_only,
                session_token_hash,
                e2e_encrypted,
            } => ControlMessage::AuthResponse {
                request_id: crate::wire_codec::clone_bytes(request_id),
                client_id: *client_id,
                accepted: *accepted,
                is_read_only: *is_read_only,
                session_token_hash: session_token_hash.clone(),
                e2e_encrypted: *e2e_encrypted,
            },
            ControlMessage::ClientConnected { client_id } => ControlMessage::ClientConnected {
                client_id: *client_id,
            },
            ControlMessage::ClientDisconnected { client_id } => ControlMessage::ClientDisconnected {
                client_id: *client_id,
            },
            ControlMessage::ControlFrameData {
                client_id,
                data,
            } => ControlMessage::ControlFrameData {
                client_id: *client_id,
                data: crate::wire_codec::clone_bytes(data),
            },
            ControlMessage::ReadOnlyViewerUpdate {
                token_hash,
                count,
            } => ControlMessage::ReadOnlyViewerUpdate {
                token_hash: token_hash.clone(),
                count: *count,
            },
            ControlMessage::SessionSize { client_id, rows, cols } => ControlMessage::SessionSize {
                client_id: *client_id,
                rows: *rows,
                cols: *cols,
            },
            ControlMessage::RevokeToken { token_hash } => ControlMessage::RevokeToken {
                token_hash: token_hash.clone(),
            },
        }
    }
}

/// Reads a message of the control tunnel.
pub fn decode_control_frame(bytes: &[u8]) -> (r: Result<ControlMessage, ProtocolError>)
    ensures
        match wire_format::decode_frame(control_frame::schema(), bytes@) {
            None => r == Err::<ControlMessage, ProtocolError>(ProtocolError::Malformed),
            Some(None) => r == Err::<ControlMessage, ProtocolError>(
                ProtocolError::ControlFrameWithoutPayload,
            ),
            Some(Some(content)) => r matches Ok(message) && message@.content() == content,
        },
{
    let frame = match ControlFrame::decode(bytes) {
        Ok(frame) => frame,
        Err(e) => {
            return Err(e);
        },
    };
    ControlMessage::try_from(frame)
}

impl From<ControlMessage> for ControlFrame {
    fn from(message: ControlMessage) -> (frame: ControlFrame) {
        let payload = match message {
            ControlMessage::Auth {
                token,
                session_name,
                protocol_version,
                zellij_version,
                requested_slug,
            } => control_frame::Payload::Auth(
                TunnelAuth {
                    token,
                    session_name,
                    protocol_version,
                    zellij_version,
                    requested_slug,
                },
            ),
            ControlMessage::Established {
                public_url,
                slug,
                tunnel_id,
            } => control_frame::Payload::Established(
                TunnelEstablished { public_url, slug, tunnel_id },
            ),
            ControlMessage::Error { message } => control_frame::Payload::Error(
                TunnelError { message },
            ),
            ControlMessage::AuthChallenge {
                request_id,
                token_hash,
            } => control_frame::Payload::AuthChallenge(
                AuthChallenge { request_id, token_hash },
            ),
            ControlMessage::AuthResponse {
                request_id,
                client_id,
                accepted,
                is_read_only,
                session_token_hash,
                e2e_encrypted,
            } => control_frame::Payload::AuthResponse(
                AuthResponse {
                    request_id,
                    client_id,
                    accepted,
                    is_read_only,
                    session_token_hash,
                    e2e_encrypted,
                },
            ),
            ControlMessage::ClientConnected {
                client_id,
            } => control_frame::Payload::ClientConnected(
                ClientConnected { client_id },
            ),
            ControlMessage::ClientDisconnected {
                client_id,
            } => control_frame::Payload::ClientDisconnected(
                ClientDisconnected { client_id },
            ),
            ControlMessage::ControlFrameData {
                client_id,
                data,
            } => control_frame::Payload::ControlFrameData(
                ControlFrameData { client_id, data },
            ),
            ControlMessage::ReadOnlyViewerUpdate {
                token_hash,
                count,
            } => control_frame::Payload::ReadOnlyViewerUpdate(
                ReadOnlyViewerUpdate { token_hash, count },
            ),
            ControlMessage::SessionSize {
                client_id,
                rows,
                cols,
            } => control_frame::Payload::SessionSize(
                SessionSize { client_id, rows, cols },
            ),
            ControlMessage::RevokeToken { token_hash } => control_frame::Payload::RevokeToken(
                RevokeToken { token_hash },
            ),
        };
        ControlFrame { payload: Some(payload) }
    }
}

impl vstd::std_specs::convert::FromSpecImpl<ControlMessage> for ControlFrame {
    open spec fn obeys_from_spec() -> bool {
        true
    }

    open spec fn from_spec(message: ControlMessage) -> ControlFrame {
        ControlFrame {
            payload: Some(
                match message {
                    ControlMessage::Auth {
                        token,
                        session_name,
                        protocol_version,
                        zellij_version,
                        requested_slug,
                    } => control_frame::Payload::Auth(
                        TunnelAuth {
                            token,
                            session_name,
                            protocol_version,
                            zellij_version,
                            requested_slug,
                        },
                    ),
                    ControlMessage::Established {
                        public_url,
                        slug,
                        tunnel_id,
                    } => control_frame::Payload::Established(
                        TunnelEstablished { public_url, slug, tunnel_id },
                    ),
                    ControlMessage::Error { message } => control_frame::Payload::Error(
                        TunnelError { message },
                    ),
                    ControlMessage::AuthChallenge {
                        request_id,
                        token_hash,
                    } => control_frame::Payload::AuthChallenge(
                        AuthChallenge { request_id, token_hash },
                    ),
                    ControlMessage::AuthResponse {
                        request_id,
                        client_id,
                        accepted,
                        is_read_only,
                        session_token_hash,
                        e2e_encrypted,
                    } => control_frame::Payload::AuthResponse(
                        AuthResponse {
                            request_id,
                            client_id,
                            accepted,
                            is_read_only,
                            session_token_hash,
                            e2e_encrypted,
                        },
                    ),
                    ControlMessage::ClientConnected {
                        client_id,
                    } => control_frame::Payload::ClientConnected(
                        ClientConnected { client_id },
                    ),
                    ControlMessage::ClientDisconnected {
                        client_id,
                    } => control_frame::Payload::ClientDisconnected(
                        ClientDisconnected { client_id },
                    ),
                    ControlMessage::ControlFrameData {
                        client_id,
                        data,
                    } => control_frame::Payload::ControlFrameData(
                        ControlFrameData { client_id, data },
                    ),
                    ControlMessage::ReadOnlyViewerUpdate {
                        token_hash,
                        count,
                    } => control_frame::Payload::ReadOnlyViewerUpdate(
                        ReadOnlyViewerUpdate { token_hash, count },
                    ),
                    ControlMessage::SessionSize {
                        client_id,
                        rows,
                        cols,
                    } => control_frame::Payload::SessionSize(
                        SessionSize { client_id, rows, cols },
                    ),
                    ControlMessage::RevokeToken {
                        token_hash,
                    } => control_frame::Payload::RevokeToken(
                        RevokeToken { token_hash },
                    ),
                },
            ),
        }
    }
}

impl TryFrom<ControlFrame> for ControlMessage {
    type Error = ProtocolError;

    fn try_from(frame: ControlFrame) -> (r: Result<ControlMessage, ProtocolError>) {
        match frame.payload {
            None => Err(ProtocolError::ControlFrameWithoutPayload),
            Some(payload) => Ok(
                match payload {
                    control_frame::Payload::Auth(p) => ControlMessage::Auth {
                        token: p.token,
                        session_name: p.session_name,
                        protocol_version: p.protocol_version,
                        zellij_version: p.zellij_version,
                        requested_slug: p.requested_slug,
                    },
                    control_frame::Payload::Established(p) => ControlMessage::Established {
                        public_url: p.public_url,
                        slug: p.slug,
                        tunnel_id: p.tunnel_id,
                    },
                    control_frame::Payload::Error(p) => ControlMessage::Error {
                        message: p.message,
                    },
                    control_frame::Payload::AuthChallenge(p) => ControlMessage::AuthChallenge {
                        request_id: p.request_id,
                        token_hash: p.token_hash,
                    },
                    control_frame::Payload::AuthResponse(p) => ControlMessage::AuthResponse {
                        request_id: p.request_id,
                        client_id: p.client_id,
                        accepted: p.accepted,
                        is_read_only: p.is_read_only,
                        session_token_hash: p.session_token_hash,
                        e2e_encrypted: p.e2e_encrypted,
                    },
                    control_frame::Payload::ClientConnected(p) => ControlMessage::ClientConnected {
                        client_id: p.client_id,
                    },
                    control_frame::Payload::ClientDisconnected(
                        p,
                    ) => ControlMessage::ClientDisconnected {
                        client_id: p.client_id,
                    },
                    control_frame::Payload::ControlFrameData(
                        p,
                    ) => ControlMessage::ControlFrameData {
                        client_id: p.client_id,
                        data: p.data,
                    },
                    control_frame::Payload::ReadOnlyViewerUpdate(
                        p,
                    ) => ControlMessage::ReadOnlyViewerUpdate {
                        token_hash: p.token_hash,
                        count: p.count,
                    },
                    control_frame::Payload::SessionSize(p) => ControlMessage::SessionSize {
                        client_id: p.client_id,
                        rows: p.rows,
                        cols: p.cols,
                    },
                    control_frame::Payload::RevokeToken(p) => ControlMessage::RevokeToken {
                        token_hash: p.token_hash,
                    },
                },
            ),
        }
    }
}

impl vstd::std_specs::convert::TryFromSpecImpl<ControlFrame> for ControlMessage {
    open spec fn obeys_try_from_spec() -> bool {
        true
    }

    open spec fn try_from_spec(frame: ControlFrame) -> Result<ControlMessage, ProtocolError> {
        match frame.payload {
            None => Err(ProtocolError::ControlFrameWithoutPayload),
            Some(payload) => Ok(
                match payload {
                    control_frame::Payload::Auth(p) => ControlMessage::Auth {
                        token: p.token,
                        session_name: p.session_name,
                        protocol_version: p.protocol_version,
                        zellij_version: p.zellij_version,
                        requested_slug: p.requested_slug,
                    },
                    control_frame::Payload::Established(p) => ControlMessage::Established {
                        public_url: p.public_url,
                        slug: p.slug,
                        tunnel_id: p.tunnel_id,
                    },
                    control_frame::Payload::Error(p) => ControlMessage::Error {
                        message: p.message,
                    },
                    control_frame::Payload::AuthChallenge(p) => ControlMessage::AuthChallenge {
                        request_id: p.request_id,
                        token_hash: p.token_hash,
                    },
                    control_frame::Payload::AuthResponse(p) => ControlMessage::AuthResponse {
                        request_id: p.request_id,
                        client_id: p.client_id,
                        accepted: p.accepted,
                        is_read_only: p.is_read_only,
                        session_token_hash: p.session_token_hash,
                        e2e_encrypted: p.e2e_encrypted,
                    },
                    control_frame::Payload::ClientConnected(p) => ControlMessage::ClientConnected {
                        client_id: p.client_id,
                    },
                    control_frame::Payload::ClientDisconnected(
                        p,
                    ) => ControlMessage::ClientDisconnected {
                        client_id: p.client_id,
                    },
                    control_frame::Payload::ControlFrameData(
                        p,
                    ) => ControlMessage::ControlFrameData {
                        client_id: p.client_id,
                        data: p.data,
                    },
                    control_frame::Payload::ReadOnlyViewerUpdate(
                        p,
                    ) => ControlMessage::ReadOnlyViewerUpdate {
                        token_hash: p.token_hash,
                        count: p.count,
                    },
                    control_frame::Payload::SessionSize(p) => ControlMessage::SessionSize {
                        client_id: p.client_id,
                        rows: p.rows,
                        cols: p.cols,
                    },
                    control_frame::Payload::RevokeToken(p) => ControlMessage::RevokeToken {
                        token_hash: p.token_hash,
                    },
                },
            ),
        }
    }
}

/// A control message is unchanged by the way through its frame.
pub proof fn law_control_frame_inverse(message: ControlMessage)
    ensures
        <ControlMessage as vstd::std_specs::convert::TryFromSpec<ControlFrame>>::try_from_spec(
            <ControlFrame as vstd::std_specs::convert::FromSpec<ControlMessage>>::from_spec(
                message,
            ),
        ) == Ok::<ControlMessage, ProtocolError>(message),
{
}

/// A message of the terminal tunnel.
#[derive(Debug)]
pub enum TerminalMessage {
    Ready { tunnel_id: String },
    Error { message: String },
    TerminalFrameData { client_id: u32, data: Vec<u8> },
}

/// The mathematical value of a [`TerminalMessage`].
#[verifier::ext_equal]
pub enum TerminalView {
    Ready { tunnel_id: Seq<char> },
    Error { message: Seq<char> },
    TerminalFrameData { client_id: u32, data: Seq<u8> },
}

impl View for TerminalMessage {
    type V = TerminalView;

    open spec fn view(&self) -> TerminalView {
        match *self {
            TerminalMessage::Ready { tunnel_id } => TerminalView::Ready { tunnel_id: tunnel_id@ },
            TerminalMessage::Error { message } => TerminalView::Error { message: message@ },
            TerminalMessage::TerminalFrameData {
                client_id,
                data,
            } => TerminalView::TerminalFrameData {
                client_id,
                data: data@,
            },
        }
    }
}

impl TerminalView {
    /// The tag and the fields that the message is written as.
    pub open spec fn content(self) -> (nat, Seq<FieldView>) {
        match self {
            TerminalView::Ready { tunnel_id } => (1, seq![FieldView::Text(tunnel_id)]),
            TerminalView::Error { message } => (2, seq![FieldView::Text(message)]),
            TerminalView::TerminalFrameData { client_id, data } => (
                3,
                seq![FieldView::Uint32(client_id), FieldView::Bytes(data)],
            ),
        }
    }

    /// The bytes of the message.
    pub open spec fn encoded(self) -> Seq<u8> {
        wire_format::encode_frame(Some(self.content()))
    }
}

/// A message is known by its tag and fields.
pub proof fn law_terminal_content_injective(a: TerminalView, b: TerminalView)
    requires
        a.content() == b.content(),
    ensures
        a == b,
{
    let (x, y) = (a.content().1, b.content().1);
    assert(x[0] == y[0]);
    assert(x[1] == y[1]);
}

pub proof fn lemma_terminal_content(message: TerminalView)
    ensures
        1 <= message.content().0 <= terminal_frame::schema().len(),
        wire_format::has_kinds(
            message.content().1,
            terminal_frame::schema()[message.content().0 - 1],
        ),
        message.content().1.len() <= 2,
        terminal_frame::schema().len() == 3,
{
}

/// A terminal message is decoded from its own bytes.
pub proof fn law_terminal_message_roundtrip(message: TerminalView)
    requires
        message.encoded().len() <= u64::MAX,
    ensures
        wire_format::decode_frame(terminal_frame::schema(), message.encoded()) == Some(
            Some(message.content()),
        ),
{
    lemma_terminal_content(message);
    wire_laws::law_frame_roundtrip(terminal_frame::schema(), Some(message.content()));
}

/// A terminal message with a field of an unknown tag behind it is decoded as if the
/// field were not there.
pub proof fn law_terminal_message_unknown_field(
    message: TerminalView,
    tag: nat,
    wire: u8,
    value: Seq<u8>,
)
    requires
        message.encoded().len() <= u64::MAX,
        terminal_frame::schema().len() < tag,
        8 * tag + 7 <= u32::MAX,
        wire <= 5,
        wire_format::skip_value(tag, wire, value, wire_format::RECURSION_LIMIT as nat) == Some(
            value.len(),
        ),
    ensures
        wire_format::decode_frame(
            terminal_frame::schema(),
            message.encoded() + (wire_format::field_key(tag, wire) + value),
        ) == Some(Some(message.content())),
{
    law_terminal_message_roundtrip(message);
    wire_laws::law_unknown_field_ignored(
        terminal_frame::schema(),
        message.encoded(),
        tag,
        wire,
        value,
    );
}

impl TerminalMessage {
    /// The bytes that the message travels as.
    pub fn encode(&self) -> (bytes: Vec<u8>)
        ensures
            bytes@ == self@.encoded(),
    {
        let frame = TerminalFrame::from(self.clone());
        frame.encode_to_vec()
    }
}

impl Clone for TerminalMessage {
    fn clone(&self) -> (copy: TerminalMessage)
        ensures
            copy@ == self@,
    {
        match self {
            TerminalMessage::Ready { tunnel_id } => TerminalMessage::Ready {
                tunnel_id: tunnel_id.clone(),
            },
            TerminalMessage::Error { message } => TerminalMessage::Error {
                message: message.clone(),
            },
            TerminalMessage::TerminalFrameData {
                client_id,
                data,
            } => TerminalMessage::TerminalFrameData {
                client_id: *client_id,
                data: crate::wire_codec::clone_bytes(data),
            },
        }
    }
}

/// Reads a message of the terminal tunnel.
pub fn decode_terminal_frame(bytes: &[u8]) -> (r: Result<TerminalMessage, ProtocolError>)
    ensures
        match wire_format::decode_frame(terminal_frame::schema(), bytes@) {
            None => r == Err::<TerminalMessage, ProtocolError>(ProtocolError::Malformed),
            Some(None) => r == Err::<TerminalMessage, ProtocolError>(
                ProtocolError::TerminalFrameWithoutPayload,
            ),
            Some(Some(content)) => r matches Ok(message) && message@.content() == content,
        },
{
    let frame = match TerminalFrame::decode(bytes) {
        Ok(frame) => frame,
        Err(e) => {
            return Err(e);
        },
    };
    TerminalMessage::try_from(frame)
}

impl From<TerminalMessage> for TerminalFrame {
    fn from(message: TerminalMessage) -> (frame: TerminalFrame) {
        let payload = match message {
            TerminalMessage::Ready { tunnel_id } => terminal_frame::Payload::Ready(
                TunnelReady { tunnel_id },
            ),
            TerminalMessage::Error { message } => terminal_frame::Payload::Error(
                TunnelError { message },
            ),
            TerminalMessage::TerminalFrameData {
                client_id,
                data,
            } => terminal_frame::Payload::TerminalFrameData(
                TerminalFrameData { client_id, data },
            ),
        };
        TerminalFrame { payload: Some(payload) }
    }
}

impl vstd::std_specs::convert::FromSpecImpl<TerminalMessage> for TerminalFrame {
    open spec fn obeys_from_spec() -> bool {
        true
    }

    open spec fn from_spec(message: TerminalMessage) -> TerminalFrame {
        TerminalFrame {
            payload: Some(
                match message {
                    TerminalMessage::Ready { tunnel_id } => terminal_frame::Payload::Ready(
                        TunnelReady { tunnel_id },
                    ),
                    TerminalMessage::Error { message } => terminal_frame::Payload::Error(
                        TunnelError { message },
                    ),
                    TerminalMessage::TerminalFrameData {
                        client_id,
                        data,
                    } => terminal_frame::Payload::TerminalFrameData(
                        TerminalFrameData { client_id, data },
                    ),
                },
            ),
        }
    }
}

impl TryFrom<TerminalFrame> for TerminalMessage {
    type Error = ProtocolError;

    fn try_from(frame: TerminalFrame) -> (r: Result<TerminalMessage, ProtocolError>) {
        match frame.payload {
            None => Err(ProtocolError::TerminalFrameWithoutPayload),
            Some(payload) => Ok(
                match payload {
                    terminal_frame::Payload::Ready(p) => TerminalMessage::Ready {
                        tunnel_id: p.tunnel_id,
                    },
                    terminal_frame::Payload::Error(p) => TerminalMessage::Error {
                        message: p.message,
                    },
                    terminal_frame::Payload::TerminalFrameData(
                        p,
                    ) => TerminalMessage::TerminalFrameData {
                        client_id: p.client_id,
                        data: p.data,
                    },
                },
            ),
        }
    }
}

impl vstd::std_specs::convert::TryFromSpecImpl<TerminalFrame> for TerminalMessage {
    open spec fn obeys_try_from_spec() -> bool {
        true
    }

    open spec fn try_from_spec(frame: TerminalFrame) -> Result<TerminalMessage, ProtocolError> {
        match frame.payload {
            None => Err(ProtocolError::TerminalFrameWithoutPayload),
            Some(payload) => Ok(
                match payload {
                    terminal_frame::Payload::Ready(p) => TerminalMessage::Ready {
                        tunnel_id: p.tunnel_id,
                    },
                    terminal_frame::Payload::Error(p) => TerminalMessage::Error {
                        message: p.message,
                    },
                    terminal_frame::Payload::TerminalFrameData(
                        p,
                    ) => TerminalMessage::TerminalFrameData {
                        client_id: p.client_id,
                        data: p.data,
                    },
                },
            ),
        }
    }
}

/// A terminal message is unchanged by the way through its frame.
pub proof fn law_terminal_frame_inverse(message: TerminalMessage)
    ensures
        <TerminalMessage as vstd::std_specs::convert::TryFromSpec<TerminalFrame>>::try_from_spec(
            <TerminalFrame as vstd::std_specs::convert::FromSpec<TerminalMessage>>::from_spec(
                message,
            ),
        ) == Ok::<TerminalMessage, ProtocolError>(message),
{
}

} // verus!
