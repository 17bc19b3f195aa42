//! The numbers by which hosts, relays and web servers know each other's messages
//! and fields. They may never change.

use crate::conversion::{ControlView, TerminalView};
use crate::instruction_for_web_server::InstructionView;
use crate::web_server_response::ResponseView;
use crate::wire_format;
use crate::wire_format::FieldView;
use vstd::prelude::*;

verus! {

/// Whether the field with a number has a value, in what a message is written as.
pub open spec fn field_is(content: (nat, Seq<FieldView>), number: int, value: FieldView) -> bool {
    1 <= number <= content.1.len() && content.1[number - 1] == value
}

/// Whether the bytes of a message are those of a message with this number.
pub open spec fn written_under(bytes: Seq<u8>, number: int) -> bool {
    bytes.len() > 0 && bytes[0] == 8 * number + 2
}

proof fn lemma_written_under(content: (nat, Seq<FieldView>))
    requires
        content.0 < 15,
    ensures
        written_under(wire_format::encode_frame(Some(content)), content.0 as int),
{
    let key = 8 * content.0 + 2;
    assert(wire_format::varint(key) == seq![key as u8]);
}

/// The numbers of the messages on a control tunnel and of their fields.
pub proof fn law_control_numbers(message: ControlView)
    ensures
        ({
            let c = message.content();
            let b = message.encoded();
            match message {
                ControlView::Auth {
                    token,
                    session_name,
                    protocol_version,
                    zellij_version,
                    requested_slug,
                } => written_under(b, 1) && field_is(c, 1, FieldView::Text(token)) && field_is(
                    c,
                    2,
                    FieldView::Text(session_name),
                ) && field_is(c, 3, FieldView::Uint32(protocol_version)) && field_is(
                    c,
                    4,
                    FieldView::Text(zellij_version),
                ) && field_is(c, 5, FieldView::Text(requested_slug)),
                ControlView::Established { public_url, slug, tunnel_id } => written_under(b, 2)
                    && field_is(c, 1, FieldView::Text(public_url)) && field_is(
                    c,
                    2,
                    FieldView::Text(slug),
                ) && field_is(c, 3, FieldView::Text(tunnel_id)),
                ControlView::Error { message: text } => written_under(b, 3) && field_is(
                    c,
                    1,
                    FieldView::Text(text),
                ),
                ControlView::AuthChallenge { request_id, token_hash } => written_under(b, 4)
                    && field_is(c, 1, FieldView::Bytes(request_id)) && field_is(
                    c,
                    2,
                    FieldView::Text(token_hash),
                ),
                ControlView::AuthResponse {
                    request_id,
                    client_id,
                    accepted,
                    is_read_only,
                    session_token_hash,
                    e2e_encrypted,
                } => written_under(b, 5) && field_is(c, 1, FieldView::Bytes(request_id)) && field_is(
                    c,
                    2,
                    FieldView::Uint32(client_id),
                ) && field_is(c, 3, FieldView::Bool(accepted)) && field_is(
                    c,
                    4,
                    FieldView::Bool(is_read_only),
                ) && field_is(c, 5, FieldView::Text(session_token_hash)) && field_is(
                    c,
                    6,
                    FieldView::Bool(e2e_encrypted),
                ),
                ControlView::ClientConnected { client_id } => written_under(b, 6) && field_is(
                    c,
                    1,
                    FieldView::Uint32(client_id),
                ),
                ControlView::ClientDisconnected { client_id } => written_under(b, 7) && field_is(
                    c,
                    1,
                    FieldView::Uint32(client_id),
                ),
                ControlView::ControlFrameData { client_id, data } => written_under(b, 8)
                    && field_is(c, 1, FieldView::Uint32(client_id)) && field_is(
                    c,
                    2,
                    FieldView::Bytes(data),
                ),
                ControlView::ReadOnlyViewerUpdate { token_hash, count } => written_under(b, 9)
                    && field_is(c, 1, FieldView::Text(token_hash)) && field_is(
                    c,
                    2,
                    FieldView::Uint32(count),
                ),
                ControlView::SessionSize { client_id, rows, cols } => written_under(b, 10)
                    && field_is(c, 1, FieldView::Uint32(client_id)) && field_is(
                    c,
                    2,
                    FieldView::Uint32(rows),
                ) && field_is(c, 3, FieldView::Uint32(cols)),
                ControlView::RevokeToken { token_hash } => written_under(b, 11) && field_is(
                    c,
                    1,
                    FieldView::Text(token_hash),
                ),
            }
        }),
{
    lemma_written_under(message.content());
}

/// The numbers of the messages on a terminal tunnel and of their fields.
pub proof fn law_terminal_numbers(message: TerminalView)
    ensures
        ({
            let c = message.content();
            let b = message.encoded();
            match message {
                TerminalView::Ready { tunnel_id } => written_under(b, 1) && field_is(
                    c,
                    1,
                    FieldView::Text(tunnel_id),
                ),
                TerminalView::Error { message: text } => written_under(b, 2) && field_is(
                    c,
                    1,
                    FieldView::Text(text),
                ),
                TerminalView::TerminalFrameData { client_id, data } => written_under(b, 3)
                    && field_is(c, 1, FieldView::Uint32(client_id)) && field_is(
                    c,
                    2,
                    FieldView::Bytes(data),
                ),
            }
        }),
{
    lemma_written_under(message.content());
}

/// The numbers of the instructions to a web server and of their fields. A client
/// number is read in sixteen bits.
pub proof fn law_instruction_numbers(message: InstructionView)
    ensures
        ({
            let c = message.content();
            let b = message.encoded();
            match message {
                InstructionView::ShutdownWebServer => written_under(b, 1),
                InstructionView::QueryVersion => written_under(b, 2),
                InstructionView::StartRelayTunnel {
                    client_id,
                    session_name,
                    relay_url,
                    zellij_version,
                    relay_tunnel_auth_token,
                } => written_under(b, 3) && field_is(c, 1, FieldView::Uint32(client_id))
                    && field_is(c, 2, FieldView::Text(session_name)) && field_is(
                    c,
                    3,
                    FieldView::Text(relay_url),
                ) && field_is(c, 4, FieldView::Text(zellij_version)) && field_is(
                    c,
                    5,
                    FieldView::Text(relay_tunnel_auth_token),
                ),
                InstructionView::StopRelayTunnel { client_id } => written_under(b, 4) && field_is(
                    c,
                    1,
                    FieldView::Uint32(client_id),
                ),
                InstructionView::GetRelayTunnelStatus { client_id } => written_under(b, 5)
                    && field_is(c, 1, FieldView::Uint32(client_id)),
                InstructionView::RevokeRelayToken { token_hash } => written_under(b, 6) && field_is(
                    c,
                    1,
                    FieldView::Text(token_hash),
                ),
            }
        }),
        message.narrowed().narrowed() == message.narrowed(),
        message.narrowed().content().0 == message.content().0,
        forall|i: int|
            0 <= i < message.content().1.len() ==> match #[trigger] message.content().1[i] {
                FieldView::Uint32(n) => message.narrowed().content().1[i] == FieldView::Uint32(
                    n % 0x1_0000,
                ),
                other => message.narrowed().content().1[i] == other,
            },
{
    lemma_written_under(message.content());
}

/// The numbers of the answers of a web server and of their fields. A client
/// number and a port are read in sixteen bits.
pub proof fn law_response_numbers(message: ResponseView)
    ensures
        ({
            let c = message.content();
            let b = message.encoded();
            match message {
                ResponseView::Version { version, ip, port } => written_under(b, 1) && field_is(
                    c,
                    1,
                    FieldView::Text(version),
                ) && field_is(c, 2, FieldView::Text(ip)) && field_is(c, 3, FieldView::Uint32(port)),
                ResponseView::RelayTunnelEstablished { client_id, public_url, slug, tunnel_id } =>
                    written_under(b, 2) && field_is(c, 1, FieldView::Uint32(client_id)) && field_is(
                    c,
                    2,
                    FieldView::Text(public_url),
                ) && field_is(c, 3, FieldView::Text(slug)) && field_is(
                    c,
                    4,
                    FieldView::Text(tunnel_id),
                ),
                ResponseView::RelayTunnelStopped { client_id } => written_under(b, 3) && field_is(
                    c,
                    1,
                    FieldView::Uint32(client_id),
                ),
                ResponseView::RelayTunnelError { client_id, message: text } => written_under(b, 4)
                    && field_is(c, 1, FieldView::Uint32(client_id)) && field_is(
                    c,
                    2,
                    FieldView::Text(text),
                ),
                ResponseView::RelayTunnelStatusReport { client_id, status_url } => written_under(
                    b,
                    5,
                ) && field_is(c, 1, FieldView::Uint32(client_id)) && field_is(
                    c,
                    2,
                    FieldView::OptionalText(status_url),
                ),
            }
        }),
        message.narrowed().narrowed() == message.narrowed(),
        message.narrowed().content().0 == message.content().0,
        forall|i: int|
            0 <= i < message.content().1.len() ==> match #[trigger] message.content().1[i] {
                FieldView::Uint32(n) => message.narrowed().content().1[i] == FieldView::Uint32(
                    n % 0x1_0000,
                ),
                other => message.narrowed().content().1[i] == other,
            },
{
    lemma_written_under(message.content());
}

} // verus!
