//! Who gets what the host sends, and what is left of a tunnel after each message
//! of the host.

use crate::conversion;
use crate::conversion::{ControlView, TerminalView};
use crate::ids;
use crate::registry::{RoutingView, TunnelView, ViewerHandle};
use crate::socket::SocketFrame;
use crate::text;
use crate::tunnel_control;
use crate::tunnel_control::ControlDispatch;
use crate::tunnel_terminal;
use crate::tunnel_terminal::TerminalHandshake;
use crate::viewer;
use vstd::prelude::*;
use vstd::utf8;

verus! {

// ---------------------------------------------------------------- sockets

/// The terminal sockets that are listed are those of the viewers, of each who
/// has one: a channel is listed exactly if some viewer of the list has it.
pub proof fn law_terminal_sinks_of_viewers(
    viewers: Map<u128, ViewerHandle>,
    ids: Seq<u128>,
    channel: u64,
)
    ensures
        tunnel_terminal::terminal_sinks(viewers, ids).contains(channel) <==> exists|i: int|
            0 <= i < ids.len() && viewers.contains_key(#[trigger] ids[i])
                && viewers[ids[i]].terminal_sink_tx == Some(channel),
    decreases ids.len(),
{
    let sinks = tunnel_terminal::terminal_sinks(viewers, ids);
    if ids.len() > 0 {
        let init = ids.drop_last();
        let before = tunnel_terminal::terminal_sinks(viewers, init);
        law_terminal_sinks_of_viewers(viewers, init, channel);
        if sinks.contains(channel) {
            let n = choose|n: int| 0 <= n < sinks.len() && sinks[n] == channel;
            if n < before.len() {
                assert(before[n] == channel);
                assert(before.contains(channel));
                let i = choose|i: int|
                    0 <= i < init.len() && viewers.contains_key(#[trigger] init[i])
                        && viewers[init[i]].terminal_sink_tx == Some(channel);
                assert(ids[i] == init[i]);
            } else {
                assert(ids[ids.len() - 1] == ids.last());
            }
        }
        if exists|i: int|
            0 <= i < ids.len() && viewers.contains_key(#[trigger] ids[i])
                && viewers[ids[i]].terminal_sink_tx == Some(channel) {
            let i = choose|i: int|
                0 <= i < ids.len() && viewers.contains_key(#[trigger] ids[i])
                    && viewers[ids[i]].terminal_sink_tx == Some(channel);
            if i < init.len() {
                assert(init[i] == ids[i]);
                assert(before.contains(channel));
                let n = choose|n: int| 0 <= n < before.len() && before[n] == channel;
                assert(sinks[n] == channel);
            } else {
                assert(sinks[sinks.len() - 1] == channel);
            }
        }
    }
}

/// Each viewer's own terminal socket decides for that viewer alone: the sockets
/// of two lists of viewers, one behind the other, are the sockets of the first
/// and then those of the second; and a single viewer adds its socket, if it has
/// one.
pub proof fn law_terminal_sinks_add_up(
    viewers: Map<u128, ViewerHandle>,
    first: Seq<u128>,
    second: Seq<u128>,
    id: u128,
)
    ensures
        tunnel_terminal::terminal_sinks(viewers, first + second)
            == tunnel_terminal::terminal_sinks(viewers, first) + tunnel_terminal::terminal_sinks(
            viewers,
            second,
        ),
        viewers.contains_key(id) && viewers[id].terminal_sink_tx is Some
            ==> tunnel_terminal::terminal_sinks(viewers, seq![id])
            == seq![viewers[id].terminal_sink_tx->0],
        !(viewers.contains_key(id) && viewers[id].terminal_sink_tx is Some)
            ==> tunnel_terminal::terminal_sinks(viewers, seq![id]) == Seq::<u64>::empty(),
    decreases second.len(),
{
    if second.len() > 0 {
        law_terminal_sinks_add_up(viewers, first, second.drop_last(), id);
        assert((first + second).drop_last() =~= first + second.drop_last());
        assert((first + second).last() == second.last());
    } else {
        assert(first + second =~= first);
    }
    assert(tunnel_terminal::terminal_sinks(viewers, first + second)
        =~= tunnel_terminal::terminal_sinks(viewers, first) + tunnel_terminal::terminal_sinks(
        viewers,
        second,
    ));
    assert(seq![id].drop_last() =~= Seq::<u128>::empty());
    assert(seq![id].last() == id);
    assert(tunnel_terminal::terminal_sinks(viewers, Seq::empty()) =~= Seq::<u64>::empty());
    if viewers.contains_key(id) && viewers[id].terminal_sink_tx is Some {
        assert(tunnel_terminal::terminal_sinks(viewers, seq![id])
            =~= seq![viewers[id].terminal_sink_tx->0]);
    }
}

/// As [`law_terminal_sinks_of_viewers`], for the control sockets. Nothing else
/// that is known of a viewer matters.
pub proof fn law_control_sinks_of_viewers(
    viewers: Map<u128, ViewerHandle>,
    ids: Seq<u128>,
    channel: u64,
)
    ensures
        tunnel_control::control_sinks(viewers, ids).contains(channel) <==> exists|i: int|
            0 <= i < ids.len() && viewers.contains_key(#[trigger] ids[i])
                && viewers[ids[i]].control_sink_tx == Some(channel),
    decreases ids.len(),
{
    let sinks = tunnel_control::control_sinks(viewers, ids);
    if ids.len() > 0 {
        let init = ids.drop_last();
        let before = tunnel_control::control_sinks(viewers, init);
        law_control_sinks_of_viewers(viewers, init, channel);
        if sinks.contains(channel) {
            let n = choose|n: int| 0 <= n < sinks.len() && sinks[n] == channel;
            if n < before.len() {
                assert(before[n] == channel);
                assert(before.contains(channel));
                let i = choose|i: int|
                    0 <= i < init.len() && viewers.contains_key(#[trigger] init[i])
                        && viewers[init[i]].control_sink_tx == Some(channel);
                assert(ids[i] == init[i]);
            } else {
                assert(ids[ids.len() - 1] == ids.last());
            }
        }
        if exists|i: int|
            0 <= i < ids.len() && viewers.contains_key(#[trigger] ids[i])
                && viewers[ids[i]].control_sink_tx == Some(channel) {
            let i = choose|i: int|
                0 <= i < ids.len() && viewers.contains_key(#[trigger] ids[i])
                    && viewers[ids[i]].control_sink_tx == Some(channel);
            if i < init.len() {
                assert(init[i] == ids[i]);
                assert(before.contains(channel));
                let n = choose|n: int| 0 <= n < before.len() && before[n] == channel;
                assert(sinks[n] == channel);
            } else {
                assert(sinks[sinks.len() - 1] == channel);
            }
        }
    }
}

/// As [`law_terminal_sinks_add_up`], for the control sockets.
pub proof fn law_control_sinks_add_up(
    viewers: Map<u128, ViewerHandle>,
    first: Seq<u128>,
    second: Seq<u128>,
    id: u128,
)
    ensures
        tunnel_control::control_sinks(viewers, first + second) == tunnel_control::control_sinks(
            viewers,
            first,
        ) + tunnel_control::control_sinks(viewers, second),
        viewers.contains_key(id) && viewers[id].control_sink_tx is Some
            ==> tunnel_control::control_sinks(viewers, seq![id])
            == seq![viewers[id].control_sink_tx->0],
        !(viewers.contains_key(id) && viewers[id].control_sink_tx is Some)
            ==> tunnel_control::control_sinks(viewers, seq![id]) == Seq::<u64>::empty(),
    decreases second.len(),
{
    if second.len() > 0 {
        law_control_sinks_add_up(viewers, first, second.drop_last(), id);
        assert((first + second).drop_last() =~= first + second.drop_last());
        assert((first + second).last() == second.last());
    } else {
        assert(first + second =~= first);
    }
    assert(tunnel_control::control_sinks(viewers, first + second) =~= tunnel_control::control_sinks(
        viewers,
        first,
    ) + tunnel_control::control_sinks(viewers, second));
    assert(seq![id].drop_last() =~= Seq::<u128>::empty());
    assert(seq![id].last() == id);
    assert(tunnel_control::control_sinks(viewers, Seq::empty()) =~= Seq::<u64>::empty());
    if viewers.contains_key(id) && viewers[id].control_sink_tx is Some {
        assert(tunnel_control::control_sinks(viewers, seq![id])
            =~= seq![viewers[id].control_sink_tx->0]);
    }
}

/// A viewer who attaches a terminal socket has that one from then on, keeps its
/// control socket, and changes nothing for anybody else.
pub proof fn law_terminal_socket_attached(
    tunnel: TunnelView,
    viewer_id: u128,
    is_read_only: bool,
    sink: u64,
    disconnect: u64,
    other: u128,
)
    requires
        other != viewer_id,
    ensures
        ({
            let after = tunnel.terminal_attached(viewer_id, is_read_only, sink, disconnect);
            let handle = after.viewers[viewer_id];
            &&& after.viewers.contains_key(viewer_id)
            &&& handle.terminal_sink_tx == Some(sink)
            &&& handle.disconnect_terminal == Some(disconnect)
            &&& handle.is_read_only == is_read_only
            &&& tunnel.viewers.contains_key(viewer_id) ==> handle.control_sink_tx
                == tunnel.viewers[viewer_id].control_sink_tx && handle.disconnect_control
                == tunnel.viewers[viewer_id].disconnect_control
            &&& !tunnel.viewers.contains_key(viewer_id) ==> handle.control_sink_tx is None
                && handle.disconnect_control is None
            &&& after.viewers.contains_key(other) <==> tunnel.viewers.contains_key(other)
            &&& tunnel.viewers.contains_key(other) ==> after.viewers[other] == tunnel.viewers[other]
            &&& same_but_viewers(tunnel, after)
        }),
{
}

/// As [`law_terminal_socket_attached`], for a control socket.
pub proof fn law_control_socket_attached(
    tunnel: TunnelView,
    viewer_id: u128,
    is_read_only: bool,
    sink: u64,
    disconnect: u64,
    other: u128,
)
    requires
        other != viewer_id,
    ensures
        ({
            let after = tunnel.control_attached(viewer_id, is_read_only, sink, disconnect);
            let handle = after.viewers[viewer_id];
            &&& after.viewers.contains_key(viewer_id)
            &&& handle.control_sink_tx == Some(sink)
            &&& handle.disconnect_control == Some(disconnect)
            &&& handle.is_read_only == is_read_only
            &&& tunnel.viewers.contains_key(viewer_id) ==> handle.terminal_sink_tx
                == tunnel.viewers[viewer_id].terminal_sink_tx && handle.disconnect_terminal
                == tunnel.viewers[viewer_id].disconnect_terminal
            &&& !tunnel.viewers.contains_key(viewer_id) ==> handle.terminal_sink_tx is None
                && handle.disconnect_terminal is None
            &&& after.viewers.contains_key(other) <==> tunnel.viewers.contains_key(other)
            &&& tunnel.viewers.contains_key(other) ==> after.viewers[other] == tunnel.viewers[other]
            &&& same_but_viewers(tunnel, after)
        }),
{
}

/// A viewer who has no socket yet has none of either kind, and nothing to close;
/// otherwise its sockets are those that are kept for it.
pub proof fn law_sockets_of_viewer(tunnel: TunnelView, viewer_id: u128)
    ensures
        tunnel.viewers.contains_key(viewer_id) ==> tunnel.handle_of(viewer_id)
            == tunnel.viewers[viewer_id],
        !tunnel.viewers.contains_key(viewer_id) ==> {
            let none = tunnel.handle_of(viewer_id);
            &&& none.terminal_sink_tx is None
            &&& none.control_sink_tx is None
            &&& none.disconnect_terminal is None
            &&& none.disconnect_control is None
            &&& !none.is_read_only
            &&& forall|channel: u64| !none.closes(channel)
        },
{
}

/// Whether two tunnels differ in the sockets of viewers at most.
pub open spec fn same_but_viewers(a: TunnelView, b: TunnelView) -> bool {
    &&& same_tunnel(a, b)
    &&& a.sessions == b.sessions
    &&& a.client_id_to_viewer == b.client_id_to_viewer
    &&& a.ro_groups == b.ro_groups
    &&& a.client_id_to_token_hash == b.client_id_to_token_hash
    &&& a.pending_auths == b.pending_auths
}

/// Whether two states are of one tunnel, with the terminal tunnel as it was.
pub open spec fn same_tunnel(a: TunnelView, b: TunnelView) -> bool {
    &&& a.tunnel_id == b.tunnel_id
    &&& a.slug == b.slug
    &&& a.public_url == b.public_url
    &&& a.session_name == b.session_name
    &&& a.zellij_version == b.zellij_version
    &&& a.terminal_linked == b.terminal_linked
    &&& a.terminal_tx == b.terminal_tx
}

// ---------------------------------------------------------------- terminal data

/// What the host sends for a client reaches the terminal socket of the viewer
/// whose own client it is, and no other socket; the bytes are the host's.
pub proof fn law_own_output_reaches_viewer(
    tunnel: TunnelView,
    token_hash: Seq<char>,
    client_id: u32,
    e2e_encrypted: bool,
    viewer_id: u128,
    sink: u64,
    disconnect: u64,
    data: Seq<u8>,
)
    requires
        !tunnel.client_id_to_token_hash.contains_key(client_id),
    ensures
        tunnel.rw_joined(token_hash, client_id, e2e_encrypted, viewer_id).terminal_attached(
            viewer_id,
            false,
            sink,
            disconnect,
        ).fanned_out(TerminalView::TerminalFrameData { client_id, data }) == Some(
            (seq![sink], data),
        ),
{
    let joined = tunnel.rw_joined(token_hash, client_id, e2e_encrypted, viewer_id);
    let after = joined.terminal_attached(viewer_id, false, sink, disconnect);
    law_terminal_sinks_add_up(after.viewers, Seq::empty(), Seq::empty(), viewer_id);
    assert(after.viewers_of(client_id) == seq![viewer_id]);
}

/// What the host sends for the client of a group reaches the terminal sockets
/// of all who are in the group and have one, and no other socket; the bytes are
/// the host's. Messages without terminal data reach nobody.
pub proof fn law_group_output_reaches_group(
    tunnel: TunnelView,
    token_hash: Seq<char>,
    data: Seq<u8>,
    channel: u64,
    message: TerminalView,
)
    requires
        tunnel.in_order(),
        tunnel.ro_groups.contains_key(token_hash),
        tunnel.ro_groups[token_hash].active_client_id is Some,
        !(message is TerminalFrameData),
    ensures
        tunnel.fanned_out(
            TerminalView::TerminalFrameData {
                client_id: tunnel.ro_groups[token_hash].active_client_id->0,
                data,
            },
        ) matches Some((sinks, sent)) && sent == data && (sinks.contains(channel) <==> exists|i:
            int|
            0 <= i < tunnel.ro_groups[token_hash].viewer_ids.len()
                && tunnel.viewers.contains_key(
                #[trigger] tunnel.ro_groups[token_hash].viewer_ids[i],
            ) && tunnel.viewers[tunnel.ro_groups[token_hash].viewer_ids[i]].terminal_sink_tx
                == Some(channel)),
        tunnel.fanned_out(message) is None,
{
    law_terminal_sinks_of_viewers(
        tunnel.viewers,
        tunnel.ro_groups[token_hash].viewer_ids,
        channel,
    );
}

/// What the host sends for a client that nobody has reaches nobody.
pub proof fn law_unknown_client_reaches_nobody(
    tunnel: TunnelView,
    client_id: u32,
    data: Seq<u8>,
)
    requires
        !tunnel.client_id_to_token_hash.contains_key(client_id),
        !tunnel.client_id_to_viewer.contains_key(client_id),
    ensures
        tunnel.fanned_out(TerminalView::TerminalFrameData { client_id, data }) == Some(
            (Seq::<u64>::empty(), data),
        ),
{
    assert(tunnel.viewers_of(client_id).len() == 0);
}

/// What a viewer types goes to the host under the viewer's own client, with its
/// bytes as they are, on the channel of the terminal tunnel; nothing goes there
/// for a viewer who may only watch, or while no terminal tunnel is open.
pub proof fn law_only_writers_type(
    tunnel: TunnelView,
    viewer_id: u128,
    client_id: u32,
    token_hash: Seq<char>,
    e2e_encrypted: bool,
    data: Seq<u8>,
    tx: u64,
)
    ensures
        ({
            let writer = viewer::rw_session(viewer_id, client_id, token_hash, e2e_encrypted);
            let watcher = viewer::ro_session(viewer_id, token_hash, e2e_encrypted);
            &&& tunnel.terminal_linked_on(tx).typed(writer, data) == Some(
                (tx, TerminalView::TerminalFrameData { client_id, data }),
            )
            &&& tunnel.terminal_tx is None ==> tunnel.typed(writer, data) is None
            &&& tunnel.typed(watcher, data) is None
            &&& viewer::told(writer, data) == Some(
                ControlView::ControlFrameData { client_id, data },
            )
            &&& viewer::told(watcher, data) is None
        }),
{
}

/// A terminal tunnel is linked by the message that names the tunnel, in the
/// bytes that a host sends for it, and by no frame that holds another message.
pub proof fn law_handshake_names_tunnel(
    tunnel_id: u128,
    bytes: Vec<u8>,
    message: TerminalView,
    handshake: TerminalHandshake,
)
    requires
        bytes@ == message.encoded(),
        message.encoded().len() <= u64::MAX,
        tunnel_terminal::handshake_is(tunnel_id, Some(SocketFrame::Binary(bytes)), handshake),
    ensures
        handshake is Linked <==> message == (TerminalView::Ready {
            tunnel_id: ids::hyphenated(tunnel_id),
        }),
{
    let expected = TerminalView::Ready { tunnel_id: ids::hyphenated(tunnel_id) };
    conversion::law_terminal_message_roundtrip(message);
    if message.content() == expected.content() {
        conversion::law_terminal_content_injective(message, expected);
    }
}

/// Only a binary frame links a terminal tunnel; any other one is turned down with
/// words that say so, and a socket that ends or fails is dropped without a word.
pub proof fn law_handshake_is_binary(
    tunnel_id: u128,
    first: Option<SocketFrame>,
    handshake: TerminalHandshake,
)
    requires
        tunnel_terminal::handshake_is(tunnel_id, first, handshake),
    ensures
        handshake is Linked ==> first matches Some(SocketFrame::Binary(_)),
        handshake matches TerminalHandshake::Rejected(message) ==> message@ is Error,
        first matches Some(frame) ==> !(frame is Binary) && !(frame is Failed) ==> (
        handshake matches TerminalHandshake::Rejected(message) && message@ == (
        TerminalView::Error { message: "expected binary TunnelReady frame"@ })),
        handshake is Dropped <==> first is None || first == Some(SocketFrame::Failed),
{
}

// ---------------------------------------------------------------- messages of the host

/// The host's control text for the client of one viewer reaches that viewer's
/// control socket, and no other; the text is the host's.
pub proof fn law_own_control_reaches_viewer(
    tunnel: TunnelView,
    token_hash: Seq<char>,
    client_id: u32,
    e2e_encrypted: bool,
    viewer_id: u128,
    is_read_only: bool,
    sink: u64,
    disconnect: u64,
    sent: Seq<char>,
    dispatch: ControlDispatch,
)
    requires
        !tunnel.client_id_to_token_hash.contains_key(client_id),
        tunnel_control::dispatch_is(
            tunnel.rw_joined(token_hash, client_id, e2e_encrypted, viewer_id).control_attached(
                viewer_id,
                is_read_only,
                sink,
                disconnect,
            ),
            ControlView::ControlFrameData { client_id, data: utf8::encode_utf8(sent) },
            dispatch,
        ),
    ensures
        dispatch matches ControlDispatch::SendText { sinks, text } && sinks@ == seq![sink]
            && text@ == sent,
{
    let after = tunnel.rw_joined(token_hash, client_id, e2e_encrypted, viewer_id).control_attached(
        viewer_id,
        is_read_only,
        sink,
        disconnect,
    );
    law_control_sinks_add_up(after.viewers, Seq::empty(), Seq::empty(), viewer_id);
    assert(after.viewers_of(client_id) == seq![viewer_id]);
    utf8::encode_utf8_valid_utf8(sent);
    utf8::encode_utf8_decode_utf8(sent);
}

/// The host's control text, and its word on the size of the session, reach the
/// control sockets of all viewers of the client who have one, and no other.
pub proof fn law_control_reaches_viewers(
    tunnel: TunnelView,
    client_id: u32,
    message: ControlView,
    dispatch: ControlDispatch,
    channel: u64,
)
    requires
        tunnel_control::dispatch_is(tunnel, message, dispatch),
        match message {
            ControlView::ControlFrameData { client_id: id, .. } => id == client_id,
            ControlView::SessionSize { client_id: id, .. } => id == client_id,
            _ => false,
        },
        dispatch is SendText,
    ensures
        dispatch->sinks@.contains(channel) <==> exists|i: int|
            0 <= i < tunnel.viewers_of(client_id).len() && tunnel.viewers.contains_key(
                #[trigger] tunnel.viewers_of(client_id)[i],
            ) && tunnel.viewers[tunnel.viewers_of(client_id)[i]].control_sink_tx == Some(channel),
{
    law_control_sinks_of_viewers(tunnel.viewers, tunnel.viewers_of(client_id), channel);
}

/// The host's word on the size of a session goes out as a text that names rows
/// and columns, each under its own name.
pub proof fn law_size_is_told(
    tunnel: TunnelView,
    client_id: u32,
    rows: u32,
    cols: u32,
    dispatch: ControlDispatch,
)
    requires
        tunnel_control::dispatch_is(
            tunnel,
            ControlView::SessionSize { client_id, rows, cols },
            dispatch,
        ),
    ensures
        dispatch matches ControlDispatch::SendText { text: sent, .. } && text::contains_text(
            sent@,
            "\"type\":\"SessionSizeChanged\""@,
        ) && text::contains_text(
            sent@,
            "\"rows\":"@ + text::decimal(rows as nat) + ","@,
        ) && text::contains_text(sent@, "\"cols\":"@ + text::decimal(cols as nat) + "}"@),
{
    reveal_strlit("{\"type\":\"SessionSizeChanged\",\"rows\":");
    reveal_strlit(",\"cols\":");
    reveal_strlit("}");
    reveal_strlit(",");
    reveal_strlit("\"type\":\"SessionSizeChanged\"");
    reveal_strlit("\"rows\":");
    reveal_strlit("\"cols\":");
    let head = "{\"type\":\"SessionSizeChanged\",\"rows\":"@;
    let r = text::decimal(rows as nat);
    let c = text::decimal(cols as nat);
    let whole = tunnel_control::session_size_text(rows, cols);
    let kind = "\"type\":\"SessionSizeChanged\""@;
    assert(whole.subrange(1, 1 + kind.len() as int) =~= kind);
    assert(text::occurs_at(whole, kind, 1));
    let row_part = "\"rows\":"@ + r + ","@;
    let at = head.len() - 7;
    assert(whole.subrange(at, at + row_part.len()) =~= row_part);
    assert(text::occurs_at(whole, row_part, at));
    let col_part = "\"cols\":"@ + c + "}"@;
    let to: int = head.len() + r.len() + 1int;
    assert(whole.subrange(to, to + col_part.len()) =~= col_part);
    assert(text::occurs_at(whole, col_part, to));
}

/// The host's answer to a question goes to whoever waits for it, with what the
/// host said; an answer that nobody waits for goes nowhere. The question is
/// then not open any more; every other one is.
pub proof fn law_answer_reaches_waiter(
    tunnel: TunnelView,
    request_id: Seq<u8>,
    client_id: u32,
    accepted: bool,
    is_read_only: bool,
    session_token_hash: Seq<char>,
    e2e_encrypted: bool,
    dispatch: ControlDispatch,
    other: Seq<u8>,
)
    requires
        tunnel_control::dispatch_is(
            tunnel,
            ControlView::AuthResponse {
                request_id,
                client_id,
                accepted,
                is_read_only,
                session_token_hash,
                e2e_encrypted,
            },
            dispatch,
        ),
        other != request_id,
    ensures
        tunnel.pending_auths.contains_key(request_id) ==> (dispatch matches ControlDispatch::Resolve {
            waiter,
            result,
        } && waiter == tunnel.pending_auths[request_id] && result.accepted == accepted
            && result.client_id == client_id && result.is_read_only == is_read_only
            && result.session_token_hash@ == session_token_hash && result.e2e_encrypted
            == e2e_encrypted),
        !tunnel.pending_auths.contains_key(request_id) ==> dispatch is Nothing,
        ({
            let after = tunnel.after_control(
                ControlView::AuthResponse {
                    request_id,
                    client_id,
                    accepted,
                    is_read_only,
                    session_token_hash,
                    e2e_encrypted,
                },
            );
            &&& !after.pending_auths.contains_key(request_id)
            &&& after.pending_auths.contains_key(other) <==> tunnel.pending_auths.contains_key(
                other,
            )
            &&& tunnel.pending_auths.contains_key(other) ==> after.pending_auths[other]
                == tunnel.pending_auths[other]
            &&& same_tunnel(tunnel, after)
            &&& after.viewers == tunnel.viewers
            &&& after.sessions == tunnel.sessions
            &&& after.ro_groups == tunnel.ro_groups
            &&& after.client_id_to_viewer == tunnel.client_id_to_viewer
            &&& after.client_id_to_token_hash == tunnel.client_id_to_token_hash
        }),
{
}

/// A client that the host ends takes its own viewers' sockets away, and nobody
/// else's: every other viewer keeps the sockets it had, and nothing else of the
/// tunnel changes.
pub proof fn law_disconnect_spares_others(tunnel: TunnelView, client_id: u32, viewer_id: u128)
    ensures
        ({
            let after = tunnel.after_control(ControlView::ClientDisconnected { client_id });
            &&& tunnel.viewers_of(client_id).contains(viewer_id) ==> !after.viewers.contains_key(
                viewer_id,
            )
            &&& !tunnel.viewers_of(client_id).contains(viewer_id) ==> (after.viewers.contains_key(
                viewer_id,
            ) <==> tunnel.viewers.contains_key(viewer_id))
            &&& !tunnel.viewers_of(client_id).contains(viewer_id) && tunnel.viewers.contains_key(
                viewer_id,
            ) ==> after.viewers[viewer_id] == tunnel.viewers[viewer_id]
            &&& same_but_viewers(tunnel, after)
        }),
{
}

proof fn lemma_same_terminal_sinks(
    a: Map<u128, ViewerHandle>,
    b: Map<u128, ViewerHandle>,
    ids: Seq<u128>,
)
    requires
        forall|i: int|
            0 <= i < ids.len() ==> (a.contains_key(#[trigger] ids[i]) <==> b.contains_key(ids[i]))
                && (a.contains_key(ids[i]) ==> a[ids[i]] == b[ids[i]]),
    ensures
        tunnel_terminal::terminal_sinks(a, ids) == tunnel_terminal::terminal_sinks(b, ids),
        tunnel_control::control_sinks(a, ids) == tunnel_control::control_sinks(b, ids),
    decreases ids.len(),
{
    if ids.len() > 0 {
        let init = ids.drop_last();
        assert forall|i: int| 0 <= i < init.len() implies (a.contains_key(#[trigger] init[i])
            <==> b.contains_key(init[i])) && (a.contains_key(init[i]) ==> a[init[i]]
            == b[init[i]]) by {
            assert(init[i] == ids[i]);
        }
        lemma_same_terminal_sinks(a, b, init);
        assert(ids[ids.len() - 1] == ids.last());
    }
}

/// When the host ends a client, what it sends for another one, whose viewers
/// are others, goes where it went before.
pub proof fn law_disconnect_keeps_other_output(
    tunnel: TunnelView,
    client_id: u32,
    other: u32,
    data: Seq<u8>,
)
    requires
        forall|id: u128| #[trigger]
            tunnel.viewers_of(other).contains(id) ==> !tunnel.viewers_of(client_id).contains(id),
    ensures
        tunnel.after_control(ControlView::ClientDisconnected { client_id }).fanned_out(
            TerminalView::TerminalFrameData { client_id: other, data },
        ) == tunnel.fanned_out(TerminalView::TerminalFrameData { client_id: other, data }),
{
    let after = tunnel.after_control(ControlView::ClientDisconnected { client_id });
    let ids = tunnel.viewers_of(other);
    assert forall|i: int| 0 <= i < ids.len() implies (tunnel.viewers.contains_key(#[trigger] ids[i])
        <==> after.viewers.contains_key(ids[i])) && (tunnel.viewers.contains_key(ids[i])
        ==> tunnel.viewers[ids[i]] == after.viewers[ids[i]]) by {
        assert(ids.contains(ids[i]));
        law_disconnect_spares_others(tunnel, client_id, ids[i]);
    }
    lemma_same_terminal_sinks(tunnel.viewers, after.viewers, ids);
    assert(after.viewers_of(other) == ids);
}

/// The sockets that are to close when the host ends a client are those of the
/// client's viewers, of each who has any, once each.
pub proof fn law_disconnect_closes_own(
    tunnel: TunnelView,
    client_id: u32,
    dispatch: ControlDispatch,
    viewer_id: u128,
    handle: ViewerHandle,
)
    requires
        tunnel_control::dispatch_is(
            tunnel,
            ControlView::ClientDisconnected { client_id },
            dispatch,
        ),
    ensures
        dispatch matches ControlDispatch::Disconnect { viewers } && viewers@.no_duplicates() && (
        viewers@.contains((viewer_id, handle)) <==> tunnel.viewers_of(client_id).contains(viewer_id)
            && tunnel.viewers.contains_key(viewer_id) && tunnel.viewers[viewer_id] == handle),
{
    assert(tunnel.viewers_of(client_id).to_set().contains(viewer_id) == tunnel.viewers_of(
        client_id,
    ).contains(viewer_id));
}

/// A size that the host tells for a client is kept for the group that watches
/// through it, and for no other; nothing else of the tunnel changes. Whoever
/// asks for its session from then on is told the size.
pub proof fn law_size_kept_for_group(
    tunnel: TunnelView,
    token_hash: Seq<char>,
    rows: u32,
    cols: u32,
    other: Seq<char>,
    viewer_id: u128,
    e2e_encrypted: bool,
)
    requires
        tunnel.in_order(),
        tunnel.group_is_live(token_hash),
        other != token_hash,
    ensures
        ({
            let client_id = tunnel.ro_groups[token_hash].active_client_id->0;
            let after = tunnel.after_control(ControlView::SessionSize { client_id, rows, cols });
            let group = tunnel.ro_groups[token_hash];
            &&& viewer::size_of_session(
                after,
                viewer::ro_session(viewer_id, token_hash, e2e_encrypted),
            ) == (rows, cols)
            &&& viewer::size_of_session(
                after,
                viewer::ro_session(viewer_id, other, e2e_encrypted),
            ) == viewer::size_of_session(
                tunnel,
                viewer::ro_session(viewer_id, other, e2e_encrypted),
            )
            &&& after.ro_groups.contains_key(token_hash)
            &&& after.ro_groups[token_hash].viewer_ids == group.viewer_ids
            &&& after.ro_groups[token_hash].active_client_id == group.active_client_id
            &&& after.ro_groups[token_hash].e2e_encrypted == group.e2e_encrypted
            &&& after.ro_groups.contains_key(other) <==> tunnel.ro_groups.contains_key(other)
            &&& tunnel.ro_groups.contains_key(other) ==> after.ro_groups[other]
                == tunnel.ro_groups[other]
            &&& same_tunnel(tunnel, after)
            &&& after.viewers == tunnel.viewers
            &&& after.sessions == tunnel.sessions
            &&& after.pending_auths == tunnel.pending_auths
            &&& after.client_id_to_viewer == tunnel.client_id_to_viewer
            &&& after.client_id_to_token_hash == tunnel.client_id_to_token_hash
        }),
{
}

/// The size of the session stays known to a group while viewers come, and a
/// viewer with a client of its own is told none.
pub proof fn law_size_known_to_late_viewer(
    tunnel: TunnelView,
    token_hash: Seq<char>,
    client_id: u32,
    e2e_encrypted: bool,
    viewer_id: u128,
)
    requires
        tunnel.in_order(),
        tunnel.group_is_live(token_hash),
    ensures
        ({
            let session = viewer::ro_session(viewer_id, token_hash, e2e_encrypted);
            let size = viewer::size_of_session(tunnel, session);
            &&& viewer::size_of_session(tunnel.ro_joined(token_hash, viewer_id), session) == size
            &&& viewer::size_of_session(
                tunnel.ro_revived(token_hash, client_id, e2e_encrypted, viewer_id),
                session,
            ) == size
            &&& viewer::size_of_session(
                tunnel,
                viewer::rw_session(viewer_id, client_id, token_hash, e2e_encrypted),
            ) == (0u32, 0u32)
        }),
{
}

/// A size that nobody has told is 0 by 0.
pub proof fn law_unknown_size_is_nothing(
    tunnel: TunnelView,
    token_hash: Seq<char>,
    client_id: u32,
    e2e_encrypted: bool,
    viewer_id: u128,
)
    requires
        !tunnel.ro_groups.contains_key(token_hash),
    ensures
        viewer::size_of_session(
            tunnel.ro_opened(token_hash, client_id, e2e_encrypted, viewer_id),
            viewer::ro_session(viewer_id, token_hash, e2e_encrypted),
        ) == (0u32, 0u32),
        viewer::size_of_session(
            tunnel,
            viewer::ro_session(viewer_id, token_hash, e2e_encrypted),
        ) == (0u32, 0u32),
{
}

/// A revoked token takes away what came with it and nothing else: the sessions
/// and groups of other tokens stay as they were, so do the clients that their
/// viewers have, the clients that other groups watch through, the sockets of
/// viewers who neither came with the token nor are in its group, and the
/// questions that are open.
pub proof fn law_revocation_spares_others(
    tunnel: TunnelView,
    token_hash: Seq<char>,
    viewer_id: u128,
    other_hash: Seq<char>,
    client_id: u32,
)
    requires
        tunnel.in_order(),
        other_hash != token_hash,
    ensures
        ({
            let after = tunnel.after_control(ControlView::RevokeToken { token_hash });
            let came_with = tunnel.sessions.contains_key(viewer_id)
                && tunnel.sessions[viewer_id].token_hash == token_hash;
            let in_group = tunnel.ro_groups.contains_key(token_hash)
                && tunnel.ro_groups[token_hash].viewer_ids.contains(viewer_id);
            &&& came_with ==> !after.sessions.contains_key(viewer_id)
            &&& !came_with ==> (after.sessions.contains_key(viewer_id)
                <==> tunnel.sessions.contains_key(viewer_id))
            &&& !came_with && tunnel.sessions.contains_key(viewer_id)
                ==> after.sessions[viewer_id] == tunnel.sessions[viewer_id]
            &&& came_with || in_group ==> !after.viewers.contains_key(viewer_id)
            &&& !came_with && !in_group ==> (after.viewers.contains_key(viewer_id)
                <==> tunnel.viewers.contains_key(viewer_id))
            &&& !came_with && !in_group && tunnel.viewers.contains_key(viewer_id)
                ==> after.viewers[viewer_id] == tunnel.viewers[viewer_id]
            &&& !after.ro_groups.contains_key(token_hash)
            &&& after.ro_groups.contains_key(other_hash) <==> tunnel.ro_groups.contains_key(
                other_hash,
            )
            &&& tunnel.ro_groups.contains_key(other_hash) ==> after.ro_groups[other_hash]
                == tunnel.ro_groups[other_hash]
            &&& tunnel.client_id_to_token_hash.contains_key(client_id)
                && tunnel.client_id_to_token_hash[client_id] == other_hash
                ==> after.client_id_to_token_hash.contains_key(client_id)
                && after.client_id_to_token_hash[client_id] == other_hash
            &&& tunnel.client_id_to_token_hash.contains_key(client_id)
                && tunnel.client_id_to_token_hash[client_id] == token_hash
                ==> !after.client_id_to_token_hash.contains_key(client_id)
            &&& (forall|id: u128| #[trigger]
                tunnel.sessions.contains_key(id) && tunnel.sessions[id].token_hash == token_hash
                    ==> tunnel.sessions[id].routing != RoutingView::Rw(client_id)) ==> (
            after.client_id_to_viewer.contains_key(client_id)
                <==> tunnel.client_id_to_viewer.contains_key(client_id)) && (
            tunnel.client_id_to_viewer.contains_key(client_id)
                ==> after.client_id_to_viewer[client_id] == tunnel.client_id_to_viewer[client_id])
            &&& came_with && tunnel.sessions[viewer_id].routing == RoutingView::Rw(client_id)
                ==> !after.client_id_to_viewer.contains_key(client_id)
            &&& after.pending_auths == tunnel.pending_auths
            &&& same_tunnel(tunnel, after)
        }),
{
    let after = tunnel.after_control(ControlView::RevokeToken { token_hash });
    assert(tunnel.sessions_of(token_hash).contains(viewer_id) <==> tunnel.sessions.contains_key(
        viewer_id,
    ) && tunnel.sessions[viewer_id].token_hash == token_hash);
    if tunnel.client_id_to_token_hash.contains_key(client_id) {
        assert(tunnel.ro_groups.contains_key(tunnel.client_id_to_token_hash[client_id]));
    }
    if tunnel.group_is_live(token_hash) {
        assert(tunnel.ro_groups.contains_key(token_hash));
    }
    if tunnel.clients_of(token_hash).contains(client_id) {
        let id = choose|id: u128|
            tunnel.sessions_of(token_hash).contains(id) && #[trigger] tunnel.sessions[id].routing
                == RoutingView::Rw(client_id);
        assert(tunnel.sessions.contains_key(id) && tunnel.sessions[id].token_hash == token_hash);
    }
    if tunnel.sessions_of(token_hash).contains(viewer_id) && tunnel.sessions[viewer_id].routing
        == RoutingView::Rw(client_id) {
        assert(tunnel.clients_of(token_hash).contains(client_id));
    }
}

/// The sockets that are to close when a token is revoked are those of everyone
/// who came with it or is in its group, once each.
pub proof fn law_revocation_closes_own(
    tunnel: TunnelView,
    token_hash: Seq<char>,
    dispatch: ControlDispatch,
    viewer_id: u128,
    handle: ViewerHandle,
)
    requires
        tunnel_control::dispatch_is(tunnel, ControlView::RevokeToken { token_hash }, dispatch),
    ensures
        dispatch matches ControlDispatch::Disconnect { viewers } && viewers@.no_duplicates() && (
        viewers@.contains((viewer_id, handle)) <==> tunnel.viewers.contains_key(viewer_id)
            && tunnel.viewers[viewer_id] == handle && (tunnel.sessions.contains_key(viewer_id)
            && tunnel.sessions[viewer_id].token_hash == token_hash
            || tunnel.ro_groups.contains_key(token_hash)
            && tunnel.ro_groups[token_hash].viewer_ids.contains(viewer_id))),
{
    assert(tunnel.sessions_of(token_hash).contains(viewer_id) <==> tunnel.sessions.contains_key(
        viewer_id,
    ) && tunnel.sessions[viewer_id].token_hash == token_hash);
}

/// The messages that the relay itself sends to hosts, and the words of a
/// handshake, change nothing when a host sends them, and reach nobody.
pub proof fn law_other_messages_do_nothing(
    tunnel: TunnelView,
    message: ControlView,
    dispatch: ControlDispatch,
)
    requires
        tunnel_control::dispatch_is(tunnel, message, dispatch),
        !(message is AuthResponse),
        !(message is ControlFrameData),
        !(message is ClientDisconnected),
        !(message is SessionSize),
        !(message is RevokeToken),
    ensures
        dispatch is Nothing,
        tunnel.after_control(message) == tunnel,
{
}

/// Control text changes nothing of a tunnel; what is not text reaches nobody.
pub proof fn law_control_text_changes_nothing(
    tunnel: TunnelView,
    client_id: u32,
    data: Seq<u8>,
    dispatch: ControlDispatch,
)
    requires
        tunnel_control::dispatch_is(
            tunnel,
            ControlView::ControlFrameData { client_id, data },
            dispatch,
        ),
    ensures
        tunnel.after_control(ControlView::ControlFrameData { client_id, data }) == tunnel,
        dispatch is SendText <==> utf8::valid_utf8(data),
        !utf8::valid_utf8(data) ==> dispatch is Nothing,
{
}

/// A terminal tunnel that is linked changes nothing but the channel to the
/// host, and nothing but that channel goes with it.
pub proof fn law_terminal_link_changes_channel_only(tunnel: TunnelView, tx: u64)
    ensures
        ({
            let after = tunnel.terminal_linked_on(tx);
            &&& after.terminal_tx == Some(tx)
            &&& after.terminal_linked
            &&& after.tunnel_id == tunnel.tunnel_id
            &&& after.slug == tunnel.slug
            &&& after.viewers == tunnel.viewers
            &&& after.sessions == tunnel.sessions
            &&& after.ro_groups == tunnel.ro_groups
            &&& after.pending_auths == tunnel.pending_auths
            &&& after.client_id_to_viewer == tunnel.client_id_to_viewer
            &&& after.client_id_to_token_hash == tunnel.client_id_to_token_hash
        }),
{
}

} // verus!
