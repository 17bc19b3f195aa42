//! What holds of a session host's end of a tunnel, whatever the relay says.

use crate::conversion::{ControlView, TerminalView};
use crate::crypto;
use crate::crypto::CryptoError;
use crate::multiplexer;
use crate::multiplexer::{
    ClientChannels, ControlInput, Heartbeat, HostControlAction, HostView, OutboundControl,
    SpawnedClient, TokenValidation,
};
use crate::socket;
use crate::socket::SocketFrame;
use crate::text;
use vstd::prelude::*;
use vstd::utf8;

verus! {

/// Whether two states are of one tunnel.
pub open spec fn same_host_tunnel(a: HostView, b: HostView) -> bool {
    a.tunnel_id == b.tunnel_id && a.session_name == b.session_name
}

/// A client that goes goes alone: every other client stays as it was, and
/// nothing else changes.
pub proof fn law_client_goes_alone(host: HostView, client_id: u32, other: u32)
    requires
        other != client_id,
    ensures
        ({
            let after = host.client_gone(client_id);
            &&& !after.clients.contains_key(client_id)
            &&& after.clients.contains_key(other) <==> host.clients.contains_key(other)
            &&& host.clients.contains_key(other) ==> after.clients[other] == host.clients[other]
            &&& after.next_client_id == host.next_client_id
            &&& after.pending_e2e_keys == host.pending_e2e_keys
            &&& after.pending_read_only == host.pending_read_only
            &&& after.token_hash_to_client_id == host.token_hash_to_client_id
            &&& same_host_tunnel(host, after)
        }),
{
}

/// What a viewer types goes to the terminal channel of that viewer's client,
/// with its bytes as they are; when another client goes it still does, and when
/// the client itself goes it does not any more. Nothing but terminal data goes
/// there.
pub proof fn law_input_goes_to_own_client(
    host: HostView,
    client_id: u32,
    other: u32,
    data: Seq<u8>,
    message: TerminalView,
)
    requires
        host.clients.contains_key(client_id),
        other != client_id,
        !(message is TerminalFrameData),
    ensures
        host.terminal_target(TerminalView::TerminalFrameData { client_id, data }) == Some(
            (host.clients[client_id].terminal_input_tx, data),
        ),
        host.client_gone(other).terminal_target(
            TerminalView::TerminalFrameData { client_id, data },
        ) == Some((host.clients[client_id].terminal_input_tx, data)),
        host.client_gone(client_id).terminal_target(
            TerminalView::TerminalFrameData { client_id, data },
        ) is None,
        host.terminal_target(message) is None,
{
}

/// A viewer whom the host lets in waits under a number that no one before it
/// got in a row, with the key of its token and its rights; nobody else who
/// waits is touched, and no client comes or goes.
pub proof fn law_accepted_viewer_waits(
    host: HostView,
    token_hash: Seq<char>,
    is_read_only: bool,
    other: u32,
    other_hash: Seq<char>,
)
    requires
        other != host.next_client_id,
        other_hash != token_hash,
    ensures
        ({
            let after = host.accepted(token_hash, is_read_only);
            let id = host.next_client_id;
            &&& after.next_client_id == if id == u32::MAX {
                0
            } else {
                id + 1
            }
            &&& after.pending_e2e_keys.contains_key(id)
            &&& after.pending_e2e_keys[id] == crypto::derived_key(token_hash, host.tunnel_id)
            &&& after.pending_read_only.contains_key(id)
            &&& after.pending_read_only[id] == is_read_only
            &&& after.pending_e2e_keys.contains_key(other) <==> host.pending_e2e_keys.contains_key(
                other,
            )
            &&& host.pending_e2e_keys.contains_key(other) ==> after.pending_e2e_keys[other]
                == host.pending_e2e_keys[other]
            &&& after.pending_read_only.contains_key(other)
                <==> host.pending_read_only.contains_key(other)
            &&& host.pending_read_only.contains_key(other) ==> after.pending_read_only[other]
                == host.pending_read_only[other]
            &&& after.clients == host.clients
            &&& is_read_only ==> after.token_hash_to_client_id.contains_key(token_hash)
                && after.token_hash_to_client_id[token_hash] == id
            &&& !is_read_only ==> after.token_hash_to_client_id == host.token_hash_to_client_id
            &&& after.token_hash_to_client_id.contains_key(other_hash)
                <==> host.token_hash_to_client_id.contains_key(other_hash)
            &&& host.token_hash_to_client_id.contains_key(other_hash)
                ==> after.token_hash_to_client_id[other_hash]
                == host.token_hash_to_client_id[other_hash]
            &&& same_host_tunnel(host, after)
        }),
{
}

/// The relay's question is answered under its own number and for its own token:
/// with a yes exactly if the books know the token, with the rights that the
/// books give it and a client of its own. A no changes nothing. The client of a
/// watcher, and only of a watcher, is to be made at once.
pub proof fn law_books_decide(
    before: HostView,
    after: HostView,
    request_id: Seq<u8>,
    token_hash: Seq<char>,
    outcome: TokenValidation,
    answer: ControlView,
    spawn: Option<u32>,
)
    requires
        multiplexer::challenge_answered(
            before,
            after,
            request_id,
            token_hash,
            outcome,
            answer,
            spawn,
        ),
    ensures
        answer matches ControlView::AuthResponse {
            request_id: id,
            client_id,
            accepted,
            is_read_only,
            session_token_hash,
            e2e_encrypted,
        } && {
            &&& id == request_id
            &&& session_token_hash == token_hash
            &&& accepted <==> outcome is Valid
            &&& is_read_only <==> outcome == (TokenValidation::Valid { is_read_only: true })
            &&& accepted ==> client_id == before.next_client_id && e2e_encrypted
            &&& !accepted ==> client_id == 0 && !e2e_encrypted
            &&& accepted ==> after.pending_e2e_keys.contains_key(client_id)
                && after.pending_read_only.contains_key(client_id)
                && after.pending_read_only[client_id] == is_read_only
            &&& spawn == if is_read_only {
                Some(client_id)
            } else {
                None
            }
        },
        !(outcome is Valid) ==> after == before,
{
}

/// A client that is made has the channels that were opened for it, the key and
/// the rights that waited for it, and waits no more. Nobody else is touched. A
/// client that cannot be made leaves all clients as they were.
pub proof fn law_spawned_client(
    before: HostView,
    after: HostView,
    client_id: u32,
    os_api: Result<(), String>,
    channels: ClientChannels,
    r: Result<SpawnedClient, String>,
    other: u32,
    data: Seq<u8>,
)
    requires
        multiplexer::client_spawned(before, after, client_id, os_api, channels, r),
        other != client_id,
    ensures
        r is Ok <==> os_api is Ok && before.pending_e2e_keys.contains_key(client_id)
            && before.pending_read_only.contains_key(client_id),
        r matches Ok(client) ==> {
            &&& client.e2e_key@ == before.pending_e2e_keys[client_id]
            &&& client.is_read_only == before.pending_read_only[client_id]
            &&& client.web_client_id@ == "relay-client-"@ + text::decimal(client_id as nat)
            &&& client.tunnel_session_hash@ == "relay-tunnel-"@ + text::decimal(client_id as nat)
            &&& after.clients.contains_key(client_id)
            &&& after.clients[client_id].is_read_only == client.is_read_only
            &&& after.clients[client_id].web_client_id == client.web_client_id@
            &&& after.clients[client_id].control_input_tx == channels.control_input_tx
            &&& after.clients[client_id].shutdown == Some(channels.shutdown)
            &&& after.terminal_target(TerminalView::TerminalFrameData { client_id, data }) == Some(
                (channels.terminal_input_tx, data),
            )
            &&& !after.pending_e2e_keys.contains_key(client_id)
            &&& !after.pending_read_only.contains_key(client_id)
        },
        r is Err ==> after.clients == before.clients && after.pending_read_only
            == before.pending_read_only,
        os_api is Err ==> after == before,
        os_api is Ok ==> !after.pending_e2e_keys.contains_key(client_id),
        os_api matches Err(reason) ==> (r matches Err(words) && text::ends_with(words@, reason@)),
        os_api is Ok && !before.pending_e2e_keys.contains_key(client_id) ==> (r matches Err(words)
            && text::begins_with(
            words@,
            "no pending e2e key for client_id="@ + text::decimal(client_id as nat),
        )),
        os_api is Ok && before.pending_e2e_keys.contains_key(client_id)
            && !before.pending_read_only.contains_key(client_id) ==> (r matches Err(words)
            && text::begins_with(
            words@,
            "no pending is_read_only flag for client_id="@ + text::decimal(client_id as nat),
        )),
        after.clients.contains_key(other) <==> before.clients.contains_key(other),
        before.clients.contains_key(other) ==> after.clients[other] == before.clients[other],
        after.pending_e2e_keys.contains_key(other) <==> before.pending_e2e_keys.contains_key(other),
        before.pending_e2e_keys.contains_key(other) ==> after.pending_e2e_keys[other]
            == before.pending_e2e_keys[other],
        after.pending_read_only.contains_key(other) <==> before.pending_read_only.contains_key(
            other,
        ),
        before.pending_read_only.contains_key(other) ==> after.pending_read_only[other]
            == before.pending_read_only[other],
        after.next_client_id == before.next_client_id,
        after.token_hash_to_client_id == before.token_hash_to_client_id,
        same_host_tunnel(before, after),
{
    if let Err(reason) = os_api {
        let start = "create_client_os_api: "@;
        assert((start + reason@).subrange(
            start.len() as int,
            (start.len() + reason@.len()) as int,
        ) =~= reason@);
    }
    let no_key = "no pending e2e key for client_id="@ + text::decimal(client_id as nat);
    assert(multiplexer::no_key_message(client_id).subrange(0, no_key.len() as int) =~= no_key);
    let no_flag = "no pending is_read_only flag for client_id="@ + text::decimal(client_id as nat);
    assert(multiplexer::no_flag_message(client_id).subrange(0, no_flag.len() as int) =~= no_flag);
}

/// When the relay tells that a group has no viewers left, the group's client
/// goes, and no other; other groups keep theirs. As long as the group has
/// viewers nothing changes.
pub proof fn law_empty_group_loses_client(
    host: HostView,
    token_hash: Seq<char>,
    count: u32,
    other: u32,
    other_hash: Seq<char>,
)
    requires
        other_hash != token_hash,
        host.token_hash_to_client_id.contains_key(token_hash) ==> other
            != host.token_hash_to_client_id[token_hash],
    ensures
        count > 0 ==> host.ro_count(token_hash, count) == host && host.ro_count_ends(
            token_hash,
            count,
        ) is None,
        ({
            let after = host.ro_count(token_hash, 0);
            &&& host.token_hash_to_client_id.contains_key(token_hash) ==> host.ro_count_ends(
                token_hash,
                0,
            ) == Some(host.token_hash_to_client_id[token_hash]) && !after.clients.contains_key(
                host.token_hash_to_client_id[token_hash],
            )
            &&& !host.token_hash_to_client_id.contains_key(token_hash) ==> host.ro_count_ends(
                token_hash,
                0,
            ) is None && after.clients == host.clients
            &&& !after.token_hash_to_client_id.contains_key(token_hash)
            &&& after.token_hash_to_client_id.contains_key(other_hash)
                <==> host.token_hash_to_client_id.contains_key(other_hash)
            &&& host.token_hash_to_client_id.contains_key(other_hash)
                ==> after.token_hash_to_client_id[other_hash]
                == host.token_hash_to_client_id[other_hash]
            &&& after.clients.contains_key(other) <==> host.clients.contains_key(other)
            &&& host.clients.contains_key(other) ==> after.clients[other] == host.clients[other]
            &&& after.pending_e2e_keys == host.pending_e2e_keys
            &&& after.pending_read_only == host.pending_read_only
            &&& after.next_client_id == host.next_client_id
            &&& same_host_tunnel(host, after)
        }),
{
}

/// A message of the relay touches the client that it names and no other: every
/// other client stays as it was. Only the end of a viewer and the end of a group
/// take a client away, and then that client is the one to be ended.
pub proof fn law_relay_message_touches_one(
    before: HostView,
    after: HostView,
    message: ControlView,
    action: HostControlAction,
    other: u32,
)
    requires
        multiplexer::host_dispatched(before, after, message, action),
        match message {
            ControlView::ClientDisconnected { client_id } => other != client_id,
            ControlView::ReadOnlyViewerUpdate { token_hash, .. } =>
                before.token_hash_to_client_id.contains_key(token_hash) ==> other
                != before.token_hash_to_client_id[token_hash],
            _ => true,
        },
    ensures
        after.clients.contains_key(other) <==> before.clients.contains_key(other),
        before.clients.contains_key(other) ==> after.clients[other] == before.clients[other],
        after.pending_e2e_keys == before.pending_e2e_keys,
        after.pending_read_only == before.pending_read_only,
        after.next_client_id == before.next_client_id,
        same_host_tunnel(before, after),
        action matches HostControlAction::TearDown { client } ==> exists|id: u32| #[trigger]
            before.clients.contains_key(id) && before.clients[id] == client@
                && !after.clients.contains_key(id),
        forall|id: u32| #[trigger]
            before.clients.contains_key(id) && !after.clients.contains_key(id) ==> (
            action matches HostControlAction::TearDown { client } && client@ == before.clients[id]),
{
    match message {
        ControlView::ClientDisconnected { client_id } => {
            if action is TearDown {
                assert(before.clients.contains_key(client_id));
            }
        },
        ControlView::ReadOnlyViewerUpdate { token_hash, count } => {
            if action is TearDown {
                assert(before.clients.contains_key(before.token_hash_to_client_id[token_hash]));
            }
        },
        _ => {},
    }
}

/// What each message of the relay asks of the host: a question is looked up
/// under its own number and token, a viewer who has come gets its client, a
/// viewer who is gone loses it, and control text goes to the control channel of
/// the client it is for, as it is.
pub proof fn law_relay_message_asks(
    before: HostView,
    after: HostView,
    message: ControlView,
    action: HostControlAction,
)
    requires
        multiplexer::host_dispatched(before, after, message, action),
    ensures
        message matches ControlView::AuthChallenge { request_id, token_hash } ==> (
        action matches HostControlAction::Validate { request_id: id, token_hash: hash } && id@
            == request_id && hash@ == token_hash && after == before),
        message matches ControlView::ClientConnected { client_id } ==> action == (
        HostControlAction::Spawn { client_id }) && after == before,
        message matches ControlView::ClientDisconnected { client_id } ==> (action is TearDown
            <==> before.clients.contains_key(client_id)) && !after.clients.contains_key(client_id),
        message matches ControlView::ControlFrameData { client_id, data } ==> after == before && (
        before.clients.contains_key(client_id) ==> forall|sent: Seq<char>|
            data == #[trigger] utf8::encode_utf8(sent) ==> (action matches HostControlAction::Input {
                channel,
                text,
            } && channel == before.clients[client_id].control_input_tx && text@ == sent)),
        message matches ControlView::ControlFrameData { client_id, data } && (
        !before.clients.contains_key(client_id) || !utf8::valid_utf8(data)) ==> action is Nothing,
        !(message is AuthChallenge) && !(message is ClientConnected) && !(
        message is ClientDisconnected) && !(message is ReadOnlyViewerUpdate) && !(
        message is ControlFrameData) ==> action is Nothing && after == before,
{
    if let ControlView::ControlFrameData { client_id, data } = message {
        if before.clients.contains_key(client_id) {
            assert forall|sent: Seq<char>| data == #[trigger] utf8::encode_utf8(sent) implies (
            action matches HostControlAction::Input { channel, text } && channel
                == before.clients[client_id].control_input_tx && text@ == sent) by {
                utf8::encode_utf8_valid_utf8(sent);
                utf8::encode_utf8_decode_utf8(sent);
            }
        }
    }
}

/// A tunnel counts as dead when it has been silent for more than a minute, and
/// not before; a clock that has gone back does not make it so. It is pinged at
/// every second tick, that is every thirty seconds.
pub proof fn law_heartbeat(heartbeat: Heartbeat, last_activity: u64, now: u64)
    requires
        heartbeat.ticks_since_ping < 2,
    ensures
        heartbeat.due(last_activity, now).tripped <==> now > last_activity + 60 * 1000,
        heartbeat.due(last_activity, now).ping != heartbeat.ticked().due(last_activity, now).ping,
        heartbeat.ticked().ticked() == heartbeat,
        !(Heartbeat { ticks_since_ping: 0 }).due(last_activity, now).ping,
        multiplexer::RELAY_HEARTBEAT_TICK_SECS == 15,
{
}

/// What the host sends for terminal output can be read with the key, and gives
/// the output back; it is marked with the client and begins with the nonce. Only
/// what is too long for the cipher is not sent.
pub proof fn law_output_is_readable(
    key: Seq<u8>,
    nonce: Seq<u8>,
    client_id: u32,
    output: Seq<char>,
    r: Option<crate::conversion::TerminalMessage>,
)
    requires
        multiplexer::output_sealed(key, nonce, client_id, output, r),
    ensures
        r is Some <==> utf8::encode_utf8(output).len() <= crypto::PLAINTEXT_LIMIT,
        r matches Some(message) ==> (message@ matches TerminalView::TerminalFrameData {
            client_id: id,
            data,
        } && id == client_id && crypto::opened_payload(key, data) == Ok::<Seq<u8>, CryptoError>(
            utf8::encode_utf8(output),
        ) && (nonce.len() == 12 ==> data.take(12) == nonce)),
{
    if nonce.len() == 12 {
        crypto::law_nonce_in_front(key, nonce, utf8::encode_utf8(output), Seq::empty());
    }
}

/// What a writer typed reaches the session as it was typed, where it decrypts;
/// nothing that a watcher sends reaches it, and nothing that does not decrypt.
pub proof fn law_input_is_guarded(
    key: Seq<u8>,
    is_read_only: bool,
    data: Seq<u8>,
    r: Option<Vec<u8>>,
)
    requires
        multiplexer::input_opened(key, is_read_only, data, r),
    ensures
        is_read_only ==> r is None,
        crypto::opened_payload(key, data) is Err ==> r is None,
        !is_read_only && crypto::opened_payload(key, data) is Ok ==> (r matches Some(typed)
            && crypto::opened_payload(key, data) == Ok::<Seq<u8>, CryptoError>(typed@)),
{
}

/// What a client sends on its control channel goes to the relay under that
/// client, as it is, but for a text that tells the size of the session: of that
/// only the size goes. Only a close ends the channel.
pub proof fn law_control_goes_out(
    client_id: u32,
    frame: SocketFrame,
    session_size: Option<(u32, u32)>,
    r: OutboundControl,
)
    requires
        multiplexer::control_sent(client_id, frame, session_size, r),
    ensures
        r is Ended <==> frame is Close,
        r is Skipped <==> frame is Other || frame is Failed,
        r matches OutboundControl::Send(message) ==> match message@ {
            ControlView::ControlFrameData { client_id: id, data } => id == client_id && Some(data)
                == socket::frame_data(Some(frame)),
            ControlView::SessionSize { client_id: id, rows, cols } => id == client_id
                && frame is Text && session_size == Some((rows, cols)),
            _ => false,
        },
        r matches OutboundControl::Send(message) ==> (message@ is SessionSize <==> frame is Text
            && session_size is Some),
{
}

/// A viewer's control message is delivered exactly if the client that it names is
/// connected, to that client and as it is.
pub proof fn law_control_is_delivered<P>(
    message: Option<(String, P)>,
    connected: Seq<Seq<char>>,
    r: ControlInput<P>,
)
    requires
        multiplexer::control_delivered(message, connected, r),
    ensures
        r is Malformed <==> message is None,
        message matches Some((name, payload)) ==> {
            &&& r is Deliver <==> exists|i: int|
                0 <= i < connected.len() && #[trigger] connected[i] == name@
            &&& r matches ControlInput::Deliver { web_client_id, payload: sent } ==> web_client_id
                == name && sent == payload
            &&& r matches ControlInput::UnknownClient(unknown) ==> unknown == name
        },
{
}

/// A new tunnel has no clients, nobody who waits, and gives out numbers from 1
/// on.
pub proof fn law_new_host_is_empty(tunnel_id: Seq<char>, session_name: Seq<char>, client_id: u32)
    ensures
        ({
            let host = HostView::opened(tunnel_id, session_name);
            &&& host.next_client_id == 1
            &&& host.tunnel_id == tunnel_id
            &&& host.session_name == session_name
            &&& !host.clients.contains_key(client_id)
            &&& !host.pending_e2e_keys.contains_key(client_id)
            &&& !host.pending_read_only.contains_key(client_id)
            &&& forall|hash: Seq<char>| !(#[trigger] host.token_hash_to_client_id.contains_key(hash))
        }),
{
}

} // verus!
