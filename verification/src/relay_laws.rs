//! What holds of the relay's tunnels as a whole: how they open and close, and
//! how viewers get into them.

use crate::conversion;
use crate::conversion::{ControlMessage, ControlView};
use crate::cookies;
use crate::crypto;
use crate::ids;
use crate::registry;
use crate::registry::{
    AuthResponseResult, RoutingView, SessionView, TunnelView, ViewerHandle,
};
use crate::relay_tunnel;
use crate::relay_tunnel::{ControlTunnelSession, StartedTunnel};
use crate::relay_types::{RelayTunnelHandle, RelayTunnelStatus};
use crate::router;
use crate::router::{Purpose, RelayView, ViewerReply, ViewerStep};
use crate::socket::{ControlRead, SocketFrame};
use crate::text;
use crate::text_laws;
use crate::tunnel_control;
use crate::tunnel_control::ControlHandshake;
use crate::tunnel_terminal;
use crate::tunnel_terminal::TerminalRequest;
use crate::viewer;
use crate::viewer::{PendingChallenge, PendingReadWrite, SessionRequest};
use vstd::prelude::*;

verus! {

// ---------------------------------------------------------------- opening

/// Whether nobody is in a tunnel or waits to be let in.
pub open spec fn nobody_in(tunnel: TunnelView) -> bool {
    &&& forall|id: u128| !(#[trigger] tunnel.sessions.contains_key(id))
    &&& forall|id: u128| !(#[trigger] tunnel.viewers.contains_key(id))
    &&& forall|hash: Seq<char>| !(#[trigger] tunnel.ro_groups.contains_key(hash))
    &&& forall|id: u32| !(#[trigger] tunnel.client_id_to_viewer.contains_key(id))
    &&& forall|id: u32| !(#[trigger] tunnel.client_id_to_token_hash.contains_key(id))
    &&& forall|id: Seq<u8>| !(#[trigger] tunnel.pending_auths.contains_key(id))
}

/// A tunnel that opens is found under its slug, with its id, its session and its
/// version, and nobody is in it. The host is told the slug, the id and the
/// address under which the tunnel is found. No other slug gets or loses a
/// tunnel.
pub proof fn law_opened_tunnel(
    before: Map<Seq<char>, TunnelView>,
    after: Map<Seq<char>, TunnelView>,
    template: Seq<char>,
    session_name: Seq<char>,
    zellij_version: Seq<char>,
    requested_slug: Seq<char>,
    drawn: Seq<u8>,
    tunnel_id: u128,
    r: (String, ControlMessage),
    other: Seq<char>,
)
    requires
        router::tunnel_opened(
            before,
            after,
            template,
            session_name,
            zellij_version,
            requested_slug,
            drawn,
            tunnel_id,
            r,
        ),
        other != r.0@,
    ensures
        after.contains_key(r.0@),
        after[r.0@].slug == r.0@,
        after[r.0@].tunnel_id == tunnel_id,
        after[r.0@].session_name == session_name,
        after[r.0@].zellij_version == zellij_version,
        nobody_in(after[r.0@]),
        r.1@ matches ControlView::Established { public_url, slug, tunnel_id: told } && slug == r.0@
            && told == ids::hyphenated(tunnel_id) && public_url == after[r.0@].public_url
            && public_url == router::public_url(template, r.0@),
        after.contains_key(other) <==> before.contains_key(other),
        before.contains_key(other) ==> after[other] == before[other],
{
}

/// The address of a tunnel is the template with the slug in the place that is
/// kept for it, and a template without such a place as it is.
pub proof fn law_public_address(before: Seq<char>, after: Seq<char>, slug: Seq<char>)
    requires
        !text::contains_text(after, "{slug}"@),
        forall|at: int|
            0 <= at < before.len() ==> !(#[trigger] text::occurs_at(
                before + "{slug}"@ + after,
                "{slug}"@,
                at,
            )),
    ensures
        router::public_url(before + "{slug}"@ + after, slug) == before + slug + after,
        router::public_url(after, slug) == after,
{
    reveal_strlit("{slug}");
    text_laws::law_first_occurrence_replaced(before, "{slug}"@, after, slug);
    text_laws::law_nothing_to_replace(after, "{slug}"@, slug);
}

// ---------------------------------------------------------------- closing

/// A tunnel that closes is not found any more, and is kept by its id with the
/// sessions in it. The sockets of all its viewers, and of nobody else, are given
/// back to be closed. Other tunnels stay open or closed as they were.
pub proof fn law_closed_tunnel(
    before: RelayView,
    after: RelayView,
    slug: Seq<char>,
    viewers: Seq<(u128, ViewerHandle)>,
    other: Seq<char>,
    other_id: u128,
)
    requires
        router::tunnel_closed(before, after, slug, viewers),
        other != slug,
        before.tunnels.contains_key(slug) ==> other_id != before.tunnels[slug].tunnel_id,
    ensures
        !after.tunnels.contains_key(slug),
        after.tunnels.contains_key(other) <==> before.tunnels.contains_key(other),
        before.tunnels.contains_key(other) ==> after.tunnels[other] == before.tunnels[other],
        after.closed.contains_key(other_id) <==> before.closed.contains_key(other_id),
        before.closed.contains_key(other_id) ==> after.closed[other_id] == before.closed[other_id],
        !before.tunnels.contains_key(slug) ==> after.closed == before.closed && viewers.len() == 0,
        before.tunnels.contains_key(slug) ==> {
            let tunnel = before.tunnels[slug];
            let kept = after.closed[tunnel.tunnel_id];
            &&& after.closed.contains_key(tunnel.tunnel_id)
            &&& kept.sessions == tunnel.sessions
            &&& kept.ro_groups == tunnel.ro_groups
            &&& kept.pending_auths == tunnel.pending_auths
            &&& kept.slug == tunnel.slug
            &&& kept.tunnel_id == tunnel.tunnel_id
            &&& forall|id: u128| !(#[trigger] kept.viewers.contains_key(id))
            &&& viewers.no_duplicates()
            &&& forall|id: u128, handle: ViewerHandle|
                viewers.contains((id, handle)) <==> tunnel.viewers.contains_key(id)
                    && tunnel.viewers[id] == handle
        },
{
}

/// Whoever was being let into a tunnel when it closed is still found there.
pub proof fn law_closing_tunnel_is_kept(
    before: RelayView,
    after: RelayView,
    slug: Seq<char>,
    viewers: Seq<(u128, ViewerHandle)>,
)
    requires
        before.tunnels.contains_key(slug),
        before.tunnels[slug].slug == slug,
        router::tunnel_closed(before, after, slug, viewers),
    ensures
        ({
            let id = before.tunnels[slug].tunnel_id;
            &&& before.has(slug, id)
            &&& after.has(slug, id)
            &&& before.tunnel(slug, id).sessions == before.tunnels[slug].sessions
            &&& after.tunnel(slug, id).sessions == before.tunnels[slug].sessions
        }),
{
}

/// A slug that was given to another tunnel does not lead to the one that had it
/// before.
pub proof fn law_slug_of_another(relay: RelayView, slug: Seq<char>, tunnel_id: u128)
    requires
        relay.tunnels.contains_key(slug),
        relay.tunnels[slug].tunnel_id != tunnel_id,
    ensures
        !relay.is_open(slug, tunnel_id),
        !relay.closed.contains_key(tunnel_id) ==> !relay.has(slug, tunnel_id),
        relay.closed.contains_key(tunnel_id) ==> relay.tunnel(slug, tunnel_id)
            == relay.closed[tunnel_id] && (relay.has(slug, tunnel_id)
            <==> relay.closed[tunnel_id].slug == slug),
{
}

// ---------------------------------------------------------------- viewers

/// Whether `tunnel` holds the session of a viewer who may only watch the group of
/// a token.
pub open spec fn holds_watcher(
    tunnel: TunnelView,
    viewer_id: u128,
    token_hash: Seq<char>,
    e2e_encrypted: bool,
) -> bool {
    &&& tunnel.sessions.contains_key(viewer_id)
    &&& tunnel.sessions[viewer_id].viewer_id == viewer_id
    &&& tunnel.sessions[viewer_id].is_read_only
    &&& tunnel.sessions[viewer_id].token_hash == token_hash
    &&& tunnel.sessions[viewer_id].routing == RoutingView::Ro(token_hash)
    &&& tunnel.sessions[viewer_id].e2e_encrypted == e2e_encrypted
    &&& tunnel.ro_groups.contains_key(token_hash)
    &&& tunnel.ro_groups[token_hash].viewer_ids.contains(viewer_id)
}

/// Whether `reply` is an answer of the kind that was asked for, with a cookie.
pub open spec fn answers(reply: ViewerReply, purpose: Purpose) -> bool {
    match purpose {
        Purpose::Login => reply is LoggedIn,
        Purpose::Session => reply matches ViewerReply::Session { cookie, .. } && cookie is Some,
    }
}

/// Whether `message` tells the host how many viewers a token's group has.
pub open spec fn tells_count(
    message: Option<ControlMessage>,
    tunnel: TunnelView,
    token_hash: Seq<char>,
) -> bool {
    message matches Some(m) && m@ matches ControlView::ReadOnlyViewerUpdate {
        token_hash: told,
        count,
    } && told == token_hash && (tunnel.ro_groups[token_hash].viewer_ids.len() <= u32::MAX ==> count
        == tunnel.ro_groups[token_hash].viewer_ids.len())
}

proof fn lemma_added(ids: Seq<u128>, id: u128)
    ensures
        registry::with_id(ids, id).contains(id),
{
    if !ids.contains(id) {
        assert(registry::with_id(ids, id)[ids.len() as int] == id);
    }
}

/// A viewer who shows a token is let in at once where the token's group is
/// live: it has a session there, it is answered, and the host hears the count.
/// Otherwise the host is asked about the hash of that token, under the number
/// that the viewer waits for. At an unknown slug nothing happens. No other
/// tunnel changes.
pub proof fn law_viewer_shows_token(
    before: Map<Seq<char>, TunnelView>,
    after: Map<Seq<char>, TunnelView>,
    slug: Seq<char>,
    auth_token: Seq<char>,
    purpose: Purpose,
    viewer_id: u128,
    request_id: Seq<u8>,
    waiter: u64,
    step: ViewerStep,
    other: Seq<char>,
)
    requires
        router::viewer_started(
            before,
            after,
            slug,
            auth_token,
            purpose,
            viewer_id,
            request_id,
            waiter,
            step,
        ),
        other != slug,
    ensures
        after.contains_key(other) <==> before.contains_key(other),
        before.contains_key(other) ==> after[other] == before[other],
        !before.contains_key(slug) ==> after == before && step == (ViewerStep::Done {
            reply: ViewerReply::Unauthorised,
            to_host: None,
        }),
        before.contains_key(slug) ==> {
            let hash = crypto::hashed_token(auth_token);
            let tunnel = before[slug];
            let now = after[slug];
            let live = tunnel.ro_groups.contains_key(hash)
                && tunnel.ro_groups[hash].active_client_id is Some;
            &&& after.contains_key(slug)
            &&& live ==> {
                &&& step matches ViewerStep::Done { reply, to_host }
                &&& answers(reply, purpose)
                &&& tells_count(to_host, now, hash)
                &&& holds_watcher(now, viewer_id, hash, tunnel.ro_groups[hash].e2e_encrypted)
                &&& now.ro_groups[hash].active_client_id == tunnel.ro_groups[hash].active_client_id
                &&& now.pending_auths == tunnel.pending_auths
            }
            &&& !live ==> {
                &&& step matches ViewerStep::Challenge { challenge, message }
                &&& message@ == (ControlView::AuthChallenge { request_id, token_hash: hash })
                &&& challenge.tunnel_id == tunnel.tunnel_id
                &&& challenge.token_hash@ == hash
                &&& challenge.request_id@ == request_id
                &&& challenge.dormant <==> tunnel.ro_groups.contains_key(hash)
                &&& now.pending_auths.contains_key(request_id)
                &&& now.pending_auths[request_id] == waiter
                &&& forall|id: Seq<u8>|
                    id != request_id ==> (#[trigger] now.pending_auths.contains_key(id)
                        <==> tunnel.pending_auths.contains_key(id))
                &&& now.sessions == tunnel.sessions
                &&& now.viewers == tunnel.viewers
                &&& now.ro_groups == tunnel.ro_groups
                &&& now.client_id_to_viewer == tunnel.client_id_to_viewer
                &&& now.client_id_to_token_hash == tunnel.client_id_to_token_hash
                &&& now.tunnel_id == tunnel.tunnel_id
            }
        },
{
    if before.contains_key(slug) {
        let hash = crypto::hashed_token(auth_token);
        if before[slug].group_is_live(hash) {
            lemma_added(before[slug].ro_groups[hash].viewer_ids, viewer_id);
        }
    }
}

/// A request for a session counts as showing the token in it. One that could not
/// be read, or holds no token, changes nothing and is turned away.
pub proof fn law_session_request(
    before: Map<Seq<char>, TunnelView>,
    after: Map<Seq<char>, TunnelView>,
    slug: Seq<char>,
    request: Option<SessionRequest>,
    viewer_id: u128,
    request_id: Seq<u8>,
    waiter: u64,
    step: ViewerStep,
)
    requires
        router::session_started(
            before,
            after,
            slug,
            request,
            viewer_id,
            request_id,
            waiter,
            step,
        ),
    ensures
        request is None || request->0.auth_token is None ==> after == before && step == (
        ViewerStep::Done { reply: ViewerReply::Unauthorised, to_host: None }),
        request is Some && request->0.auth_token is Some ==> router::viewer_started(
            before,
            after,
            slug,
            request->0.auth_token->0@,
            Purpose::Session,
            viewer_id,
            request_id,
            waiter,
            step,
        ),
{
}

/// Where a tunnel with this id stands, open or closed.
pub open spec fn tunnel_with_id(
    relay: RelayView,
    slug: Seq<char>,
    tunnel_id: u128,
    tunnel: TunnelView,
) -> bool {
    if relay.tunnels.contains_key(slug) && relay.tunnels[slug].tunnel_id == tunnel_id {
        tunnel == relay.tunnels[slug]
    } else {
        relay.closed.contains_key(tunnel_id) && relay.closed[tunnel_id] == tunnel && tunnel.slug
            == slug
    }
}

/// What becomes of a viewer whose token a host was asked about. A watcher who is
/// accepted has a session in that host's tunnel, is answered, and the host hears
/// the count. A writer who is accepted is announced to the host, under the
/// client that the host named. A viewer who is not accepted, or whose question
/// was not answered, is turned away, and gets no session.
pub proof fn law_viewer_is_answered(
    before: RelayView,
    after: RelayView,
    slug: Seq<char>,
    challenge: PendingChallenge,
    answer: Option<AuthResponseResult>,
    purpose: Purpose,
    viewer_id: u128,
    step: ViewerStep,
    tunnel: TunnelView,
    now: TunnelView,
)
    requires
        router::viewer_concluded(before, after, slug, challenge, answer, purpose, viewer_id, step),
        tunnel_with_id(before, slug, challenge.tunnel_id, tunnel),
        now == if before.tunnels.contains_key(slug) && before.tunnels[slug].tunnel_id
            == challenge.tunnel_id {
            after.tunnels[slug]
        } else {
            after.closed[challenge.tunnel_id]
        },
    ensures
        answer is None ==> {
            &&& step == (ViewerStep::Done { reply: ViewerReply::Unauthorised, to_host: None })
            &&& !now.pending_auths.contains_key(challenge.request_id@)
            &&& forall|id: Seq<u8>|
                id != challenge.request_id@ ==> (#[trigger] now.pending_auths.contains_key(id)
                    <==> tunnel.pending_auths.contains_key(id))
            &&& now.sessions == tunnel.sessions
            &&& now.viewers == tunnel.viewers
            &&& now.ro_groups == tunnel.ro_groups
        },
        answer matches Some(a) ==> !a.accepted ==> after == before && step == (ViewerStep::Done {
            reply: ViewerReply::Unauthorised,
            to_host: None,
        }),
        answer matches Some(a) ==> a.accepted && a.is_read_only && (!challenge.dormant
            || tunnel.ro_groups.contains_key(challenge.token_hash@)) ==> {
            &&& step matches ViewerStep::Done { reply, to_host }
            &&& answers(reply, purpose)
            &&& tells_count(to_host, now, challenge.token_hash@)
            &&& holds_watcher(now, viewer_id, challenge.token_hash@, a.e2e_encrypted)
            &&& now.ro_groups[challenge.token_hash@].active_client_id == Some(a.client_id)
            &&& now.viewers == tunnel.viewers
            &&& now.pending_auths == tunnel.pending_auths
        },
        answer matches Some(a) ==> a.accepted && !a.is_read_only && !challenge.dormant ==> {
            &&& after == before
            &&& step matches ViewerStep::Announce { viewer, message }
            &&& message@ == (ControlView::ClientConnected { client_id: a.client_id })
            &&& viewer.client_id == a.client_id
            &&& viewer.token_hash@ == challenge.token_hash@
            &&& viewer.tunnel_id == challenge.tunnel_id
            &&& viewer.e2e_encrypted == a.e2e_encrypted
        },
        answer matches Some(a) ==> a.accepted && challenge.dormant && (!a.is_read_only
            || !tunnel.ro_groups.contains_key(challenge.token_hash@)) ==> after == before && step
            == (ViewerStep::Done { reply: ViewerReply::Unauthorised, to_host: None }),
{
    let hash = challenge.token_hash@;
    if tunnel.ro_groups.contains_key(hash) {
        lemma_added(tunnel.ro_groups[hash].viewer_ids, viewer_id);
    } else {
        assert(seq![viewer_id][0] == viewer_id);
    }
}

/// A writer gets its session once the host has heard of it, in the tunnel of
/// that host, under the client that the host named; the other sessions there
/// stay. Where the host could not be told, nothing changes.
pub proof fn law_writer_is_admitted(
    before: RelayView,
    after: RelayView,
    slug: Seq<char>,
    viewer: PendingReadWrite,
    sent: bool,
    purpose: Purpose,
    viewer_id: u128,
    reply: ViewerReply,
    tunnel: TunnelView,
    now: TunnelView,
    other: u128,
)
    requires
        router::viewer_admitted(before, after, slug, viewer, sent, purpose, viewer_id, reply),
        tunnel_with_id(before, slug, viewer.tunnel_id, tunnel),
        now == if before.tunnels.contains_key(slug) && before.tunnels[slug].tunnel_id
            == viewer.tunnel_id {
            after.tunnels[slug]
        } else {
            after.closed[viewer.tunnel_id]
        },
        other != viewer_id,
    ensures
        !sent ==> after == before && reply is Unauthorised,
        sent ==> {
            &&& answers(reply, purpose)
            &&& now.sessions.contains_key(viewer_id)
            &&& now.sessions[viewer_id].viewer_id == viewer_id
            &&& !now.sessions[viewer_id].is_read_only
            &&& now.sessions[viewer_id].token_hash == viewer.token_hash@
            &&& now.sessions[viewer_id].e2e_encrypted == viewer.e2e_encrypted
            &&& now.sessions[viewer_id].routing == RoutingView::Rw(viewer.client_id)
            &&& now.sessions.contains_key(other) <==> tunnel.sessions.contains_key(other)
            &&& tunnel.sessions.contains_key(other) ==> now.sessions[other]
                == tunnel.sessions[other]
            &&& now.viewers == tunnel.viewers
            &&& now.ro_groups == tunnel.ro_groups
        },
{
}

/// Cookies name a session exactly if the relay's cookie among them is the id of
/// one that is kept; then they name that one.
pub proof fn law_named_by_cookie(
    tunnel: TunnelView,
    cookie_headers: Seq<Seq<char>>,
    value: Seq<char>,
    id: u128,
)
    ensures
        cookies::cookie_in(cookie_headers, "relay_session"@) is None ==> viewer::named_session(
            tunnel,
            cookie_headers,
        ) is None,
        cookies::cookie_in(cookie_headers, "relay_session"@) == Some(value) && ids::parsed_uuid(
            value,
        ) is None ==> viewer::named_session(tunnel, cookie_headers) is None,
        cookies::cookie_in(cookie_headers, "relay_session"@) == Some(value) && ids::parsed_uuid(
            value,
        ) == Some(id) ==> viewer::named_session(tunnel, cookie_headers)
            == if tunnel.sessions.contains_key(id) {
            Some(tunnel.sessions[id])
        } else {
            None::<SessionView>
        },
{
}

// ---------------------------------------------------------------- handshakes

/// A host that says who it is is let in, under the session, the version and the
/// slug that it names, whatever its token and protocol are. Any other message,
/// and what is none, is turned down with an error; a socket that is gone is not
/// answered.
pub proof fn law_host_is_let_in(
    message: ControlView,
    first: Option<SocketFrame>,
    handshake: ControlHandshake,
)
    requires
        tunnel_control::control_handshake_is(first, handshake),
        message.encoded().len() <= u64::MAX,
    ensures
        first matches Some(SocketFrame::Binary(bytes)) ==> bytes@ == message.encoded() ==> {
            &&& message is Auth <==> handshake is Accepted
            &&& !(message is Auth) <==> handshake is Rejected
            &&& handshake matches ControlHandshake::Accepted {
                session_name,
                zellij_version,
                requested_slug,
            } ==> message->Auth_session_name == session_name@ && message->Auth_zellij_version
                == zellij_version@ && message->Auth_requested_slug == requested_slug@
        },
        handshake is Dropped <==> first is None || first == Some(SocketFrame::Failed),
        handshake is Accepted ==> (first matches Some(frame) && frame is Binary),
        handshake matches ControlHandshake::Rejected(reason) ==> reason@ is Error,
        first matches Some(frame) ==> !(frame is Binary) && !(frame is Failed) ==> (
        handshake matches ControlHandshake::Rejected(reason) && reason@ == (ControlView::Error {
            message: "expected binary TunnelAuth frame"@,
        })),
{
    conversion::law_control_message_roundtrip(message);
    let content = message.content();
    if message is Auth {
        assert(content.1[1] == crate::wire_format::FieldView::Text(message->Auth_session_name));
    }
}

/// A terminal tunnel is let in exactly where a tunnel is open under the slug, and
/// for that tunnel.
pub proof fn law_terminal_needs_tunnel(
    tunnels: Map<Seq<char>, TunnelView>,
    slug: Seq<char>,
    r: TerminalRequest,
)
    requires
        tunnel_terminal::terminal_request_is(tunnels, slug, r),
    ensures
        r is Welcome <==> slug.len() > 0 && tunnels.contains_key(slug),
        r matches TerminalRequest::Welcome { tunnel_id } ==> tunnel_id == tunnels[slug].tunnel_id,
        r matches TerminalRequest::Rejected(message) ==> message@ is Error,
{
}

/// What the relay tells a host whose tunnel it has opened is what the host makes
/// of it: the slug, the id and the address are those of the tunnel.
pub proof fn law_host_learns_its_tunnel(
    before: Map<Seq<char>, TunnelView>,
    after: Map<Seq<char>, TunnelView>,
    template: Seq<char>,
    session_name: Seq<char>,
    zellij_version: Seq<char>,
    requested_slug: Seq<char>,
    drawn: Seq<u8>,
    tunnel_id: u128,
    opened: (String, ControlMessage),
    heard: ControlMessage,
    r: Option<Result<ControlTunnelSession, String>>,
)
    requires
        router::tunnel_opened(
            before,
            after,
            template,
            session_name,
            zellij_version,
            requested_slug,
            drawn,
            tunnel_id,
            opened,
        ),
        heard@ == opened.1@,
        relay_tunnel::control_reply_is(ControlRead::Message(heard), r),
    ensures
        r matches Some(Ok(session)) && session.slug@ == opened.0@ && session.tunnel_id@
            == ids::hyphenated(tunnel_id) && session.public_url@ == after[opened.0@].public_url,
{
}

/// A host takes its tunnel for opened only when the relay says so: an error is
/// handed on with the relay's words at its end, any other message and the end of
/// the socket are failures, and what is no message is passed over.
pub proof fn law_host_waits_for_word(
    read: ControlRead,
    r: Option<Result<ControlTunnelSession, String>>,
)
    requires
        relay_tunnel::control_reply_is(read, r),
    ensures
        r is None <==> read is Skipped,
        r matches Some(Ok(_)) ==> (read matches ControlRead::Message(m) && m@ is Established),
        read matches ControlRead::Message(m) ==> m@ is Established ==> r matches Some(Ok(_)),
        read matches ControlRead::Message(m) ==> m@ matches ControlView::Error { message } ==> (
        r matches Some(Err(e)) && text::ends_with(e@, message)),
        read is Ended ==> (r matches Some(Err(e)) && e@ == "the relay closed the control tunnel"@),
{
    if let ControlRead::Message(m) = read {
        if let ControlView::Error { message } = m@ {
            let start = "the relay refused the tunnel: "@;
            assert((start + message).subrange(
                start.len() as int,
                (start.len() + message.len()) as int,
            ) =~= message);
        }
    }
}

/// A host keeps a tunnel exactly if both its sockets were opened, under the
/// client that asked for it, and with the slug, the id and the address that the
/// relay told; the tunnels of other clients stay. Otherwise nothing changes, and
/// the reason is that of the socket that failed first.
pub proof fn law_host_keeps_tunnel(
    before: Map<u16, RelayTunnelHandle>,
    after: Map<u16, RelayTunnelHandle>,
    client_id: u16,
    session_name: Seq<char>,
    control: Result<ControlTunnelSession, String>,
    terminal: Result<(), String>,
    shutdown_tx: u64,
    control_tx: u64,
    r: Result<StartedTunnel, String>,
    other: u16,
)
    requires
        relay_tunnel::tunnel_kept(
            before,
            after,
            client_id,
            session_name,
            control,
            terminal,
            shutdown_tx,
            control_tx,
            r,
        ),
        other != client_id,
    ensures
        r is Ok <==> control is Ok && terminal is Ok,
        control matches Err(e) ==> r == Err::<StartedTunnel, String>(e),
        r is Err ==> after == before,
        after.contains_key(other) <==> before.contains_key(other),
        before.contains_key(other) ==> after[other] == before[other],
        r matches Ok(started) ==> {
            let session = control->Ok_0;
            let handle = after[client_id];
            &&& after.contains_key(client_id)
            &&& handle.slug@ == session.slug@
            &&& handle.tunnel_id@ == session.tunnel_id@
            &&& handle.public_url@ == session.public_url@
            &&& started.public_url@ == session.public_url@
            &&& handle.status.sentinel() == session.public_url@
            &&& handle.control_tx == Some(control_tx)
            &&& handle.shutdown_tx == Some(shutdown_tx)
            &&& !handle.stop_requested
            &&& handle.current_iteration_shutdown is None
            &&& started.state@.tunnel_id == session.tunnel_id@
            &&& started.state@.session_name == session_name
        },
{
    assert(after.remove(client_id).contains_key(other) <==> after.contains_key(other));
    assert(before.remove(client_id).contains_key(other) <==> before.contains_key(other));
    if before.contains_key(other) {
        assert(before.remove(client_id)[other] == before[other]);
        assert(after.remove(client_id)[other] == after[other]);
    }
}

/// A tunnel that is up is told by its address, one that is opened again by the
/// number of the attempt, and one that is down for good by the reason.
pub proof fn law_status_text(status: RelayTunnelStatus)
    ensures
        status matches RelayTunnelStatus::Connected(url) ==> status.sentinel() == url@,
        status matches RelayTunnelStatus::Reconnecting { attempt, .. } ==> text::ends_with(
            status.sentinel(),
            seq![':'] + text::decimal(attempt as nat),
        ),
        status matches RelayTunnelStatus::Failed(reason) ==> text::ends_with(
            status.sentinel(),
            seq![':'] + reason@,
        ),
{
    reveal_strlit("__RELAY_RECONNECTING__:");
    reveal_strlit("__RELAY_FAILED__:");
    let s = status.sentinel();
    if let RelayTunnelStatus::Reconnecting { attempt, .. } = status {
        let end = seq![':'] + text::decimal(attempt as nat);
        assert(s.subrange(s.len() - end.len(), s.len() as int) =~= end);
    }
    if let RelayTunnelStatus::Failed(reason) = status {
        let end = seq![':'] + reason@;
        assert(s.subrange(s.len() - end.len(), s.len() as int) =~= end);
    }
}

} // verus!
