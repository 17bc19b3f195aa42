//! What it means for a viewer to come into a tunnel, to be in it, and to leave.

use crate::conversion::{ControlMessage, ControlView};
use crate::crypto;
use crate::fanout_laws;
use crate::ids;
use crate::registry;
use crate::registry::{
    AuthResponseResult, RoutingView, SessionView, TunnelView,
};
use crate::router;
use crate::router::{
    Purpose, RelayView, SessionLookup, SocketGate, ViewerReply, ViewerStep,
};
use crate::text;
use crate::viewer;
use crate::viewer::{
    ConcludeStep, PendingChallenge, PendingReadWrite, RegisterOutcome, RegisterStep,
};
use crate::viewer_laws;
use vstd::prelude::*;

verus! {

// ---------------------------------------------------------------- lists of viewers

/// Adding a viewer to a list adds that one and no other, and keeps the order of
/// those who were there; taking one out takes out that one and no other.
pub proof fn law_lists_of_viewers(ids: Seq<u128>, id: u128, other: u128)
    requires
        ids.no_duplicates(),
        other != id,
    ensures
        registry::with_id(ids, id).contains(id),
        registry::with_id(ids, id).contains(other) <==> ids.contains(other),
        ids.is_prefix_of(registry::with_id(ids, id)),
        !registry::without_id(ids, id).contains(id),
        registry::without_id(ids, id).contains(other) <==> ids.contains(other),
        registry::with_id(ids, id).no_duplicates(),
        registry::without_id(ids, id).no_duplicates(),
{
    viewer_laws::lemma_with_id(ids, id);
    viewer_laws::lemma_without_id(ids, id);
    let more = registry::with_id(ids, id);
    if more.contains(other) {
        let i = choose|i: int| 0 <= i < more.len() && more[i] == other;
        assert(ids[i] == other);
    }
    if ids.contains(other) {
        let i = choose|i: int| 0 <= i < ids.len() && ids[i] == other;
        assert(more[i] == other);
    }
    assert(more.subrange(0, ids.len() as int) =~= ids);
}

/// Whether somebody is in the group of a token.
pub open spec fn is_in_group(tunnel: TunnelView, token_hash: Seq<char>, viewer_id: u128) -> bool {
    tunnel.ro_groups.contains_key(token_hash)
        && tunnel.ro_groups[token_hash].viewer_ids.contains(viewer_id)
}

// ---------------------------------------------------------------- the client

/// A viewer whose session is kept is told the client whose frames it gets: that
/// of its group while the group has one, or its own.
pub proof fn law_viewer_told_its_client(tunnel: TunnelView, session: SessionView)
    requires
        tunnel.in_order(),
    ensures
        match session.routing {
            RoutingView::Rw(client_id) => viewer::client_of(tunnel, session) == client_id,
            RoutingView::Ro(token_hash) => {
                &&& tunnel.ro_groups.contains_key(token_hash)
                    && tunnel.ro_groups[token_hash].active_client_id is Some ==> {
                    &&& Some(viewer::client_of(tunnel, session))
                        == tunnel.ro_groups[token_hash].active_client_id
                    &&& tunnel.viewers_of(viewer::client_of(tunnel, session))
                        == tunnel.ro_groups[token_hash].viewer_ids
                    &&& is_in_group(tunnel, token_hash, session.viewer_id) ==> tunnel.viewers_of(
                        viewer::client_of(tunnel, session),
                    ).contains(session.viewer_id)
                }
                &&& !(tunnel.ro_groups.contains_key(token_hash)
                    && tunnel.ro_groups[token_hash].active_client_id is Some)
                    ==> viewer::client_of(tunnel, session) == 0
            },
        },
{
}

/// A viewer who has just come in is told, whenever it asks again, the client
/// that it came in with, and gets that client's frames.
pub proof fn law_new_viewer_told_its_client(
    tunnel: TunnelView,
    token_hash: Seq<char>,
    client_id: u32,
    e2e_encrypted: bool,
    viewer_id: u128,
)
    requires
        tunnel.in_order(),
    ensures
        ({
            let session = viewer::ro_session(viewer_id, token_hash, e2e_encrypted);
            let opened = tunnel.ro_opened(token_hash, client_id, e2e_encrypted, viewer_id);
            let revived = tunnel.ro_revived(token_hash, client_id, e2e_encrypted, viewer_id);
            let joined = tunnel.ro_joined(token_hash, viewer_id);
            let own = tunnel.rw_joined(token_hash, client_id, e2e_encrypted, viewer_id);
            &&& viewer::client_of(opened, session) == client_id
            &&& opened.viewers_of(client_id).contains(viewer_id)
            &&& tunnel.ro_groups.contains_key(token_hash) ==> viewer::client_of(revived, session)
                == client_id && revived.viewers_of(client_id).contains(viewer_id)
            &&& tunnel.group_is_live(token_hash) ==> Some(viewer::client_of(joined, session))
                == tunnel.ro_groups[token_hash].active_client_id && joined.viewers_of(
                viewer::client_of(joined, session),
            ).contains(viewer_id)
            &&& viewer::client_of(
                own,
                viewer::rw_session(viewer_id, client_id, token_hash, e2e_encrypted),
            ) == client_id
            &&& !tunnel.client_id_to_token_hash.contains_key(client_id) ==> own.viewers_of(
                client_id,
            ) == seq![viewer_id]
        }),
{
    viewer_laws::law_ro_first_in_order(tunnel, token_hash, client_id, e2e_encrypted, viewer_id);
    if tunnel.ro_groups.contains_key(token_hash) {
        viewer_laws::lemma_with_id(tunnel.ro_groups[token_hash].viewer_ids, viewer_id);
    } else {
        assert(seq![viewer_id][0] == viewer_id);
        assert(seq![viewer_id].contains(viewer_id));
    }
}

// ---------------------------------------------------------------- coming

/// Whether `after` is `before` with one more session, which is this one.
pub open spec fn one_session_more(
    before: TunnelView,
    after: TunnelView,
    viewer_id: u128,
    routing: RoutingView,
    token_hash: Seq<char>,
    is_read_only: bool,
    e2e_encrypted: bool,
) -> bool {
    &&& after.sessions.contains_key(viewer_id)
    &&& after.sessions[viewer_id].viewer_id == viewer_id
    &&& after.sessions[viewer_id].routing == routing
    &&& after.sessions[viewer_id].token_hash == token_hash
    &&& after.sessions[viewer_id].is_read_only == is_read_only
    &&& after.sessions[viewer_id].e2e_encrypted == e2e_encrypted
    &&& forall|id: u128| #[trigger]
        after.sessions.contains_key(id) <==> before.sessions.contains_key(id) || id == viewer_id
    &&& forall|id: u128|
        id != viewer_id && #[trigger] before.sessions.contains_key(id) ==> after.sessions[id]
            == before.sessions[id]
    &&& after.viewers == before.viewers
    &&& after.pending_auths == before.pending_auths
    &&& fanout_laws::same_tunnel(before, after)
}

/// Whoever comes in with a read-only token gets a session that may only watch
/// and is routed to the token's group; nobody else's session, sockets or
/// questions change.
pub proof fn law_watcher_gets_session(
    tunnel: TunnelView,
    token_hash: Seq<char>,
    client_id: u32,
    e2e_encrypted: bool,
    viewer_id: u128,
)
    ensures
        one_session_more(
            tunnel,
            tunnel.ro_opened(token_hash, client_id, e2e_encrypted, viewer_id),
            viewer_id,
            RoutingView::Ro(token_hash),
            token_hash,
            true,
            e2e_encrypted,
        ),
        one_session_more(
            tunnel,
            tunnel.ro_revived(token_hash, client_id, e2e_encrypted, viewer_id),
            viewer_id,
            RoutingView::Ro(token_hash),
            token_hash,
            true,
            e2e_encrypted,
        ),
        one_session_more(
            tunnel,
            tunnel.ro_joined(token_hash, viewer_id),
            viewer_id,
            RoutingView::Ro(token_hash),
            token_hash,
            true,
            tunnel.ro_groups[token_hash].e2e_encrypted,
        ),
        tunnel.ro_opened(token_hash, client_id, e2e_encrypted, viewer_id).client_id_to_viewer
            == tunnel.client_id_to_viewer,
        tunnel.ro_revived(token_hash, client_id, e2e_encrypted, viewer_id).client_id_to_viewer
            == tunnel.client_id_to_viewer,
        tunnel.ro_joined(token_hash, viewer_id).client_id_to_viewer == tunnel.client_id_to_viewer,
        tunnel.ro_joined(token_hash, viewer_id).client_id_to_token_hash
            == tunnel.client_id_to_token_hash,
{
}

/// Whoever comes in with a token of its own gets a session that may write and
/// is routed to its own client. The groups and the clients of others do not
/// change.
pub proof fn law_writer_gets_session(
    tunnel: TunnelView,
    token_hash: Seq<char>,
    client_id: u32,
    e2e_encrypted: bool,
    viewer_id: u128,
    other: u32,
)
    requires
        other != client_id,
    ensures
        ({
            let after = tunnel.rw_joined(token_hash, client_id, e2e_encrypted, viewer_id);
            &&& one_session_more(
                tunnel,
                after,
                viewer_id,
                RoutingView::Rw(client_id),
                token_hash,
                false,
                e2e_encrypted,
            )
            &&& after.client_id_to_viewer.contains_key(client_id)
            &&& after.client_id_to_viewer[client_id] == viewer_id
            &&& after.client_id_to_viewer.contains_key(other)
                <==> tunnel.client_id_to_viewer.contains_key(other)
            &&& tunnel.client_id_to_viewer.contains_key(other) ==> after.client_id_to_viewer[other]
                == tunnel.client_id_to_viewer[other]
            &&& after.ro_groups == tunnel.ro_groups
            &&& after.client_id_to_token_hash == tunnel.client_id_to_token_hash
        }),
{
}

/// Whether `after` has one more viewer in the group of the token than `before`,
/// which is this one, and the viewers of all groups as they were otherwise.
pub open spec fn one_watcher_more(
    before: TunnelView,
    after: TunnelView,
    token_hash: Seq<char>,
    viewer_id: u128,
) -> bool {
    &&& is_in_group(after, token_hash, viewer_id)
    &&& forall|id: u128|
        id != viewer_id ==> #[trigger] is_in_group(after, token_hash, id) == is_in_group(
            before,
            token_hash,
            id,
        )
    &&& forall|th: Seq<char>| #[trigger]
        after.ro_groups.contains_key(th) <==> before.ro_groups.contains_key(th) || th == token_hash
    &&& forall|th: Seq<char>|
        th != token_hash && #[trigger] before.ro_groups.contains_key(th)
            ==> after.ro_groups[th].viewer_ids == before.ro_groups[th].viewer_ids
            && after.ro_groups[th].session_size == before.ro_groups[th].session_size
            && after.ro_groups[th].e2e_encrypted == before.ro_groups[th].e2e_encrypted
            && after.ro_groups[th].validated == before.ro_groups[th].validated
    &&& before.ro_groups.contains_key(token_hash) ==> after.ro_groups[token_hash].validated
        == before.ro_groups[token_hash].validated && after.ro_groups[token_hash].session_size
        == before.ro_groups[token_hash].session_size
    &&& !before.ro_groups.contains_key(token_hash) ==> after.ro_groups[token_hash].validated
        && after.ro_groups[token_hash].session_size is None
}

/// Whoever comes in with a read-only token is in the token's group from then
/// on, with everyone who was; nobody enters or leaves any other group.
pub proof fn law_watcher_joins_group(
    tunnel: TunnelView,
    token_hash: Seq<char>,
    client_id: u32,
    e2e_encrypted: bool,
    viewer_id: u128,
)
    requires
        tunnel.in_order(),
    ensures
        one_watcher_more(
            tunnel,
            tunnel.ro_opened(token_hash, client_id, e2e_encrypted, viewer_id),
            token_hash,
            viewer_id,
        ),
        tunnel.ro_groups.contains_key(token_hash) ==> one_watcher_more(
            tunnel,
            tunnel.ro_revived(token_hash, client_id, e2e_encrypted, viewer_id),
            token_hash,
            viewer_id,
        ),
        tunnel.group_is_live(token_hash) ==> one_watcher_more(
            tunnel,
            tunnel.ro_joined(token_hash, viewer_id),
            token_hash,
            viewer_id,
        ),
{
    let opened = tunnel.ro_opened(token_hash, client_id, e2e_encrypted, viewer_id);
    let revived = tunnel.ro_revived(token_hash, client_id, e2e_encrypted, viewer_id);
    let joined = tunnel.ro_joined(token_hash, viewer_id);
    viewer_laws::lemma_client_freed(tunnel, token_hash, client_id);
    if tunnel.ro_groups.contains_key(token_hash) {
        let ids = tunnel.ro_groups[token_hash].viewer_ids;
        viewer_laws::lemma_with_id(ids, viewer_id);
        assert forall|id: u128| id != viewer_id implies registry::with_id(ids, viewer_id).contains(
            id,
        ) == ids.contains(id) by {
            law_lists_of_viewers(ids, viewer_id, id);
        }
        assert forall|id: u128| id != viewer_id implies #[trigger] is_in_group(
            revived,
            token_hash,
            id,
        ) == is_in_group(tunnel, token_hash, id) by {
            law_lists_of_viewers(ids, viewer_id, id);
        }
        assert forall|id: u128| id != viewer_id implies #[trigger] is_in_group(
            joined,
            token_hash,
            id,
        ) == is_in_group(tunnel, token_hash, id) by {
            law_lists_of_viewers(ids, viewer_id, id);
        }
    } else {
        assert(seq![viewer_id][0] == viewer_id);
        assert forall|id: u128| id != viewer_id implies #[trigger] is_in_group(
            opened,
            token_hash,
            id,
        ) == is_in_group(tunnel, token_hash, id) by {
            if seq![viewer_id].contains(id) {
                assert(seq![viewer_id][0] == id);
            }
        }
    }
    let free = tunnel.client_freed(token_hash, client_id);
    assert forall|th: Seq<char>|
        th != token_hash && #[trigger] tunnel.ro_groups.contains_key(th) implies
        free.ro_groups[th].viewer_ids == tunnel.ro_groups[th].viewer_ids
        && free.ro_groups[th].session_size == tunnel.ro_groups[th].session_size
        && free.ro_groups[th].e2e_encrypted == tunnel.ro_groups[th].e2e_encrypted
        && free.ro_groups[th].validated == tunnel.ro_groups[th].validated by {
        assert(free.ro_groups.contains_key(th));
    }
}

/// A client that the host names for a group is the group's from then on, and
/// the only one; the clients of other groups are as they were, unless it was
/// one of them.
pub proof fn law_group_gets_client(
    tunnel: TunnelView,
    token_hash: Seq<char>,
    client_id: u32,
    e2e_encrypted: bool,
    viewer_id: u128,
    other: Seq<char>,
)
    requires
        tunnel.in_order(),
        other != token_hash,
        tunnel.ro_groups.contains_key(other),
    ensures
        ({
            let after = tunnel.ro_opened(token_hash, client_id, e2e_encrypted, viewer_id);
            &&& after.ro_groups.contains_key(token_hash)
            &&& after.ro_groups[token_hash].active_client_id == Some(client_id)
            &&& after.ro_groups[token_hash].e2e_encrypted == e2e_encrypted
            &&& tunnel.ro_groups[other].active_client_id != Some(client_id)
                ==> after.ro_groups[other].active_client_id
                == tunnel.ro_groups[other].active_client_id
            &&& tunnel.ro_groups.contains_key(token_hash) ==> after == tunnel.ro_revived(
                token_hash,
                client_id,
                e2e_encrypted,
                viewer_id,
            )
        }),
{
    viewer_laws::lemma_client_freed(tunnel, token_hash, client_id);
    let free = tunnel.client_freed(token_hash, client_id);
    assert(free.ro_groups.contains_key(other));
    if tunnel.ro_groups[other].active_client_id != Some(client_id) {
        viewer_laws::lemma_other_client_kept(tunnel, token_hash, client_id, other);
    }
}

// ---------------------------------------------------------------- leaving

/// A watcher whose socket closes leaves its group, and nobody else does. Its
/// session and its sockets are gone; those of all others stay. The group keeps
/// its client while anyone is left in it, and loses it with the last one; other
/// groups keep theirs.
pub proof fn law_watcher_leaves(
    tunnel: TunnelView,
    session: SessionView,
    token_hash: Seq<char>,
    other: u128,
    other_hash: Seq<char>,
    client_id: u32,
)
    requires
        tunnel.in_order(),
        tunnel.viewers.contains_key(session.viewer_id),
        session.routing == RoutingView::Ro(token_hash),
        other != session.viewer_id,
        other_hash != token_hash,
    ensures
        ({
            let after = tunnel.viewer_left(session);
            &&& one_viewer_less(tunnel, after, session.viewer_id)
            &&& !is_in_group(after, token_hash, session.viewer_id)
            &&& is_in_group(after, token_hash, other) == is_in_group(tunnel, token_hash, other)
            &&& after.ro_groups.contains_key(token_hash) == tunnel.ro_groups.contains_key(
                token_hash,
            )
            &&& after.ro_groups.contains_key(other_hash) == tunnel.ro_groups.contains_key(
                other_hash,
            )
            &&& tunnel.ro_groups.contains_key(other_hash) ==> after.ro_groups[other_hash]
                == tunnel.ro_groups[other_hash]
            &&& is_in_group(tunnel, token_hash, other)
                ==> after.ro_groups[token_hash].active_client_id
                == tunnel.ro_groups[token_hash].active_client_id && after.client_id_to_token_hash
                == tunnel.client_id_to_token_hash
            &&& after.ro_groups.contains_key(token_hash)
                && after.ro_groups[token_hash].viewer_ids.len() == 0
                ==> after.ro_groups[token_hash].active_client_id is None
            &&& after.ro_groups.contains_key(token_hash)
                ==> after.ro_groups[token_hash].session_size
                == tunnel.ro_groups[token_hash].session_size
            &&& tunnel.client_id_to_token_hash.contains_key(client_id)
                && tunnel.client_id_to_token_hash[client_id] == other_hash
                ==> after.client_id_to_token_hash.contains_key(client_id)
                && after.client_id_to_token_hash[client_id] == other_hash
            &&& after.client_id_to_viewer == tunnel.client_id_to_viewer
        }),
{
    let after = tunnel.viewer_left(session);
    if tunnel.ro_groups.contains_key(token_hash) {
        let ids = tunnel.ro_groups[token_hash].viewer_ids;
        viewer_laws::lemma_without_id(ids, session.viewer_id);
        let left = registry::without_id(ids, session.viewer_id);
        if ids.contains(other) {
            assert(left.contains(other));
            let i = choose|i: int| 0 <= i < left.len() && left[i] == other;
            assert(left.len() > 0);
        }
    }
    if tunnel.client_id_to_token_hash.contains_key(client_id) {
        assert(tunnel.ro_groups.contains_key(tunnel.client_id_to_token_hash[client_id]));
    }
}

/// A writer whose socket closes goes with its client. Its session and its
/// sockets are gone; those of all others stay, and so do the clients of others
/// and all groups.
pub proof fn law_writer_leaves(
    tunnel: TunnelView,
    session: SessionView,
    client_id: u32,
    other: u32,
)
    requires
        tunnel.viewers.contains_key(session.viewer_id),
        session.routing == RoutingView::Rw(client_id),
        other != client_id,
    ensures
        ({
            let after = tunnel.viewer_left(session);
            &&& one_viewer_less(tunnel, after, session.viewer_id)
            &&& !after.client_id_to_viewer.contains_key(client_id)
            &&& after.client_id_to_viewer.contains_key(other)
                <==> tunnel.client_id_to_viewer.contains_key(other)
            &&& tunnel.client_id_to_viewer.contains_key(other) ==> after.client_id_to_viewer[other]
                == tunnel.client_id_to_viewer[other]
            &&& after.ro_groups == tunnel.ro_groups
            &&& after.client_id_to_token_hash == tunnel.client_id_to_token_hash
        }),
{
}

/// Whether `after` is `before` without the session and the sockets of one
/// viewer.
pub open spec fn one_viewer_less(before: TunnelView, after: TunnelView, viewer_id: u128) -> bool {
    &&& !after.sessions.contains_key(viewer_id)
    &&& !after.viewers.contains_key(viewer_id)
    &&& forall|id: u128|
        id != viewer_id ==> (#[trigger] after.sessions.contains_key(id)
            <==> before.sessions.contains_key(id))
    &&& forall|id: u128|
        id != viewer_id && #[trigger] before.sessions.contains_key(id) ==> after.sessions[id]
            == before.sessions[id]
    &&& forall|id: u128|
        id != viewer_id ==> (#[trigger] after.viewers.contains_key(id)
            <==> before.viewers.contains_key(id))
    &&& forall|id: u128|
        id != viewer_id && #[trigger] before.viewers.contains_key(id) ==> after.viewers[id]
            == before.viewers[id]
    &&& after.pending_auths == before.pending_auths
    &&& fanout_laws::same_tunnel(before, after)
}

/// The second socket of a viewer that closes changes nothing.
pub proof fn law_leaving_twice_is_leaving_once(tunnel: TunnelView, session: SessionView)
    requires
        !tunnel.viewers.contains_key(session.viewer_id),
    ensures
        tunnel.viewer_left(session) == tunnel,
{
}

/// The host is told which client is gone, or how many are left in the group.
pub proof fn law_farewell(
    tunnel: TunnelView,
    session: SessionView,
    client_id: u32,
    token_hash: Seq<char>,
)
    requires
        tunnel.ro_groups.contains_key(token_hash) ==> tunnel.ro_groups[token_hash].viewer_ids.len()
            <= u32::MAX,
    ensures
        session.routing == RoutingView::Rw(client_id) ==> tunnel.farewell(session) == (
        ControlView::ClientDisconnected { client_id }),
        session.routing == RoutingView::Ro(token_hash) ==> (tunnel.farewell(session) matches
            ControlView::ReadOnlyViewerUpdate { token_hash: told, count } && told == token_hash
            && count == if tunnel.ro_groups.contains_key(token_hash) {
            tunnel.ro_groups[token_hash].viewer_ids.len()
        } else {
            0
        }),
{
}

// ---------------------------------------------------------------- being asked about

/// A token without a live group is asked about: the question that goes to the
/// host carries the token's hash and a number, and whoever waits is kept under
/// that number. Nothing else changes, and nobody has a session for it.
pub proof fn law_question_is_kept(
    before: TunnelView,
    after: TunnelView,
    slug: Seq<char>,
    auth_token: Seq<char>,
    viewer_id: u128,
    request_id: Seq<u8>,
    waiter: u64,
    challenge: PendingChallenge,
    message: ControlMessage,
    other: Seq<u8>,
)
    requires
        viewer::registration_started(
            before,
            after,
            slug,
            auth_token,
            viewer_id,
            request_id,
            waiter,
            RegisterStep::Challenge { challenge, message },
        ),
        other != request_id,
    ensures
        message@ == (ControlView::AuthChallenge {
            request_id,
            token_hash: crypto::hashed_token(auth_token),
        }),
        challenge.request_id@ == request_id,
        challenge.token_hash@ == crypto::hashed_token(auth_token),
        challenge.tunnel_id == before.tunnel_id,
        challenge.dormant <==> before.ro_groups.contains_key(crypto::hashed_token(auth_token)),
        after.pending_auths.contains_key(request_id) && after.pending_auths[request_id] == waiter,
        after.pending_auths.contains_key(other) <==> before.pending_auths.contains_key(other),
        before.pending_auths.contains_key(other) ==> after.pending_auths[other]
            == before.pending_auths[other],
        after.sessions == before.sessions,
        after.viewers == before.viewers,
        after.ro_groups == before.ro_groups,
        after.client_id_to_viewer == before.client_id_to_viewer,
        after.client_id_to_token_hash == before.client_id_to_token_hash,
        fanout_laws::same_tunnel(before, after),
{
}

/// A viewer who shows the token of a live group is in it at once: its session
/// is kept, it is told the group's client, and the host hears the new count.
pub proof fn law_live_group_takes_viewer(
    before: TunnelView,
    after: TunnelView,
    slug: Seq<char>,
    auth_token: Seq<char>,
    viewer_id: u128,
    request_id: Seq<u8>,
    waiter: u64,
    outcome: RegisterOutcome,
    update: ControlMessage,
)
    requires
        before.in_order(),
        viewer::registration_started(
            before,
            after,
            slug,
            auth_token,
            viewer_id,
            request_id,
            waiter,
            RegisterStep::Joined { outcome, update },
        ),
    ensures
        ({
            let token_hash = crypto::hashed_token(auth_token);
            &&& before.ro_groups.contains_key(token_hash)
            &&& before.ro_groups[token_hash].active_client_id == Some(outcome.client_id)
            &&& after.sessions.contains_key(viewer_id)
            &&& after.sessions[viewer_id] == outcome.session@
            &&& outcome.session.viewer_id == viewer_id
            &&& outcome.session.is_read_only
            &&& outcome.cookie@ == viewer::session_cookie(slug, viewer_id)
            &&& after.viewers_of(outcome.client_id).contains(viewer_id)
            &&& update@ matches ControlView::ReadOnlyViewerUpdate { token_hash: told, count }
                && told == token_hash && (after.ro_groups[token_hash].viewer_ids.len() <= u32::MAX
                ==> count == after.ro_groups[token_hash].viewer_ids.len())
        }),
{
    let token_hash = crypto::hashed_token(auth_token);
    viewer_laws::lemma_with_id(before.ro_groups[token_hash].viewer_ids, viewer_id);
}

/// What the host's answer leads to. Without an answer or with a refusal nobody
/// comes in, and nothing but the open question goes. A watcher whom the host
/// lets in is in the token's group, gets the frames of the client that the host
/// named, and is told so; the host hears the count. A writer whom the host lets
/// in is announced to the host before it gets a session. A dormant group is
/// never woken for a writer.
pub proof fn law_answer_decides(
    before: TunnelView,
    after: TunnelView,
    slug: Seq<char>,
    challenge: PendingChallenge,
    answer: Option<AuthResponseResult>,
    viewer_id: u128,
    step: ConcludeStep,
)
    requires
        before.in_order(),
        viewer::registration_concluded(before, after, slug, challenge, answer, viewer_id, step),
    ensures
        answer is None ==> step is Refused && !after.pending_auths.contains_key(
            challenge.request_id@,
        ) && after.sessions == before.sessions && after.ro_groups == before.ro_groups
            && after.viewers == before.viewers,
        answer matches Some(a) ==> {
            let known = before.ro_groups.contains_key(challenge.token_hash@);
            &&& step is Refused <==> !a.accepted || (challenge.dormant && !a.is_read_only) || (
            challenge.dormant && !known)
            &&& step is Announce <==> a.accepted && !a.is_read_only && !challenge.dormant
            &&& !(step is Joined) ==> after == before
        },
        step matches ConcludeStep::Joined { outcome, update } ==> {
            let a = answer->0;
            &&& a.accepted && a.is_read_only
            &&& outcome.client_id == a.client_id
            &&& outcome.session.viewer_id == viewer_id
            &&& outcome.session.is_read_only
            &&& outcome.session.e2e_encrypted == a.e2e_encrypted
            &&& outcome.cookie@ == viewer::session_cookie(slug, viewer_id)
            &&& after.sessions.contains_key(viewer_id)
            &&& after.sessions[viewer_id] == outcome.session@
            &&& after.viewers_of(a.client_id).contains(viewer_id)
            &&& is_in_group(after, challenge.token_hash@, viewer_id)
            &&& update@ matches ControlView::ReadOnlyViewerUpdate { token_hash, count }
                && token_hash == challenge.token_hash@ && (
            after.ro_groups[token_hash].viewer_ids.len() <= u32::MAX ==> count
                == after.ro_groups[token_hash].viewer_ids.len())
        },
        step matches ConcludeStep::Announce { viewer, message } ==> {
            let a = answer->0;
            &&& message@ == (ControlView::ClientConnected { client_id: a.client_id })
            &&& viewer.client_id == a.client_id
            &&& viewer.token_hash@ == challenge.token_hash@
            &&& viewer.e2e_encrypted == a.e2e_encrypted
            &&& viewer.tunnel_id == before.tunnel_id
        },
{
    if let Some(a) = answer {
        law_new_viewer_told_its_client(
            before,
            challenge.token_hash@,
            a.client_id,
            a.e2e_encrypted,
            viewer_id,
        );
        law_watcher_joins_group(
            before,
            challenge.token_hash@,
            a.client_id,
            a.e2e_encrypted,
            viewer_id,
        );
    }
}

/// A writer whom the host has heard of gets a session under its own client, which
/// nobody else's session has a part in, and is told so.
pub proof fn law_writer_comes_in(
    before: TunnelView,
    after: TunnelView,
    slug: Seq<char>,
    viewer: PendingReadWrite,
    viewer_id: u128,
    outcome: RegisterOutcome,
)
    requires
        viewer::rw_admitted(before, after, slug, viewer, viewer_id, outcome),
    ensures
        outcome.client_id == viewer.client_id,
        outcome.session@ == after.sessions[viewer_id],
        outcome.cookie@ == viewer::session_cookie(slug, viewer_id),
        one_session_more(
            before,
            after,
            viewer_id,
            RoutingView::Rw(viewer.client_id),
            viewer.token_hash@,
            false,
            viewer.e2e_encrypted,
        ),
        after.ro_groups == before.ro_groups,
        after.client_id_to_token_hash == before.client_id_to_token_hash,
        after.client_id_to_viewer.contains_key(viewer.client_id),
        after.client_id_to_viewer[viewer.client_id] == viewer_id,
        forall|id: u32|
            id != viewer.client_id ==> (#[trigger] after.client_id_to_viewer.contains_key(id)
                <==> before.client_id_to_viewer.contains_key(id)),
{
}

/// A count is told as it is as long as it has 32 bits, and by its low bits
/// beyond that.
pub proof fn law_count_is_cut(n: nat)
    ensures
        n <= u32::MAX ==> viewer::count32(n) == n,
        viewer::count32(n + 0x1_0000_0000) == viewer::count32(n),
{
}

// ---------------------------------------------------------------- answers to viewers

/// Whether `response` tells of a session that is in a tunnel.
pub open spec fn tells_of(
    response: viewer::SessionResponse,
    tunnel: TunnelView,
    session: SessionView,
    client_id: u32,
) -> bool {
    &&& response.client_id == client_id
    &&& response.web_client_id@ == "relay-client-"@ + text::decimal(client_id as nat)
    &&& response.is_read_only == session.is_read_only
    &&& response.e2e_encrypted == session.e2e_encrypted
    &&& response.tunnel_id@ == ids::hyphenated(tunnel.tunnel_id)
    &&& session.routing matches RoutingView::Ro(token_hash) ==> tunnel.ro_groups.contains_key(
        token_hash,
    ) ==> match tunnel.ro_groups[token_hash].session_size {
        Some((rows, cols)) => response.session_rows == rows && response.session_cols == cols,
        None => response.session_rows == 0 && response.session_cols == 0,
    }
    &&& session.routing is Rw ==> response.session_rows == 0 && response.session_cols == 0
}

/// A watcher whom the host lets in finds its session again: asking with the
/// cookie that it was given, it is told that it may only watch, through the
/// client that the host named, and whether that is encrypted. Its sockets are
/// let in.
pub proof fn law_watcher_finds_session(
    before: RelayView,
    after: RelayView,
    slug: Seq<char>,
    challenge: PendingChallenge,
    a: AuthResponseResult,
    purpose: Purpose,
    viewer_id: u128,
    reply: ViewerReply,
    to_host: Option<ControlMessage>,
    again: SessionLookup,
    gate: SocketGate,
)
    requires
        before.is_open(slug, challenge.tunnel_id),
        before.tunnels[slug].in_order(),
        before.tunnels[slug].slug == slug,
        ids::parsed_uuid(ids::hyphenated(viewer_id)) == Some(viewer_id),
        router::viewer_concluded(
            before,
            after,
            slug,
            challenge,
            Some(a),
            purpose,
            viewer_id,
            ViewerStep::Done { reply, to_host },
        ),
        !(reply is Unauthorised),
        router::answered_by_cookie(
            after.tunnels,
            slug,
            seq!["relay_session"@ + "="@ + ids::hyphenated(viewer_id)],
            again,
        ),
        router::gate_is(
            after.tunnels,
            slug,
            seq!["relay_session"@ + "="@ + ids::hyphenated(viewer_id)],
            gate,
        ),
    ensures
        a.accepted && a.is_read_only,
        again matches SessionLookup::Answer(ViewerReply::Session { response, cookie: None })
            && response.client_id == a.client_id && response.web_client_id@ == "relay-client-"@
            + text::decimal(a.client_id as nat) && response.is_read_only && response.e2e_encrypted
            == a.e2e_encrypted && response.tunnel_id@ == ids::hyphenated(challenge.tunnel_id),
        gate matches SocketGate::Admitted { tunnel_id, session } && tunnel_id
            == challenge.tunnel_id && session.viewer_id == viewer_id && session.is_read_only,
{
    let tunnel = before.tunnels[slug];
    let token_hash = challenge.token_hash@;
    let now = after.tunnels[slug];
    let session = viewer::ro_session(viewer_id, token_hash, a.e2e_encrypted);
    law_new_viewer_told_its_client(tunnel, token_hash, a.client_id, a.e2e_encrypted, viewer_id);
    law_watcher_gets_session(tunnel, token_hash, a.client_id, a.e2e_encrypted, viewer_id);
    viewer_laws::law_cookie_names_session(now, session);
}

/// As [`law_watcher_finds_session`], for a writer whom the host lets in: it may
/// write, through its own client.
pub proof fn law_writer_finds_session(
    before: RelayView,
    after: RelayView,
    slug: Seq<char>,
    viewer: PendingReadWrite,
    purpose: Purpose,
    viewer_id: u128,
    reply: ViewerReply,
    again: SessionLookup,
    gate: SocketGate,
)
    requires
        before.is_open(slug, viewer.tunnel_id),
        ids::parsed_uuid(ids::hyphenated(viewer_id)) == Some(viewer_id),
        router::viewer_admitted(before, after, slug, viewer, true, purpose, viewer_id, reply),
        router::answered_by_cookie(
            after.tunnels,
            slug,
            seq!["relay_session"@ + "="@ + ids::hyphenated(viewer_id)],
            again,
        ),
        router::gate_is(
            after.tunnels,
            slug,
            seq!["relay_session"@ + "="@ + ids::hyphenated(viewer_id)],
            gate,
        ),
    ensures
        again matches SessionLookup::Answer(ViewerReply::Session { response, cookie: None })
            && response.client_id == viewer.client_id && response.web_client_id@
            == "relay-client-"@ + text::decimal(viewer.client_id as nat) && !response.is_read_only
            && response.e2e_encrypted == viewer.e2e_encrypted && response.tunnel_id@
            == ids::hyphenated(viewer.tunnel_id) && response.session_rows == 0
            && response.session_cols == 0,
        gate matches SocketGate::Admitted { tunnel_id, session } && tunnel_id == viewer.tunnel_id
            && session.viewer_id == viewer_id && !session.is_read_only && session.routing@
            == RoutingView::Rw(viewer.client_id),
{
    let now = after.tunnels[slug];
    let session = viewer::rw_session(
        viewer_id,
        viewer.client_id,
        viewer.token_hash@,
        viewer.e2e_encrypted,
    );
    viewer_laws::law_cookie_names_session(now, session);
}

/// The answer to a viewer who came in. To a login it says that it went well, to
/// a request for a session it tells of the session; either way it sets a cookie
/// that begins with the viewer's id under the cookie's name and holds only for
/// the pages of the tunnel, and its status is that of success.
pub proof fn law_answer_of_admission(
    reply: ViewerReply,
    purpose: Purpose,
    tunnel: TunnelView,
    session: SessionView,
    client_id: u32,
)
    requires
        router::admits(reply, purpose, tunnel, session, client_id),
    ensures
        reply.status_code() == 200,
        purpose is Login ==> (reply matches ViewerReply::LoggedIn { response, .. }
            && response.success),
        purpose is Session ==> (reply matches ViewerReply::Session { response, .. } && tells_of(
            response,
            tunnel,
            session,
            client_id,
        )),
        reply.cookie_text() matches Some(cookie) && text::begins_with(
            cookie,
            "relay_session"@ + "="@ + ids::hyphenated(session.viewer_id) + ";"@,
        ) && text::contains_text(cookie, "; HttpOnly"@) && text::ends_with(
            cookie,
            "; Path="@ + "/r/"@ + tunnel.slug + "/"@,
        ) && text::contains_text(cookie, "; SameSite="@ + "Strict"@) && cookie.len()
            == "relay_session"@.len() + "="@.len() + ids::hyphenated(session.viewer_id).len()
            + "; HttpOnly"@.len() + "; SameSite="@.len() + "Strict"@.len() + "; Path="@.len()
            + "/r/"@.len() + tunnel.slug.len() + "/"@.len(),
{
    reveal_strlit("relay_session");
    reveal_strlit("=");
    reveal_strlit(";");
    reveal_strlit("; HttpOnly");
    reveal_strlit("; SameSite=");
    reveal_strlit("; Path=");
    reveal_strlit("Strict");
    let cookie = viewer::session_cookie(tunnel.slug, session.viewer_id);
    let pair = "relay_session"@ + "="@ + ids::hyphenated(session.viewer_id);
    let start = pair + ";"@;
    assert(cookie.subrange(0, start.len() as int) =~= start);
    let flag = "; HttpOnly"@;
    let at: int = pair.len() as int;
    assert(cookie.subrange(at, at + flag.len()) =~= flag);
    assert(text::occurs_at(cookie, flag, at));
    let site = "; SameSite="@ + "Strict"@;
    let behind: int = at + flag.len();
    assert(cookie.subrange(behind, behind + site.len()) =~= site);
    assert(text::occurs_at(cookie, site, behind));
    let end = "; Path="@ + "/r/"@ + tunnel.slug + "/"@;
    let from: int = cookie.len() - end.len();
    assert(cookie.subrange(from, from + end.len()) =~= end);
}

/// Nobody is let in by cookies alone but a viewer whose session is kept: what
/// the cookies name is a session of the tunnel. A slug that is not open lets
/// nobody in. Nobody gets a cookie for a cookie.
pub proof fn law_cookies_name_kept_sessions(
    tunnels: Map<Seq<char>, TunnelView>,
    slug: Seq<char>,
    cookie_headers: Seq<Seq<char>>,
    gate: SocketGate,
    lookup: SessionLookup,
)
    requires
        router::gate_is(tunnels, slug, cookie_headers, gate),
        router::answered_by_cookie(tunnels, slug, cookie_headers, lookup),
    ensures
        gate is NotFound <==> !tunnels.contains_key(slug),
        gate matches SocketGate::Admitted { tunnel_id, session } ==> tunnels.contains_key(slug)
            && tunnel_id == tunnels[slug].tunnel_id && exists|id: u128| #[trigger]
            tunnels[slug].sessions.contains_key(id) && tunnels[slug].sessions[id] == session@,
        gate is Admitted <==> lookup matches SessionLookup::Answer(ViewerReply::Session { .. }),
        lookup is NeedsToken <==> gate is Unauthorised,
        !tunnels.contains_key(slug) ==> lookup == SessionLookup::Answer(ViewerReply::Unauthorised),
        lookup matches SessionLookup::Answer(reply) ==> reply.cookie_text() is None,
{
}

/// In a tunnel without sessions, cookies name nobody.
pub proof fn law_no_session_no_name(tunnel: TunnelView, cookie_headers: Seq<Seq<char>>)
    requires
        forall|id: u128| !(#[trigger] tunnel.sessions.contains_key(id)),
    ensures
        viewer::named_session(tunnel, cookie_headers) is None,
{
}

} // verus!
