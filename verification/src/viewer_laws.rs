//! What holds of a tunnel whoever comes and goes.

use crate::conversion::ControlView;
use crate::cookies;
use crate::crypto;
use crate::ids;
use crate::registry;
use crate::registry::{GroupView, RoutingView, SessionView, TunnelView, ViewerHandle};
use crate::text;
use crate::tunnel_control;
use crate::tunnel_terminal;
use crate::viewer;
use crate::viewer::{RegisterOutcome, RegisterStep, SESSION_COOKIE};
use vstd::prelude::*;

verus! {

/// Every group that somebody is in has a client.
pub open spec fn groups_attended(groups: Map<Seq<char>, GroupView>) -> bool {
    forall|token_hash: Seq<char>| #[trigger]
        groups.contains_key(token_hash) ==> (groups[token_hash].viewer_ids.len() > 0
            ==> groups[token_hash].active_client_id is Some)
}

/// Whether a client is that of another group than the one of this token.
pub open spec fn watched_by_other(
    tunnel: TunnelView,
    client_id: u32,
    token_hash: Seq<char>,
) -> bool {
    tunnel.client_id_to_token_hash.contains_key(client_id)
        && tunnel.client_id_to_token_hash[client_id] != token_hash
}

pub proof fn lemma_with_id(ids: Seq<u128>, id: u128)
    requires
        ids.no_duplicates(),
    ensures
        registry::with_id(ids, id).no_duplicates(),
        registry::with_id(ids, id).contains(id),
        registry::with_id(ids, id).len() == ids.len() + if ids.contains(id) {
            0int
        } else {
            1
        },
{
    if !ids.contains(id) {
        let more = ids.push(id);
        assert(more[ids.len() as int] == id);
        assert forall|i: int, j: int| 0 <= i < more.len() && 0 <= j < more.len() && i
            != j implies more[i] != more[j] by {
            if i < ids.len() && j == ids.len() {
                assert(ids.contains(more[i]));
            }
            if j < ids.len() && i == ids.len() {
                assert(ids.contains(more[j]));
            }
        }
    }
}

pub proof fn lemma_without_id(ids: Seq<u128>, id: u128)
    requires
        ids.no_duplicates(),
    ensures
        registry::without_id(ids, id).no_duplicates(),
        !registry::without_id(ids, id).contains(id),
        forall|other: u128|
            other != id ==> registry::without_id(ids, id).contains(other) == ids.contains(other),
        registry::without_id(ids, id).len() == ids.len() - if ids.contains(id) {
            1int
        } else {
            0
        },
    decreases ids.len(),
{
    reveal(Seq::filter);
    let left = registry::without_id(ids, id);
    if ids.len() > 0 {
        let init = ids.drop_last();
        let last = ids.last();
        lemma_without_id(init, id);
        let rest = registry::without_id(init, id);
        assert(!init.contains(last)) by {
            if init.contains(last) {
                let i = choose|i: int| 0 <= i < init.len() && init[i] == last;
                assert(ids[i] == ids[ids.len() - 1]);
            }
        }
        assert forall|x: u128| ids.contains(x) == (init.contains(x) || x == last) by {
            if init.contains(x) {
                let i = choose|i: int| 0 <= i < init.len() && init[i] == x;
                assert(ids[i] == x);
            }
            if x == last {
                assert(ids[ids.len() - 1] == x);
            }
            if ids.contains(x) && x != last {
                let i = choose|i: int| 0 <= i < ids.len() && ids[i] == x;
                assert(init[i] == x);
            }
        }
        if last == id {
            assert(left == rest);
        } else {
            assert(left == rest.push(last));
            assert forall|x: u128| left.contains(x) == (rest.contains(x) || x == last) by {
                if rest.contains(x) {
                    let i = choose|i: int| 0 <= i < rest.len() && rest[i] == x;
                    assert(left[i] == x);
                }
                if x == last {
                    assert(left[rest.len() as int] == x);
                }
            }
            assert(!rest.contains(last));
            assert forall|i: int, j: int| 0 <= i < left.len() && 0 <= j < left.len() && i
                != j implies left[i] != left[j] by {
                if i < rest.len() && j == rest.len() {
                    assert(rest.contains(left[i]));
                }
                if j < rest.len() && i == rest.len() {
                    assert(rest.contains(left[j]));
                }
            }
        }
    }
}

/// In a new tunnel the index and the groups are in order.
pub proof fn law_new_tunnel_in_order(
    tunnel_id: u128,
    slug: Seq<char>,
    public_url: Seq<char>,
    session_name: Seq<char>,
    zellij_version: Seq<char>,
)
    ensures
        ({
            let tunnel = TunnelView::opened(
                tunnel_id,
                slug,
                public_url,
                session_name,
                zellij_version,
            );
            tunnel.in_order() && groups_attended(tunnel.ro_groups)
        }),
{
}

/// A client that is taken from its group leaves the index and the groups in
/// order, and stands in the index no more.
proof fn lemma_unwatched_in_order(tunnel: TunnelView, client_id: u32)
    requires
        tunnel.in_order(),
    ensures
        tunnel.unwatched(client_id).in_order(),
        !tunnel.unwatched(client_id).client_id_to_token_hash.contains_key(client_id),
        tunnel.unwatched(client_id).ro_groups.dom() == tunnel.ro_groups.dom(),
        forall|th: Seq<char>| #[trigger]
            tunnel.unwatched(client_id).ro_groups.contains_key(th)
                ==> tunnel.unwatched(client_id).ro_groups[th].viewer_ids
                == tunnel.ro_groups[th].viewer_ids && (
            tunnel.unwatched(client_id).ro_groups[th].active_client_id
                == if tunnel.ro_groups[th].active_client_id == Some(client_id) {
                None
            } else {
                tunnel.ro_groups[th].active_client_id
            }),
{
    let after = tunnel.unwatched(client_id);
    let groups = tunnel.ro_groups;
    let index = tunnel.client_id_to_token_hash;
    assert forall|th: Seq<char>| #[trigger] after.ro_groups.contains_key(th) implies
        after.ro_groups[th].viewer_ids == groups[th].viewer_ids && (
        after.ro_groups[th].active_client_id == if groups[th].active_client_id == Some(client_id) {
            None
        } else {
            groups[th].active_client_id
        }) by {
        assert(groups.contains_key(th));
        if index.contains_key(client_id) {
            assert(groups.contains_key(index[client_id]));
        }
    }
    assert forall|c: u32| #[trigger] after.client_id_to_token_hash.contains_key(c) implies
        after.ro_groups.contains_key(after.client_id_to_token_hash[c])
        && after.ro_groups[after.client_id_to_token_hash[c]].active_client_id == Some(c) by {
        assert(index.contains_key(c));
        assert(after.ro_groups.contains_key(index[c]));
    }
    assert forall|th: Seq<char>| #[trigger] after.ro_groups.contains_key(th) implies {
        let active = after.ro_groups[th].active_client_id;
        active is Some ==> after.client_id_to_token_hash.contains_key(active->0)
            && after.client_id_to_token_hash[active->0] == th
    } by {
        assert(groups.contains_key(th));
    }
    assert forall|th: Seq<char>| #[trigger] after.ro_groups.contains_key(th) implies {
        let group = after.ro_groups[th];
        &&& group.active_client_id is Some ==> group.viewer_ids.len() > 0
        &&& group.viewer_ids.no_duplicates()
    } by {
        assert(groups.contains_key(th));
    }
}

/// A group with viewers and a client that no group watches through, in place of
/// one that has no client, leaves the index and the groups in order.
proof fn lemma_with_group_in_order(
    tunnel: TunnelView,
    token_hash: Seq<char>,
    client_id: u32,
    group: GroupView,
)
    requires
        tunnel.in_order(),
        !tunnel.client_id_to_token_hash.contains_key(client_id),
        !tunnel.group_is_live(token_hash),
        group.viewer_ids.len() > 0,
        group.viewer_ids.no_duplicates(),
    ensures
        tunnel.with_group(token_hash, client_id, group).in_order(),
{
    let after = tunnel.with_group(token_hash, client_id, group);
    let groups = tunnel.ro_groups;
    let index = tunnel.client_id_to_token_hash;
    assert forall|c: u32| #[trigger] after.client_id_to_token_hash.contains_key(c) implies
        after.ro_groups.contains_key(after.client_id_to_token_hash[c])
        && after.ro_groups[after.client_id_to_token_hash[c]].active_client_id == Some(c) by {
        if c != client_id {
            assert(index.contains_key(c));
            assert(tunnel.group_is_live(index[c]));
        }
    }
    assert forall|th: Seq<char>| #[trigger] after.ro_groups.contains_key(th) implies {
        let active = after.ro_groups[th].active_client_id;
        active is Some ==> after.client_id_to_token_hash.contains_key(active->0)
            && after.client_id_to_token_hash[active->0] == th
    } by {
        if th != token_hash {
            assert(groups.contains_key(th));
        }
    }
    assert forall|th: Seq<char>| #[trigger] after.ro_groups.contains_key(th) implies {
        let g = after.ro_groups[th];
        &&& g.active_client_id is Some ==> g.viewer_ids.len() > 0
        &&& g.viewer_ids.no_duplicates()
    } by {
        if th != token_hash {
            assert(groups.contains_key(th));
        }
    }
}

/// What freeing a client for the group of a token leaves.
pub proof fn lemma_client_freed(tunnel: TunnelView, token_hash: Seq<char>, client_id: u32)
    requires
        tunnel.in_order(),
    ensures
        ({
            let free = tunnel.client_freed(token_hash, client_id);
            &&& free.in_order()
            &&& !free.client_id_to_token_hash.contains_key(client_id)
            &&& !free.group_is_live(token_hash)
            &&& free.sessions == tunnel.sessions
            &&& forall|th: Seq<char>| #[trigger]
                free.ro_groups.contains_key(th) <==> tunnel.ro_groups.contains_key(th)
            &&& forall|th: Seq<char>| #[trigger]
                free.ro_groups.contains_key(th) ==> free.ro_groups[th].viewer_ids
                    == tunnel.ro_groups[th].viewer_ids
            &&& forall|th: Seq<char>| #[trigger]
                free.ro_groups.contains_key(th) && th != token_hash && !watched_by_other(
                    tunnel,
                    client_id,
                    token_hash,
                ) ==> free.ro_groups[th].active_client_id == tunnel.ro_groups[th].active_client_id
        }),
{
    let free = tunnel.client_freed(token_hash, client_id);
    if tunnel.group_is_live(token_hash) {
        let former = tunnel.ro_groups[token_hash].active_client_id->0;
        let between = tunnel.unwatched(former);
        assert(tunnel.client_id_to_token_hash[former] == token_hash);
        lemma_unwatched_in_order(tunnel, former);
        lemma_unwatched_in_order(between, client_id);
        assert forall|th: Seq<char>| #[trigger] free.ro_groups.contains_key(th) implies
            free.ro_groups[th].viewer_ids == tunnel.ro_groups[th].viewer_ids by {
            assert(between.ro_groups.contains_key(th));
        }
        assert(free.ro_groups.contains_key(token_hash) && between.ro_groups.contains_key(
            token_hash,
        ));
        assert forall|th: Seq<char>| #[trigger]
            free.ro_groups.contains_key(th) && th != token_hash && !watched_by_other(
                tunnel,
                client_id,
                token_hash,
            ) implies free.ro_groups[th].active_client_id
            == tunnel.ro_groups[th].active_client_id by {
            assert(between.ro_groups.contains_key(th));
            assert(tunnel.ro_groups.contains_key(th));
        }
    } else {
        lemma_unwatched_in_order(tunnel, client_id);
        if free.ro_groups.contains_key(token_hash) {
            assert(tunnel.ro_groups.contains_key(token_hash));
        }
        assert forall|th: Seq<char>| #[trigger]
            free.ro_groups.contains_key(th) && th != token_hash && !watched_by_other(
                tunnel,
                client_id,
                token_hash,
            ) implies free.ro_groups[th].active_client_id
            == tunnel.ro_groups[th].active_client_id by {
            assert(tunnel.ro_groups.contains_key(th));
        }
    }
}

/// The client of another group stays, unless it is the one that is freed.
pub proof fn lemma_other_client_kept(
    tunnel: TunnelView,
    token_hash: Seq<char>,
    client_id: u32,
    other: Seq<char>,
)
    requires
        tunnel.in_order(),
        tunnel.ro_groups.contains_key(other),
        other != token_hash,
        tunnel.ro_groups[other].active_client_id != Some(client_id),
    ensures
        tunnel.client_freed(token_hash, client_id).ro_groups.contains_key(other),
        tunnel.client_freed(token_hash, client_id).ro_groups[other]
            == tunnel.ro_groups[other],
{
    if tunnel.group_is_live(token_hash) {
        assert(tunnel.ro_groups.contains_key(token_hash));
        let former = tunnel.ro_groups[token_hash].active_client_id->0;
        lemma_unwatched_in_order(tunnel, former);
    }
    if tunnel.client_id_to_token_hash.contains_key(client_id) {
        assert(tunnel.ro_groups.contains_key(tunnel.client_id_to_token_hash[client_id]));
    }
}

/// A viewer who comes in with a read-only token and the client that the host
/// has named for it leaves the index and the groups in order, whatever became
/// of the token's group in the meantime and wherever the client was before.
pub proof fn law_ro_first_in_order(
    tunnel: TunnelView,
    token_hash: Seq<char>,
    client_id: u32,
    e2e_encrypted: bool,
    viewer_id: u128,
)
    requires
        tunnel.in_order(),
    ensures
        tunnel.ro_opened(token_hash, client_id, e2e_encrypted, viewer_id).in_order(),
        groups_attended(tunnel.ro_groups) && !watched_by_other(tunnel, client_id, token_hash)
            ==> groups_attended(
            tunnel.ro_opened(token_hash, client_id, e2e_encrypted, viewer_id).ro_groups,
        ),
{
    if tunnel.ro_groups.contains_key(token_hash) {
        law_ro_revive_in_order(tunnel, token_hash, client_id, e2e_encrypted, viewer_id);
    } else {
        let free = tunnel.client_freed(token_hash, client_id);
        lemma_client_freed(tunnel, token_hash, client_id);
        let group = GroupView {
            validated: true,
            active_client_id: Some(client_id),
            e2e_encrypted,
            viewer_ids: seq![viewer_id],
            session_size: None,
        };
        lemma_with_group_in_order(free, token_hash, client_id, group);
        let after = tunnel.ro_opened(token_hash, client_id, e2e_encrypted, viewer_id);
        if groups_attended(tunnel.ro_groups) && !watched_by_other(tunnel, client_id, token_hash) {
            assert forall|th: Seq<char>| #[trigger] after.ro_groups.contains_key(th) implies (
            after.ro_groups[th].viewer_ids.len() > 0
                ==> after.ro_groups[th].active_client_id is Some) by {
                if th != token_hash {
                    assert(free.ro_groups.contains_key(th));
                    assert(tunnel.ro_groups.contains_key(th));
                }
            }
        }
    }
}

/// A further viewer of a live group leaves the index and the groups in order.
pub proof fn law_ro_join_in_order(tunnel: TunnelView, token_hash: Seq<char>, viewer_id: u128)
    requires
        tunnel.in_order(),
        tunnel.group_is_live(token_hash),
    ensures
        tunnel.ro_joined(token_hash, viewer_id).in_order(),
        groups_attended(tunnel.ro_groups) ==> groups_attended(
            tunnel.ro_joined(token_hash, viewer_id).ro_groups,
        ),
{
    let after = tunnel.ro_joined(token_hash, viewer_id);
    let index = tunnel.client_id_to_token_hash;
    lemma_with_id(tunnel.ro_groups[token_hash].viewer_ids, viewer_id);
    assert forall|th: Seq<char>| #[trigger] after.ro_groups.contains_key(th) implies
        after.ro_groups[th].active_client_id == tunnel.ro_groups[th].active_client_id
        && after.ro_groups[th].viewer_ids.no_duplicates() && (
    after.ro_groups[th].active_client_id is Some ==> after.ro_groups[th].viewer_ids.len() > 0)
        && tunnel.ro_groups.contains_key(th) by {
        assert(tunnel.ro_groups.contains_key(th));
    }
    assert forall|c: u32| #[trigger] index.contains_key(c) implies after.ro_groups.contains_key(
        index[c],
    ) && after.ro_groups[index[c]].active_client_id == Some(c) by {
        assert(after.ro_groups.contains_key(index[c]));
    }
}

/// A group that gets a client from the host, with the viewer who woke it,
/// leaves the index and the groups in order, wherever the client was before.
pub proof fn law_ro_revive_in_order(
    tunnel: TunnelView,
    token_hash: Seq<char>,
    client_id: u32,
    e2e_encrypted: bool,
    viewer_id: u128,
)
    requires
        tunnel.in_order(),
        tunnel.ro_groups.contains_key(token_hash),
    ensures
        tunnel.ro_revived(token_hash, client_id, e2e_encrypted, viewer_id).in_order(),
        groups_attended(tunnel.ro_groups) && !watched_by_other(tunnel, client_id, token_hash)
            ==> groups_attended(
            tunnel.ro_revived(token_hash, client_id, e2e_encrypted, viewer_id).ro_groups,
        ),
{
    let free = tunnel.client_freed(token_hash, client_id);
    let former = tunnel.ro_groups[token_hash];
    lemma_client_freed(tunnel, token_hash, client_id);
    lemma_with_id(former.viewer_ids, viewer_id);
    let group = GroupView {
        e2e_encrypted,
        viewer_ids: registry::with_id(former.viewer_ids, viewer_id),
        ..former
    };
    lemma_with_group_in_order(free, token_hash, client_id, group);
    let after = tunnel.ro_revived(token_hash, client_id, e2e_encrypted, viewer_id);
    if groups_attended(tunnel.ro_groups) && !watched_by_other(tunnel, client_id, token_hash) {
        assert forall|th: Seq<char>| #[trigger] after.ro_groups.contains_key(th) implies (
        after.ro_groups[th].viewer_ids.len() > 0
            ==> after.ro_groups[th].active_client_id is Some) by {
            if th != token_hash {
                assert(free.ro_groups.contains_key(th));
                assert(tunnel.ro_groups.contains_key(th));
            }
        }
    }
}

/// Two viewers who show the same read-only token one after the other, before
/// the host has answered either, are in one group afterwards, with the client
/// that the host named last; the client named before watches for nobody.
pub proof fn law_overlapping_registrations_share_group(
    tunnel: TunnelView,
    token_hash: Seq<char>,
    first_client: u32,
    first_viewer: u128,
    second_client: u32,
    second_viewer: u128,
    e2e_encrypted: bool,
)
    requires
        tunnel.in_order(),
        !tunnel.ro_groups.contains_key(token_hash),
        first_client != second_client,
        first_viewer != second_viewer,
    ensures
        ({
            let one = tunnel.ro_opened(token_hash, first_client, e2e_encrypted, first_viewer);
            let both = one.ro_opened(token_hash, second_client, e2e_encrypted, second_viewer);
            &&& both.viewers_of(second_client) == seq![first_viewer, second_viewer]
            &&& !both.client_id_to_token_hash.contains_key(first_client)
            &&& both.sessions.contains_key(first_viewer)
            &&& both.sessions.contains_key(second_viewer)
            &&& both.ro_update(token_hash) == (ControlView::ReadOnlyViewerUpdate {
                token_hash,
                count: 2,
            })
        }),
{
    let one = tunnel.ro_opened(token_hash, first_client, e2e_encrypted, first_viewer);
    law_ro_first_in_order(tunnel, token_hash, first_client, e2e_encrypted, first_viewer);
    let both = one.ro_opened(token_hash, second_client, e2e_encrypted, second_viewer);
    assert(one.group_is_live(token_hash));
    let between = one.unwatched(first_client);
    lemma_unwatched_in_order(one, first_client);
    lemma_unwatched_in_order(between, second_client);
    let free = one.client_freed(token_hash, second_client);
    assert(free == between.unwatched(second_client));
    assert(!free.client_id_to_token_hash.contains_key(first_client));
    assert(!seq![first_viewer].contains(second_viewer)) by {
        if seq![first_viewer].contains(second_viewer) {
            assert(seq![first_viewer][0] == second_viewer);
        }
    }
    assert(seq![first_viewer].push(second_viewer) =~= seq![first_viewer, second_viewer]);
    lemma_client_freed(tunnel, token_hash, first_client);
    lemma_client_freed(one, token_hash, second_client);
}

proof fn lemma_group_left_in_order(tunnel: TunnelView, token_hash: Seq<char>, viewer_id: u128)
    requires
        tunnel.in_order(),
    ensures
        tunnel.group_left(token_hash, viewer_id).in_order(),
        groups_attended(tunnel.ro_groups) ==> groups_attended(
            tunnel.group_left(token_hash, viewer_id).ro_groups,
        ),
{
    let after = tunnel.group_left(token_hash, viewer_id);
    if tunnel.ro_groups.contains_key(token_hash) {
        let group = tunnel.ro_groups[token_hash];
        lemma_without_id(group.viewer_ids, viewer_id);
        assert forall|c: u32| #[trigger] after.client_id_to_token_hash.contains_key(c) implies
            after.ro_groups.contains_key(after.client_id_to_token_hash[c])
            && after.ro_groups[after.client_id_to_token_hash[c]].active_client_id == Some(c) by {
            assert(tunnel.client_id_to_token_hash.contains_key(c));
        }
        assert forall|th: Seq<char>| #[trigger] after.ro_groups.contains_key(th) implies {
            let active = after.ro_groups[th].active_client_id;
            active is Some ==> after.client_id_to_token_hash.contains_key(active->0)
                && after.client_id_to_token_hash[active->0] == th
        } by {
            assert(tunnel.ro_groups.contains_key(th));
        }
        assert forall|th: Seq<char>| #[trigger] after.ro_groups.contains_key(th) implies {
            let g = after.ro_groups[th];
            &&& g.active_client_id is Some ==> g.viewer_ids.len() > 0
            &&& g.viewer_ids.no_duplicates()
        } by {
            assert(tunnel.ro_groups.contains_key(th));
        }
        if groups_attended(tunnel.ro_groups) {
            assert forall|th: Seq<char>| #[trigger] after.ro_groups.contains_key(th) implies (
            after.ro_groups[th].viewer_ids.len() > 0
                ==> after.ro_groups[th].active_client_id is Some) by {
                assert(tunnel.ro_groups.contains_key(th));
            }
        }
    }
}

/// A viewer who leaves keeps the index and the groups in order.
pub proof fn law_leave_in_order(tunnel: TunnelView, session: SessionView)
    requires
        tunnel.in_order(),
    ensures
        tunnel.viewer_left(session).in_order(),
        groups_attended(tunnel.ro_groups) ==> groups_attended(
            tunnel.viewer_left(session).ro_groups,
        ),
{
    if tunnel.viewers.contains_key(session.viewer_id) {
        let gone = TunnelView {
            viewers: tunnel.viewers.remove(session.viewer_id),
            sessions: tunnel.sessions.remove(session.viewer_id),
            ..tunnel
        };
        if let RoutingView::Ro(token_hash) = session.routing {
            lemma_group_left_in_order(gone, token_hash, session.viewer_id);
        }
    }
}

/// A viewer with a client of its own leaves the index and the groups as they
/// were.
pub proof fn law_rw_join_in_order(
    tunnel: TunnelView,
    token_hash: Seq<char>,
    client_id: u32,
    e2e_encrypted: bool,
    viewer_id: u128,
)
    requires
        tunnel.in_order(),
    ensures
        ({
            let after = tunnel.rw_joined(token_hash, client_id, e2e_encrypted, viewer_id);
            &&& after.in_order()
            &&& after.ro_groups == tunnel.ro_groups
            &&& after.client_id_to_token_hash == tunnel.client_id_to_token_hash
        }),
{
}

/// How many viewers the group of a token has.
pub open spec fn group_size(tunnel: TunnelView, token_hash: Seq<char>) -> nat {
    if tunnel.ro_groups.contains_key(token_hash) {
        tunnel.ro_groups[token_hash].viewer_ids.len()
    } else {
        0
    }
}

/// The host hears of one viewer when a group opens, of one more for each new
/// viewer who wakes or joins it, and of one less for each who leaves.
pub proof fn law_group_counts(
    tunnel: TunnelView,
    token_hash: Seq<char>,
    client_id: u32,
    e2e_encrypted: bool,
    viewer_id: u128,
)
    requires
        tunnel.in_order(),
        group_size(tunnel, token_hash) < u32::MAX,
    ensures
        ({
            let is_in = tunnel.ro_groups.contains_key(token_hash)
                && tunnel.ro_groups[token_hash].viewer_ids.contains(viewer_id);
            let more = (group_size(tunnel, token_hash) + if is_in {
                0int
            } else {
                1
            }) as u32;
            let less = (group_size(tunnel, token_hash) - if is_in {
                1int
            } else {
                0
            }) as u32;
            &&& tunnel.ro_opened(token_hash, client_id, e2e_encrypted, viewer_id).ro_update(
                token_hash,
            ) == (ControlView::ReadOnlyViewerUpdate { token_hash, count: more })
            &&& tunnel.ro_groups.contains_key(token_hash) ==> tunnel.ro_revived(
                token_hash,
                client_id,
                e2e_encrypted,
                viewer_id,
            ).ro_update(token_hash) == (ControlView::ReadOnlyViewerUpdate {
                token_hash,
                count: more,
            })
            &&& tunnel.group_is_live(token_hash) ==> tunnel.ro_joined(
                token_hash,
                viewer_id,
            ).ro_update(token_hash) == (ControlView::ReadOnlyViewerUpdate {
                token_hash,
                count: more,
            })
            &&& tunnel.group_left(token_hash, viewer_id).ro_update(token_hash) == (
            ControlView::ReadOnlyViewerUpdate { token_hash, count: less })
        }),
{
    if tunnel.ro_groups.contains_key(token_hash) {
        let viewer_ids = tunnel.ro_groups[token_hash].viewer_ids;
        lemma_with_id(viewer_ids, viewer_id);
        lemma_without_id(viewer_ids, viewer_id);
        if viewer_ids.len() == 0 {
            assert(!viewer_ids.contains(viewer_id));
        }
    }
}

/// Once a read-only token has a live group, whoever shows it joins the group
/// and the host is not asked; a token without a live group is always asked
/// about.
pub proof fn law_one_challenge_per_live_group(
    before: TunnelView,
    after: TunnelView,
    slug: Seq<char>,
    auth_token: Seq<char>,
    viewer_id: u128,
    request_id: Seq<u8>,
    waiter: u64,
    step: RegisterStep,
)
    requires
        viewer::registration_started(
            before,
            after,
            slug,
            auth_token,
            viewer_id,
            request_id,
            waiter,
            step,
        ),
    ensures
        step is Joined <==> before.group_is_live(crypto::hashed_token(auth_token)),
        step is Challenge <==> !before.group_is_live(crypto::hashed_token(auth_token)),
        step is Joined ==> after.group_is_live(crypto::hashed_token(auth_token)),
        step is Joined ==> after.pending_auths == before.pending_auths,
{
}

/// The frames of a group's client reach every viewer of the group, the one
/// who has just come among them, and no one else.
pub proof fn law_group_frames_reach_group(
    tunnel: TunnelView,
    token_hash: Seq<char>,
    viewer_id: u128,
)
    requires
        tunnel.in_order(),
        tunnel.group_is_live(token_hash),
    ensures
        ({
            let client_id = tunnel.ro_groups[token_hash].active_client_id->0;
            let after = tunnel.ro_joined(token_hash, viewer_id);
            &&& tunnel.viewers_of(client_id) == tunnel.ro_groups[token_hash].viewer_ids
            &&& after.viewers_of(client_id) == registry::with_id(
                tunnel.viewers_of(client_id),
                viewer_id,
            )
            &&& after.viewers_of(client_id).contains(viewer_id)
        }),
{
    lemma_with_id(tunnel.ro_groups[token_hash].viewer_ids, viewer_id);
}

/// The frames of a client that belongs to one viewer reach that viewer alone,
/// and where the other clients' frames go does not change.
pub proof fn law_own_frames_reach_viewer(
    tunnel: TunnelView,
    token_hash: Seq<char>,
    client_id: u32,
    e2e_encrypted: bool,
    viewer_id: u128,
    other: u32,
)
    requires
        !tunnel.client_id_to_token_hash.contains_key(client_id),
        other != client_id,
    ensures
        tunnel.rw_joined(token_hash, client_id, e2e_encrypted, viewer_id).viewers_of(client_id)
            == seq![viewer_id],
        tunnel.rw_joined(token_hash, client_id, e2e_encrypted, viewer_id).viewers_of(other)
            == tunnel.viewers_of(other),
{
}

/// When the last viewer of a group has left, the group's client gets frames
/// for nobody.
pub proof fn law_dormant_group_gets_no_frames(
    tunnel: TunnelView,
    token_hash: Seq<char>,
    viewer_id: u128,
)
    requires
        tunnel.in_order(),
        tunnel.group_is_live(token_hash),
        tunnel.ro_groups[token_hash].viewer_ids == seq![viewer_id],
        !tunnel.client_id_to_viewer.contains_key(
            tunnel.ro_groups[token_hash].active_client_id->0,
        ),
    ensures
        !tunnel.group_left(token_hash, viewer_id).group_is_live(token_hash),
        tunnel.group_left(token_hash, viewer_id).viewers_of(
            tunnel.ro_groups[token_hash].active_client_id->0,
        ) == Seq::<u128>::empty(),
{
    lemma_without_id(seq![viewer_id], viewer_id);
    assert(seq![viewer_id][0] == viewer_id);
}

/// A viewer with a client of its own who comes, attaches its sockets and goes
/// leaves the tunnel as it was.
pub proof fn law_rw_leave_undoes_join(
    tunnel: TunnelView,
    token_hash: Seq<char>,
    client_id: u32,
    e2e_encrypted: bool,
    viewer_id: u128,
    handle: ViewerHandle,
)
    requires
        !tunnel.viewers.contains_key(viewer_id),
        !tunnel.sessions.contains_key(viewer_id),
        !tunnel.client_id_to_viewer.contains_key(client_id),
    ensures
        ({
            let joined = tunnel.rw_joined(token_hash, client_id, e2e_encrypted, viewer_id);
            let attached = TunnelView {
                viewers: joined.viewers.insert(viewer_id, handle),
                ..joined
            };
            attached.viewer_left(
                viewer::rw_session(viewer_id, client_id, token_hash, e2e_encrypted),
            ) == tunnel
        }),
{
    let joined = tunnel.rw_joined(token_hash, client_id, e2e_encrypted, viewer_id);
    let attached = TunnelView { viewers: joined.viewers.insert(viewer_id, handle), ..joined };
    let left = attached.viewer_left(
        viewer::rw_session(viewer_id, client_id, token_hash, e2e_encrypted),
    );
    assert(left.viewers =~= tunnel.viewers);
    assert(left.sessions =~= tunnel.sessions);
    assert(left.client_id_to_viewer =~= tunnel.client_id_to_viewer);
}

/// A viewer who joins a live group, attaches its sockets and goes leaves the
/// tunnel as it was.
pub proof fn law_ro_leave_undoes_join(
    tunnel: TunnelView,
    token_hash: Seq<char>,
    viewer_id: u128,
    handle: ViewerHandle,
)
    requires
        tunnel.in_order(),
        tunnel.group_is_live(token_hash),
        !tunnel.viewers.contains_key(viewer_id),
        !tunnel.sessions.contains_key(viewer_id),
        !tunnel.ro_groups[token_hash].viewer_ids.contains(viewer_id),
    ensures
        ({
            let group = tunnel.ro_groups[token_hash];
            let joined = tunnel.ro_joined(token_hash, viewer_id);
            let attached = TunnelView {
                viewers: joined.viewers.insert(viewer_id, handle),
                ..joined
            };
            attached.viewer_left(viewer::ro_session(viewer_id, token_hash, group.e2e_encrypted))
                == tunnel
        }),
{
    let group = tunnel.ro_groups[token_hash];
    let joined = tunnel.ro_joined(token_hash, viewer_id);
    let attached = TunnelView { viewers: joined.viewers.insert(viewer_id, handle), ..joined };
    let left = attached.viewer_left(
        viewer::ro_session(viewer_id, token_hash, group.e2e_encrypted),
    );
    reveal(Seq::filter);
    let more = group.viewer_ids.push(viewer_id);
    assert(more.drop_last() =~= group.viewer_ids);
    lemma_nothing_to_remove(group.viewer_ids, viewer_id);
    assert(registry::without_id(more, viewer_id) == group.viewer_ids);
    assert(left.viewers =~= tunnel.viewers);
    assert(left.sessions =~= tunnel.sessions);
    assert(left.ro_groups =~= tunnel.ro_groups);
}

proof fn lemma_nothing_to_remove(ids: Seq<u128>, id: u128)
    requires
        !ids.contains(id),
    ensures
        registry::without_id(ids, id) == ids,
    decreases ids.len(),
{
    reveal(Seq::filter);
    if ids.len() > 0 {
        let init = ids.drop_last();
        assert(!init.contains(id)) by {
            if init.contains(id) {
                let i = choose|i: int| 0 <= i < init.len() && init[i] == id;
                assert(ids[i] == id);
            }
        }
        lemma_nothing_to_remove(init, id);
        assert(ids.last() != id) by {
            assert(ids[ids.len() - 1] == ids.last());
        }
        assert(init.push(ids.last()) =~= ids);
    } else {
        assert(registry::without_id(ids, id) =~= ids);
    }
}

// ---------------------------------------------------------------- the cookie

/// Whether a character can neither end a cookie nor be trimmed off it.
spec fn is_plain(c: char) -> bool {
    c != ';' && c != '=' && !text::is_white(c)
}

proof fn lemma_hyphenated_plain(id: u128)
    ensures
        ids::hyphenated(id).len() == 36,
        forall|i: int| 0 <= i < 36 ==> is_plain(#[trigger] ids::hyphenated(id)[i]),
{
    let bytes = ids::be_bytes(id as nat, 16);
    ids::lemma_be_bytes_len(id as nat, 16);
    let h = text::hex(bytes);
    assert(h.len() == 32);
    assert forall|i: int| 0 <= i < 32 implies is_plain(#[trigger] h[i]) by {
        let d = if i % 2 == 0 {
            (bytes[i / 2] / 16) as nat
        } else {
            (bytes[i / 2] % 16) as nat
        };
        assert(h[i] == text::digit(d));
    }
    assert(is_plain('-'));
}

proof fn lemma_no_separator(s: Seq<char>, c: char)
    requires
        forall|i: int| 0 <= i < s.len() ==> #[trigger] s[i] != c,
    ensures
        text::find_char(s, c) is None,
        text::pieces(s, c) == seq![s],
    decreases s.len(),
{
    text::lemma_find_char(s, c);
}

proof fn lemma_nothing_to_trim(s: Seq<char>)
    requires
        s.len() > 0,
        !text::is_white(s[0]),
        !text::is_white(s.last()),
    ensures
        text::trimmed(s) == s,
{
}

/// A request with the cookie of a viewer names the viewer's session, where the
/// viewer's id is read back from what is written for it.
pub proof fn law_cookie_names_session(tunnel: TunnelView, session: SessionView)
    requires
        ids::parsed_uuid(ids::hyphenated(session.viewer_id)) == Some(session.viewer_id),
        tunnel.sessions.contains_key(session.viewer_id),
        tunnel.sessions[session.viewer_id] == session,
    ensures
        viewer::named_session(
            tunnel,
            seq!["relay_session"@ + "="@ + ids::hyphenated(session.viewer_id)],
        ) == Some(session),
        ids::hyphenated(session.viewer_id).len() == 36,
{
    reveal_strlit("relay_session");
    reveal_strlit("=");
    let name = SESSION_COOKIE@;
    let value = ids::hyphenated(session.viewer_id);
    let pair = name + "="@ + value;
    lemma_hyphenated_plain(session.viewer_id);
    assert(name.len() == 13);
    assert forall|i: int| 0 <= i < name.len() implies is_plain(#[trigger] name[i]) by {}
    assert forall|i: int| 0 <= i < pair.len() implies #[trigger] pair[i] != ';' by {
        if i < 13 {
            assert(pair[i] == name[i]);
        } else if i > 13 {
            assert(pair[i] == value[i - 14]);
        }
    }
    lemma_no_separator(pair, ';');
    assert(pair[0] == name[0]);
    assert(pair.last() == value[35]);
    lemma_nothing_to_trim(pair);
    text::lemma_find_char(pair, '=');
    assert(pair[13] == '=');
    assert(text::find_char(pair, '=') == Some(13nat)) by {
        let at = text::find_char(pair, '=')->0;
        if at < 13 {
            assert(pair[at as int] == name[at as int]);
        }
    }
    assert(pair.take(13) =~= name);
    assert(pair.skip(14) =~= value);
    lemma_nothing_to_trim(name);
    lemma_nothing_to_trim(value);
    assert(cookies::cookie_pair(pair) == Some((name, value)));
    let headers = seq![pair];
    assert(headers.drop_last() =~= Seq::<Seq<char>>::empty());
    assert(headers.last() == pair);
    let parts = cookies::header_pieces(headers);
    assert(cookies::header_pieces(Seq::empty()) =~= Seq::<Seq<char>>::empty());
    assert(text::pieces(pair, ';')[0] == pair);
    assert(parts =~= seq![pair]);
    assert(parts.last() == pair);
}

/// The cookie that a viewer was given names its session for as long as the
/// tunnel keeps the session.
pub proof fn law_session_cookie_names_viewer(
    tunnel: TunnelView,
    outcome: RegisterOutcome,
    slug: Seq<char>,
    session: SessionView,
    client_id: u32,
)
    requires
        viewer::outcome_is(outcome, slug, session, client_id),
        tunnel.sessions.contains_key(session.viewer_id),
        tunnel.sessions[session.viewer_id] == session,
    ensures
        ({
            let pair = SESSION_COOKIE@ + "="@ + ids::hyphenated(session.viewer_id);
            &&& text::begins_with(outcome.cookie@, pair + ";"@)
            &&& viewer::named_session(tunnel, seq![pair]) == Some(session)
        }),
{
    reveal_strlit("relay_session");
    reveal_strlit("=");
    reveal_strlit(";");
    reveal_strlit("; HttpOnly");
    law_cookie_names_session(tunnel, session);
    let pair = SESSION_COOKIE@ + "="@ + ids::hyphenated(session.viewer_id);
    let cookie = outcome.cookie@;
    assert(cookie.subrange(0, pair.len() as int + 1) =~= pair + ";"@);
}

/// Whatever the host says, the index and the groups stay in order.
pub proof fn law_host_message_in_order(tunnel: TunnelView, message: ControlView)
    requires
        tunnel.in_order(),
    ensures
        tunnel.after_control(message).in_order(),
        groups_attended(tunnel.ro_groups) ==> groups_attended(
            tunnel.after_control(message).ro_groups,
        ),
{
    let after = tunnel.after_control(message);
    let index = after.client_id_to_token_hash;
    match message {
        ControlView::SessionSize { client_id, rows, cols } => {
            assert forall|th: Seq<char>| #[trigger] after.ro_groups.contains_key(th) implies
                tunnel.ro_groups.contains_key(th) && after.ro_groups[th].active_client_id
                == tunnel.ro_groups[th].active_client_id && after.ro_groups[th].viewer_ids
                == tunnel.ro_groups[th].viewer_ids by {}
            assert forall|c: u32| #[trigger] index.contains_key(c) implies
                after.ro_groups.contains_key(index[c])
                && after.ro_groups[index[c]].active_client_id == Some(c) by {
                assert(tunnel.client_id_to_token_hash.contains_key(c));
            }
        },
        ControlView::RevokeToken { token_hash: revoked } => {
            assert forall|c: u32| #[trigger] index.contains_key(c) implies
                after.ro_groups.contains_key(index[c])
                && after.ro_groups[index[c]].active_client_id == Some(c) by {
                assert(tunnel.client_id_to_token_hash.contains_key(c));
                if tunnel.client_id_to_token_hash[c] == revoked {
                    assert(tunnel.group_is_live(revoked));
                }
            }
            assert forall|th: Seq<char>| #[trigger] after.ro_groups.contains_key(th) implies
                tunnel.ro_groups.contains_key(th) && after.ro_groups[th]
                == tunnel.ro_groups[th] && th != revoked by {}
            assert forall|th: Seq<char>| #[trigger] after.ro_groups.contains_key(th) implies {
                let active = after.ro_groups[th].active_client_id;
                active is Some ==> index.contains_key(active->0) && index[active->0] == th
            } by {
                assert(tunnel.ro_groups.contains_key(th));
                if tunnel.group_is_live(revoked) {
                    assert(tunnel.ro_groups.contains_key(revoked));
                }
            }
        },
        _ => {},
    }
}

/// A revoked token is forgotten: it has no group and no session, the sockets of
/// everyone who came with it are gone, and whoever shows it again is asked
/// about as if it had never been seen. The sessions of other tokens stay.
pub proof fn law_revoked_token_forgotten(tunnel: TunnelView, token_hash: Seq<char>)
    ensures
        ({
            let after = tunnel.after_control(ControlView::RevokeToken { token_hash });
            &&& !after.ro_groups.contains_key(token_hash)
            &&& !after.group_is_live(token_hash)
            &&& forall|id: u128| #[trigger]
                after.sessions.contains_key(id) <==> tunnel.sessions.contains_key(id)
                    && tunnel.sessions[id].token_hash != token_hash
            &&& forall|id: u128| #[trigger]
                after.sessions.contains_key(id) ==> after.sessions[id] == tunnel.sessions[id]
            &&& forall|id: u128|
                tunnel.sessions.contains_key(id) && tunnel.sessions[id].token_hash == token_hash
                    ==> !(#[trigger] after.viewers.contains_key(id))
        }),
{
    let after = tunnel.after_control(ControlView::RevokeToken { token_hash });
    assert forall|id: u128| #[trigger]
        after.sessions.contains_key(id) <==> tunnel.sessions.contains_key(id)
            && tunnel.sessions[id].token_hash != token_hash by {
        assert(tunnel.sessions_of(token_hash).contains(id) <==> tunnel.sessions.contains_key(id)
            && tunnel.sessions[id].token_hash == token_hash);
    }
    assert forall|id: u128|
        tunnel.sessions.contains_key(id) && tunnel.sessions[id].token_hash
            == token_hash implies !(#[trigger] after.viewers.contains_key(id)) by {
        assert(tunnel.sessions_of(token_hash).contains(id));
        assert(tunnel.doomed_by(token_hash).contains(id));
    }
}

proof fn lemma_no_sinks(viewers: Map<u128, ViewerHandle>, ids: Seq<u128>)
    requires
        forall|i: int| 0 <= i < ids.len() ==> !viewers.contains_key(#[trigger] ids[i]),
    ensures
        tunnel_control::control_sinks(viewers, ids) == Seq::<u64>::empty(),
        tunnel_terminal::terminal_sinks(viewers, ids) == Seq::<u64>::empty(),
    decreases ids.len(),
{
    if ids.len() > 0 {
        let init = ids.drop_last();
        assert forall|i: int| 0 <= i < init.len() implies !viewers.contains_key(
            #[trigger] init[i],
        ) by {
            assert(init[i] == ids[i]);
        }
        lemma_no_sinks(viewers, init);
        assert(!viewers.contains_key(ids[ids.len() - 1]));
    }
}

/// Once the host has said that a client is gone, frames of that client reach
/// nobody, as long as nobody attaches to it anew.
pub proof fn law_disconnected_client_gets_no_frames(tunnel: TunnelView, client_id: u32)
    ensures
        ({
            let after = tunnel.after_control(ControlView::ClientDisconnected { client_id });
            let ids = after.viewers_of(client_id);
            &&& tunnel_control::control_sinks(after.viewers, ids) == Seq::<u64>::empty()
            &&& tunnel_terminal::terminal_sinks(after.viewers, ids) == Seq::<u64>::empty()
        }),
{
    let after = tunnel.after_control(ControlView::ClientDisconnected { client_id });
    let ids = after.viewers_of(client_id);
    assert(ids == tunnel.viewers_of(client_id));
    assert forall|i: int| 0 <= i < ids.len() implies !after.viewers.contains_key(
        #[trigger] ids[i],
    ) by {
        assert(ids.contains(ids[i]));
        assert(ids.to_set().contains(ids[i]));
    }
    lemma_no_sinks(after.viewers, ids);
}

} // verus!
