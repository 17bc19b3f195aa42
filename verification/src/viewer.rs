//! How a viewer gets into a tunnel, what it may send, and what is left when it
//! goes.

use crate::conversion::{ControlMessage, ControlView, TerminalMessage, TerminalView};
use crate::cookies;
use crate::cookies::SitePolicy;
use crate::crypto;
use crate::ids;
use crate::registry;
use crate::registry::{
    AuthResponseResult, GroupView, RoGroup, RoutingView, SessionView, TunnelEntry, TunnelView,
    ViewerHandle, ViewerRouting, ViewerSession,
};
use crate::text;
use crate::viewer_laws;
use vstd::prelude::*;
use vstd::string::*;

verus! {

/// How long the relay waits for a session host to answer, in seconds.
pub const AUTH_CHALLENGE_TIMEOUT_SECS: u64 = 5;

/// The name of the cookie that holds a viewer's id.
pub const SESSION_COOKIE: &'static str = "relay_session";

/// The body of a login.
#[derive(Debug, Clone)]
pub struct LoginRequest {
    pub auth_token: String,
    pub remember_me: bool,
}

#[derive(Debug, Clone)]
pub struct LoginResponse {
    pub success: bool,
    pub message: String,
}

/// The body of a request for a session; the token may have been given at the
/// login before.
#[derive(Debug, Clone)]
pub struct SessionRequest {
    pub auth_token: Option<String>,
}

#[derive(Debug, Clone)]
pub struct SessionResponse {
    pub web_client_id: String,
    pub client_id: u32,
    pub is_read_only: bool,
    pub e2e_encrypted: bool,
    /// Goes into the key that the viewer derives from its token.
    pub tunnel_id: String,
    /// The size of the session that a group watches, as far as it is known;
    /// 0 by 0 otherwise.
    pub session_rows: u32,
    pub session_cols: u32,
}

/// The name under which a session host knows a client of the relay.
pub open spec fn web_client_id_of(client_id: u32) -> Seq<char> {
    "relay-client-"@ + text::decimal(client_id as nat)
}

pub fn virtual_web_client_id(client_id: u32) -> (id: String)
    ensures
        id@ == web_client_id_of(client_id),
{
    "relay-client-".to_string().concat(text::decimal_text(client_id as u64).as_str())
}

/// A viewer who was let in: the cookie to set, the session and the client
/// whose frames the viewer gets.
#[derive(Debug)]
pub struct RegisterOutcome {
    pub cookie: String,
    pub session: ViewerSession,
    pub client_id: u32,
}

/// The path under which a tunnel's pages stand.
pub open spec fn tunnel_path(slug: Seq<char>) -> Seq<char> {
    "/r/"@ + slug + "/"@
}

pub fn tunnel_path_text(slug: &str) -> (path: String)
    ensures
        path@ == tunnel_path(slug@),
{
    "/r/".to_string().concat(slug).concat("/")
}

/// The cookie that names a viewer, for the tunnel's own pages only.
pub open spec fn session_cookie(slug: Seq<char>, viewer_id: u128) -> Seq<char> {
    cookies::cookie_text(
        SESSION_COOKIE@,
        ids::hyphenated(viewer_id),
        true,
        SitePolicy::Strict,
        false,
        tunnel_path(slug),
        None,
    )
}

fn build_session_cookie(slug: &str, viewer_id: u128) -> (cookie: String)
    ensures
        cookie@ == session_cookie(slug@, viewer_id),
        ids::parsed_uuid(ids::hyphenated(viewer_id)) == Some(viewer_id),
{
    cookies::render_cookie(
        SESSION_COOKIE,
        ids::id_text(viewer_id).as_str(),
        true,
        SitePolicy::Strict,
        false,
        tunnel_path_text(slug).as_str(),
        None,
    )
}

// ---------------------------------------------------- what happens to a tunnel

/// The low 32 bits of a count.
pub open spec fn count32(n: nat) -> u32 {
    (n % 0x1_0000_0000) as u32
}

/// The session of a viewer of a read-only group.
pub open spec fn ro_session(viewer_id: u128, token_hash: Seq<char>, e2e_encrypted: bool) -> SessionView {
    SessionView {
        viewer_id,
        routing: RoutingView::Ro(token_hash),
        token_hash,
        is_read_only: true,
        e2e_encrypted,
    }
}

/// The session of a viewer with a client of its own.
pub open spec fn rw_session(
    viewer_id: u128,
    client_id: u32,
    token_hash: Seq<char>,
    e2e_encrypted: bool,
) -> SessionView {
    SessionView {
        viewer_id,
        routing: RoutingView::Rw(client_id),
        token_hash,
        is_read_only: false,
        e2e_encrypted,
    }
}

impl TunnelView {
    /// How many viewers the group of a token has, to the host.
    pub open spec fn ro_update(self, token_hash: Seq<char>) -> ControlView {
        ControlView::ReadOnlyViewerUpdate {
            token_hash,
            count: if self.ro_groups.contains_key(token_hash) {
                count32(self.ro_groups[token_hash].viewer_ids.len())
            } else {
                0
            },
        }
    }

    pub open spec fn with_session(self, session: SessionView) -> TunnelView {
        TunnelView { sessions: self.sessions.insert(session.viewer_id, session), ..self }
    }

    /// Whether the group of a token is there and has a client.
    pub open spec fn group_is_live(self, token_hash: Seq<char>) -> bool {
        self.ro_groups.contains_key(token_hash)
            && self.ro_groups[token_hash].active_client_id is Some
    }

    /// A client is taken from the group that watches through it.
    pub open spec fn unwatched(self, client_id: u32) -> TunnelView {
        if self.client_id_to_token_hash.contains_key(client_id) {
            let token_hash = self.client_id_to_token_hash[client_id];
            TunnelView {
                ro_groups: if self.ro_groups.contains_key(token_hash) {
                    self.ro_groups.insert(
                        token_hash,
                        GroupView { active_client_id: None, ..self.ro_groups[token_hash] },
                    )
                } else {
                    self.ro_groups
                },
                client_id_to_token_hash: self.client_id_to_token_hash.remove(client_id),
                ..self
            }
        } else {
            self
        }
    }

    /// A client that a group watched through gives way to the one that the
    /// host has named for the group of a token, wherever that one was before.
    pub open spec fn client_freed(self, token_hash: Seq<char>, client_id: u32) -> TunnelView {
        if self.group_is_live(token_hash) {
            self.unwatched(self.ro_groups[token_hash].active_client_id->0).unwatched(client_id)
        } else {
            self.unwatched(client_id)
        }
    }

    /// The group of a token with this client.
    pub open spec fn with_group(
        self,
        token_hash: Seq<char>,
        client_id: u32,
        group: GroupView,
    ) -> TunnelView {
        TunnelView {
            ro_groups: self.ro_groups.insert(
                token_hash,
                GroupView { active_client_id: Some(client_id), ..group },
            ),
            client_id_to_token_hash: self.client_id_to_token_hash.insert(client_id, token_hash),
            ..self
        }
    }

    /// A viewer came in with a read-only token that was asked about as one
    /// without a group. Where the token has got a group in the meantime, the
    /// viewer joins it.
    pub open spec fn ro_opened(
        self,
        token_hash: Seq<char>,
        client_id: u32,
        e2e_encrypted: bool,
        viewer_id: u128,
    ) -> TunnelView {
        if self.ro_groups.contains_key(token_hash) {
            self.ro_revived(token_hash, client_id, e2e_encrypted, viewer_id)
        } else {
            self.client_freed(token_hash, client_id).with_group(
                token_hash,
                client_id,
                GroupView {
                    validated: true,
                    active_client_id: Some(client_id),
                    e2e_encrypted,
                    viewer_ids: seq![viewer_id],
                    session_size: None,
                },
            ).with_session(ro_session(viewer_id, token_hash, e2e_encrypted))
        }
    }

    /// A further viewer came in with the token of a live group.
    pub open spec fn ro_joined(self, token_hash: Seq<char>, viewer_id: u128) -> TunnelView {
        let group = self.ro_groups[token_hash];
        TunnelView {
            ro_groups: self.ro_groups.insert(
                token_hash,
                GroupView { viewer_ids: registry::with_id(group.viewer_ids, viewer_id), ..group },
            ),
            ..self
        }.with_session(ro_session(viewer_id, token_hash, group.e2e_encrypted))
    }

    /// A viewer came in with the token of a group, and the host gave the group
    /// a new client. Whoever is in the group stays.
    pub open spec fn ro_revived(
        self,
        token_hash: Seq<char>,
        client_id: u32,
        e2e_encrypted: bool,
        viewer_id: u128,
    ) -> TunnelView {
        let group = self.ro_groups[token_hash];
        self.client_freed(token_hash, client_id).with_group(
            token_hash,
            client_id,
            GroupView {
                e2e_encrypted,
                viewer_ids: registry::with_id(group.viewer_ids, viewer_id),
                ..group
            },
        ).with_session(ro_session(viewer_id, token_hash, e2e_encrypted))
    }

    /// A viewer came in who has a client of its own.
    pub open spec fn rw_joined(
        self,
        token_hash: Seq<char>,
        client_id: u32,
        e2e_encrypted: bool,
        viewer_id: u128,
    ) -> TunnelView {
        TunnelView {
            client_id_to_viewer: self.client_id_to_viewer.insert(client_id, viewer_id),
            ..self
        }.with_session(rw_session(viewer_id, client_id, token_hash, e2e_encrypted))
    }

    /// The group of a token without one of its viewers; the group is dormant
    /// when the last one leaves.
    pub open spec fn group_left(self, token_hash: Seq<char>, viewer_id: u128) -> TunnelView {
        if self.ro_groups.contains_key(token_hash) {
            let group = self.ro_groups[token_hash];
            let left = registry::without_id(group.viewer_ids, viewer_id);
            TunnelView {
                ro_groups: self.ro_groups.insert(
                    token_hash,
                    GroupView {
                        viewer_ids: left,
                        active_client_id: if left.len() == 0 {
                            None
                        } else {
                            group.active_client_id
                        },
                        ..group
                    },
                ),
                client_id_to_token_hash: if left.len() == 0 && group.active_client_id is Some {
                    self.client_id_to_token_hash.remove(group.active_client_id->0)
                } else {
                    self.client_id_to_token_hash
                },
                ..self
            }
        } else {
            self
        }
    }

    /// A socket of a viewer closed. The viewer leaves with its first socket
    /// that closes; for the second one nothing is left to do.
    pub open spec fn viewer_left(self, session: SessionView) -> TunnelView {
        if self.viewers.contains_key(session.viewer_id) {
            let gone = TunnelView {
                viewers: self.viewers.remove(session.viewer_id),
                sessions: self.sessions.remove(session.viewer_id),
                ..self
            };
            match session.routing {
                RoutingView::Rw(client_id) => TunnelView {
                    client_id_to_viewer: gone.client_id_to_viewer.remove(client_id),
                    ..gone
                },
                RoutingView::Ro(token_hash) => gone.group_left(token_hash, session.viewer_id),
            }
        } else {
            self
        }
    }

    /// What the host is told when a viewer has left.
    pub open spec fn farewell(self, session: SessionView) -> ControlView {
        match session.routing {
            RoutingView::Rw(client_id) => ControlView::ClientDisconnected { client_id },
            RoutingView::Ro(token_hash) => self.ro_update(token_hash),
        }
    }

    /// A viewer's terminal got a socket: `sink` takes what goes to the viewer,
    /// `disconnect` tells the socket to close.
    pub open spec fn terminal_attached(
        self,
        viewer_id: u128,
        is_read_only: bool,
        sink: u64,
        disconnect: u64,
    ) -> TunnelView {
        TunnelView {
            viewers: self.viewers.insert(
                viewer_id,
                ViewerHandle {
                    is_read_only,
                    terminal_sink_tx: Some(sink),
                    disconnect_terminal: Some(disconnect),
                    ..self.handle_of(viewer_id)
                },
            ),
            ..self
        }
    }

    /// A viewer's control channel got a socket, as
    /// [`TunnelView::terminal_attached`].
    pub open spec fn control_attached(
        self,
        viewer_id: u128,
        is_read_only: bool,
        sink: u64,
        disconnect: u64,
    ) -> TunnelView {
        TunnelView {
            viewers: self.viewers.insert(
                viewer_id,
                ViewerHandle {
                    is_read_only,
                    control_sink_tx: Some(sink),
                    disconnect_control: Some(disconnect),
                    ..self.handle_of(viewer_id)
                },
            ),
            ..self
        }
    }

    /// What goes to the host for something that a viewer typed, and the channel
    /// that takes it.
    pub open spec fn typed(self, session: SessionView, data: Seq<u8>) -> Option<
        (u64, TerminalView),
    > {
        match (session.routing, self.terminal_tx) {
            (RoutingView::Rw(client_id), Some(tx)) => Some(
                (tx, TerminalView::TerminalFrameData { client_id, data }),
            ),
            _ => None,
        }
    }

    /// The sockets of a viewer, before the one that is being attached.
    pub open spec fn handle_of(self, viewer_id: u128) -> ViewerHandle {
        if self.viewers.contains_key(viewer_id) {
            self.viewers[viewer_id]
        } else {
            ViewerHandle::empty()
        }
    }
}

/// A question to the host that has not been answered yet.
#[derive(Debug)]
pub struct PendingChallenge {
    /// The tunnel whose host was asked.
    pub tunnel_id: u128,
    pub token_hash: String,
    pub request_id: Vec<u8>,
    /// Whether the token is that of a dormant group.
    pub dormant: bool,
}

/// A viewer who is let in once the host has been told.
#[derive(Debug)]
pub struct PendingReadWrite {
    /// The tunnel whose host let the viewer in.
    pub tunnel_id: u128,
    pub token_hash: String,
    pub client_id: u32,
    pub e2e_encrypted: bool,
}

/// What to do for a viewer who shows a token.
#[derive(Debug)]
pub enum RegisterStep {
    /// The viewer is in. Send `update` to the host.
    Joined { outcome: RegisterOutcome, update: ControlMessage },
    /// Send `message` to the host and wait for its answer.
    Challenge { challenge: PendingChallenge, message: ControlMessage },
}

/// What to do once the host has answered, or failed to.
#[derive(Debug)]
pub enum ConcludeStep {
    Refused,
    /// The viewer is in. Send `update` to the host.
    Joined { outcome: RegisterOutcome, update: ControlMessage },
    /// Send `message` to the host; where that succeeds, the viewer is in.
    Announce { viewer: PendingReadWrite, message: ControlMessage },
}

/// Whether `outcome` is that of a viewer with this session and client. The id
/// in the cookie is read back as the viewer's.
pub open spec fn outcome_is(
    outcome: RegisterOutcome,
    slug: Seq<char>,
    session: SessionView,
    client_id: u32,
) -> bool {
    &&& outcome.cookie@ == session_cookie(slug, session.viewer_id)
    &&& ids::parsed_uuid(ids::hyphenated(session.viewer_id)) == Some(session.viewer_id)
    &&& outcome.session@ == session
    &&& outcome.client_id == client_id
}

impl TunnelEntry {
    fn store_session(&mut self, session: ViewerSession)
        requires
            old(self).maps_wf(),
        ensures
            final(self).maps_wf(),
            final(self)@ == old(self)@.with_session(session@),
    {
        let _ = self.sessions.insert(session.viewer_id, session);
        proof {
            assert(self@.sessions =~= old(self)@.with_session(session@).sessions);
        }
    }

    pub(crate) fn put_group(&mut self, token_hash: &str, group: RoGroup)
        requires
            old(self).maps_wf(),
        ensures
            final(self).maps_wf(),
            final(self)@ == (TunnelView {
                ro_groups: old(self)@.ro_groups.insert(token_hash@, group@),
                ..old(self)@
            }),
    {
        let _ = self.ro_groups.insert(token_hash.to_string(), group);
        proof {
            assert(self@.ro_groups =~= old(self)@.ro_groups.insert(token_hash@, group@));
        }
    }

    pub(crate) fn take_group(&mut self, token_hash: &str) -> (r: Option<RoGroup>)
        requires
            old(self).maps_wf(),
        ensures
            final(self).maps_wf(),
            final(self)@ == (TunnelView {
                ro_groups: old(self)@.ro_groups.remove(token_hash@),
                ..old(self)@
            }),
            match r {
                Some(group) => old(self)@.ro_groups.contains_key(token_hash@) && group@
                    == old(self)@.ro_groups[token_hash@],
                None => !old(self)@.ro_groups.contains_key(token_hash@),
            },
    {
        let r = self.ro_groups.remove(token_hash);
        proof {
            assert(self@.ro_groups =~= old(self)@.ro_groups.remove(token_hash@));
        }
        r
    }

    fn link_client(&mut self, client_id: u32, token_hash: &str)
        requires
            old(self).maps_wf(),
        ensures
            final(self).maps_wf(),
            final(self)@ == (TunnelView {
                client_id_to_token_hash: old(self)@.client_id_to_token_hash.insert(
                    client_id,
                    token_hash@,
                ),
                ..old(self)@
            }),
    {
        let _ = self.client_id_to_token_hash.insert(client_id, token_hash.to_string());
        proof {
            assert(self@.client_id_to_token_hash =~= old(self)@.client_id_to_token_hash.insert(
                client_id,
                token_hash@,
            ));
        }
    }

    pub(crate) fn unlink_client(&mut self, client_id: u32)
        requires
            old(self).maps_wf(),
        ensures
            final(self).maps_wf(),
            final(self)@ == (TunnelView {
                client_id_to_token_hash: old(self)@.client_id_to_token_hash.remove(client_id),
                ..old(self)@
            }),
    {
        let _ = self.client_id_to_token_hash.remove(&client_id);
        proof {
            assert(self@.client_id_to_token_hash =~= old(self)@.client_id_to_token_hash.remove(
                client_id,
            ));
        }
    }

    /// Takes a client from the group that watches through it.
    fn release_client(&mut self, client_id: u32)
        requires
            old(self).maps_wf(),
        ensures
            final(self).maps_wf(),
            final(self)@ == old(self)@.unwatched(client_id),
    {
        let token_hash = match self.client_id_to_token_hash.get(&client_id) {
            Some(token_hash) => token_hash.clone(),
            None => {
                return;
            },
        };
        match self.take_group(token_hash.as_str()) {
            Some(group) => {
                let mut group = group;
                group.active_client_id = None;
                self.put_group(token_hash.as_str(), group);
            },
            None => {},
        }
        self.unlink_client(client_id);
        proof {
            assert(self@.ro_groups =~= old(self)@.unwatched(client_id).ro_groups);
        }
    }

    pub(crate) fn forget_session(&mut self, viewer_id: u128)
        requires
            old(self).maps_wf(),
        ensures
            final(self).maps_wf(),
            final(self)@ == (TunnelView {
                sessions: old(self)@.sessions.remove(viewer_id),
                ..old(self)@
            }),
    {
        let _ = self.sessions.remove(&viewer_id);
        proof {
            assert(self@.sessions =~= old(self)@.sessions.remove(viewer_id));
        }
    }

    /// The message that tells the host how many viewers a group has.
    pub fn ro_viewer_update(&self, token_hash: &str) -> (message: ControlMessage)
        requires
            self.maps_wf(),
        ensures
            message@ == self@.ro_update(token_hash@),
    {
        let count: u64 = match self.ro_groups.get(token_hash) {
            Some(group) => group.viewer_ids.len() as u64,
            None => 0,
        };
        ControlMessage::ReadOnlyViewerUpdate {
            token_hash: token_hash.to_string(),
            count: (count % 0x1_0000_0000) as u32,
        }
    }

    /// Lets a viewer in with a read-only token and the client that the host
    /// has named for it. The token's group is opened where there is none.
    pub fn finalise_ro_first(
        &mut self,
        slug: &str,
        token_hash: &str,
        client_id: u32,
        e2e_encrypted: bool,
        viewer_id: u128,
    ) -> (r: (RegisterOutcome, ControlMessage))
        requires
            old(self).maps_wf(),
        ensures
            final(self).maps_wf(),
            old(self).wf() ==> final(self).wf(),
            final(self)@ == old(self)@.ro_opened(token_hash@, client_id, e2e_encrypted, viewer_id),
            outcome_is(r.0, slug@, ro_session(viewer_id, token_hash@, e2e_encrypted), client_id),
            r.1@ == final(self)@.ro_update(token_hash@),
    {
        match self.finalise_ro_revive(slug, token_hash, client_id, e2e_encrypted, viewer_id) {
            Some(joined) => {
                return joined;
            },
            None => {},
        }
        self.release_client(client_id);
        self.put_group(token_hash, RoGroup::opened(client_id, e2e_encrypted, viewer_id));
        self.link_client(client_id, token_hash);
        let session = ViewerSession {
            viewer_id,
            routing: ViewerRouting::Ro(token_hash.to_string()),
            token_hash: token_hash.to_string(),
            is_read_only: true,
            e2e_encrypted,
        };
        let cookie = build_session_cookie(slug, viewer_id);
        self.store_session(session.clone());
        proof {
            if old(self).wf() {
                viewer_laws::law_ro_first_in_order(
                    old(self)@,
                    token_hash@,
                    client_id,
                    e2e_encrypted,
                    viewer_id,
                );
            }
        }
        let update = self.ro_viewer_update(token_hash);
        (RegisterOutcome { cookie, session, client_id }, update)
    }

    /// Lets a viewer into a live read-only group.
    pub fn finalise_ro_join(&mut self, slug: &str, token_hash: &str, viewer_id: u128) -> (r: Option<
        (RegisterOutcome, ControlMessage),
    >)
        requires
            old(self).maps_wf(),
        ensures
            final(self).maps_wf(),
            old(self).wf() ==> final(self).wf(),
            if old(self)@.group_is_live(token_hash@) {
                &&& final(self)@ == old(self)@.ro_joined(token_hash@, viewer_id)
                &&& r matches Some((outcome, update)) && {
                    let group = old(self)@.ro_groups[token_hash@];
                    &&& outcome_is(
                        outcome,
                        slug@,
                        ro_session(viewer_id, token_hash@, group.e2e_encrypted),
                        group.active_client_id->0,
                    )
                    &&& update@ == final(self)@.ro_update(token_hash@)
                }
            } else {
                r is None && final(self)@ == old(self)@
            },
    {
        let mut group = match self.take_group(token_hash) {
            Some(group) => group,
            None => {
                proof {
                    assert(self@.ro_groups =~= old(self)@.ro_groups);
                }
                return None;
            },
        };
        let client_id = match group.active_client_id {
            Some(client_id) => client_id,
            None => {
                self.put_group(token_hash, group);
                proof {
                    assert(self@.ro_groups =~= old(self)@.ro_groups);
                }
                return None;
            },
        };
        let e2e_encrypted = group.e2e_encrypted;
        group.add_viewer(viewer_id);
        self.put_group(token_hash, group);
        let session = ViewerSession {
            viewer_id,
            routing: ViewerRouting::Ro(token_hash.to_string()),
            token_hash: token_hash.to_string(),
            is_read_only: true,
            e2e_encrypted,
        };
        let cookie = build_session_cookie(slug, viewer_id);
        self.store_session(session.clone());
        proof {
            assert(self@.ro_groups =~= old(self)@.ro_joined(token_hash@, viewer_id).ro_groups);
            if old(self).wf() {
                viewer_laws::law_ro_join_in_order(old(self)@, token_hash@, viewer_id);
            }
        }
        let update = self.ro_viewer_update(token_hash);
        Some((RegisterOutcome { cookie, session, client_id }, update))
    }

    /// Gives a read-only group a new client and lets a viewer in.
    pub fn finalise_ro_revive(
        &mut self,
        slug: &str,
        token_hash: &str,
        client_id: u32,
        e2e_encrypted: bool,
        viewer_id: u128,
    ) -> (r: Option<(RegisterOutcome, ControlMessage)>)
        requires
            old(self).maps_wf(),
        ensures
            final(self).maps_wf(),
            old(self).wf() ==> final(self).wf(),
            if old(self)@.ro_groups.contains_key(token_hash@) {
                &&& final(self)@ == old(self)@.ro_revived(
                    token_hash@,
                    client_id,
                    e2e_encrypted,
                    viewer_id,
                )
                &&& r matches Some((outcome, update)) && {
                    &&& outcome_is(
                        outcome,
                        slug@,
                        ro_session(viewer_id, token_hash@, e2e_encrypted),
                        client_id,
                    )
                    &&& update@ == final(self)@.ro_update(token_hash@)
                }
            } else {
                r is None && final(self)@ == old(self)@
            },
    {
        let former: Option<u32> = match self.ro_groups.get(token_hash) {
            Some(group) => group.active_client_id,
            None => {
                return None;
            },
        };
        match former {
            Some(former) => self.release_client(former),
            None => {},
        }
        self.release_client(client_id);
        let mut group = match self.take_group(token_hash) {
            Some(group) => group,
            None => {
                return None;
            },
        };
        group.active_client_id = Some(client_id);
        group.e2e_encrypted = e2e_encrypted;
        group.add_viewer(viewer_id);
        self.put_group(token_hash, group);
        self.link_client(client_id, token_hash);
        let session = ViewerSession {
            viewer_id,
            routing: ViewerRouting::Ro(token_hash.to_string()),
            token_hash: token_hash.to_string(),
            is_read_only: true,
            e2e_encrypted,
        };
        let cookie = build_session_cookie(slug, viewer_id);
        self.store_session(session.clone());
        proof {
            assert(self@.ro_groups =~= old(self)@.ro_revived(
                token_hash@,
                client_id,
                e2e_encrypted,
                viewer_id,
            ).ro_groups);
            if old(self).wf() {
                viewer_laws::law_ro_revive_in_order(
                    old(self)@,
                    token_hash@,
                    client_id,
                    e2e_encrypted,
                    viewer_id,
                );
            }
        }
        let update = self.ro_viewer_update(token_hash);
        Some((RegisterOutcome { cookie, session, client_id }, update))
    }

    /// Begins to register a viewer who shows `auth_token`. See
    /// [`TunnelEntry::start_hash_registration`].
    pub fn start_registration_with(
        &mut self,
        slug: &str,
        auth_token: &str,
        viewer_id: u128,
        request_id: Vec<u8>,
        waiter: u64,
    ) -> (step: RegisterStep)
        requires
            old(self).maps_wf(),
        ensures
            final(self).maps_wf(),
            old(self).wf() ==> final(self).wf(),
            registration_started(
                old(self)@,
                final(self)@,
                slug@,
                auth_token@,
                viewer_id,
                request_id@,
                waiter,
                step,
            ),
    {
        let token_hash = crypto::hash_token(auth_token);
        self.start_hash_registration(slug, token_hash, viewer_id, request_id, waiter)
    }

    /// Begins to register a viewer whose token has this hash. The viewer of a
    /// live read-only group is let in at once; for any other token the host
    /// is asked, and `waiter` is who waits for the answer.
    pub fn start_hash_registration(
        &mut self,
        slug: &str,
        token_hash: String,
        viewer_id: u128,
        request_id: Vec<u8>,
        waiter: u64,
    ) -> (step: RegisterStep)
        requires
            old(self).maps_wf(),
        ensures
            final(self).maps_wf(),
            old(self).wf() ==> final(self).wf(),
            hash_registration_started(
                old(self)@,
                final(self)@,
                slug@,
                token_hash@,
                viewer_id,
                request_id@,
                waiter,
                step,
            ),
    {
        match self.finalise_ro_join(slug, token_hash.as_str(), viewer_id) {
            Some((outcome, update)) => {
                return RegisterStep::Joined { outcome, update };
            },
            None => {},
        }
        let dormant = self.ro_groups.contains_key(token_hash.as_str());
        let message = ControlMessage::AuthChallenge {
            request_id: crate::wire_codec::clone_bytes(&request_id),
            token_hash: token_hash.clone(),
        };
        let _ = self.pending_auths.insert(crate::wire_codec::clone_bytes(&request_id), waiter);
        RegisterStep::Challenge {
            challenge: PendingChallenge {
                tunnel_id: self.tunnel_id,
                token_hash,
                request_id,
                dormant,
            },
            message,
        }
    }

    /// Goes on with a registration when the host has answered. `answer` is
    /// `None` where the question could not be sent or nothing came in time;
    /// the question is then forgotten.
    pub fn conclude_registration_with(
        &mut self,
        slug: &str,
        challenge: PendingChallenge,
        answer: Option<AuthResponseResult>,
        viewer_id: u128,
    ) -> (step: ConcludeStep)
        requires
            old(self).maps_wf(),
            challenge.tunnel_id == old(self).tunnel_id,
        ensures
            final(self).maps_wf(),
            old(self).wf() ==> final(self).wf(),
            registration_concluded(
                old(self)@,
                final(self)@,
                slug@,
                challenge,
                answer,
                viewer_id,
                step,
            ),
    {
        let answer = match answer {
            Some(answer) => answer,
            None => {
                let _ = self.pending_auths.remove(challenge.request_id.as_slice());
                return ConcludeStep::Refused;
            },
        };
        let token_hash = challenge.token_hash;
        if challenge.dormant {
            if !answer.accepted || !answer.is_read_only {
                return ConcludeStep::Refused;
            }
            return match self.finalise_ro_revive(
                slug,
                token_hash.as_str(),
                answer.client_id,
                answer.e2e_encrypted,
                viewer_id,
            ) {
                Some((outcome, update)) => ConcludeStep::Joined { outcome, update },
                None => ConcludeStep::Refused,
            };
        }
        if !answer.accepted {
            return ConcludeStep::Refused;
        }
        if answer.is_read_only {
            let (outcome, update) = self.finalise_ro_first(
                slug,
                token_hash.as_str(),
                answer.client_id,
                answer.e2e_encrypted,
                viewer_id,
            );
            return ConcludeStep::Joined { outcome, update };
        }
        ConcludeStep::Announce {
            viewer: PendingReadWrite {
                tunnel_id: self.tunnel_id,
                token_hash,
                client_id: answer.client_id,
                e2e_encrypted: answer.e2e_encrypted,
            },
            message: ControlMessage::ClientConnected { client_id: answer.client_id },
        }
    }

    /// Lets a viewer in whom the host has been told of.
    pub fn admit_rw_with(&mut self, slug: &str, viewer: PendingReadWrite, viewer_id: u128) -> (outcome:
        RegisterOutcome)
        requires
            old(self).maps_wf(),
            viewer.tunnel_id == old(self).tunnel_id,
        ensures
            final(self).maps_wf(),
            old(self).wf() ==> final(self).wf(),
            rw_admitted(old(self)@, final(self)@, slug@, viewer, viewer_id, outcome),
    {
        let _ = self.client_id_to_viewer.insert(viewer.client_id, viewer_id);
        let session = ViewerSession {
            viewer_id,
            routing: ViewerRouting::Rw(viewer.client_id),
            token_hash: viewer.token_hash,
            is_read_only: false,
            e2e_encrypted: viewer.e2e_encrypted,
        };
        let cookie = build_session_cookie(slug, viewer_id);
        self.store_session(session.clone());
        RegisterOutcome { cookie, session, client_id: viewer.client_id }
    }

    /// The session of a viewer, as long as the tunnel keeps it.
    pub fn session_of(&self, viewer_id: u128) -> (r: Option<ViewerSession>)
        requires
            self.maps_wf(),
        ensures
            match r {
                Some(session) => self@.sessions.contains_key(viewer_id) && session@
                    == self@.sessions[viewer_id],
                None => !self@.sessions.contains_key(viewer_id),
            },
    {
        match self.sessions.get(&viewer_id) {
            Some(session) => Some(session.clone()),
            None => None,
        }
    }

    /// The viewer whom the cookies of a request name.
    pub fn resolve_session(&self, cookie_headers: &[String]) -> (r: Option<ViewerSession>)
        requires
            self.maps_wf(),
        ensures
            match named_session(self@, text::text_views(cookie_headers@)) {
                Some(s) => r matches Some(session) && session@ == s,
                None => r is None,
            },
    {
        match cookies::find_cookie(cookie_headers, SESSION_COOKIE) {
            Some(value) => {
                match ids::parse_id(value.as_str()) {
                    Some(viewer_id) => self.session_of(viewer_id),
                    None => None,
                }
            },
            None => None,
        }
    }

    /// The client whose frames a viewer gets, or none of them: 0.
    pub fn session_client_id(&self, session: &ViewerSession) -> (client_id: u32)
        requires
            self.maps_wf(),
        ensures
            client_id == client_of(self@, session@),
    {
        match &session.routing {
            ViewerRouting::Rw(client_id) => *client_id,
            ViewerRouting::Ro(token_hash) => {
                match self.ro_groups.get(token_hash.as_str()) {
                    Some(group) => match group.active_client_id {
                        Some(client_id) => client_id,
                        None => 0,
                    },
                    None => 0,
                }
            },
        }
    }

    /// The size of the session that a viewer watches as one of a group, or
    /// 0 by 0.
    pub fn session_size(&self, session: &ViewerSession) -> (size: (u32, u32))
        requires
            self.maps_wf(),
        ensures
            size == size_of_session(self@, session@),
    {
        match &session.routing {
            ViewerRouting::Rw(_) => (0, 0),
            ViewerRouting::Ro(token_hash) => {
                match self.ro_groups.get(token_hash.as_str()) {
                    Some(group) => match group.session_size {
                        Some(size) => size,
                        None => (0, 0),
                    },
                    None => (0, 0),
                }
            },
        }
    }

    /// What a viewer is told about its session.
    pub fn session_response(&self, session: &ViewerSession, client_id: u32) -> (response:
        SessionResponse)
        requires
            self.maps_wf(),
        ensures
            (response.session_rows, response.session_cols) == size_of_session(self@, session@),
            response.web_client_id@ == web_client_id_of(client_id),
            response.client_id == client_id,
            response.is_read_only == session.is_read_only,
            response.e2e_encrypted == session.e2e_encrypted,
            response.tunnel_id@ == ids::hyphenated(self.tunnel_id),
    {
        let (session_rows, session_cols) = self.session_size(session);
        SessionResponse {
            web_client_id: virtual_web_client_id(client_id),
            client_id,
            is_read_only: session.is_read_only,
            e2e_encrypted: session.e2e_encrypted,
            tunnel_id: ids::id_text(self.tunnel_id),
            session_rows,
            session_cols,
        }
    }

    /// Attaches the socket of a viewer's terminal: `sink` takes what goes to
    /// the viewer, `disconnect` tells the socket to close. The sockets that
    /// the viewer had before are given back.
    pub fn attach_terminal(&mut self, session: &ViewerSession, sink: u64, disconnect: u64) -> (before:
        ViewerHandle)
        requires
            old(self).maps_wf(),
        ensures
            final(self).maps_wf(),
            old(self).wf() ==> final(self).wf(),
            before == old(self)@.handle_of(session.viewer_id),
            final(self)@ == old(self)@.terminal_attached(
                session.viewer_id,
                session.is_read_only,
                sink,
                disconnect,
            ),
    {
        let before: ViewerHandle = match self.viewers.get(&session.viewer_id) {
            Some(handle) => *handle,
            None => ViewerHandle::default(),
        };
        let _ = self.viewers.insert(
            session.viewer_id,
            ViewerHandle {
                is_read_only: session.is_read_only,
                terminal_sink_tx: Some(sink),
                disconnect_terminal: Some(disconnect),
                control_sink_tx: before.control_sink_tx,
                disconnect_control: before.disconnect_control,
            },
        );
        before
    }

    /// Attaches the socket of a viewer's control channel, as
    /// [`TunnelEntry::attach_terminal`] does for the terminal.
    pub fn attach_control(&mut self, session: &ViewerSession, sink: u64, disconnect: u64) -> (before:
        ViewerHandle)
        requires
            old(self).maps_wf(),
        ensures
            final(self).maps_wf(),
            old(self).wf() ==> final(self).wf(),
            before == old(self)@.handle_of(session.viewer_id),
            final(self)@ == old(self)@.control_attached(
                session.viewer_id,
                session.is_read_only,
                sink,
                disconnect,
            ),
    {
        let before: ViewerHandle = match self.viewers.get(&session.viewer_id) {
            Some(handle) => *handle,
            None => ViewerHandle::default(),
        };
        let _ = self.viewers.insert(
            session.viewer_id,
            ViewerHandle {
                is_read_only: session.is_read_only,
                control_sink_tx: Some(sink),
                disconnect_control: Some(disconnect),
                terminal_sink_tx: before.terminal_sink_tx,
                disconnect_terminal: before.disconnect_terminal,
            },
        );
        before
    }

    /// What becomes of something that a viewer typed: it goes to the host on
    /// the channel of the terminal tunnel, unless the viewer may only watch or
    /// the terminal tunnel is not open.
    pub fn terminal_input(&self, session: &ViewerSession, data: Vec<u8>) -> (r: Option<
        (u64, TerminalMessage),
    >)
        ensures
            match self@.typed(session@, data@) {
                Some((tx, sent)) => r matches Some((channel, message)) && channel == tx && message@
                    == sent,
                None => r is None,
            },
    {
        match &session.routing {
            ViewerRouting::Ro(_) => None,
            ViewerRouting::Rw(client_id) => {
                match self.terminal_tx {
                    Some(tx) => Some(
                        (tx, TerminalMessage::TerminalFrameData { client_id: *client_id, data }),
                    ),
                    None => None,
                }
            },
        }
    }

    /// What becomes of a control message of a viewer: it goes to the host,
    /// unless the viewer may only watch.
    pub fn control_input(&self, session: &ViewerSession, data: Vec<u8>) -> (r: Option<
        ControlMessage,
    >)
        ensures
            match told(session@, data@) {
                Some(sent) => r matches Some(message) && message@ == sent,
                None => r is None,
            },
    {
        match &session.routing {
            ViewerRouting::Ro(_) => None,
            ViewerRouting::Rw(client_id) => Some(
                ControlMessage::ControlFrameData { client_id: *client_id, data },
            ),
        }
    }

    /// A socket of a viewer closed. Where the viewer leaves with it, its
    /// sockets and the message to the host are given back.
    pub fn cleanup_viewer(&mut self, session: &ViewerSession) -> (r: Option<
        (ViewerHandle, ControlMessage),
    >)
        requires
            old(self).maps_wf(),
        ensures
            final(self).maps_wf(),
            old(self).wf() ==> final(self).wf(),
            final(self)@ == old(self)@.viewer_left(session@),
            match r {
                Some((handle, message)) => {
                    &&& old(self)@.viewers.contains_key(session.viewer_id)
                    &&& handle == old(self)@.viewers[session.viewer_id]
                    &&& message@ == final(self)@.farewell(session@)
                },
                None => !old(self)@.viewers.contains_key(session.viewer_id),
            },
    {
        let handle = match self.viewers.remove(&session.viewer_id) {
            Some(handle) => handle,
            None => {
                proof {
                    assert(self@.viewers =~= old(self)@.viewers);
                }
                return None;
            },
        };
        self.forget_session(session.viewer_id);
        match &session.routing {
            ViewerRouting::Rw(client_id) => {
                let _ = self.client_id_to_viewer.remove(client_id);
                Some((handle, ControlMessage::ClientDisconnected { client_id: *client_id }))
            },
            ViewerRouting::Ro(token_hash) => {
                self.leave_group(token_hash.as_str(), session.viewer_id);
                proof {
                    if old(self).wf() {
                        viewer_laws::law_leave_in_order(old(self)@, session@);
                    }
                }
                let update = self.ro_viewer_update(token_hash.as_str());
                Some((handle, update))
            },
        }
    }

    fn leave_group(&mut self, token_hash: &str, viewer_id: u128)
        requires
            old(self).maps_wf(),
        ensures
            final(self).maps_wf(),
            final(self)@ == old(self)@.group_left(token_hash@, viewer_id),
    {
        let mut group = match self.take_group(token_hash) {
            Some(group) => group,
            None => {
                proof {
                    assert(self@.ro_groups =~= old(self)@.ro_groups);
                }
                return;
            },
        };
        let active_client_id: Option<u32> = group.active_client_id;
        group.remove_viewer(viewer_id);
        if group.viewer_ids.len() == 0 {
            group.active_client_id = None;
            self.put_group(token_hash, group);
            match active_client_id {
                Some(client_id) => self.unlink_client(client_id),
                None => {},
            }
        } else {
            self.put_group(token_hash, group);
        }
        proof {
            assert(self@.ro_groups =~= old(self)@.group_left(token_hash@, viewer_id).ro_groups);
        }
    }
}

/// What goes to the host for a control message of a viewer.
pub open spec fn told(session: SessionView, data: Seq<u8>) -> Option<ControlView> {
    match session.routing {
        RoutingView::Rw(client_id) => Some(ControlView::ControlFrameData { client_id, data }),
        RoutingView::Ro(_) => None,
    }
}

/// The viewer whom the cookies of a request name.
pub open spec fn named_session(tunnel: TunnelView, cookie_headers: Seq<Seq<char>>) -> Option<
    SessionView,
> {
    match cookies::cookie_in(cookie_headers, SESSION_COOKIE@) {
        Some(value) => match ids::parsed_uuid(value) {
            Some(viewer_id) => if tunnel.sessions.contains_key(viewer_id) {
                Some(tunnel.sessions[viewer_id])
            } else {
                None
            },
            None => None,
        },
        None => None,
    }
}

/// The client whose frames a viewer gets; 0 for the viewer of a group that
/// has none.
pub open spec fn client_of(tunnel: TunnelView, session: SessionView) -> u32 {
    match session.routing {
        RoutingView::Rw(client_id) => client_id,
        RoutingView::Ro(token_hash) => if tunnel.group_is_live(token_hash) {
            tunnel.ro_groups[token_hash].active_client_id->0
        } else {
            0
        },
    }
}

/// The size of the session that a viewer watches: what the host last told the
/// viewer's group, and 0 by 0 for a viewer who is in none or was told none.
pub open spec fn size_of_session(tunnel: TunnelView, session: SessionView) -> (u32, u32) {
    match session.routing {
        RoutingView::Ro(token_hash) => if tunnel.ro_groups.contains_key(token_hash)
            && tunnel.ro_groups[token_hash].session_size is Some {
            tunnel.ro_groups[token_hash].session_size->0
        } else {
            (0, 0)
        },
        RoutingView::Rw(_) => (0, 0),
    }
}

/// What [`TunnelEntry::start_registration_with`] does and returns.
pub open spec fn registration_started(
    before: TunnelView,
    after: TunnelView,
    slug: Seq<char>,
    auth_token: Seq<char>,
    viewer_id: u128,
    request_id: Seq<u8>,
    waiter: u64,
    step: RegisterStep,
) -> bool {
    hash_registration_started(
        before,
        after,
        slug,
        crypto::hashed_token(auth_token),
        viewer_id,
        request_id,
        waiter,
        step,
    )
}

/// What [`TunnelEntry::start_hash_registration`] does and returns.
pub open spec fn hash_registration_started(
    before: TunnelView,
    after: TunnelView,
    slug: Seq<char>,
    token_hash: Seq<char>,
    viewer_id: u128,
    request_id: Seq<u8>,
    waiter: u64,
    step: RegisterStep,
) -> bool {
    if before.group_is_live(token_hash) {
        let group = before.ro_groups[token_hash];
        &&& after == before.ro_joined(token_hash, viewer_id)
        &&& step matches RegisterStep::Joined { outcome, update } && {
            &&& outcome_is(
                outcome,
                slug,
                ro_session(viewer_id, token_hash, group.e2e_encrypted),
                group.active_client_id->0,
            )
            &&& update@ == after.ro_update(token_hash)
        }
    } else {
        &&& after == (TunnelView {
            pending_auths: before.pending_auths.insert(request_id, waiter),
            ..before
        })
        &&& step matches RegisterStep::Challenge { challenge, message } && {
            &&& challenge.tunnel_id == before.tunnel_id
            &&& challenge.token_hash@ == token_hash
            &&& challenge.request_id@ == request_id
            &&& challenge.dormant == before.ro_groups.contains_key(token_hash)
            &&& message@ == (ControlView::AuthChallenge { request_id, token_hash })
        }
    }
}

/// What [`TunnelEntry::conclude_registration_with`] does and returns.
pub open spec fn registration_concluded(
    before: TunnelView,
    after: TunnelView,
    slug: Seq<char>,
    challenge: PendingChallenge,
    answer: Option<AuthResponseResult>,
    viewer_id: u128,
    step: ConcludeStep,
) -> bool {
    let token_hash = challenge.token_hash@;
    match answer {
        None => {
            &&& after == (TunnelView {
                pending_auths: before.pending_auths.remove(challenge.request_id@),
                ..before
            })
            &&& step is Refused
        },
        Some(a) => if a.accepted && a.is_read_only && !(challenge.dormant
            && !before.ro_groups.contains_key(token_hash)) {
            &&& after == if challenge.dormant {
                before.ro_revived(token_hash, a.client_id, a.e2e_encrypted, viewer_id)
            } else {
                before.ro_opened(token_hash, a.client_id, a.e2e_encrypted, viewer_id)
            }
            &&& step matches ConcludeStep::Joined { outcome, update } && {
                &&& outcome_is(
                    outcome,
                    slug,
                    ro_session(viewer_id, token_hash, a.e2e_encrypted),
                    a.client_id,
                )
                &&& update@ == after.ro_update(token_hash)
            }
        } else if a.accepted && !a.is_read_only && !challenge.dormant {
            &&& after == before
            &&& step matches ConcludeStep::Announce { viewer, message } && {
                &&& viewer.tunnel_id == before.tunnel_id
                &&& viewer.token_hash@ == token_hash
                &&& viewer.client_id == a.client_id
                &&& viewer.e2e_encrypted == a.e2e_encrypted
                &&& message@ == (ControlView::ClientConnected { client_id: a.client_id })
            }
        } else {
            after == before && step is Refused
        },
    }
}

/// What [`TunnelEntry::admit_rw_with`] does and returns.
pub open spec fn rw_admitted(
    before: TunnelView,
    after: TunnelView,
    slug: Seq<char>,
    viewer: PendingReadWrite,
    viewer_id: u128,
    outcome: RegisterOutcome,
) -> bool {
    &&& after == before.rw_joined(
        viewer.token_hash@,
        viewer.client_id,
        viewer.e2e_encrypted,
        viewer_id,
    )
    &&& outcome_is(
        outcome,
        slug,
        rw_session(viewer_id, viewer.client_id, viewer.token_hash@, viewer.e2e_encrypted),
        viewer.client_id,
    )
}

} // verus!
