//! The relay as a whole: the tunnels it holds and how it answers viewers.

use crate::conversion::{ControlMessage, ControlView};
use crate::crypto;
use crate::ids;
use crate::registry::{
    AuthResponseResult, Registry, SessionView, TunnelEntry, TunnelView, ViewerHandle, ViewerSession,
};
use crate::random;
use crate::slug;
use crate::slug::{SLUG_COUNT, SLUG_LEN};
use crate::text;
use crate::tunnel_control;
use crate::versioned_assets;
use crate::viewer;
use crate::viewer::{
    ConcludeStep, LoginResponse, PendingChallenge, PendingReadWrite, RegisterOutcome, RegisterStep,
    SessionRequest, SessionResponse,
};
use std::collections::HashMap;
use vstd::prelude::*;
use vstd::string::*;

verus! {

/// Where the slug goes in the template of public addresses.
pub const SLUG_PLACEHOLDER: &'static str = "{slug}";

/// The relay: the tunnels that are open, and those that have closed while
/// somebody was still at work on them.
#[derive(Debug)]
pub struct AppState {
    pub registry: Registry,
    pub public_url_template: String,
    /// Tunnels that have closed, by id. A viewer whom the host of one has
    /// already answered is still let in there; see
    /// [`AppState::conclude_viewer_with`]. Nobody else reaches them, and
    /// [`AppState::forget_tunnel`] drops them.
    pub closed: HashMap<u128, TunnelEntry>,
}

/// The mathematical value of the tunnels of an [`AppState`].
#[verifier::ext_equal]
pub struct RelayView {
    /// The open tunnels by slug.
    pub tunnels: Map<Seq<char>, TunnelView>,
    /// The closed ones by id.
    pub closed: Map<u128, TunnelView>,
}

pub open spec fn closed_views(closed: Map<u128, TunnelEntry>) -> Map<u128, TunnelView> {
    closed.map_values(|e: TunnelEntry| e@)
}

impl View for AppState {
    type V = RelayView;

    open spec fn view(&self) -> RelayView {
        RelayView { tunnels: self.registry@, closed: closed_views(self.closed@) }
    }
}

impl RelayView {
    /// Whether the tunnel with this id is the one that is open under the slug.
    pub open spec fn is_open(self, slug: Seq<char>, tunnel_id: u128) -> bool {
        self.tunnels.contains_key(slug) && self.tunnels[slug].tunnel_id == tunnel_id
    }

    /// Whether the tunnel with this id is open under the slug, or was and is
    /// kept.
    pub open spec fn has(self, slug: Seq<char>, tunnel_id: u128) -> bool {
        self.is_open(slug, tunnel_id) || self.closed.contains_key(tunnel_id)
            && self.closed[tunnel_id].slug == slug
    }

    /// The tunnel with this id.
    pub open spec fn tunnel(self, slug: Seq<char>, tunnel_id: u128) -> TunnelView {
        if self.is_open(slug, tunnel_id) {
            self.tunnels[slug]
        } else {
            self.closed[tunnel_id]
        }
    }

    /// What is left when the tunnel with this id has become `now`. It is open
    /// or closed as before.
    pub open spec fn with_tunnel(
        self,
        slug: Seq<char>,
        tunnel_id: u128,
        now: TunnelView,
    ) -> RelayView {
        if self.is_open(slug, tunnel_id) {
            RelayView { tunnels: self.tunnels.insert(slug, now), ..self }
        } else {
            RelayView { closed: self.closed.insert(tunnel_id, now), ..self }
        }
    }
}

/// The public address of a tunnel.
pub open spec fn public_url(template: Seq<char>, slug: Seq<char>) -> Seq<char> {
    text::replaced(template, SLUG_PLACEHOLDER@, slug)
}

pub fn format_public_url(template: &str, slug: &str) -> (url: String)
    ensures
        url@ == public_url(template@, slug@),
{
    proof {
        reveal_strlit("{slug}");
    }
    text::replace_all(template, SLUG_PLACEHOLDER, slug)
}

/// What a viewer asked for when it showed its token.
#[derive(Clone, Copy, PartialEq, Eq, Structural, Debug)]
pub enum Purpose {
    Login,
    Session,
}

/// The answer to a viewer.
#[derive(Debug)]
pub enum ViewerReply {
    /// See [`UNAUTHORISED_STATUS`] and the two beside it: the same for an
    /// unknown slug, a wrong token and everything else that goes wrong.
    Unauthorised,
    LoggedIn { response: LoginResponse, cookie: String },
    Session { response: SessionResponse, cookie: Option<String> },
}

/// The status of the answer [`ViewerReply::Unauthorised`].
pub const UNAUTHORISED_STATUS: u16 = 401;

/// The content type of the answer [`ViewerReply::Unauthorised`].
pub const UNAUTHORISED_CONTENT_TYPE: &'static str = "application/json";

/// The body of the answer [`ViewerReply::Unauthorised`].
pub const UNAUTHORISED_BODY: &'static str = "{\"error\":\"unauthorised\"}";

/// What to do next for a viewer.
#[derive(Debug)]
pub enum ViewerStep {
    /// Answer the viewer, and send the message to the host if there is one.
    Done { reply: ViewerReply, to_host: Option<ControlMessage> },
    /// Send the message to the host and wait for its answer; then
    /// [`AppState::conclude_viewer`].
    Challenge { challenge: PendingChallenge, message: ControlMessage },
    /// Send the message to the host; then [`AppState::admit_viewer`].
    Announce { viewer: PendingReadWrite, message: ControlMessage },
}

/// What the cookies of a request for a session say.
#[derive(Debug)]
pub enum SessionLookup {
    Answer(ViewerReply),
    /// The viewer has to show its token.
    NeedsToken,
}

/// Whether a viewer's socket is let in.
#[derive(Debug)]
pub enum SocketGate {
    NotFound,
    Unauthorised,
    /// The socket is let into the tunnel with this id, and into no later one
    /// under the same slug.
    Admitted { tunnel_id: u128, session: ViewerSession },
}

pub open spec fn is_login_success(response: LoginResponse) -> bool {
    response.success && response.message@ == "Login successful"@
}

pub open spec fn is_session_response(
    response: SessionResponse,
    tunnel: TunnelView,
    session: SessionView,
    client_id: u32,
) -> bool {
    &&& response.web_client_id@ == viewer::web_client_id_of(client_id)
    &&& response.client_id == client_id
    &&& response.is_read_only == session.is_read_only
    &&& response.e2e_encrypted == session.e2e_encrypted
    &&& response.tunnel_id@ == ids::hyphenated(tunnel.tunnel_id)
    &&& (response.session_rows, response.session_cols) == viewer::size_of_session(tunnel, session)
}

impl ViewerReply {
    /// The status that the answer goes out with.
    pub open spec fn status_code(self) -> u16 {
        if self is Unauthorised {
            UNAUTHORISED_STATUS
        } else {
            200
        }
    }

    pub fn status(&self) -> (status: u16)
        ensures
            status == self.status_code(),
    {
        match self {
            ViewerReply::Unauthorised => UNAUTHORISED_STATUS,
            _ => 200,
        }
    }

    /// The cookie that the answer sets, if it sets one.
    pub open spec fn cookie_text(self) -> Option<Seq<char>> {
        match self {
            ViewerReply::Unauthorised => None,
            ViewerReply::LoggedIn { cookie, .. } => Some(cookie@),
            ViewerReply::Session { cookie: Some(cookie), .. } => Some(cookie@),
            ViewerReply::Session { cookie: None, .. } => None,
        }
    }

    pub fn set_cookie(&self) -> (cookie: Option<String>)
        ensures
            match self.cookie_text() {
                Some(text) => cookie matches Some(c) && c@ == text,
                None => cookie is None,
            },
    {
        match self {
            ViewerReply::Unauthorised => None,
            ViewerReply::LoggedIn { cookie, .. } => Some(cookie.clone()),
            ViewerReply::Session { cookie, .. } => match cookie {
                Some(cookie) => Some(cookie.clone()),
                None => None,
            },
        }
    }
}

/// Whether a viewer is turned away, with nothing for the host to hear.
pub open spec fn turned_away(step: ViewerStep) -> bool {
    step == (ViewerStep::Done { reply: ViewerReply::Unauthorised, to_host: None })
}

/// Whether `reply` tells a viewer with this session that it is in.
pub open spec fn admits(
    reply: ViewerReply,
    purpose: Purpose,
    tunnel: TunnelView,
    session: SessionView,
    client_id: u32,
) -> bool {
    let cookie_is = |cookie: String|
        cookie@ == viewer::session_cookie(tunnel.slug, session.viewer_id);
    match purpose {
        Purpose::Login => reply matches ViewerReply::LoggedIn { response, cookie }
            && is_login_success(response) && cookie_is(cookie),
        Purpose::Session => reply matches ViewerReply::Session { response, cookie: Some(cookie) }
            && is_session_response(response, tunnel, session, client_id) && cookie_is(cookie),
    }
}

fn admission(
    entry: &TunnelEntry,
    outcome: RegisterOutcome,
    purpose: Purpose,
) -> (reply: ViewerReply)
    requires
        entry.wf(),
        outcome.cookie@ == viewer::session_cookie(entry@.slug, outcome.session@.viewer_id),
    ensures
        admits(reply, purpose, entry@, outcome.session@, outcome.client_id),
{
    match purpose {
        Purpose::Login => ViewerReply::LoggedIn {
            response: LoginResponse { success: true, message: "Login successful".to_string() },
            cookie: outcome.cookie,
        },
        Purpose::Session => {
            let response = entry.session_response(&outcome.session, outcome.client_id);
            ViewerReply::Session { response, cookie: Some(outcome.cookie) }
        },
    }
}

/// What [`AppState::start_viewer_with`] does and returns.
pub open spec fn viewer_started(
    before: Map<Seq<char>, TunnelView>,
    after: Map<Seq<char>, TunnelView>,
    slug: Seq<char>,
    auth_token: Seq<char>,
    purpose: Purpose,
    viewer_id: u128,
    request_id: Seq<u8>,
    waiter: u64,
    step: ViewerStep,
) -> bool {
    let token_hash = crypto::hashed_token(auth_token);
    if !before.contains_key(slug) {
        after == before && turned_away(step)
    } else if before[slug].group_is_live(token_hash) {
        let group = before[slug].ro_groups[token_hash];
        let tunnel = before[slug].ro_joined(token_hash, viewer_id);
        &&& after == before.insert(slug, tunnel)
        &&& step matches ViewerStep::Done { reply, to_host: Some(update) } && {
            &&& admits(
                reply,
                purpose,
                tunnel,
                viewer::ro_session(viewer_id, token_hash, group.e2e_encrypted),
                group.active_client_id->0,
            )
            &&& update@ == tunnel.ro_update(token_hash)
        }
    } else {
        &&& after == before.insert(
            slug,
            (TunnelView {
                pending_auths: before[slug].pending_auths.insert(request_id, waiter),
                ..before[slug]
            }),
        )
        &&& step matches ViewerStep::Challenge { challenge, message } && {
            &&& challenge.tunnel_id == before[slug].tunnel_id
            &&& challenge.token_hash@ == token_hash
            &&& challenge.request_id@ == request_id
            &&& challenge.dormant == before[slug].ro_groups.contains_key(token_hash)
            &&& message@ == (ControlView::AuthChallenge { request_id, token_hash })
        }
    }
}

/// The token that a request for a session shows; `None` for a request that
/// could not be read and for one without a token.
pub open spec fn shown_token(request: Option<SessionRequest>) -> Option<Seq<char>> {
    match request {
        Some(SessionRequest { auth_token: Some(token) }) => Some(token@),
        _ => None,
    }
}

/// What [`AppState::start_session_with`] does and returns.
pub open spec fn session_started(
    before: Map<Seq<char>, TunnelView>,
    after: Map<Seq<char>, TunnelView>,
    slug: Seq<char>,
    request: Option<SessionRequest>,
    viewer_id: u128,
    request_id: Seq<u8>,
    waiter: u64,
    step: ViewerStep,
) -> bool {
    match shown_token(request) {
        Some(auth_token) => viewer_started(
            before,
            after,
            slug,
            auth_token,
            Purpose::Session,
            viewer_id,
            request_id,
            waiter,
            step,
        ),
        None => after == before && turned_away(step),
    }
}

/// What [`AppState::conclude_viewer_with`] does and returns.
pub open spec fn viewer_concluded(
    before: RelayView,
    after: RelayView,
    slug: Seq<char>,
    challenge: PendingChallenge,
    answer: Option<AuthResponseResult>,
    purpose: Purpose,
    viewer_id: u128,
    step: ViewerStep,
) -> bool {
    let token_hash = challenge.token_hash@;
    let id = challenge.tunnel_id;
    let tunnel = before.tunnel(slug, id);
    if !before.has(slug, id) {
        after == before && turned_away(step)
    } else {
        match answer {
            None => {
                &&& after == before.with_tunnel(
                    slug,
                    id,
                    (TunnelView {
                        pending_auths: tunnel.pending_auths.remove(challenge.request_id@),
                        ..tunnel
                    }),
                )
                &&& turned_away(step)
            },
            Some(a) => if a.accepted && a.is_read_only && !(challenge.dormant
                && !tunnel.ro_groups.contains_key(token_hash)) {
                let now = if challenge.dormant {
                    tunnel.ro_revived(token_hash, a.client_id, a.e2e_encrypted, viewer_id)
                } else {
                    tunnel.ro_opened(token_hash, a.client_id, a.e2e_encrypted, viewer_id)
                };
                &&& after == before.with_tunnel(slug, id, now)
                &&& step matches ViewerStep::Done { reply, to_host: Some(update) } && {
                    &&& admits(
                        reply,
                        purpose,
                        now,
                        viewer::ro_session(viewer_id, token_hash, a.e2e_encrypted),
                        a.client_id,
                    )
                    &&& update@ == now.ro_update(token_hash)
                }
            } else if a.accepted && !a.is_read_only && !challenge.dormant {
                &&& after == before
                &&& step matches ViewerStep::Announce { viewer, message } && {
                    &&& viewer.tunnel_id == id
                    &&& viewer.token_hash@ == token_hash
                    &&& viewer.client_id == a.client_id
                    &&& viewer.e2e_encrypted == a.e2e_encrypted
                    &&& message@ == (ControlView::ClientConnected { client_id: a.client_id })
                }
            } else {
                after == before && turned_away(step)
            },
        }
    }
}

/// What [`AppState::admit_viewer_with`] does and returns.
pub open spec fn viewer_admitted(
    before: RelayView,
    after: RelayView,
    slug: Seq<char>,
    viewer: PendingReadWrite,
    sent: bool,
    purpose: Purpose,
    viewer_id: u128,
    reply: ViewerReply,
) -> bool {
    let id = viewer.tunnel_id;
    if sent && before.has(slug, id) {
        let now = before.tunnel(slug, id).rw_joined(
            viewer.token_hash@,
            viewer.client_id,
            viewer.e2e_encrypted,
            viewer_id,
        );
        &&& after == before.with_tunnel(slug, id, now)
        &&& admits(
            reply,
            purpose,
            now,
            viewer::rw_session(
                viewer_id,
                viewer.client_id,
                viewer.token_hash@,
                viewer.e2e_encrypted,
            ),
            viewer.client_id,
        )
    } else {
        after == before && reply is Unauthorised
    }
}

impl AppState {
    pub open spec fn wf(&self) -> bool {
        &&& self.registry.wf()
        &&& forall|tunnel_id: u128| #[trigger]
            self.closed@.contains_key(tunnel_id) ==> self.closed@[tunnel_id].tunnel_id == tunnel_id
                && self.closed@[tunnel_id].wf()
    }

    pub fn new(public_url_template: String) -> (state: AppState)
        ensures
            state.wf(),
            state@.tunnels == Map::<Seq<char>, TunnelView>::empty(),
            state@.closed == Map::<u128, TunnelView>::empty(),
            state.public_url_template == public_url_template,
    {
        let state = AppState {
            registry: Registry::new(),
            public_url_template,
            closed: HashMap::new(),
        };
        proof {
            assert(state@.closed =~= Map::<u128, TunnelView>::empty());
        }
        state
    }

    pub fn render_public_url(&self, slug: &str) -> (url: String)
        ensures
            url@ == public_url(self.public_url_template@, slug@),
    {
        format_public_url(self.public_url_template.as_str(), slug)
    }

    /// The slug that random bytes pick, or the next one that no tunnel has.
    fn free_slug(&self, drawn: &[u8; SLUG_LEN]) -> (slug: String)
        requires
            self.wf(),
        ensures
            slug@ == slug::fresh_slug(self.registry@.dom(), drawn@),
    {
        let start: u64 = slug::slug_number(drawn);
        let ghost taken = self.registry@.dom();
        let mut k: u64 = 0;
        while k < SLUG_COUNT
            invariant
                self.wf(),
                taken == self.registry@.dom(),
                k <= SLUG_COUNT,
                start == slug::number(drawn@),
                start < SLUG_COUNT,
                slug::first_free(taken, start as nat, 0) == slug::first_free(
                    taken,
                    start as nat,
                    k as nat,
                ),
            decreases SLUG_COUNT - k,
        {
            let slug = slug::slug_with_number((start + k) % SLUG_COUNT);
            match self.registry.get(slug.as_str()) {
                Some(_) => {},
                None => {
                    return slug;
                },
            }
            k = k + 1;
        }
        slug::slug_with_number(start)
    }

    /// The slug for a host that asks for `requested`: that one, unless it is
    /// empty or taken; then one that is free, picked by random bytes.
    pub fn choose_slug(&self, requested: String, drawn: &[u8; SLUG_LEN]) -> (slug: String)
        requires
            self.wf(),
        ensures
            slug@ == chosen_slug(self@.tunnels, requested@, drawn@),
    {
        if requested.as_str().is_empty() {
            return self.free_slug(drawn);
        }
        match self.registry.get(requested.as_str()) {
            Some(_) => self.free_slug(drawn),
            None => requested,
        }
    }

    /// Opens a tunnel for a host that was let in, under a slug and an id drawn
    /// at random. See [`AppState::open_tunnel_with`]. As long as not all slugs
    /// are taken, no open tunnel loses its slug.
    pub fn open_tunnel(
        &mut self,
        session_name: String,
        zellij_version: String,
        requested_slug: String,
    ) -> (r: (String, ControlMessage))
        requires
            old(self).wf(),
        ensures
            final(self).wf(),
            final(self).public_url_template == old(self).public_url_template,
            final(self)@.closed == old(self)@.closed,
            exists|drawn: Seq<u8>, tunnel_id: u128|
                drawn.len() == SLUG_LEN && #[trigger] tunnel_opened(
                    old(self)@.tunnels,
                    final(self)@.tunnels,
                    old(self).public_url_template@,
                    session_name@,
                    zellij_version@,
                    requested_slug@,
                    drawn,
                    tunnel_id,
                    r,
                ),
            old(self)@.tunnels.dom().finite(),
            requested_slug@.len() == 0 || old(self)@.tunnels.contains_key(requested_slug@) ==> {
                &&& exists|bytes: Seq<u8>|
                    bytes.len() == SLUG_LEN && r.0@ == #[trigger] slug::picked(bytes)
                &&& old(self)@.tunnels.len() < SLUG_COUNT ==> !old(self)@.tunnels.contains_key(
                    r.0@,
                )
            },
    {
        let drawn = random::random_bytes::<SLUG_LEN>();
        let tunnel_id = ids::random_id();
        proof {
            self.registry.law_tunnels_in_order();
            slug::law_fresh_slug(self@.tunnels.dom(), drawn@);
        }
        self.open_tunnel_with(session_name, zellij_version, requested_slug, &drawn, tunnel_id)
    }

    /// Opens a tunnel for a host that was let in. The slug and the message
    /// that tells the host are given back.
    pub fn open_tunnel_with(
        &mut self,
        session_name: String,
        zellij_version: String,
        requested_slug: String,
        drawn: &[u8; SLUG_LEN],
        tunnel_id: u128,
    ) -> (r: (String, ControlMessage))
        requires
            old(self).wf(),
        ensures
            final(self).wf(),
            final(self).public_url_template == old(self).public_url_template,
            final(self)@.closed == old(self)@.closed,
            tunnel_opened(
                old(self)@.tunnels,
                final(self)@.tunnels,
                old(self).public_url_template@,
                session_name@,
                zellij_version@,
                requested_slug@,
                drawn@,
                tunnel_id,
                r,
            ),
    {
        let slug = self.choose_slug(requested_slug, drawn);
        let url = self.render_public_url(slug.as_str());
        let entry = TunnelEntry::new(
            tunnel_id,
            slug.clone(),
            url.clone(),
            session_name,
            zellij_version,
        );
        self.registry.insert(entry);
        let established = ControlMessage::Established {
            public_url: url,
            slug: slug.clone(),
            tunnel_id: ids::id_text(tunnel_id),
        };
        (slug, established)
    }

    /// The control tunnel closed: nobody finds the tunnel any more, and the
    /// sockets of its viewers are given back to be closed. The tunnel itself is
    /// kept until [`AppState::forget_tunnel`].
    pub fn close_tunnel(&mut self, slug: &str) -> (viewers: Vec<(u128, ViewerHandle)>)
        requires
            old(self).wf(),
        ensures
            final(self).wf(),
            final(self).public_url_template == old(self).public_url_template,
            tunnel_closed(old(self)@, final(self)@, slug@, viewers@),
    {
        match self.registry.remove(slug) {
            Some(entry) => {
                let mut entry = entry;
                let viewers = entry.drain_viewers();
                let _ = self.closed.insert(entry.tunnel_id, entry);
                proof {
                    assert(self@.closed =~= old(self)@.closed.insert(entry@.tunnel_id, entry@));
                }
                viewers
            },
            None => Vec::new(),
        }
    }

    /// Drops a tunnel that has closed: nobody is at work on it any more.
    pub fn forget_tunnel(&mut self, tunnel_id: u128)
        requires
            old(self).wf(),
        ensures
            final(self).wf(),
            final(self).public_url_template == old(self).public_url_template,
            final(self)@ == (RelayView {
                closed: old(self)@.closed.remove(tunnel_id),
                ..old(self)@
            }),
    {
        let _ = self.closed.remove(&tunnel_id);
        proof {
            assert(self@.closed =~= old(self)@.closed.remove(tunnel_id));
        }
    }

    /// Takes out the tunnel with this id, open or closed, and says whether it
    /// was open.
    fn take(&mut self, slug: &str, tunnel_id: u128) -> (r: Option<(TunnelEntry, bool)>)
        requires
            old(self).wf(),
        ensures
            final(self).wf(),
            final(self).public_url_template == old(self).public_url_template,
            match r {
                Some((entry, is_open)) => {
                    &&& old(self)@.has(slug@, tunnel_id)
                    &&& is_open == old(self)@.is_open(slug@, tunnel_id)
                    &&& entry.wf()
                    &&& entry@ == old(self)@.tunnel(slug@, tunnel_id)
                    &&& entry@.slug == slug@
                    &&& entry@.tunnel_id == tunnel_id
                    &&& final(self)@ == if is_open {
                        RelayView { tunnels: old(self)@.tunnels.remove(slug@), ..old(self)@ }
                    } else {
                        RelayView { closed: old(self)@.closed.remove(tunnel_id), ..old(self)@ }
                    }
                },
                None => !old(self)@.has(slug@, tunnel_id) && final(self)@ == old(self)@,
            },
    {
        match self.registry.take_tunnel(slug, tunnel_id) {
            Some(entry) => {
                return Some((entry, true));
            },
            None => {},
        }
        match self.closed.remove(&tunnel_id) {
            Some(entry) => {
                proof {
                    assert(self@.closed =~= old(self)@.closed.remove(tunnel_id));
                }
                if text::same_text(entry.slug.as_str(), slug) {
                    return Some((entry, false));
                }
                let _ = self.closed.insert(tunnel_id, entry);
                proof {
                    assert(self@.closed =~= old(self)@.closed);
                }
                None
            },
            None => {
                proof {
                    assert(self@.closed =~= old(self)@.closed);
                }
                None
            },
        }
    }

    /// Puts a tunnel back where [`AppState::take`] found it.
    fn put(&mut self, entry: TunnelEntry, is_open: bool)
        requires
            old(self).wf(),
            entry.wf(),
        ensures
            final(self).wf(),
            final(self).public_url_template == old(self).public_url_template,
            final(self)@ == if is_open {
                RelayView { tunnels: old(self)@.tunnels.insert(entry@.slug, entry@), ..old(self)@ }
            } else {
                RelayView {
                    closed: old(self)@.closed.insert(entry@.tunnel_id, entry@),
                    ..old(self)@
                }
            },
    {
        if is_open {
            self.registry.insert(entry);
        } else {
            let _ = self.closed.insert(entry.tunnel_id, entry);
            proof {
                assert(self@.closed =~= old(self)@.closed.insert(entry@.tunnel_id, entry@));
            }
        }
    }

    /// Begins to let a viewer in, with ids drawn at random. See
    /// [`AppState::start_viewer_with`].
    pub fn start_viewer(
        &mut self,
        slug: &str,
        auth_token: &str,
        purpose: Purpose,
        waiter: u64,
    ) -> (step: ViewerStep)
        requires
            old(self).wf(),
        ensures
            final(self).wf(),
            final(self).public_url_template == old(self).public_url_template,
            final(self)@.closed == old(self)@.closed,
            exists|viewer_id: u128, request_id: Seq<u8>|
                request_id.len() == 16 && #[trigger] viewer_started(
                    old(self).registry@,
                    final(self).registry@,
                    slug@,
                    auth_token@,
                    purpose,
                    viewer_id,
                    request_id,
                    waiter,
                    step,
                ),
    {
        let viewer_id = ids::random_id();
        let request_id = ids::id_bytes(ids::random_id());
        self.start_viewer_with(slug, auth_token, purpose, viewer_id, request_id, waiter)
    }

    /// Begins to let a viewer in who shows `auth_token`. `waiter` is who waits
    /// for the host's answer, where the host has to be asked.
    pub fn start_viewer_with(
        &mut self,
        slug: &str,
        auth_token: &str,
        purpose: Purpose,
        viewer_id: u128,
        request_id: Vec<u8>,
        waiter: u64,
    ) -> (step: ViewerStep)
        requires
            old(self).wf(),
        ensures
            final(self).wf(),
            final(self).public_url_template == old(self).public_url_template,
            final(self)@.closed == old(self)@.closed,
            viewer_started(
                old(self).registry@,
                final(self).registry@,
                slug@,
                auth_token@,
                purpose,
                viewer_id,
                request_id@,
                waiter,
                step,
            ),
    {
        let ghost before = self.registry@;
        let mut entry = match self.registry.remove(slug) {
            Some(entry) => entry,
            None => {
                proof {
                    assert(self.registry@ =~= before);
                }
                return ViewerStep::Done { reply: ViewerReply::Unauthorised, to_host: None };
            },
        };
        let step = entry.start_registration_with(slug, auth_token, viewer_id, request_id, waiter);
        let step = match step {
            RegisterStep::Joined { outcome, update } => ViewerStep::Done {
                reply: admission(&entry, outcome, purpose),
                to_host: Some(update),
            },
            RegisterStep::Challenge { challenge, message } => ViewerStep::Challenge {
                challenge,
                message,
            },
        };
        self.registry.insert(entry);
        proof {
            assert(self.registry@ =~= before.insert(slug@, entry@));
        }
        step
    }

    /// Begins to give a viewer a session, with ids drawn at random. See
    /// [`AppState::start_session_with`].
    pub fn start_session(
        &mut self,
        slug: &str,
        request: Option<SessionRequest>,
        waiter: u64,
    ) -> (step: ViewerStep)
        requires
            old(self).wf(),
        ensures
            final(self).wf(),
            final(self).public_url_template == old(self).public_url_template,
            final(self)@.closed == old(self)@.closed,
            exists|viewer_id: u128, request_id: Seq<u8>|
                request_id.len() == 16 && #[trigger] session_started(
                    old(self).registry@,
                    final(self).registry@,
                    slug@,
                    request,
                    viewer_id,
                    request_id,
                    waiter,
                    step,
                ),
    {
        let viewer_id = ids::random_id();
        let request_id = ids::id_bytes(ids::random_id());
        self.start_session_with(slug, request, viewer_id, request_id, waiter)
    }

    /// Begins to give a viewer a session whose cookies name none. `request` is
    /// the body of the viewer's request, `None` where it could not be read.
    pub fn start_session_with(
        &mut self,
        slug: &str,
        request: Option<SessionRequest>,
        viewer_id: u128,
        request_id: Vec<u8>,
        waiter: u64,
    ) -> (step: ViewerStep)
        requires
            old(self).wf(),
        ensures
            final(self).wf(),
            final(self).public_url_template == old(self).public_url_template,
            final(self)@.closed == old(self)@.closed,
            session_started(
                old(self).registry@,
                final(self).registry@,
                slug@,
                request,
                viewer_id,
                request_id@,
                waiter,
                step,
            ),
    {
        match request {
            Some(SessionRequest { auth_token: Some(token) }) => self.start_viewer_with(
                slug,
                token.as_str(),
                Purpose::Session,
                viewer_id,
                request_id,
                waiter,
            ),
            _ => ViewerStep::Done { reply: ViewerReply::Unauthorised, to_host: None },
        }
    }

    /// Goes on when the host has answered or failed to, with the viewer's id
    /// drawn at random. See [`AppState::conclude_viewer_with`].
    pub fn conclude_viewer(
        &mut self,
        slug: &str,
        challenge: PendingChallenge,
        answer: Option<AuthResponseResult>,
        purpose: Purpose,
    ) -> (step: ViewerStep)
        requires
            old(self).wf(),
        ensures
            final(self).wf(),
            final(self).public_url_template == old(self).public_url_template,
            exists|viewer_id: u128| #[trigger]
                viewer_concluded(
                    old(self)@,
                    final(self)@,
                    slug@,
                    challenge,
                    answer,
                    purpose,
                    viewer_id,
                    step,
                ),
    {
        let viewer_id = ids::random_id();
        self.conclude_viewer_with(slug, challenge, answer, purpose, viewer_id)
    }

    /// Goes on when the host has answered; `answer` is `None` where the
    /// question could not be sent or nothing came in time. The viewer comes
    /// into the tunnel whose host was asked, also where that one has closed in
    /// the meantime; another tunnel that has got its slug is not touched.
    pub fn conclude_viewer_with(
        &mut self,
        slug: &str,
        challenge: PendingChallenge,
        answer: Option<AuthResponseResult>,
        purpose: Purpose,
        viewer_id: u128,
    ) -> (step: ViewerStep)
        requires
            old(self).wf(),
        ensures
            final(self).wf(),
            final(self).public_url_template == old(self).public_url_template,
            viewer_concluded(
                old(self)@,
                final(self)@,
                slug@,
                challenge,
                answer,
                purpose,
                viewer_id,
                step,
            ),
    {
        let ghost before = self@;
        let ghost id = challenge.tunnel_id;
        let (mut entry, is_open) = match self.take(slug, challenge.tunnel_id) {
            Some(taken) => taken,
            None => {
                return ViewerStep::Done { reply: ViewerReply::Unauthorised, to_host: None };
            },
        };
        let step = entry.conclude_registration_with(slug, challenge, answer, viewer_id);
        let step = match step {
            ConcludeStep::Refused => ViewerStep::Done {
                reply: ViewerReply::Unauthorised,
                to_host: None,
            },
            ConcludeStep::Joined { outcome, update } => ViewerStep::Done {
                reply: admission(&entry, outcome, purpose),
                to_host: Some(update),
            },
            ConcludeStep::Announce { viewer, message } => ViewerStep::Announce { viewer, message },
        };
        self.put(entry, is_open);
        proof {
            assert(self@ =~= before.with_tunnel(slug@, id, entry@));
            if entry@ == before.tunnel(slug@, id) {
                assert(before.with_tunnel(slug@, id, entry@) =~= before);
            }
        }
        step
    }

    /// Lets a viewer in whom the host was to be told of, with the viewer's id
    /// drawn at random. See [`AppState::admit_viewer_with`].
    pub fn admit_viewer(
        &mut self,
        slug: &str,
        viewer: PendingReadWrite,
        sent: bool,
        purpose: Purpose,
    ) -> (reply: ViewerReply)
        requires
            old(self).wf(),
        ensures
            final(self).wf(),
            final(self).public_url_template == old(self).public_url_template,
            exists|viewer_id: u128| #[trigger]
                viewer_admitted(
                    old(self)@,
                    final(self)@,
                    slug@,
                    viewer,
                    sent,
                    purpose,
                    viewer_id,
                    reply,
                ),
    {
        let viewer_id = ids::random_id();
        self.admit_viewer_with(slug, viewer, sent, purpose, viewer_id)
    }

    /// Lets a viewer in whom the host was to be told of; `sent` says whether
    /// the host could be told. The viewer comes into the tunnel of that host,
    /// as in [`AppState::conclude_viewer_with`].
    pub fn admit_viewer_with(
        &mut self,
        slug: &str,
        viewer: PendingReadWrite,
        sent: bool,
        purpose: Purpose,
        viewer_id: u128,
    ) -> (reply: ViewerReply)
        requires
            old(self).wf(),
        ensures
            final(self).wf(),
            final(self).public_url_template == old(self).public_url_template,
            viewer_admitted(
                old(self)@,
                final(self)@,
                slug@,
                viewer,
                sent,
                purpose,
                viewer_id,
                reply,
            ),
    {
        if !sent {
            return ViewerReply::Unauthorised;
        }
        let ghost before = self@;
        let ghost id = viewer.tunnel_id;
        let (mut entry, is_open) = match self.take(slug, viewer.tunnel_id) {
            Some(taken) => taken,
            None => {
                return ViewerReply::Unauthorised;
            },
        };
        let outcome = entry.admit_rw_with(slug, viewer, viewer_id);
        let reply = admission(&entry, outcome, purpose);
        self.put(entry, is_open);
        proof {
            assert(self@ =~= before.with_tunnel(slug@, id, entry@));
        }
        reply
    }

    /// Answers a request for a session by its cookies, where they name a
    /// viewer.
    pub fn session_by_cookie(&self, slug: &str, cookie_headers: &[String]) -> (r: SessionLookup)
        requires
            self.wf(),
        ensures
            answered_by_cookie(self@.tunnels, slug@, text::text_views(cookie_headers@), r),
    {
        let entry = match self.registry.get(slug) {
            Some(entry) => entry,
            None => {
                return SessionLookup::Answer(ViewerReply::Unauthorised);
            },
        };
        match entry.resolve_session(cookie_headers) {
            Some(session) => {
                let client_id = entry.session_client_id(&session);
                let response = entry.session_response(&session, client_id);
                SessionLookup::Answer(ViewerReply::Session { response, cookie: None })
            },
            None => SessionLookup::NeedsToken,
        }
    }

    /// Whether a viewer's socket is let in.
    pub fn socket_gate(&self, slug: &str, cookie_headers: &[String]) -> (gate: SocketGate)
        requires
            self.wf(),
        ensures
            gate_is(self@.tunnels, slug@, text::text_views(cookie_headers@), gate),
    {
        match self.registry.get(slug) {
            Some(entry) => match entry.resolve_session(cookie_headers) {
                Some(session) => SocketGate::Admitted { tunnel_id: entry.tunnel_id, session },
                None => SocketGate::Unauthorised,
            },
            None => SocketGate::NotFound,
        }
    }

    /// The version that a tunnel's pages are served for: the host's, or the
    /// relay's own for a slug that is not open.
    pub fn version(&self, slug: &str) -> (version: String)
        requires
            self.wf(),
        ensures
            version@ == if self.registry@.contains_key(slug@) {
                self.registry@[slug@].zellij_version
            } else {
                versioned_assets::RELAY_VERSION@
            },
    {
        match self.registry.get(slug) {
            Some(entry) => entry.zellij_version.clone(),
            None => versioned_assets::RELAY_VERSION.to_string(),
        }
    }
}

/// What [`AppState::close_tunnel`] does and returns.
pub open spec fn tunnel_closed(
    before: RelayView,
    after: RelayView,
    slug: Seq<char>,
    viewers: Seq<(u128, ViewerHandle)>,
) -> bool {
    &&& after.tunnels == before.tunnels.remove(slug)
    &&& if before.tunnels.contains_key(slug) {
        let tunnel = before.tunnels[slug];
        &&& after.closed == before.closed.insert(
            tunnel.tunnel_id,
            (TunnelView { viewers: Map::empty(), ..tunnel }),
        )
        &&& tunnel_control::lists_viewers(viewers, tunnel.viewers, tunnel.viewers.dom())
    } else {
        viewers.len() == 0 && after.closed == before.closed
    }
}

/// What [`AppState::session_by_cookie`] returns.
pub open spec fn answered_by_cookie(
    tunnels: Map<Seq<char>, TunnelView>,
    slug: Seq<char>,
    cookie_headers: Seq<Seq<char>>,
    r: SessionLookup,
) -> bool {
    if !tunnels.contains_key(slug) {
        r matches SessionLookup::Answer(reply) && reply is Unauthorised
    } else {
        let tunnel = tunnels[slug];
        match viewer::named_session(tunnel, cookie_headers) {
            Some(session) => r matches SessionLookup::Answer(
                ViewerReply::Session { response, cookie: None },
            ) && is_session_response(
                response,
                tunnel,
                session,
                viewer::client_of(tunnel, session),
            ),
            None => r is NeedsToken,
        }
    }
}

/// What [`AppState::socket_gate`] returns.
pub open spec fn gate_is(
    tunnels: Map<Seq<char>, TunnelView>,
    slug: Seq<char>,
    cookie_headers: Seq<Seq<char>>,
    gate: SocketGate,
) -> bool {
    if !tunnels.contains_key(slug) {
        gate is NotFound
    } else {
        match viewer::named_session(tunnels[slug], cookie_headers) {
            Some(s) => gate matches SocketGate::Admitted { tunnel_id, session } && tunnel_id
                == tunnels[slug].tunnel_id && session@ == s,
            None => gate is Unauthorised,
        }
    }
}

/// The slug of a new tunnel whose host asks for `requested`.
pub open spec fn chosen_slug(
    tunnels: Map<Seq<char>, TunnelView>,
    requested: Seq<char>,
    drawn: Seq<u8>,
) -> Seq<char> {
    if requested.len() > 0 && !tunnels.contains_key(requested) {
        requested
    } else {
        slug::fresh_slug(tunnels.dom(), drawn)
    }
}

/// What [`AppState::open_tunnel_with`] does and returns.
pub open spec fn tunnel_opened(
    before: Map<Seq<char>, TunnelView>,
    after: Map<Seq<char>, TunnelView>,
    template: Seq<char>,
    session_name: Seq<char>,
    zellij_version: Seq<char>,
    requested_slug: Seq<char>,
    drawn: Seq<u8>,
    tunnel_id: u128,
    r: (String, ControlMessage),
) -> bool {
    let slug = chosen_slug(before, requested_slug, drawn);
    let url = public_url(template, slug);
    &&& after == before.insert(
        slug,
        TunnelView::opened(tunnel_id, slug, url, session_name, zellij_version),
    )
    &&& r.0@ == slug
    &&& r.1@ == (ControlView::Established {
        public_url: url,
        slug,
        tunnel_id: ids::hyphenated(tunnel_id),
    })
}

/// A host gets the slug that it asks for where that one is free, and another
/// one that is free where it is not. All tunnels that were open stay as they
/// were, as long as not all slugs are taken.
pub proof fn law_new_tunnel_disturbs_none(
    before: Map<Seq<char>, TunnelView>,
    after: Map<Seq<char>, TunnelView>,
    template: Seq<char>,
    session_name: Seq<char>,
    zellij_version: Seq<char>,
    requested_slug: Seq<char>,
    drawn: Seq<u8>,
    tunnel_id: u128,
    r: (String, ControlMessage),
)
    requires
        before.dom().finite(),
        before.len() < SLUG_COUNT,
        drawn.len() == SLUG_LEN,
        tunnel_opened(
            before,
            after,
            template,
            session_name,
            zellij_version,
            requested_slug,
            drawn,
            tunnel_id,
            r,
        ),
    ensures
        !before.contains_key(r.0@),
        requested_slug.len() > 0 ==> (r.0@ == requested_slug <==> !before.contains_key(
            requested_slug,
        )),
        after.len() == before.len() + 1,
        forall|slug: Seq<char>| #[trigger]
            before.contains_key(slug) ==> after.contains_key(slug) && after[slug] == before[slug],
{
    slug::law_fresh_slug(before.dom(), drawn);
}

/// A viewer who shows a token for a slug that is not open, one whose request
/// holds no token or cannot be read, and one whose token the host turns down
/// get the same answer, with the same status and no cookie.
pub proof fn law_refusals_look_alike(
    before: Map<Seq<char>, TunnelView>,
    unknown_after: Map<Seq<char>, TunnelView>,
    unknown_slug: Seq<char>,
    auth_token: Seq<char>,
    purpose: Purpose,
    viewer_id: u128,
    request_id: Seq<u8>,
    waiter: u64,
    unknown_step: ViewerStep,
    empty_after: Map<Seq<char>, TunnelView>,
    slug: Seq<char>,
    request: Option<SessionRequest>,
    empty_step: ViewerStep,
    asked: RelayView,
    refused_after: RelayView,
    challenge: PendingChallenge,
    answer: Option<AuthResponseResult>,
    refused_step: ViewerStep,
)
    requires
        !before.contains_key(unknown_slug),
        viewer_started(
            before,
            unknown_after,
            unknown_slug,
            auth_token,
            purpose,
            viewer_id,
            request_id,
            waiter,
            unknown_step,
        ),
        shown_token(request) is None,
        session_started(
            before,
            empty_after,
            slug,
            request,
            viewer_id,
            request_id,
            waiter,
            empty_step,
        ),
        answer matches Some(a) ==> !a.accepted,
        viewer_concluded(
            asked,
            refused_after,
            slug,
            challenge,
            answer,
            purpose,
            viewer_id,
            refused_step,
        ),
    ensures
        turned_away(unknown_step),
        turned_away(empty_step),
        turned_away(refused_step),
        ViewerReply::Unauthorised.status_code() == 401,
        ViewerReply::Unauthorised.cookie_text() is None,
{
}

/// What a session host answers counts in its own tunnel alone: a viewer gets a
/// session only in the tunnel whose host was asked about the viewer's token. No
/// other tunnel changes; in particular not the one that has got the slug, where
/// the tunnel that was asked has closed in the meantime.
pub proof fn law_session_in_answering_tunnel(
    asked: Map<Seq<char>, TunnelView>,
    asked_after: Map<Seq<char>, TunnelView>,
    slug: Seq<char>,
    auth_token: Seq<char>,
    purpose: Purpose,
    started_id: u128,
    request_id: Seq<u8>,
    waiter: u64,
    challenge: PendingChallenge,
    message: ControlMessage,
    before: RelayView,
    after: RelayView,
    answer: Option<AuthResponseResult>,
    viewer_id: u128,
    step: ViewerStep,
)
    requires
        viewer_started(
            asked,
            asked_after,
            slug,
            auth_token,
            purpose,
            started_id,
            request_id,
            waiter,
            ViewerStep::Challenge { challenge, message },
        ),
        viewer_concluded(before, after, slug, challenge, answer, purpose, viewer_id, step),
    ensures
        asked.contains_key(slug),
        only_tunnel_changed(before, after, slug, asked[slug].tunnel_id),
        !turned_away(step) ==> before.has(slug, asked[slug].tunnel_id),
        step matches ViewerStep::Announce { viewer, .. } ==> viewer.tunnel_id
            == asked[slug].tunnel_id,
{
    assert(after.tunnels.dom() =~= before.tunnels.dom());
    assert(after.closed.dom() =~= before.closed.dom());
}

/// Whether at most the tunnel with this id has changed.
pub open spec fn only_tunnel_changed(
    before: RelayView,
    after: RelayView,
    slug: Seq<char>,
    tunnel_id: u128,
) -> bool {
    &&& !before.has(slug, tunnel_id) ==> after == before
    &&& !before.is_open(slug, tunnel_id) ==> after.tunnels == before.tunnels
    &&& before.is_open(slug, tunnel_id) ==> after.closed == before.closed
    &&& after.tunnels.dom() == before.tunnels.dom()
    &&& after.closed.dom() == before.closed.dom()
    &&& forall|other: Seq<char>|
        other != slug && before.tunnels.contains_key(other) ==> #[trigger] after.tunnels[other]
            == before.tunnels[other]
    &&& forall|other: u128|
        other != tunnel_id && before.closed.contains_key(other) ==> #[trigger] after.closed[other]
            == before.closed[other]
    &&& before.tunnels.contains_key(slug) ==> after.tunnels[slug].tunnel_id
        == before.tunnels[slug].tunnel_id
}

/// A viewer whom a host let in gets a session in that host's tunnel and in no
/// other.
pub proof fn law_admission_in_answering_tunnel(
    before: RelayView,
    after: RelayView,
    slug: Seq<char>,
    viewer: PendingReadWrite,
    sent: bool,
    purpose: Purpose,
    viewer_id: u128,
    reply: ViewerReply,
)
    requires
        viewer_admitted(before, after, slug, viewer, sent, purpose, viewer_id, reply),
    ensures
        only_tunnel_changed(before, after, slug, viewer.tunnel_id),
        !(reply is Unauthorised) <==> sent && before.has(slug, viewer.tunnel_id),
{
    assert(after.tunnels.dom() =~= before.tunnels.dom());
    assert(after.closed.dom() =~= before.closed.dom());
}

/// After a tunnel has closed its slug is not open, and whoever asks for it is
/// turned away like everyone who asks for a slug that never was.
pub proof fn law_closed_tunnel_is_unknown(
    tunnels: Map<Seq<char>, TunnelView>,
    after: Map<Seq<char>, TunnelView>,
    slug: Seq<char>,
    auth_token: Seq<char>,
    purpose: Purpose,
    viewer_id: u128,
    request_id: Seq<u8>,
    waiter: u64,
    step: ViewerStep,
)
    requires
        viewer_started(
            tunnels.remove(slug),
            after,
            slug,
            auth_token,
            purpose,
            viewer_id,
            request_id,
            waiter,
            step,
        ),
    ensures
        step == (ViewerStep::Done { reply: ViewerReply::Unauthorised, to_host: None }),
{
}

} // verus!
