//! The tunnels that are open at the relay, by slug, and who watches them.
//!
//! Channels to sockets are known by number: whoever runs the sockets keeps
//! the channels under these numbers, and drops a channel when its number
//! leaves the bookkeeping.

use crate::keyed_map::KeyedMap;
use std::collections::HashMap;
use vstd::prelude::*;

verus! {

/// A session host's answer to the question whether a viewer may attach.
#[derive(Debug, Clone)]
pub struct AuthResponseResult {
    pub accepted: bool,
    pub client_id: u32,
    pub is_read_only: bool,
    pub session_token_hash: String,
    pub e2e_encrypted: bool,
}

/// Which frames of the tunnel a viewer gets.
#[derive(Debug)]
pub enum ViewerRouting {
    /// The frames of a client of its own.
    Rw(u32),
    /// The frames of the read-only group of this token hash.
    Ro(String),
}

#[verifier::ext_equal]
pub enum RoutingView {
    Rw(u32),
    Ro(Seq<char>),
}

impl View for ViewerRouting {
    type V = RoutingView;

    open spec fn view(&self) -> RoutingView {
        match *self {
            ViewerRouting::Rw(client_id) => RoutingView::Rw(client_id),
            ViewerRouting::Ro(token_hash) => RoutingView::Ro(token_hash@),
        }
    }
}

impl Clone for ViewerRouting {
    fn clone(&self) -> (copy: ViewerRouting)
        ensures
            copy@ == self@,
    {
        match self {
            ViewerRouting::Rw(client_id) => ViewerRouting::Rw(*client_id),
            ViewerRouting::Ro(token_hash) => ViewerRouting::Ro(token_hash.clone()),
        }
    }
}

/// The sockets of one viewer.
#[derive(Debug, Clone, Copy, PartialEq, Eq, Structural)]
pub struct ViewerHandle {
    pub control_sink_tx: Option<u64>,
    pub terminal_sink_tx: Option<u64>,
    pub disconnect_terminal: Option<u64>,
    pub disconnect_control: Option<u64>,
    pub is_read_only: bool,
}

impl ViewerHandle {
    pub open spec fn empty() -> ViewerHandle {
        ViewerHandle {
            control_sink_tx: None,
            terminal_sink_tx: None,
            disconnect_terminal: None,
            disconnect_control: None,
            is_read_only: false,
        }
    }

    /// Whether `channel` tells one of the viewer's sockets to close.
    pub open spec fn closes(self, channel: u64) -> bool {
        self.disconnect_terminal == Some(channel) || self.disconnect_control == Some(channel)
    }
}

impl Default for ViewerHandle {
    fn default() -> (handle: ViewerHandle)
        ensures
            handle == ViewerHandle::empty(),
    {
        ViewerHandle {
            control_sink_tx: None,
            terminal_sink_tx: None,
            disconnect_terminal: None,
            disconnect_control: None,
            is_read_only: false,
        }
    }
}

/// A viewer who was let in; the session cookie names it by the viewer's id.
#[derive(Debug)]
pub struct ViewerSession {
    pub viewer_id: u128,
    pub routing: ViewerRouting,
    pub token_hash: String,
    pub is_read_only: bool,
    pub e2e_encrypted: bool,
}

#[verifier::ext_equal]
pub struct SessionView {
    pub viewer_id: u128,
    pub routing: RoutingView,
    pub token_hash: Seq<char>,
    pub is_read_only: bool,
    pub e2e_encrypted: bool,
}

impl View for ViewerSession {
    type V = SessionView;

    open spec fn view(&self) -> SessionView {
        SessionView {
            viewer_id: self.viewer_id,
            routing: self.routing@,
            token_hash: self.token_hash@,
            is_read_only: self.is_read_only,
            e2e_encrypted: self.e2e_encrypted,
        }
    }
}

impl Clone for ViewerSession {
    fn clone(&self) -> (copy: ViewerSession)
        ensures
            copy@ == self@,
    {
        ViewerSession {
            viewer_id: self.viewer_id,
            routing: self.routing.clone(),
            token_hash: self.token_hash.clone(),
            is_read_only: self.is_read_only,
            e2e_encrypted: self.e2e_encrypted,
        }
    }
}

/// The viewers who came in with one read-only token and watch through one
/// client of the session host. A group without a client is dormant: its token
/// is known to be good, but the host has to be asked for a new client.
#[derive(Debug)]
pub struct RoGroup {
    pub validated: bool,
    pub active_client_id: Option<u32>,
    pub e2e_encrypted: bool,
    /// In the order in which they came; no viewer is there twice.
    pub viewer_ids: Vec<u128>,
    /// Rows and columns of the session, once the host has told.
    pub session_size: Option<(u32, u32)>,
}

#[verifier::ext_equal]
pub struct GroupView {
    pub validated: bool,
    pub active_client_id: Option<u32>,
    pub e2e_encrypted: bool,
    pub viewer_ids: Seq<u128>,
    pub session_size: Option<(u32, u32)>,
}

impl View for RoGroup {
    type V = GroupView;

    open spec fn view(&self) -> GroupView {
        GroupView {
            validated: self.validated,
            active_client_id: self.active_client_id,
            e2e_encrypted: self.e2e_encrypted,
            viewer_ids: self.viewer_ids@,
            session_size: self.session_size,
        }
    }
}

/// `ids` with `id` in it: at the end, unless it was there.
pub open spec fn with_id(ids: Seq<u128>, id: u128) -> Seq<u128> {
    if ids.contains(id) {
        ids
    } else {
        ids.push(id)
    }
}

pub open spec fn other_than(id: u128) -> spec_fn(u128) -> bool {
    |other: u128| other != id
}

/// `ids` without `id`.
pub open spec fn without_id(ids: Seq<u128>, id: u128) -> Seq<u128> {
    ids.filter(other_than(id))
}

impl RoGroup {
    /// A group with its first viewer.
    pub fn opened(client_id: u32, e2e_encrypted: bool, viewer_id: u128) -> (group: RoGroup)
        ensures
            group@ == (GroupView {
                validated: true,
                active_client_id: Some(client_id),
                e2e_encrypted,
                viewer_ids: seq![viewer_id],
                session_size: None,
            }),
    {
        let viewer_ids: Vec<u128> = vec![viewer_id];
        proof {
            assert(viewer_ids@ =~= seq![viewer_id]);
        }
        RoGroup {
            validated: true,
            active_client_id: Some(client_id),
            e2e_encrypted,
            viewer_ids,
            session_size: None,
        }
    }

    pub fn add_viewer(&mut self, viewer_id: u128)
        ensures
            final(self)@ == (GroupView {
                viewer_ids: with_id(old(self)@.viewer_ids, viewer_id),
                ..old(self)@
            }),
    {
        let mut i: usize = 0;
        while i < self.viewer_ids.len()
            invariant
                *self == *old(self),
                i <= self.viewer_ids@.len(),
                forall|j: int| 0 <= j < i ==> self.viewer_ids@[j] != viewer_id,
            decreases self.viewer_ids@.len() - i,
        {
            if self.viewer_ids[i] == viewer_id {
                return;
            }
            i = i + 1;
        }
        self.viewer_ids.push(viewer_id);
    }

    pub fn remove_viewer(&mut self, viewer_id: u128)
        ensures
            final(self)@ == (GroupView {
                viewer_ids: without_id(old(self)@.viewer_ids, viewer_id),
                ..old(self)@
            }),
    {
        let mut kept: Vec<u128> = Vec::new();
        let mut i: usize = 0;
        let ghost other = other_than(viewer_id);
        proof {
            reveal(Seq::filter);
            assert(self.viewer_ids@.take(0) =~= Seq::<u128>::empty());
        }
        while i < self.viewer_ids.len()
            invariant
                *self == *old(self),
                i <= self.viewer_ids@.len(),
                other == other_than(viewer_id),
                kept@ == self.viewer_ids@.take(i as int).filter(other),
            decreases self.viewer_ids@.len() - i,
        {
            let id = self.viewer_ids[i];
            proof {
                reveal(Seq::filter);
                let next = self.viewer_ids@.take(i + 1);
                assert(next.drop_last() =~= self.viewer_ids@.take(i as int));
                assert(next.last() == id);
            }
            if id != viewer_id {
                kept.push(id);
            }
            i = i + 1;
        }
        proof {
            assert(self.viewer_ids@.take(i as int) =~= self.viewer_ids@);
        }
        self.viewer_ids = kept;
    }
}

/// What the relay keeps of an open tunnel.
#[derive(Debug)]
pub struct TunnelEntry {
    pub tunnel_id: u128,
    pub slug: String,
    pub public_url: String,
    pub session_name: String,
    pub zellij_version: String,
    /// Whether the terminal tunnel has ever been linked.
    pub terminal_linked_flag: bool,
    /// The channel to the terminal tunnel, while it is open.
    pub terminal_tx: Option<u64>,
    /// Who waits for the answer to which question.
    pub pending_auths: KeyedMap<Vec<u8>, u64>,
    pub viewers: HashMap<u128, ViewerHandle>,
    pub sessions: HashMap<u128, ViewerSession>,
    /// The viewer of each client that has one of its own.
    pub client_id_to_viewer: HashMap<u32, u128>,
    /// The read-only groups by token hash.
    pub ro_groups: KeyedMap<String, RoGroup>,
    /// The group of each client that a group watches through.
    pub client_id_to_token_hash: HashMap<u32, String>,
}

/// The mathematical value of a [`TunnelEntry`].
#[verifier::ext_equal]
pub struct TunnelView {
    pub tunnel_id: u128,
    pub slug: Seq<char>,
    pub public_url: Seq<char>,
    pub session_name: Seq<char>,
    pub zellij_version: Seq<char>,
    pub terminal_linked: bool,
    pub terminal_tx: Option<u64>,
    pub pending_auths: Map<Seq<u8>, u64>,
    pub viewers: Map<u128, ViewerHandle>,
    pub sessions: Map<u128, SessionView>,
    pub client_id_to_viewer: Map<u32, u128>,
    pub ro_groups: Map<Seq<char>, GroupView>,
    pub client_id_to_token_hash: Map<u32, Seq<char>>,
}

pub open spec fn session_views(sessions: Map<u128, ViewerSession>) -> Map<u128, SessionView> {
    sessions.map_values(|s: ViewerSession| s@)
}

pub open spec fn group_views(groups: Map<Seq<char>, RoGroup>) -> Map<Seq<char>, GroupView> {
    groups.map_values(|g: RoGroup| g@)
}

pub open spec fn hash_views(hashes: Map<u32, String>) -> Map<u32, Seq<char>> {
    hashes.map_values(|h: String| h@)
}

impl View for TunnelEntry {
    type V = TunnelView;

    open spec fn view(&self) -> TunnelView {
        TunnelView {
            tunnel_id: self.tunnel_id,
            slug: self.slug@,
            public_url: self.public_url@,
            session_name: self.session_name@,
            zellij_version: self.zellij_version@,
            terminal_linked: self.terminal_linked_flag,
            terminal_tx: self.terminal_tx,
            pending_auths: self.pending_auths@,
            viewers: self.viewers@,
            sessions: session_views(self.sessions@),
            client_id_to_viewer: self.client_id_to_viewer@,
            ro_groups: group_views(self.ro_groups@),
            client_id_to_token_hash: hash_views(self.client_id_to_token_hash@),
        }
    }
}

/// A client stands in the index of watchers exactly while it is the client of
/// the group that it is listed for.
pub open spec fn watchers_indexed(
    groups: Map<Seq<char>, GroupView>,
    index: Map<u32, Seq<char>>,
) -> bool {
    &&& forall|client_id: u32| #[trigger]
        index.contains_key(client_id) ==> groups.contains_key(index[client_id])
            && groups[index[client_id]].active_client_id == Some(client_id)
    &&& forall|token_hash: Seq<char>| #[trigger]
        groups.contains_key(token_hash) ==> {
            let active = groups[token_hash].active_client_id;
            active is Some ==> index.contains_key(active->0) && index[active->0] == token_hash
        }
}

/// A group that nobody is in has no client, and nobody is in a group twice.
pub open spec fn groups_populated(groups: Map<Seq<char>, GroupView>) -> bool {
    forall|token_hash: Seq<char>| #[trigger]
        groups.contains_key(token_hash) ==> {
            let group = groups[token_hash];
            &&& group.active_client_id is Some ==> group.viewer_ids.len() > 0
            &&& group.viewer_ids.no_duplicates()
        }
}

impl TunnelView {
    /// The index of watchers agrees with the groups, and the groups are sound.
    pub open spec fn in_order(self) -> bool {
        &&& watchers_indexed(self.ro_groups, self.client_id_to_token_hash)
        &&& groups_populated(self.ro_groups)
    }

    /// A tunnel that nobody watches yet.
    pub open spec fn opened(
        tunnel_id: u128,
        slug: Seq<char>,
        public_url: Seq<char>,
        session_name: Seq<char>,
        zellij_version: Seq<char>,
    ) -> TunnelView {
        TunnelView {
            tunnel_id,
            slug,
            public_url,
            session_name,
            zellij_version,
            terminal_linked: false,
            terminal_tx: None,
            pending_auths: Map::empty(),
            viewers: Map::empty(),
            sessions: Map::empty(),
            client_id_to_viewer: Map::empty(),
            ro_groups: Map::empty(),
            client_id_to_token_hash: Map::empty(),
        }
    }

    /// The viewers who get the frames of a client: all viewers of a group, or
    /// the one viewer that the client belongs to.
    pub open spec fn viewers_of(self, client_id: u32) -> Seq<u128> {
        if self.client_id_to_token_hash.contains_key(client_id) {
            let token_hash = self.client_id_to_token_hash[client_id];
            if self.ro_groups.contains_key(token_hash) {
                self.ro_groups[token_hash].viewer_ids
            } else {
                Seq::empty()
            }
        } else if self.client_id_to_viewer.contains_key(client_id) {
            seq![self.client_id_to_viewer[client_id]]
        } else {
            Seq::empty()
        }
    }
}

impl TunnelEntry {
    /// The maps that the tunnel is made of are sound.
    pub open spec fn maps_wf(&self) -> bool {
        self.pending_auths.wf() && self.ro_groups.wf()
    }

    /// The maps are sound, and the groups and the index of watchers agree.
    pub open spec fn wf(&self) -> bool {
        self.maps_wf() && self@.in_order()
    }

    /// A tunnel that nobody watches yet.
    pub fn new(
        tunnel_id: u128,
        slug: String,
        public_url: String,
        session_name: String,
        zellij_version: String,
    ) -> (entry: TunnelEntry)
        ensures
            entry.wf(),
            entry@ == TunnelView::opened(
                tunnel_id,
                slug@,
                public_url@,
                session_name@,
                zellij_version@,
            ),
    {
        let entry = TunnelEntry {
            tunnel_id,
            slug,
            public_url,
            session_name,
            zellij_version,
            terminal_linked_flag: false,
            terminal_tx: None,
            pending_auths: KeyedMap::new(),
            viewers: HashMap::new(),
            sessions: HashMap::new(),
            client_id_to_viewer: HashMap::new(),
            ro_groups: KeyedMap::new(),
            client_id_to_token_hash: HashMap::new(),
        };
        proof {
            assert(entry@.sessions =~= Map::<u128, SessionView>::empty());
            assert(entry@.ro_groups =~= Map::<Seq<char>, GroupView>::empty());
            assert(entry@.client_id_to_token_hash =~= Map::<u32, Seq<char>>::empty());
        }
        entry
    }

    /// The viewers who get the frames of a client.
    pub fn viewers_for_client_id(&self, client_id: u32) -> (ids: Vec<u128>)
        requires
            self.maps_wf(),
        ensures
            ids@ == self@.viewers_of(client_id),
    {
        match self.client_id_to_token_hash.get(&client_id) {
            Some(token_hash) => {
                match self.ro_groups.get(token_hash.as_str()) {
                    Some(group) => vstd::slice::slice_to_vec(group.viewer_ids.as_slice()),
                    None => Vec::new(),
                }
            },
            None => {
                match self.client_id_to_viewer.get(&client_id) {
                    Some(id) => {
                        let ids: Vec<u128> = vec![*id];
                        proof {
                            assert(ids@ =~= seq![*id]);
                        }
                        ids
                    },
                    None => Vec::new(),
                }
            },
        }
    }
}

/// The open tunnels by slug.
#[derive(Debug)]
pub struct Registry {
    inner: KeyedMap<String, TunnelEntry>,
}

impl View for Registry {
    type V = Map<Seq<char>, TunnelView>;

    closed spec fn view(&self) -> Map<Seq<char>, TunnelView> {
        self.inner@.map_values(|e: TunnelEntry| e@)
    }
}

impl Registry {
    /// Every tunnel stands under its own slug.
    pub closed spec fn wf(&self) -> bool {
        &&& self.inner.wf()
        &&& forall|slug: Seq<char>| #[trigger]
            self.inner@.contains_key(slug) ==> self.inner@[slug].slug@ == slug
                && self.inner@[slug].wf()
    }

    /// Only so many tunnels are open, and of each of them the index of watchers
    /// agrees with the groups.
    pub proof fn law_tunnels_in_order(&self)
        requires
            self.wf(),
        ensures
            self@.dom().finite(),
            forall|slug: Seq<char>| #[trigger] self@.contains_key(slug) ==> self@[slug].in_order(),
    {
        self.inner.lemma_finite();
        assert(self@.dom() =~= self.inner@.dom());
        assert forall|slug: Seq<char>| #[trigger] self@.contains_key(slug) implies self@[
            slug
        ].in_order() by {
            assert(self.inner@.contains_key(slug));
        }
    }

    /// A tunnel is kept under its own slug.
    pub proof fn law_tunnel_under_its_slug(&self, slug: Seq<char>)
        requires
            self.wf(),
            self@.contains_key(slug),
        ensures
            self@[slug].slug == slug,
    {
        assert(self.inner@.contains_key(slug));
    }

    pub fn new() -> (registry: Registry)
        ensures
            registry.wf(),
            registry@ == Map::<Seq<char>, TunnelView>::empty(),
    {
        let registry = Registry { inner: KeyedMap::new() };
        proof {
            assert(registry@ =~= Map::<Seq<char>, TunnelView>::empty());
        }
        registry
    }

    /// Puts a tunnel under its slug; one that was there before is lost.
    pub fn insert(&mut self, entry: TunnelEntry)
        requires
            old(self).wf(),
            entry.wf(),
        ensures
            final(self).wf(),
            final(self)@ == old(self)@.insert(entry@.slug, entry@),
    {
        let slug = entry.slug.clone();
        let _ = self.inner.insert(slug, entry);
        proof {
            assert(self@ =~= old(self)@.insert(entry@.slug, entry@));
        }
    }

    pub fn get(&self, slug: &str) -> (r: Option<&TunnelEntry>)
        requires
            self.wf(),
        ensures
            match r {
                Some(entry) => self@.contains_key(slug@) && entry@ == self@[slug@] && entry.wf(),
                None => !self@.contains_key(slug@),
            },
    {
        self.inner.get(slug)
    }

    pub fn remove(&mut self, slug: &str) -> (r: Option<TunnelEntry>)
        requires
            old(self).wf(),
        ensures
            final(self).wf(),
            final(self)@ == old(self)@.remove(slug@),
            match r {
                Some(entry) => old(self)@.contains_key(slug@) && entry@ == old(self)@[slug@]
                    && entry.wf() && entry@.slug == slug@,
                None => !old(self)@.contains_key(slug@),
            },
    {
        let r = self.inner.remove(slug);
        proof {
            assert(self@ =~= old(self)@.remove(slug@));
        }
        r
    }

    /// Takes out the tunnel with this id, if it is the one under the slug. A
    /// slug can be given to another tunnel once the first one has closed.
    pub fn take_tunnel(&mut self, slug: &str, tunnel_id: u128) -> (r: Option<TunnelEntry>)
        requires
            old(self).wf(),
        ensures
            final(self).wf(),
            if old(self)@.contains_key(slug@) && old(self)@[slug@].tunnel_id == tunnel_id {
                &&& final(self)@ == old(self)@.remove(slug@)
                &&& r matches Some(entry) && entry@ == old(self)@[slug@] && entry.wf()
                    && entry@.slug == slug@
            } else {
                r is None && final(self)@ == old(self)@
            },
    {
        match self.get(slug) {
            Some(entry) => {
                if entry.tunnel_id != tunnel_id {
                    return None;
                }
            },
            None => {
                return None;
            },
        }
        self.remove(slug)
    }

    /// How many tunnels are open.
    pub fn len(&self) -> (n: usize)
        requires
            self.wf(),
        ensures
            self@.dom().finite(),
            n == self@.len(),
    {
        proof {
            assert(self@.dom() =~= self.inner@.dom());
        }
        self.inner.len()
    }
}

impl Default for Registry {
    fn default() -> (registry: Registry)
        ensures
            registry.wf(),
            registry@ == Map::<Seq<char>, TunnelView>::empty(),
    {
        Registry::new()
    }
}

/// Opening a tunnel makes one more of them where its slug was free and as many
/// as before where it was taken; closing one makes one less where it was open
/// and as many as before where it was not.
pub proof fn law_registry_counts(
    tunnels: Map<Seq<char>, TunnelView>,
    entry: TunnelView,
    slug: Seq<char>,
)
    requires
        tunnels.dom().finite(),
    ensures
        tunnels.insert(entry.slug, entry).dom().finite(),
        tunnels.insert(entry.slug, entry).len() == tunnels.len() + if tunnels.contains_key(
            entry.slug,
        ) {
            0int
        } else {
            1
        },
        tunnels.remove(slug).dom().finite(),
        tunnels.remove(slug).len() == tunnels.len() - if tunnels.contains_key(slug) {
            1int
        } else {
            0
        },
{
}

/// A tunnel that was put in is found under its slug, in place of whatever was
/// there; the other tunnels stay; and taking it out leaves nothing there.
pub proof fn law_registry_insert_get_remove(
    tunnels: Map<Seq<char>, TunnelView>,
    entry: TunnelView,
    other: Seq<char>,
)
    requires
        other != entry.slug,
    ensures
        tunnels.insert(entry.slug, entry)[entry.slug] == entry,
        tunnels.insert(entry.slug, entry).contains_key(other) == tunnels.contains_key(other),
        tunnels.contains_key(other) ==> tunnels.insert(entry.slug, entry)[other] == tunnels[other],
        !tunnels.insert(entry.slug, entry).remove(entry.slug).contains_key(entry.slug),
{
}

} // verus!
