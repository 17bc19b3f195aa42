//! The control tunnel of a session host: who may open one, and what the relay
//! does about each message on it.

use crate::collections::keys_of;
use crate::conversion;
use crate::conversion::{ControlMessage, ControlView};
use crate::registry::{
    AuthResponseResult, GroupView, RoutingView, TunnelEntry, TunnelView, ViewerHandle,
    ViewerRouting,
};
use crate::socket::SocketFrame;
use crate::text;
use crate::viewer_laws;
use crate::wire_codec;
use crate::wire_format;
use vstd::prelude::*;
use vstd::string::*;
use vstd::utf8;

verus! {

/// What the first frame of a control tunnel leads to.
#[derive(Debug)]
pub enum ControlHandshake {
    /// The host is let in.
    Accepted { session_name: String, zellij_version: String, requested_slug: String },
    /// The host is told why not, and the tunnel closes.
    Rejected(ControlMessage),
    /// The tunnel is gone.
    Dropped,
}

/// Whether a handshake was turned down with these words.
pub open spec fn rejected_with(handshake: ControlHandshake, words: Seq<char>) -> bool {
    handshake matches ControlHandshake::Rejected(message) && message@ == (ControlView::Error {
        message: words,
    })
}

fn reject(words: &str) -> (handshake: ControlHandshake)
    ensures
        rejected_with(handshake, words@),
{
    ControlHandshake::Rejected(ControlMessage::Error { message: words.to_string() })
}

/// What the first frame of a control tunnel leads to.
pub open spec fn control_handshake_is(
    first: Option<SocketFrame>,
    handshake: ControlHandshake,
) -> bool {
    match first {
        None | Some(SocketFrame::Failed) => handshake is Dropped,
        Some(SocketFrame::Binary(bytes)) => match wire_format::decode_frame(
            crate::control_frame::schema(),
            bytes@,
        ) {
            Some(Some(content)) => if content.0 == 1 {
                handshake matches ControlHandshake::Accepted {
                    session_name,
                    zellij_version,
                    requested_slug,
                } && {
                    &&& content.1[1] == wire_format::FieldView::Text(session_name@)
                    &&& content.1[3] == wire_format::FieldView::Text(zellij_version@)
                    &&& content.1[4] == wire_format::FieldView::Text(requested_slug@)
                }
            } else {
                rejected_with(handshake, "first frame must be TunnelAuth"@)
            },
            _ => rejected_with(handshake, "malformed ControlFrame"@),
        },
        Some(_) => rejected_with(handshake, "expected binary TunnelAuth frame"@),
    }
}

/// Judges the first frame of a control tunnel.
pub fn control_handshake(first: Option<SocketFrame>) -> (handshake: ControlHandshake)
    ensures
        control_handshake_is(first, handshake),
{
    let bytes = match first {
        Some(SocketFrame::Binary(bytes)) => bytes,
        Some(SocketFrame::Failed) => {
            return ControlHandshake::Dropped;
        },
        None => {
            return ControlHandshake::Dropped;
        },
        Some(_) => {
            return reject("expected binary TunnelAuth frame");
        },
    };
    match conversion::decode_control_frame(bytes.as_slice()) {
        Ok(message) => match message {
            ControlMessage::Auth {
                token: _,
                session_name,
                protocol_version: _,
                zellij_version,
                requested_slug,
            } => ControlHandshake::Accepted { session_name, zellij_version, requested_slug },
            _ => reject("first frame must be TunnelAuth"),
        },
        Err(_) => reject("malformed ControlFrame"),
    }
}

/// What the relay does about a message of the host.
#[derive(Debug)]
pub enum ControlDispatch {
    Nothing,
    /// Give the answer to whoever waits for it.
    Resolve { waiter: u64, result: AuthResponseResult },
    /// Send the text on each of the channels.
    SendText { sinks: Vec<u64>, text: String },
    /// Close the sockets of these viewers.
    Disconnect { viewers: Vec<(u128, ViewerHandle)> },
}

/// The channels to the control sockets of viewers, of those who have one.
pub open spec fn control_sinks(viewers: Map<u128, ViewerHandle>, ids: Seq<u128>) -> Seq<u64>
    decreases ids.len(),
{
    if ids.len() == 0 {
        Seq::empty()
    } else {
        let sinks = control_sinks(viewers, ids.drop_last());
        if viewers.contains_key(ids.last()) && viewers[ids.last()].control_sink_tx is Some {
            sinks.push(viewers[ids.last()].control_sink_tx->0)
        } else {
            sinks
        }
    }
}

/// The text in which a viewer is told the size of the session.
pub open spec fn session_size_text(rows: u32, cols: u32) -> Seq<char> {
    "{\"type\":\"SessionSizeChanged\",\"rows\":"@ + text::decimal(rows as nat) + ",\"cols\":"@
        + text::decimal(cols as nat) + "}"@
}

pub fn session_size_json(rows: u32, cols: u32) -> (json: String)
    ensures
        json@ == session_size_text(rows, cols),
{
    "{\"type\":\"SessionSizeChanged\",\"rows\":".to_string().concat(
        text::decimal_text(rows as u64).as_str(),
    ).concat(",\"cols\":").concat(text::decimal_text(cols as u64).as_str()).concat("}")
}

/// Whether `removed` lists, once each, the viewers of `doomed` who had sockets.
pub open spec fn lists_viewers(
    removed: Seq<(u128, ViewerHandle)>,
    viewers: Map<u128, ViewerHandle>,
    doomed: Set<u128>,
) -> bool {
    &&& removed.no_duplicates()
    &&& forall|id: u128, handle: ViewerHandle|
        removed.contains((id, handle)) <==> doomed.contains(id) && viewers.contains_key(id)
            && viewers[id] == handle
}

impl TunnelView {
    /// The host told the size of the session that a group watches.
    pub open spec fn resized(self, client_id: u32, rows: u32, cols: u32) -> TunnelView {
        if self.client_id_to_token_hash.contains_key(client_id) && self.ro_groups.contains_key(
            self.client_id_to_token_hash[client_id],
        ) {
            let token_hash = self.client_id_to_token_hash[client_id];
            TunnelView {
                ro_groups: self.ro_groups.insert(
                    token_hash,
                    GroupView { session_size: Some((rows, cols)), ..self.ro_groups[token_hash] },
                ),
                ..self
            }
        } else {
            self
        }
    }

    /// The sessions that came in with a token.
    pub open spec fn sessions_of(self, token_hash: Seq<char>) -> Set<u128> {
        Set::new(
            |id: u128|
                self.sessions.contains_key(id) && self.sessions[id].token_hash == token_hash,
        )
    }

    /// The clients of those sessions that have one of their own.
    pub open spec fn clients_of(self, token_hash: Seq<char>) -> Set<u32> {
        Set::new(
            |client_id: u32|
                exists|id: u128|
                    self.sessions_of(token_hash).contains(id)
                        && #[trigger] self.sessions[id].routing == RoutingView::Rw(client_id),
        )
    }

    /// The viewers who have to leave when a token is revoked.
    pub open spec fn doomed_by(self, token_hash: Seq<char>) -> Set<u128> {
        Set::new(
            |id: u128|
                self.sessions_of(token_hash).contains(id) || (self.ro_groups.contains_key(
                    token_hash,
                ) && self.ro_groups[token_hash].viewer_ids.contains(id)),
        )
    }

    /// A token was revoked: nothing that is keyed on it is left.
    pub open spec fn revoked(self, token_hash: Seq<char>) -> TunnelView {
        TunnelView {
            viewers: self.viewers.remove_keys(self.doomed_by(token_hash)),
            sessions: self.sessions.remove_keys(self.sessions_of(token_hash)),
            client_id_to_viewer: self.client_id_to_viewer.remove_keys(self.clients_of(token_hash)),
            ro_groups: self.ro_groups.remove(token_hash),
            client_id_to_token_hash: if self.group_is_live(token_hash) {
                self.client_id_to_token_hash.remove(self.ro_groups[token_hash].active_client_id->0)
            } else {
                self.client_id_to_token_hash
            },
            ..self
        }
    }

    /// What a message of the host makes of the tunnel.
    pub open spec fn after_control(self, message: ControlView) -> TunnelView {
        match message {
            ControlView::AuthResponse { request_id, .. } => TunnelView {
                pending_auths: self.pending_auths.remove(request_id),
                ..self
            },
            ControlView::ClientDisconnected { client_id } => TunnelView {
                viewers: self.viewers.remove_keys(self.viewers_of(client_id).to_set()),
                ..self
            },
            ControlView::SessionSize { client_id, rows, cols } => self.resized(
                client_id,
                rows,
                cols,
            ),
            ControlView::RevokeToken { token_hash } => self.revoked(token_hash),
            _ => self,
        }
    }
}

/// Whether `dispatch` is what the relay does about a message of the host.
pub open spec fn dispatch_is(
    tunnel: TunnelView,
    message: ControlView,
    dispatch: ControlDispatch,
) -> bool {
    match message {
        ControlView::AuthResponse {
            request_id,
            client_id,
            accepted,
            is_read_only,
            session_token_hash,
            e2e_encrypted,
        } => if tunnel.pending_auths.contains_key(request_id) {
            dispatch matches ControlDispatch::Resolve { waiter, result } && {
                &&& waiter == tunnel.pending_auths[request_id]
                &&& result.accepted == accepted
                &&& result.client_id == client_id
                &&& result.is_read_only == is_read_only
                &&& result.session_token_hash@ == session_token_hash
                &&& result.e2e_encrypted == e2e_encrypted
            }
        } else {
            dispatch is Nothing
        },
        ControlView::ControlFrameData { client_id, data } => if utf8::valid_utf8(data) {
            dispatch matches ControlDispatch::SendText { sinks, text } && {
                &&& sinks@ == control_sinks(tunnel.viewers, tunnel.viewers_of(client_id))
                &&& text@ == utf8::decode_utf8(data)
            }
        } else {
            dispatch is Nothing
        },
        ControlView::ClientDisconnected { client_id } => dispatch matches ControlDispatch::Disconnect {
            viewers,
        } && lists_viewers(viewers@, tunnel.viewers, tunnel.viewers_of(client_id).to_set()),
        ControlView::SessionSize { client_id, rows, cols } => dispatch matches ControlDispatch::SendText {
            sinks,
            text,
        } && {
            &&& sinks@ == control_sinks(tunnel.viewers, tunnel.viewers_of(client_id))
            &&& text@ == session_size_text(rows, cols)
        },
        ControlView::RevokeToken { token_hash } => dispatch matches ControlDispatch::Disconnect {
            viewers,
        } && lists_viewers(viewers@, tunnel.viewers, tunnel.doomed_by(token_hash)),
        _ => dispatch is Nothing,
    }
}

impl TunnelEntry {
    fn control_sinks_for(&self, ids: &[u128]) -> (sinks: Vec<u64>)
        ensures
            sinks@ == control_sinks(self@.viewers, ids@),
    {
        let mut sinks: Vec<u64> = Vec::new();
        let mut i: usize = 0;
        proof {
            assert(ids@.take(0) =~= Seq::<u128>::empty());
        }
        while i < ids.len()
            invariant
                i <= ids@.len(),
                sinks@ == control_sinks(self@.viewers, ids@.take(i as int)),
            decreases ids@.len() - i,
        {
            proof {
                assert(ids@.take(i + 1).drop_last() =~= ids@.take(i as int));
                assert(ids@.take(i + 1).last() == ids@[i as int]);
            }
            match self.viewers.get(&ids[i]) {
                Some(handle) => {
                    match handle.control_sink_tx {
                        Some(sink) => {
                            sinks.push(sink);
                        },
                        None => {},
                    }
                },
                None => {},
            }
            i = i + 1;
        }
        proof {
            assert(ids@.take(i as int) =~= ids@);
        }
        sinks
    }

    /// Takes viewers out and lists the sockets that they had.
    pub(crate) fn remove_viewers(&mut self, ids: &[u128]) -> (removed: Vec<(u128, ViewerHandle)>)
        requires
            old(self).maps_wf(),
        ensures
            final(self).maps_wf(),
            final(self)@ == (TunnelView {
                viewers: old(self)@.viewers.remove_keys(ids@.to_set()),
                ..old(self)@
            }),
            lists_viewers(removed@, old(self)@.viewers, ids@.to_set()),
    {
        let mut removed: Vec<(u128, ViewerHandle)> = Vec::new();
        let mut i: usize = 0;
        let ghost viewers = self@.viewers;
        proof {
            assert(ids@.take(0).to_set() =~= Set::<u128>::empty());
            assert(viewers.remove_keys(Set::empty()) =~= viewers);
        }
        while i < ids.len()
            invariant
                i <= ids@.len(),
                self.maps_wf(),
                viewers == old(self)@.viewers,
                self@ == (TunnelView {
                    viewers: viewers.remove_keys(ids@.take(i as int).to_set()),
                    ..old(self)@
                }),
                lists_viewers(removed@, viewers, ids@.take(i as int).to_set()),
            decreases ids@.len() - i,
        {
            let id = ids[i];
            let ghost before = removed@;
            let ghost seen = ids@.take(i as int).to_set();
            let ghost now = ids@.take(i + 1).to_set();
            proof {
                assert(ids@.take(i + 1) =~= ids@.take(i as int).push(id));
                assert(now =~= seen.insert(id)) by {
                    assert forall|x: u128| now.contains(x) == seen.insert(id).contains(x) by {
                        if seen.contains(x) {
                            let j = choose|j: int|
                                0 <= j < ids@.take(i as int).len() && ids@.take(i as int)[j] == x;
                            assert(ids@.take(i + 1)[j] == x);
                        }
                        if x == id {
                            assert(ids@.take(i + 1)[i as int] == x);
                        }
                    }
                }
            }
            match self.viewers.remove(&id) {
                Some(handle) => {
                    removed.push((id, handle));
                    proof {
                        assert(!seen.contains(id));
                        assert forall|x: u128, h: ViewerHandle|
                            removed@.contains((x, h)) <==> now.contains(x)
                                && viewers.contains_key(x) && viewers[x] == h by {
                            if removed@.contains((x, h)) {
                                let j = choose|j: int|
                                    0 <= j < removed@.len() && removed@[j] == (x, h);
                                if j < before.len() {
                                    assert(before[j] == (x, h));
                                    assert(before.contains((x, h)));
                                }
                            }
                            if now.contains(x) && viewers.contains_key(x) && viewers[x] == h {
                                if x == id {
                                    assert(removed@[before.len() as int] == (x, h));
                                } else {
                                    assert(before.contains((x, h)));
                                    let j = choose|j: int|
                                        0 <= j < before.len() && before[j] == (x, h);
                                    assert(removed@[j] == (x, h));
                                }
                            }
                        }
                        assert forall|a: int, b: int|
                            0 <= a < removed@.len() && 0 <= b < removed@.len() && a
                                != b implies removed@[a] != removed@[b] by {
                            if a < before.len() {
                                assert(before.contains(removed@[a]));
                            }
                            if b < before.len() {
                                assert(before.contains(removed@[b]));
                            }
                        }
                    }
                },
                None => {
                    proof {
                        assert forall|x: u128, h: ViewerHandle|
                            removed@.contains((x, h)) <==> now.contains(x)
                                && viewers.contains_key(x) && viewers[x] == h by {
                            if now.contains(x) && viewers.contains_key(x) && viewers[x] == h {
                                if x == id {
                                    assert(seen.contains(id));
                                }
                            }
                        }
                    }
                },
            }
            proof {
                assert(self@.viewers =~= viewers.remove_keys(now));
            }
            i = i + 1;
        }
        proof {
            assert(ids@.take(i as int) =~= ids@);
        }
        removed
    }

    /// The sessions that came in with a token, and their own clients.
    fn sessions_with_hash(&self, token_hash: &str) -> (r: (Vec<u128>, Vec<u32>))
        ensures
            r.0@.to_set() == self@.sessions_of(token_hash@),
            r.1@.to_set() == self@.clients_of(token_hash@),
    {
        let keys = keys_of(&self.sessions);
        let mut ids: Vec<u128> = Vec::new();
        let mut clients: Vec<u32> = Vec::new();
        let mut i: usize = 0;
        let ghost sessions = self@.sessions;
        while i < keys.len()
            invariant
                i <= keys@.len(),
                sessions == self@.sessions,
                keys@.to_set() == self.sessions@.dom(),
                forall|id: u128|
                    ids@.contains(id) <==> keys@.take(i as int).contains(id)
                        && sessions[id].token_hash == token_hash@,
                forall|client_id: u32|
                    clients@.contains(client_id) <==> exists|id: u128|
                        ids@.contains(id) && #[trigger] sessions[id].routing == RoutingView::Rw(
                            client_id,
                        ),
            decreases keys@.len() - i,
        {
            let key = keys[i];
            let ghost ids_before = ids@;
            let ghost clients_before = clients@;
            proof {
                assert(keys@.take(i + 1) =~= keys@.take(i as int).push(key));
                assert(keys@.contains(key));
                assert(keys@.to_set().contains(key));
                assert forall|id: u128| keys@.take(i + 1).contains(id) == (keys@.take(
                    i as int,
                ).contains(id) || id == key) by {
                    if keys@.take(i as int).contains(id) {
                        let j = choose|j: int|
                            0 <= j < keys@.take(i as int).len() && keys@.take(i as int)[j] == id;
                        assert(keys@.take(i + 1)[j] == id);
                    }
                    if id == key {
                        assert(keys@.take(i + 1)[i as int] == id);
                    }
                }
            }
            match self.sessions.get(&key) {
                Some(session) => {
                    if text::same_text(session.token_hash.as_str(), token_hash) {
                        ids.push(key);
                        proof {
                            assert(sessions[key] == session@);
                            lemma_pushed_u128(ids_before, key);
                        }
                        match &session.routing {
                            ViewerRouting::Rw(client_id) => {
                                clients.push(*client_id);
                                proof {
                                    lemma_pushed_u32(clients_before, *client_id);
                                    assert(sessions[key].routing == RoutingView::Rw(*client_id));
                                    assert(ids@.contains(key));
                                }
                            },
                            ViewerRouting::Ro(_) => {},
                        }
                        proof {
                            assert forall|client_id: u32|
                                clients@.contains(client_id) <==> exists|id: u128|
                                    ids@.contains(id) && #[trigger] sessions[id].routing
                                        == RoutingView::Rw(client_id) by {
                                if clients_before.contains(client_id) {
                                    let id = choose|id: u128|
                                        ids_before.contains(id) && #[trigger] sessions[id].routing
                                            == RoutingView::Rw(client_id);
                                    assert(ids@.contains(id));
                                }
                                if exists|id: u128|
                                    ids@.contains(id) && #[trigger] sessions[id].routing
                                        == RoutingView::Rw(client_id) {
                                    let id = choose|id: u128|
                                        ids@.contains(id) && #[trigger] sessions[id].routing
                                            == RoutingView::Rw(client_id);
                                    if id != key {
                                        assert(ids_before.contains(id));
                                    }
                                }
                            }
                        }
                    } else {
                        proof {
                            assert(sessions[key] == session@);
                        }
                    }
                },
                None => {},
            }
            i = i + 1;
        }
        proof {
            assert(keys@.take(i as int) =~= keys@);
            assert forall|id: u128| ids@.to_set().contains(id) == self@.sessions_of(
                token_hash@,
            ).contains(id) by {
                assert(keys@.contains(id) == keys@.to_set().contains(id));
            }
            assert(ids@.to_set() =~= self@.sessions_of(token_hash@));
            assert forall|client_id: u32| clients@.to_set().contains(client_id)
                == self@.clients_of(token_hash@).contains(client_id) by {
                if clients@.contains(client_id) {
                    let id = choose|id: u128|
                        ids@.contains(id) && #[trigger] sessions[id].routing == RoutingView::Rw(
                            client_id,
                        );
                    assert(ids@.to_set().contains(id));
                    assert(self@.sessions_of(token_hash@).contains(id)
                        && self@.sessions[id].routing == RoutingView::Rw(client_id));
                }
                if self@.clients_of(token_hash@).contains(client_id) {
                    let id = choose|id: u128|
                        self@.sessions_of(token_hash@).contains(id)
                            && #[trigger] self@.sessions[id].routing == RoutingView::Rw(client_id);
                    assert(ids@.to_set().contains(id));
                    assert(ids@.contains(id) && sessions[id].routing == RoutingView::Rw(client_id));
                }
            }
            assert(clients@.to_set() =~= self@.clients_of(token_hash@));
        }
        (ids, clients)
    }

    fn forget_sessions(&mut self, ids: &[u128])
        requires
            old(self).maps_wf(),
        ensures
            final(self).maps_wf(),
            final(self)@ == (TunnelView {
                sessions: old(self)@.sessions.remove_keys(ids@.to_set()),
                ..old(self)@
            }),
    {
        let mut i: usize = 0;
        let ghost sessions = self@.sessions;
        proof {
            assert(sessions.remove_keys(ids@.take(0).to_set()) =~= sessions);
        }
        while i < ids.len()
            invariant
                i <= ids@.len(),
                self.maps_wf(),
                sessions == old(self)@.sessions,
                self@ == (TunnelView {
                    sessions: sessions.remove_keys(ids@.take(i as int).to_set()),
                    ..old(self)@
                }),
            decreases ids@.len() - i,
        {
            self.forget_session(ids[i]);
            proof {
                lemma_next_u128(ids@, i as int);
                assert(self@.sessions =~= sessions.remove_keys(ids@.take(i + 1).to_set()));
            }
            i = i + 1;
        }
        proof {
            assert(ids@.take(i as int) =~= ids@);
        }
    }

    fn forget_clients(&mut self, clients: &[u32])
        requires
            old(self).maps_wf(),
        ensures
            final(self).maps_wf(),
            final(self)@ == (TunnelView {
                client_id_to_viewer: old(self)@.client_id_to_viewer.remove_keys(clients@.to_set()),
                ..old(self)@
            }),
    {
        let mut i: usize = 0;
        let ghost all = self@.client_id_to_viewer;
        proof {
            assert(all.remove_keys(clients@.take(0).to_set()) =~= all);
        }
        while i < clients.len()
            invariant
                i <= clients@.len(),
                self.maps_wf(),
                all == old(self)@.client_id_to_viewer,
                self@ == (TunnelView {
                    client_id_to_viewer: all.remove_keys(clients@.take(i as int).to_set()),
                    ..old(self)@
                }),
            decreases clients@.len() - i,
        {
            let _ = self.client_id_to_viewer.remove(&clients[i]);
            proof {
                lemma_next_u32(clients@, i as int);
                assert(self@.client_id_to_viewer =~= all.remove_keys(
                    clients@.take(i + 1).to_set(),
                ));
            }
            i = i + 1;
        }
        proof {
            assert(clients@.take(i as int) =~= clients@);
        }
    }

    /// Tears down everything that is keyed on a token.
    fn revoke_token(&mut self, token_hash: &str) -> (removed: Vec<(u128, ViewerHandle)>)
        requires
            old(self).maps_wf(),
        ensures
            final(self).maps_wf(),
            final(self)@ == old(self)@.revoked(token_hash@),
            lists_viewers(removed@, old(self)@.viewers, old(self)@.doomed_by(token_hash@)),
    {
        let (session_ids, clients) = self.sessions_with_hash(token_hash);
        let mut doomed: Vec<u128> = vstd::slice::slice_to_vec(session_ids.as_slice());
        match self.take_group(token_hash) {
            Some(group) => {
                doomed.extend_from_slice(group.viewer_ids.as_slice());
                match group.active_client_id {
                    Some(client_id) => self.unlink_client(client_id),
                    None => {},
                }
                proof {
                    let ids = group.viewer_ids@;
                    assert(doomed@ =~= session_ids@ + ids);
                    assert forall|id: u128| doomed@.to_set().contains(id) == old(self)@.doomed_by(
                        token_hash@,
                    ).contains(id) by {
                        assert(session_ids@.to_set().contains(id) == session_ids@.contains(id));
                        if session_ids@.contains(id) {
                            let j = choose|j: int|
                                0 <= j < session_ids@.len() && session_ids@[j] == id;
                            assert(doomed@[j] == id);
                        }
                        if ids.contains(id) {
                            let j = choose|j: int| 0 <= j < ids.len() && ids[j] == id;
                            assert(doomed@[session_ids@.len() + j] == id);
                        }
                        if doomed@.contains(id) {
                            let j = choose|j: int| 0 <= j < doomed@.len() && doomed@[j] == id;
                            if j < session_ids@.len() {
                                assert(session_ids@[j] == id);
                            } else {
                                assert(ids[j - session_ids@.len()] == id);
                            }
                        }
                    }
                    assert(doomed@.to_set() =~= old(self)@.doomed_by(token_hash@));
                }
            },
            None => {
                proof {
                    assert forall|id: u128| doomed@.to_set().contains(id) == old(self)@.doomed_by(
                        token_hash@,
                    ).contains(id) by {
                        assert(session_ids@.to_set().contains(id) == session_ids@.contains(id));
                    }
                    assert(doomed@.to_set() =~= old(self)@.doomed_by(token_hash@));
                }
            },
        }
        let removed = self.remove_viewers(doomed.as_slice());
        self.forget_sessions(session_ids.as_slice());
        self.forget_clients(clients.as_slice());
        proof {
            assert(self@ =~= old(self)@.revoked(token_hash@));
        }
        removed
    }

    fn resize_group(&mut self, client_id: u32, rows: u32, cols: u32)
        requires
            old(self).maps_wf(),
        ensures
            final(self).maps_wf(),
            final(self)@ == old(self)@.resized(client_id, rows, cols),
    {
        let token_hash = match self.client_id_to_token_hash.get(&client_id) {
            Some(token_hash) => token_hash.clone(),
            None => {
                return;
            },
        };
        match self.take_group(token_hash.as_str()) {
            Some(group) => {
                let mut group = group;
                group.session_size = Some((rows, cols));
                self.put_group(token_hash.as_str(), group);
                proof {
                    assert(self@.ro_groups =~= old(self)@.resized(client_id, rows, cols).ro_groups);
                }
            },
            None => {
                proof {
                    assert(self@.ro_groups =~= old(self)@.ro_groups);
                }
            },
        }
    }

    /// What the relay does about a message of the host.
    pub fn dispatch_control(&mut self, message: ControlMessage) -> (dispatch: ControlDispatch)
        requires
            old(self).maps_wf(),
        ensures
            final(self).maps_wf(),
            old(self).wf() ==> final(self).wf(),
            final(self)@ == old(self)@.after_control(message@),
            dispatch_is(old(self)@, message@, dispatch),
    {
        proof {
            if old(self).wf() {
                viewer_laws::law_host_message_in_order(old(self)@, message@);
            }
        }
        match message {
            ControlMessage::AuthResponse {
                request_id,
                client_id,
                accepted,
                is_read_only,
                session_token_hash,
                e2e_encrypted,
            } => {
                match self.pending_auths.remove(request_id.as_slice()) {
                    Some(waiter) => ControlDispatch::Resolve {
                        waiter,
                        result: AuthResponseResult {
                            accepted,
                            client_id,
                            is_read_only,
                            session_token_hash,
                            e2e_encrypted,
                        },
                    },
                    None => ControlDispatch::Nothing,
                }
            },
            ControlMessage::ControlFrameData { client_id, data } => {
                match wire_codec::utf8_text(data.as_slice()) {
                    Some(text) => {
                        let ids = self.viewers_for_client_id(client_id);
                        let sinks = self.control_sinks_for(ids.as_slice());
                        ControlDispatch::SendText { sinks, text: text.to_string() }
                    },
                    None => ControlDispatch::Nothing,
                }
            },
            ControlMessage::ClientDisconnected { client_id } => {
                let ids = self.viewers_for_client_id(client_id);
                let viewers = self.remove_viewers(ids.as_slice());
                ControlDispatch::Disconnect { viewers }
            },
            ControlMessage::SessionSize { client_id, rows, cols } => {
                let ids = self.viewers_for_client_id(client_id);
                let sinks = self.control_sinks_for(ids.as_slice());
                self.resize_group(client_id, rows, cols);
                ControlDispatch::SendText { sinks, text: session_size_json(rows, cols) }
            },
            ControlMessage::RevokeToken { token_hash } => {
                let viewers = self.revoke_token(token_hash.as_str());
                ControlDispatch::Disconnect { viewers }
            },
            _ => ControlDispatch::Nothing,
        }
    }

    /// The viewers whose sockets close when the tunnel closes: all of them.
    pub fn drain_viewers(&mut self) -> (removed: Vec<(u128, ViewerHandle)>)
        requires
            old(self).maps_wf(),
        ensures
            final(self).maps_wf(),
            old(self).wf() ==> final(self).wf(),
            final(self)@ == (TunnelView { viewers: Map::empty(), ..old(self)@ }),
            lists_viewers(removed@, old(self)@.viewers, old(self)@.viewers.dom()),
    {
        let ids = keys_of(&self.viewers);
        let removed = self.remove_viewers(ids.as_slice());
        proof {
            assert(self@.viewers =~= Map::<u128, ViewerHandle>::empty());
        }
        removed
    }
}

proof fn lemma_pushed_u128(s: Seq<u128>, x: u128)
    ensures
        forall|y: u128| #[trigger] s.push(x).contains(y) <==> s.contains(y) || y == x,
{
    assert forall|y: u128| #[trigger] s.push(x).contains(y) <==> s.contains(y) || y == x by {
        if s.contains(y) {
            let j = choose|j: int| 0 <= j < s.len() && s[j] == y;
            assert(s.push(x)[j] == y);
        }
        if y == x {
            assert(s.push(x)[s.len() as int] == y);
        }
    }
}

proof fn lemma_pushed_u32(s: Seq<u32>, x: u32)
    ensures
        forall|y: u32| #[trigger] s.push(x).contains(y) <==> s.contains(y) || y == x,
{
    assert forall|y: u32| #[trigger] s.push(x).contains(y) <==> s.contains(y) || y == x by {
        if s.contains(y) {
            let j = choose|j: int| 0 <= j < s.len() && s[j] == y;
            assert(s.push(x)[j] == y);
        }
        if y == x {
            assert(s.push(x)[s.len() as int] == y);
        }
    }
}

proof fn lemma_next_u128(s: Seq<u128>, i: int)
    requires
        0 <= i < s.len(),
    ensures
        s.take(i + 1).to_set() == s.take(i).to_set().insert(s[i]),
{
    assert(s.take(i + 1) =~= s.take(i).push(s[i]));
    lemma_pushed_u128(s.take(i), s[i]);
    assert(s.take(i + 1).to_set() =~= s.take(i).to_set().insert(s[i]));
}

proof fn lemma_next_u32(s: Seq<u32>, i: int)
    requires
        0 <= i < s.len(),
    ensures
        s.take(i + 1).to_set() == s.take(i).to_set().insert(s[i]),
{
    assert(s.take(i + 1) =~= s.take(i).push(s[i]));
    lemma_pushed_u32(s.take(i), s[i]);
    assert(s.take(i + 1).to_set() =~= s.take(i).to_set().insert(s[i]));
}

} // verus!
