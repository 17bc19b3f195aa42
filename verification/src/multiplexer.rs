//! A session host's end of a tunnel: which viewers it lets in, what it keeps
//! of each, and what goes to and from them.

use crate::collections::keys_of;
use crate::conversion::{ControlMessage, ControlView, TerminalMessage, TerminalView};
use crate::crypto;
use crate::crypto::{KEY_LEN, NONCE_LEN};
use crate::keyed_map::KeyedMap;
use crate::socket::SocketFrame;
use crate::text;
use crate::viewer;
use crate::wire_codec;
use std::collections::HashMap;
use vstd::prelude::*;
use vstd::slice::slice_to_vec;
use vstd::string::*;
use vstd::utf8;

verus! {

/// How often a tunnel is pinged, in seconds.
pub const RELAY_HEARTBEAT_INTERVAL_SECS: u64 = 30;

/// How long a tunnel may be silent before it counts as dead, in seconds.
pub const RELAY_HEARTBEAT_TIMEOUT_SECS: u64 = 60;

/// How long a tunnel may be silent before it counts as dead, in milliseconds.
pub const RELAY_HEARTBEAT_TIMEOUT_MILLIS: u64 = 60_000;

/// How often a tunnel is looked after, in seconds: twice per ping.
pub const RELAY_HEARTBEAT_TICK_SECS: u64 = 15;

/// Why a tunnel came to its end.
#[derive(Debug, Clone, Copy, PartialEq, Eq, Structural)]
pub enum MultiplexerExitReason {
    /// It was to stop.
    Shutdown,
    /// It broke.
    TunnelDropped,
}

/// What ends a tunnel.
#[derive(Debug, Clone, Copy, PartialEq, Eq, Structural)]
pub enum MultiplexerEvent {
    ShutdownRequested,
    ControlSocketClosed,
    TerminalSocketClosed,
    ControlSilent,
    TerminalSilent,
}

/// Why a tunnel that ended so came to its end.
pub fn exit_reason(event: MultiplexerEvent) -> (reason: MultiplexerExitReason)
    ensures
        reason is Shutdown <==> event is ShutdownRequested,
{
    match event {
        MultiplexerEvent::ShutdownRequested => MultiplexerExitReason::Shutdown,
        MultiplexerEvent::ControlSocketClosed => MultiplexerExitReason::TunnelDropped,
        MultiplexerEvent::TerminalSocketClosed => MultiplexerExitReason::TunnelDropped,
        MultiplexerEvent::ControlSilent => MultiplexerExitReason::TunnelDropped,
        MultiplexerEvent::TerminalSilent => MultiplexerExitReason::TunnelDropped,
    }
}

/// The name under which the host knows a client of the relay. The relay gives
/// its viewers the same one.
pub fn relay_virtual_web_client_id(client_id: u32) -> (id: String)
    ensures
        id@ == viewer::web_client_id_of(client_id),
{
    viewer::virtual_web_client_id(client_id)
}

// ---------------------------------------------------------------- heartbeat

/// `std::time::SystemTime::now`, in milliseconds since the epoch; 0 before it.
/// Nothing is known of the value.
#[verifier::external_body]
fn now_millis() -> (now: u64) {
    std::time::SystemTime::now().duration_since(std::time::UNIX_EPOCH).map(
        |d| d.as_millis() as u64,
    ).unwrap_or(0)
}

/// The pulse of a tunnel.
#[derive(Debug, Clone, Copy, PartialEq, Eq, Structural)]
pub struct Heartbeat {
    pub ticks_since_ping: u32,
}

/// What is due at a tick.
#[derive(Debug, Clone, Copy, PartialEq, Eq, Structural)]
pub struct HeartbeatTick {
    /// Send a ping. Where that fails the tunnel is ending anyway.
    pub ping: bool,
    /// The tunnel is dead.
    pub tripped: bool,
}

/// Whether a tunnel that was last heard of at `last` counts as dead at `now`.
/// A clock that has gone back does not make it so.
pub open spec fn is_silent(last: u64, now: u64) -> bool {
    now - last > RELAY_HEARTBEAT_TIMEOUT_MILLIS
}

impl Heartbeat {
    /// The pulse after a tick.
    pub open spec fn ticked(self) -> Heartbeat {
        Heartbeat { ticks_since_ping: ((self.ticks_since_ping + 1) % 2) as u32 }
    }

    /// What is due at a tick at `now`.
    pub open spec fn due(self, last_activity: u64, now: u64) -> HeartbeatTick {
        HeartbeatTick {
            ping: self.ticks_since_ping == 1,
            tripped: is_silent(last_activity, now),
        }
    }

    pub fn new() -> (heartbeat: Heartbeat)
        ensures
            heartbeat.ticks_since_ping == 0,
    {
        Heartbeat { ticks_since_ping: 0 }
    }

    /// What is due now, on a tunnel that was last heard of at `last_activity`.
    /// See [`Heartbeat::tick_at`].
    pub fn tick(&mut self, last_activity: u64) -> (tick: HeartbeatTick)
        requires
            old(self).ticks_since_ping < 2,
        ensures
            *final(self) == old(self).ticked(),
            exists|now: u64| tick == #[trigger] old(self).due(last_activity, now),
    {
        let now = now_millis();
        self.tick_at(last_activity, now)
    }

    /// What is due at `now`, on a tunnel that was last heard of at
    /// `last_activity`: a ping at every second tick, and the end when the
    /// tunnel has been silent for too long.
    pub fn tick_at(&mut self, last_activity: u64, now: u64) -> (tick: HeartbeatTick)
        requires
            old(self).ticks_since_ping < 2,
        ensures
            *final(self) == old(self).ticked(),
            tick == old(self).due(last_activity, now),
    {
        self.ticks_since_ping = self.ticks_since_ping + 1;
        let ping = self.ticks_since_ping as u64 * RELAY_HEARTBEAT_TICK_SECS
            >= RELAY_HEARTBEAT_INTERVAL_SECS;
        if ping {
            self.ticks_since_ping = 0;
        }
        let silence: u64 = if now >= last_activity {
            now - last_activity
        } else {
            0
        };
        HeartbeatTick { ping, tripped: silence > RELAY_HEARTBEAT_TIMEOUT_MILLIS }
    }
}

// ---------------------------------------------------------------- the state

/// A viewer on the far side of the tunnel. The channels are known by number.
#[derive(Debug)]
pub struct RelayVirtualClient {
    pub web_client_id: String,
    pub is_read_only: bool,
    /// Takes what the viewer typed.
    pub terminal_input_tx: u64,
    /// Takes the viewer's control messages.
    pub control_input_tx: u64,
    /// Tells the client to end.
    pub shutdown: Option<u64>,
}

#[verifier::ext_equal]
pub struct ClientView {
    pub web_client_id: Seq<char>,
    pub is_read_only: bool,
    pub terminal_input_tx: u64,
    pub control_input_tx: u64,
    pub shutdown: Option<u64>,
}

impl View for RelayVirtualClient {
    type V = ClientView;

    open spec fn view(&self) -> ClientView {
        ClientView {
            web_client_id: self.web_client_id@,
            is_read_only: self.is_read_only,
            terminal_input_tx: self.terminal_input_tx,
            control_input_tx: self.control_input_tx,
            shutdown: self.shutdown,
        }
    }
}

/// What a session host keeps of one tunnel.
#[derive(Debug)]
pub struct RelayTunnelState {
    /// The number of the next client; the host gives them out.
    pub next_client_id: u32,
    pub clients: HashMap<u32, RelayVirtualClient>,
    pub tunnel_id: String,
    /// The keys of viewers who were let in and have not come yet.
    pub pending_e2e_keys: HashMap<u32, [u8; KEY_LEN]>,
    /// Whether they may only watch.
    pub pending_read_only: HashMap<u32, bool>,
    /// The client through which the group of a read-only token watches.
    pub token_hash_to_client_id: KeyedMap<String, u32>,
    pub session_name: String,
}

#[verifier::ext_equal]
pub struct HostView {
    pub next_client_id: u32,
    pub clients: Map<u32, ClientView>,
    pub tunnel_id: Seq<char>,
    pub pending_e2e_keys: Map<u32, Seq<u8>>,
    pub pending_read_only: Map<u32, bool>,
    pub token_hash_to_client_id: Map<Seq<char>, u32>,
    pub session_name: Seq<char>,
}

pub open spec fn client_views(clients: Map<u32, RelayVirtualClient>) -> Map<u32, ClientView> {
    clients.map_values(|c: RelayVirtualClient| c@)
}

pub open spec fn key_views(keys: Map<u32, [u8; KEY_LEN]>) -> Map<u32, Seq<u8>> {
    keys.map_values(|k: [u8; KEY_LEN]| k@)
}

impl View for RelayTunnelState {
    type V = HostView;

    open spec fn view(&self) -> HostView {
        HostView {
            next_client_id: self.next_client_id,
            clients: client_views(self.clients@),
            tunnel_id: self.tunnel_id@,
            pending_e2e_keys: key_views(self.pending_e2e_keys@),
            pending_read_only: self.pending_read_only@,
            token_hash_to_client_id: self.token_hash_to_client_id@,
            session_name: self.session_name@,
        }
    }
}

impl HostView {
    /// A tunnel without viewers.
    pub open spec fn opened(tunnel_id: Seq<char>, session_name: Seq<char>) -> HostView {
        HostView {
            next_client_id: 1,
            clients: Map::empty(),
            tunnel_id,
            pending_e2e_keys: Map::empty(),
            pending_read_only: Map::empty(),
            token_hash_to_client_id: Map::empty(),
            session_name,
        }
    }

    /// A viewer with a good token was let in as the next client.
    pub open spec fn accepted(self, token_hash: Seq<char>, is_read_only: bool) -> HostView {
        let client_id = self.next_client_id;
        HostView {
            next_client_id: if client_id == u32::MAX {
                0
            } else {
                (client_id + 1) as u32
            },
            pending_e2e_keys: self.pending_e2e_keys.insert(
                client_id,
                crypto::derived_key(token_hash, self.tunnel_id),
            ),
            pending_read_only: self.pending_read_only.insert(client_id, is_read_only),
            token_hash_to_client_id: if is_read_only {
                self.token_hash_to_client_id.insert(token_hash, client_id)
            } else {
                self.token_hash_to_client_id
            },
            ..self
        }
    }

    /// The client is gone.
    pub open spec fn client_gone(self, client_id: u32) -> HostView {
        HostView { clients: self.clients.remove(client_id), ..self }
    }

    /// The relay told how many viewers a read-only group has. With the last
    /// one the group's client goes.
    pub open spec fn ro_count(self, token_hash: Seq<char>, count: u32) -> HostView {
        if count == 0 {
            let after = HostView {
                token_hash_to_client_id: self.token_hash_to_client_id.remove(token_hash),
                ..self
            };
            if self.token_hash_to_client_id.contains_key(token_hash) {
                after.client_gone(self.token_hash_to_client_id[token_hash])
            } else {
                after
            }
        } else {
            self
        }
    }

    /// The client that goes when the relay tells this count.
    pub open spec fn ro_count_ends(self, token_hash: Seq<char>, count: u32) -> Option<u32> {
        if count == 0 && self.token_hash_to_client_id.contains_key(token_hash) {
            Some(self.token_hash_to_client_id[token_hash])
        } else {
            None
        }
    }
}

impl HostView {
    /// Where the data of a message on the terminal tunnel goes.
    pub open spec fn terminal_target(self, message: TerminalView) -> Option<(u64, Seq<u8>)> {
        match message {
            TerminalView::TerminalFrameData { client_id, data } => if self.clients.contains_key(
                client_id,
            ) {
                Some((self.clients[client_id].terminal_input_tx, data))
            } else {
                None
            },
            _ => None,
        }
    }
}

/// What the host's own books say of a token.
#[derive(Debug, Clone, Copy, PartialEq, Eq, Structural)]
pub enum TokenValidation {
    Valid { is_read_only: bool },
    Unknown,
    /// The books could not be read.
    Failed,
}

/// What a client of the relay needs to run.
#[derive(Debug)]
pub struct SpawnedClient {
    pub web_client_id: String,
    /// What stands for a session token in the table of connections.
    pub tunnel_session_hash: String,
    pub e2e_key: [u8; KEY_LEN],
    pub is_read_only: bool,
}

/// The channels of a new client.
#[derive(Debug, Clone, Copy, PartialEq, Eq, Structural)]
pub struct ClientChannels {
    pub terminal_input_tx: u64,
    pub control_input_tx: u64,
    pub shutdown: u64,
}

/// What the host does about a message of the relay.
#[derive(Debug)]
pub enum HostControlAction {
    Nothing,
    /// Look the token up; then [`RelayTunnelState::handle_auth_challenge`].
    Validate { request_id: Vec<u8>, token_hash: String },
    /// Connect to the session; then [`RelayTunnelState::handle_client_connected`].
    Spawn { client_id: u32 },
    /// End the client and take it out of the table of connections.
    TearDown { client: RelayVirtualClient },
    /// Hand the text to the client on this channel.
    Input { channel: u64, text: String },
}

pub open spec fn tunnel_session_hash_of(client_id: u32) -> Seq<char> {
    "relay-tunnel-"@ + text::decimal(client_id as nat)
}

pub open spec fn no_key_message(client_id: u32) -> Seq<char> {
    "no pending e2e key for client_id="@ + text::decimal(client_id as nat)
        + " — ClientConnected without prior AuthChallenge"@
}

pub open spec fn no_flag_message(client_id: u32) -> Seq<char> {
    "no pending is_read_only flag for client_id="@ + text::decimal(client_id as nat)
        + " — spawn without prior AuthChallenge"@
}

/// What [`RelayTunnelState::spawn_virtual_client`] does and returns.
pub open spec fn client_spawned(
    before: HostView,
    after: HostView,
    client_id: u32,
    os_api: Result<(), String>,
    channels: ClientChannels,
    r: Result<SpawnedClient, String>,
) -> bool {
    match os_api {
        Err(e) => {
            &&& after == before
            &&& r matches Err(message) && message@ == "create_client_os_api: "@ + e@
        },
        Ok(_) => if !before.pending_e2e_keys.contains_key(client_id) {
            &&& after == before
            &&& r matches Err(message) && message@ == no_key_message(client_id)
        } else if !before.pending_read_only.contains_key(client_id) {
            &&& after == (HostView {
                pending_e2e_keys: before.pending_e2e_keys.remove(client_id),
                ..before
            })
            &&& r matches Err(message) && message@ == no_flag_message(client_id)
        } else {
            &&& after == (HostView {
                pending_e2e_keys: before.pending_e2e_keys.remove(client_id),
                pending_read_only: before.pending_read_only.remove(client_id),
                clients: before.clients.insert(
                    client_id,
                    ClientView {
                        web_client_id: viewer::web_client_id_of(client_id),
                        is_read_only: before.pending_read_only[client_id],
                        terminal_input_tx: channels.terminal_input_tx,
                        control_input_tx: channels.control_input_tx,
                        shutdown: Some(channels.shutdown),
                    },
                ),
                ..before
            })
            &&& r matches Ok(client) && {
                &&& client.web_client_id@ == viewer::web_client_id_of(client_id)
                &&& client.tunnel_session_hash@ == tunnel_session_hash_of(client_id)
                &&& client.e2e_key@ == before.pending_e2e_keys[client_id]
                &&& client.is_read_only == before.pending_read_only[client_id]
            }
        },
    }
}

/// What [`RelayTunnelState::handle_auth_challenge`] does and returns.
pub open spec fn challenge_answered(
    before: HostView,
    after: HostView,
    request_id: Seq<u8>,
    token_hash: Seq<char>,
    outcome: TokenValidation,
    answer: ControlView,
    spawn: Option<u32>,
) -> bool {
    match outcome {
        TokenValidation::Valid { is_read_only } => {
            &&& after == before.accepted(token_hash, is_read_only)
            &&& answer == (ControlView::AuthResponse {
                request_id,
                client_id: before.next_client_id,
                accepted: true,
                is_read_only,
                session_token_hash: token_hash,
                e2e_encrypted: true,
            })
            &&& spawn == if is_read_only {
                Some(before.next_client_id)
            } else {
                None
            }
        },
        _ => {
            &&& after == before
            &&& answer == (ControlView::AuthResponse {
                request_id,
                client_id: 0,
                accepted: false,
                is_read_only: false,
                session_token_hash: token_hash,
                e2e_encrypted: false,
            })
            &&& spawn is None
        },
    }
}

/// What [`RelayTunnelState::dispatch_relay_control`] does and returns.
pub open spec fn host_dispatched(
    before: HostView,
    after: HostView,
    message: ControlView,
    action: HostControlAction,
) -> bool {
    match message {
        ControlView::AuthChallenge { request_id, token_hash } => {
            &&& after == before
            &&& action matches HostControlAction::Validate {
                request_id: id,
                token_hash: hash,
            } && id@ == request_id && hash@ == token_hash
        },
        ControlView::ClientConnected { client_id } => {
            &&& after == before
            &&& action == (HostControlAction::Spawn { client_id })
        },
        ControlView::ClientDisconnected { client_id } => {
            &&& after == before.client_gone(client_id)
            &&& if before.clients.contains_key(client_id) {
                action matches HostControlAction::TearDown { client } && client@
                    == before.clients[client_id]
            } else {
                action is Nothing
            }
        },
        ControlView::ReadOnlyViewerUpdate { token_hash, count } => {
            &&& after == before.ro_count(token_hash, count)
            &&& match before.ro_count_ends(token_hash, count) {
                Some(client_id) => if before.clients.contains_key(client_id) {
                    action matches HostControlAction::TearDown { client } && client@
                        == before.clients[client_id]
                } else {
                    action is Nothing
                },
                None => action is Nothing,
            }
        },
        ControlView::ControlFrameData { client_id, data } => {
            &&& after == before
            &&& if before.clients.contains_key(client_id) && utf8::valid_utf8(data) {
                action matches HostControlAction::Input { channel, text } && channel
                    == before.clients[client_id].control_input_tx && text@ == utf8::decode_utf8(
                    data,
                )
            } else {
                action is Nothing
            }
        },
        _ => after == before && action is Nothing,
    }
}

impl RelayTunnelState {
    pub open spec fn wf(&self) -> bool {
        self.token_hash_to_client_id.wf()
    }

    /// A tunnel without viewers.
    pub fn new(tunnel_id: String, session_name: String) -> (state: RelayTunnelState)
        ensures
            state.wf(),
            state@ == HostView::opened(tunnel_id@, session_name@),
    {
        let state = RelayTunnelState {
            next_client_id: 1,
            clients: HashMap::new(),
            tunnel_id,
            pending_e2e_keys: HashMap::new(),
            pending_read_only: HashMap::new(),
            token_hash_to_client_id: KeyedMap::new(),
            session_name,
        };
        proof {
            assert(state@.clients =~= Map::<u32, ClientView>::empty());
            assert(state@.pending_e2e_keys =~= Map::<u32, Seq<u8>>::empty());
        }
        state
    }

    /// Answers the relay's question whether a viewer may attach. For a
    /// read-only viewer the client has to be connected at once: its number is
    /// given back beside the answer.
    pub fn handle_auth_challenge(
        &mut self,
        request_id: Vec<u8>,
        token_hash: String,
        outcome: TokenValidation,
    ) -> (r: (ControlMessage, Option<u32>))
        requires
            old(self).wf(),
        ensures
            final(self).wf(),
            challenge_answered(
                old(self)@,
                final(self)@,
                request_id@,
                token_hash@,
                outcome,
                r.0@,
                r.1,
            ),
    {
        match outcome {
            TokenValidation::Valid { is_read_only } => {
                let client_id = self.next_client_id;
                self.next_client_id = if client_id == u32::MAX {
                    0
                } else {
                    client_id + 1
                };
                let key = crypto::derive_key(token_hash.as_str(), self.tunnel_id.as_str());
                let _ = self.pending_e2e_keys.insert(client_id, key);
                let _ = self.pending_read_only.insert(client_id, is_read_only);
                if is_read_only {
                    let _ = self.token_hash_to_client_id.insert(token_hash.clone(), client_id);
                }
                proof {
                    assert(self@.pending_e2e_keys =~= old(self)@.accepted(
                        token_hash@,
                        is_read_only,
                    ).pending_e2e_keys);
                }
                let response = ControlMessage::AuthResponse {
                    request_id,
                    client_id,
                    accepted: true,
                    is_read_only,
                    session_token_hash: token_hash,
                    e2e_encrypted: true,
                };
                let spawn: Option<u32> = if is_read_only {
                    Some(client_id)
                } else {
                    None
                };
                (response, spawn)
            },
            _ => {
                let response = ControlMessage::AuthResponse {
                    request_id,
                    client_id: 0,
                    accepted: false,
                    is_read_only: false,
                    session_token_hash: token_hash,
                    e2e_encrypted: false,
                };
                (response, None)
            },
        }
    }

    /// Makes a client of a viewer who was let in. `os_api` says whether the
    /// client could be connected to the session. A client that was never let
    /// in gets nothing.
    pub fn spawn_virtual_client(
        &mut self,
        client_id: u32,
        os_api: Result<(), String>,
        channels: ClientChannels,
    ) -> (r: Result<SpawnedClient, String>)
        requires
            old(self).wf(),
        ensures
            final(self).wf(),
            client_spawned(old(self)@, final(self)@, client_id, os_api, channels, r),
    {
        match os_api {
            Ok(_) => {},
            Err(e) => {
                return Err("create_client_os_api: ".to_string().concat(e.as_str()));
            },
        }
        let web_client_id = relay_virtual_web_client_id(client_id);
        let e2e_key = match self.pending_e2e_keys.remove(&client_id) {
            Some(key) => key,
            None => {
                proof {
                    assert(self@.pending_e2e_keys =~= old(self)@.pending_e2e_keys);
                }
                return Err(
                    "no pending e2e key for client_id=".to_string().concat(
                        text::decimal_text(client_id as u64).as_str(),
                    ).concat(" — ClientConnected without prior AuthChallenge"),
                );
            },
        };
        proof {
            assert(self@.pending_e2e_keys =~= old(self)@.pending_e2e_keys.remove(client_id));
        }
        let is_read_only = match self.pending_read_only.remove(&client_id) {
            Some(flag) => flag,
            None => {
                proof {
                    assert(self@.pending_read_only =~= old(self)@.pending_read_only);
                }
                return Err(
                    "no pending is_read_only flag for client_id=".to_string().concat(
                        text::decimal_text(client_id as u64).as_str(),
                    ).concat(" — spawn without prior AuthChallenge"),
                );
            },
        };
        let client = RelayVirtualClient {
            web_client_id: web_client_id.clone(),
            is_read_only,
            terminal_input_tx: channels.terminal_input_tx,
            control_input_tx: channels.control_input_tx,
            shutdown: Some(channels.shutdown),
        };
        let ghost client_view = client@;
        let _ = self.clients.insert(client_id, client);
        proof {
            assert(self@.clients =~= old(self)@.clients.insert(client_id, client_view));
        }
        let tunnel_session_hash = "relay-tunnel-".to_string().concat(
            text::decimal_text(client_id as u64).as_str(),
        );
        Ok(SpawnedClient { web_client_id, tunnel_session_hash, e2e_key, is_read_only })
    }

    /// The relay told that a viewer has come. Where no client can be made of
    /// it, the relay is told that the viewer is gone.
    pub fn handle_client_connected(
        &mut self,
        client_id: u32,
        os_api: Result<(), String>,
        channels: ClientChannels,
    ) -> (r: Result<SpawnedClient, ControlMessage>)
        requires
            old(self).wf(),
        ensures
            final(self).wf(),
            exists|spawned: Result<SpawnedClient, String>| #[trigger]
                client_spawned(old(self)@, final(self)@, client_id, os_api, channels, spawned)
                    && match spawned {
                    Ok(client) => r == Ok::<SpawnedClient, ControlMessage>(client),
                    Err(_) => r matches Err(message) && message@ == (
                    ControlView::ClientDisconnected { client_id }),
                },
    {
        let spawned = self.spawn_virtual_client(client_id, os_api, channels);
        let ghost s = spawned;
        match spawned {
            Ok(client) => {
                let r = Ok(client);
                proof {
                    assert(client_spawned(old(self)@, self@, client_id, os_api, channels, s));
                }
                r
            },
            Err(_) => Err(ControlMessage::ClientDisconnected { client_id }),
        }
    }

    /// A viewer is gone; its client, where it has one, is given back to be
    /// ended.
    pub fn handle_client_disconnected(&mut self, client_id: u32) -> (r: Option<RelayVirtualClient>)
        requires
            old(self).wf(),
        ensures
            final(self).wf(),
            final(self)@ == old(self)@.client_gone(client_id),
            match r {
                Some(client) => old(self)@.clients.contains_key(client_id) && client@
                    == old(self)@.clients[client_id],
                None => !old(self)@.clients.contains_key(client_id),
            },
    {
        let r = self.clients.remove(&client_id);
        proof {
            assert(self@.clients =~= old(self)@.clients.remove(client_id));
        }
        r
    }

    /// The relay told how many viewers a read-only group has; with the last
    /// one the group's client is given back to be ended.
    pub fn handle_read_only_viewer_update(&mut self, token_hash: String, count: u32) -> (r: Option<
        RelayVirtualClient,
    >)
        requires
            old(self).wf(),
        ensures
            final(self).wf(),
            final(self)@ == old(self)@.ro_count(token_hash@, count),
            match old(self)@.ro_count_ends(token_hash@, count) {
                Some(client_id) => match r {
                    Some(client) => old(self)@.clients.contains_key(client_id) && client@
                        == old(self)@.clients[client_id],
                    None => !old(self)@.clients.contains_key(client_id),
                },
                None => r is None,
            },
    {
        if count == 0 {
            match self.token_hash_to_client_id.remove(token_hash.as_str()) {
                Some(client_id) => self.handle_client_disconnected(client_id),
                None => None,
            }
        } else {
            None
        }
    }

    /// What the host does about a message of the relay.
    pub fn dispatch_relay_control(&mut self, message: ControlMessage) -> (action: HostControlAction)
        requires
            old(self).wf(),
        ensures
            final(self).wf(),
            host_dispatched(old(self)@, final(self)@, message@, action),
    {
        match message {
            ControlMessage::AuthChallenge { request_id, token_hash } => HostControlAction::Validate {
                request_id,
                token_hash,
            },
            ControlMessage::ClientConnected { client_id } => HostControlAction::Spawn { client_id },
            ControlMessage::ClientDisconnected { client_id } => {
                match self.handle_client_disconnected(client_id) {
                    Some(client) => HostControlAction::TearDown { client },
                    None => HostControlAction::Nothing,
                }
            },
            ControlMessage::ReadOnlyViewerUpdate { token_hash, count } => {
                match self.handle_read_only_viewer_update(token_hash, count) {
                    Some(client) => HostControlAction::TearDown { client },
                    None => HostControlAction::Nothing,
                }
            },
            ControlMessage::ControlFrameData { client_id, data } => {
                match self.clients.get(&client_id) {
                    Some(client) => match wire_codec::utf8_text(data.as_slice()) {
                        Some(text) => HostControlAction::Input {
                            channel: client.control_input_tx,
                            text: text.to_string(),
                        },
                        None => HostControlAction::Nothing,
                    },
                    None => HostControlAction::Nothing,
                }
            },
            _ => HostControlAction::Nothing,
        }
    }

    /// Where the data of a message of the relay's terminal tunnel goes: the
    /// channel of the client, if there is such a client.
    pub fn dispatch_relay_terminal(&self, message: TerminalMessage) -> (r: Option<(u64, Vec<u8>)>)
        ensures
            match self@.terminal_target(message@) {
                Some((input_tx, bytes)) => r matches Some((channel, sent)) && channel == input_tx
                    && sent@ == bytes,
                None => r is None,
            },
    {
        match message {
            TerminalMessage::TerminalFrameData { client_id, data } => {
                match self.clients.get(&client_id) {
                    Some(client) => Some((client.terminal_input_tx, data)),
                    None => None,
                }
            },
            _ => None,
        }
    }

    /// The tunnel came to its end: its clients are given back to be ended.
    pub fn drain_clients(&mut self) -> (clients: Vec<(u32, RelayVirtualClient)>)
        requires
            old(self).wf(),
        ensures
            final(self).wf(),
            final(self)@ == (HostView { clients: Map::empty(), ..old(self)@ }),
            clients@.no_duplicates(),
            forall|client_id: u32, client: RelayVirtualClient|
                clients@.contains((client_id, client)) <==> old(self).clients@.contains_key(
                    client_id,
                ) && old(self).clients@[client_id] == client,
    {
        let keys = keys_of(&self.clients);
        let mut out: Vec<(u32, RelayVirtualClient)> = Vec::new();
        let mut i: usize = 0;
        let ghost all = self.clients@;
        while i < keys.len()
            invariant
                i <= keys@.len(),
                self.wf(),
                all == old(self).clients@,
                keys@.no_duplicates(),
                keys@.to_set() == all.dom(),
                self@ == (HostView { clients: self@.clients, ..old(self)@ }),
                forall|id: u32| #[trigger]
                    self.clients@.contains_key(id) <==> all.contains_key(id) && !keys@.take(
                        i as int,
                    ).contains(id),
                forall|id: u32| #[trigger]
                    self.clients@.contains_key(id) ==> self.clients@[id] == all[id],
                out@.len() == i,
                forall|j: int| 0 <= j < i ==> #[trigger] out@[j] == (keys@[j], all[keys@[j]]),
            decreases keys@.len() - i,
        {
            let key = keys[i];
            proof {
                assert(keys@.contains(key));
                assert(keys@.to_set().contains(key));
                assert(all.contains_key(key));
                assert(keys@.take(i + 1) =~= keys@.take(i as int).push(key));
                if keys@.take(i as int).contains(key) {
                    let j = choose|j: int|
                        0 <= j < keys@.take(i as int).len() && keys@.take(i as int)[j] == key;
                    assert(keys@[j] == keys@[i as int]);
                }
                assert forall|id: u32| keys@.take(i + 1).contains(id) == (keys@.take(
                    i as int,
                ).contains(id) || id == key) by {
                    if keys@.take(i as int).contains(id) {
                        let j = choose|j: int|
                            0 <= j < keys@.take(i as int).len() && keys@.take(i as int)[j] == id;
                        assert(keys@.take(i + 1)[j] == id);
                    }
                    if id == key {
                        assert(keys@.take(i + 1)[i as int] == id);
                    }
                }
            }
            match self.clients.remove(&key) {
                Some(client) => {
                    out.push((key, client));
                },
                None => {
                    proof {
                        assert(false);
                    }
                },
            }
            i = i + 1;
        }
        proof {
            assert(keys@.take(i as int) =~= keys@);
            assert forall|id: u32| !self.clients@.contains_key(id) by {
                if self.clients@.contains_key(id) {
                    assert(keys@.to_set().contains(id));
                    assert(keys@.contains(id));
                }
            }
            assert(self@.clients =~= Map::<u32, ClientView>::empty());
            assert forall|id: u32, client: RelayVirtualClient|
                out@.contains((id, client)) <==> all.contains_key(id) && all[id] == client by {
                if out@.contains((id, client)) {
                    let j = choose|j: int| 0 <= j < out@.len() && out@[j] == (id, client);
                    assert(keys@.contains(keys@[j]));
                    assert(keys@.to_set().contains(keys@[j]));
                }
                if all.contains_key(id) && all[id] == client {
                    assert(keys@.to_set().contains(id));
                    let j = choose|j: int| 0 <= j < keys@.len() && keys@[j] == id;
                    assert(out@[j] == (id, client));
                }
            }
        }
        out
    }
}

// ---------------------------------------------------------------- the pumps

/// What is sent to the viewer for terminal output, or nothing where it cannot
/// be encrypted. See [`outbound_terminal_with`].
pub fn outbound_terminal(key: &[u8; KEY_LEN], client_id: u32, output: &str) -> (r: Option<
    TerminalMessage,
>)
    requires
        crypto::plaintext_fits(utf8::encode_utf8(output@).len()),
    ensures
        exists|nonce: Seq<u8>|
            nonce.len() == NONCE_LEN && #[trigger] output_sealed(
                key@,
                nonce,
                client_id,
                output@,
                r,
            ),
{
    match crypto::encrypt(key, output.as_bytes()) {
        Ok(data) => {
            let ghost nonce = data@.take(NONCE_LEN as int);
            let r = Some(TerminalMessage::TerminalFrameData { client_id, data });
            proof {
                assert(output_sealed(key@, nonce, client_id, output@, r));
            }
            r
        },
        Err(_) => {
            proof {
                let nonce = Seq::new(NONCE_LEN as nat, |i: int| 0u8);
                assert(output_sealed(key@, nonce, client_id, output@, None));
            }
            None
        },
    }
}

/// What [`outbound_terminal_with`] returns.
pub open spec fn output_sealed(
    key: Seq<u8>,
    nonce: Seq<u8>,
    client_id: u32,
    output: Seq<char>,
    r: Option<TerminalMessage>,
) -> bool {
    let plaintext = utf8::encode_utf8(output);
    if plaintext.len() > crypto::PLAINTEXT_LIMIT {
        r is None
    } else {
        let data = crypto::sealed_payload(key, nonce, plaintext);
        &&& r matches Some(message) && message@ == (TerminalView::TerminalFrameData {
            client_id,
            data,
        })
        &&& crypto::opened_payload(key, data) == Ok::<Seq<u8>, crypto::CryptoError>(plaintext)
    }
}

/// What is sent to the viewer for terminal output, with a given nonce. The
/// viewer gets the output back from it.
pub fn outbound_terminal_with(
    key: &[u8; KEY_LEN],
    nonce: &[u8; NONCE_LEN],
    client_id: u32,
    output: &str,
) -> (r: Option<TerminalMessage>)
    requires
        crypto::plaintext_fits(utf8::encode_utf8(output@).len()),
    ensures
        output_sealed(key@, nonce@, client_id, output@, r),
{
    match crypto::encrypt_with_nonce(key, nonce, output.as_bytes()) {
        Ok(data) => Some(TerminalMessage::TerminalFrameData { client_id, data }),
        Err(_) => None,
    }
}

/// What is made of a control message for the viewer.
#[derive(Debug)]
pub enum OutboundControl {
    Send(ControlMessage),
    Skipped,
    Ended,
}

/// What [`outbound_control`] returns.
pub open spec fn control_sent(
    client_id: u32,
    frame: SocketFrame,
    session_size: Option<(u32, u32)>,
    r: OutboundControl,
) -> bool {
    match frame {
        SocketFrame::Text(t) => r matches OutboundControl::Send(message) && message@
            == match session_size {
            Some((rows, cols)) => ControlView::SessionSize { client_id, rows, cols },
            None => ControlView::ControlFrameData { client_id, data: utf8::encode_utf8(t@) },
        },
        SocketFrame::Binary(b) => r matches OutboundControl::Send(message) && message@ == (
        ControlView::ControlFrameData { client_id, data: b@ }),
        SocketFrame::Close => r is Ended,
        _ => r is Skipped,
    }
}

/// What is made of a control message for the viewer. `session_size` is the size
/// that the message tells, where it is a text that tells the session's size:
/// such a message goes to the relay itself, which hands it to all viewers of a
/// group. Everything else goes to the one client.
pub fn outbound_control(
    client_id: u32,
    frame: SocketFrame,
    session_size: Option<(u32, u32)>,
) -> (r: OutboundControl)
    ensures
        control_sent(client_id, frame, session_size, r),
{
    match frame {
        SocketFrame::Text(t) => match session_size {
            Some((rows, cols)) => OutboundControl::Send(
                ControlMessage::SessionSize { client_id, rows, cols },
            ),
            None => OutboundControl::Send(
                ControlMessage::ControlFrameData {
                    client_id,
                    data: slice_to_vec(t.as_str().as_bytes()),
                },
            ),
        },
        SocketFrame::Binary(data) => OutboundControl::Send(
            ControlMessage::ControlFrameData { client_id, data },
        ),
        SocketFrame::Close => OutboundControl::Ended,
        SocketFrame::Other => OutboundControl::Skipped,
        SocketFrame::Failed => OutboundControl::Skipped,
    }
}

/// What [`inbound_terminal`] returns.
pub open spec fn input_opened(
    key: Seq<u8>,
    is_read_only: bool,
    data: Seq<u8>,
    r: Option<Vec<u8>>,
) -> bool {
    match (is_read_only, crypto::opened_payload(key, data)) {
        (false, Ok(p)) => r matches Some(plaintext) && plaintext@ == p,
        _ => r is None,
    }
}

/// What the session gets of what a viewer typed: nothing from a viewer who may
/// only watch, and nothing that does not decrypt.
pub fn inbound_terminal(key: &[u8; KEY_LEN], is_read_only: bool, data: &[u8]) -> (r: Option<
    Vec<u8>,
>)
    requires
        crypto::payload_fits(data@.len()),
    ensures
        input_opened(key@, is_read_only, data@, r),
{
    if is_read_only {
        return None;
    }
    match crypto::decrypt(key, data) {
        Ok(plaintext) => Some(plaintext),
        Err(_) => None,
    }
}

/// What becomes of a control message of a viewer.
#[derive(Debug)]
pub enum ControlInput<P> {
    /// The client that the message names takes the payload.
    Deliver { web_client_id: String, payload: P },
    /// No client with this name is connected.
    UnknownClient(String),
    /// It is no control message.
    Malformed,
}

/// What [`dispatch_control_message`] returns.
pub open spec fn control_delivered<P>(
    message: Option<(String, P)>,
    connected: Seq<Seq<char>>,
    r: ControlInput<P>,
) -> bool {
    match message {
        None => r is Malformed,
        Some((id, sent)) => if connected.contains(id@) {
            r == (ControlInput::Deliver { web_client_id: id, payload: sent })
        } else {
            r == ControlInput::<P>::UnknownClient(id)
        },
    }
}

/// What becomes of a control message of a viewer: it goes to the client that
/// the message itself names, if that one is connected. `message` is `None` for
/// a text that is no control message.
pub fn dispatch_control_message<P>(
    message: Option<(String, P)>,
    connected: &[String],
) -> (r: ControlInput<P>)
    ensures
        control_delivered(message, text::text_views(connected@), r),
{
    let (web_client_id, payload) = match message {
        Some(message) => message,
        None => {
            return ControlInput::Malformed;
        },
    };
    let ghost names = text::text_views(connected@);
    let mut i: usize = 0;
    while i < connected.len()
        invariant
            i <= connected@.len(),
            message == Some((web_client_id, payload)),
            names == text::text_views(connected@),
            forall|j: int| 0 <= j < i ==> #[trigger] names[j] != web_client_id@,
        decreases connected@.len() - i,
    {
        proof {
            assert(names[i as int] == connected@[i as int]@);
        }
        if text::same_text(connected[i].as_str(), web_client_id.as_str()) {
            proof {
                assert(names.contains(web_client_id@));
            }
            return ControlInput::Deliver { web_client_id, payload };
        }
        i = i + 1;
    }
    ControlInput::UnknownClient(web_client_id)
}

/// The control message that carries the configuration to a new client.
pub fn set_config_frame(client_id: u32, json: String) -> (message: ControlMessage)
    ensures
        message@ == (ControlView::ControlFrameData { client_id, data: utf8::encode_utf8(json@) }),
{
    ControlMessage::ControlFrameData { client_id, data: slice_to_vec(json.as_str().as_bytes()) }
}

// ---------------------------------------------------------------- laws

/// The keys and flags that wait belong to the same clients.
pub open spec fn pending_in_step(host: HostView) -> bool {
    forall|client_id: u32| #[trigger]
        host.pending_e2e_keys.contains_key(client_id) <==> host.pending_read_only.contains_key(
            client_id,
        )
}

/// Letting a viewer in keeps keys and flags in step.
pub proof fn law_accept_keeps_step(host: HostView, token_hash: Seq<char>, is_read_only: bool)
    requires
        pending_in_step(host),
    ensures
        pending_in_step(host.accepted(token_hash, is_read_only)),
{
    let after = host.accepted(token_hash, is_read_only);
    assert forall|c: u32| #[trigger]
        after.pending_e2e_keys.contains_key(c) <==> after.pending_read_only.contains_key(c) by {
        assert(host.pending_e2e_keys.contains_key(c) <==> host.pending_read_only.contains_key(c));
    }
}

/// Making a client keeps keys and flags in step; and where they are in step,
/// every client with a key can be made, once it can be connected.
pub proof fn law_spawn_keeps_step(
    before: HostView,
    after: HostView,
    client_id: u32,
    os_api: Result<(), String>,
    channels: ClientChannels,
    r: Result<SpawnedClient, String>,
)
    requires
        pending_in_step(before),
        client_spawned(before, after, client_id, os_api, channels, r),
    ensures
        pending_in_step(after),
        r is Ok <==> os_api is Ok && before.pending_e2e_keys.contains_key(client_id),
{
    assert(before.pending_e2e_keys.contains_key(client_id)
        <==> before.pending_read_only.contains_key(client_id));
    assert forall|c: u32| #[trigger]
        after.pending_e2e_keys.contains_key(c) <==> after.pending_read_only.contains_key(c) by {
        assert(before.pending_e2e_keys.contains_key(c) <==> before.pending_read_only.contains_key(
            c,
        ));
    }
}

/// A viewer who was let in can be made a client exactly once, with the key
/// that its token gives and the rights that it was let in with.
pub proof fn law_accepted_viewer_spawns_once(
    host: HostView,
    token_hash: Seq<char>,
    is_read_only: bool,
    after: HostView,
    channels: ClientChannels,
    first: Result<SpawnedClient, String>,
    last: HostView,
    second: Result<SpawnedClient, String>,
)
    requires
        client_spawned(
            host.accepted(token_hash, is_read_only),
            after,
            host.next_client_id,
            Ok(()),
            channels,
            first,
        ),
        client_spawned(after, last, host.next_client_id, Ok(()), channels, second),
    ensures
        first matches Ok(client) && client.e2e_key@ == crypto::derived_key(
            token_hash,
            host.tunnel_id,
        ) && client.is_read_only == is_read_only,
        after.clients.contains_key(host.next_client_id),
        second is Err,
        last == after,
{
}

/// When the relay tells that a read-only group has no viewers left, the client
/// that was made for it is gone and the group is forgotten; as long as it has
/// viewers nothing changes.
pub proof fn law_dormant_group_is_forgotten(host: HostView, token_hash: Seq<char>, count: u32)
    ensures
        count == 0 ==> !host.ro_count(token_hash, 0).token_hash_to_client_id.contains_key(
            token_hash,
        ),
        count == 0 && host.token_hash_to_client_id.contains_key(token_hash) ==> !host.ro_count(
            token_hash,
            0,
        ).clients.contains_key(host.token_hash_to_client_id[token_hash]),
        count > 0 ==> host.ro_count(token_hash, count) == host,
{
}

/// What the host seals for a viewer, the viewer opens with the key that it
/// derives from the hash of its own token, and gets the output back.
pub proof fn law_viewer_reads_output(
    token: Seq<char>,
    host: HostView,
    is_read_only: bool,
    nonce: Seq<u8>,
    client_id: u32,
    output: Seq<char>,
    r: Option<TerminalMessage>,
)
    requires
        utf8::encode_utf8(output).len() <= crypto::PLAINTEXT_LIMIT,
        output_sealed(
            host.accepted(
                crypto::hashed_token(token),
                is_read_only,
            ).pending_e2e_keys[host.next_client_id],
            nonce,
            client_id,
            output,
            r,
        ),
    ensures
        r matches Some(message) && message@ matches TerminalView::TerminalFrameData {
            client_id: id,
            data,
        } && id == client_id && crypto::opened_payload(
            crypto::derived_key(crypto::hashed_token(token), host.tunnel_id),
            data,
        ) == Ok::<Seq<u8>, crypto::CryptoError>(utf8::encode_utf8(output)),
{
}

/// The frames that go out, in order.
pub open spec fn sent_frames(results: Seq<Option<TerminalMessage>>) -> Seq<TerminalView>
    decreases results.len(),
{
    if results.len() == 0 {
        Seq::empty()
    } else {
        let sent = sent_frames(results.drop_last());
        match results.last() {
            Some(message) => sent.push(message@),
            None => sent,
        }
    }
}

/// What whoever holds the key reads in the frames of a client, in order.
pub open spec fn read_frames(key: Seq<u8>, client_id: u32, frames: Seq<TerminalView>) -> Seq<
    Seq<u8>,
>
    decreases frames.len(),
{
    if frames.len() == 0 {
        Seq::empty()
    } else {
        let read = read_frames(key, client_id, frames.drop_last());
        match frames.last() {
            TerminalView::TerminalFrameData { client_id: id, data } => match crypto::opened_payload(
                key,
                data,
            ) {
                Ok(plaintext) if id == client_id => read.push(plaintext),
                _ => read,
            },
            _ => read,
        }
    }
}

/// The outputs that can be encrypted, in order, as bytes.
pub open spec fn sealable(outputs: Seq<Seq<char>>) -> Seq<Seq<u8>>
    decreases outputs.len(),
{
    if outputs.len() == 0 {
        Seq::empty()
    } else {
        let rest = sealable(outputs.drop_last());
        let bytes = utf8::encode_utf8(outputs.last());
        if bytes.len() <= crypto::PLAINTEXT_LIMIT {
            rest.push(bytes)
        } else {
            rest
        }
    }
}

/// What reaches the session, in order.
pub open spec fn delivered(results: Seq<Option<Vec<u8>>>) -> Seq<Seq<u8>>
    decreases results.len(),
{
    if results.len() == 0 {
        Seq::empty()
    } else {
        let rest = delivered(results.drop_last());
        match results.last() {
            Some(bytes) => rest.push(bytes@),
            None => rest,
        }
    }
}

/// The inputs that decrypt, in order, decrypted.
pub open spec fn openable(key: Seq<u8>, inputs: Seq<Seq<u8>>) -> Seq<Seq<u8>>
    decreases inputs.len(),
{
    if inputs.len() == 0 {
        Seq::empty()
    } else {
        let rest = openable(key, inputs.drop_last());
        match crypto::opened_payload(key, inputs.last()) {
            Ok(plaintext) => rest.push(plaintext),
            Err(_) => rest,
        }
    }
}

/// The frames that are made of a client's output, one for each output that can
/// be encrypted, read with the client's key, give that output back: all of it,
/// once, and in order.
pub proof fn law_output_read_in_order(
    key: Seq<u8>,
    client_id: u32,
    nonces: Seq<Seq<u8>>,
    outputs: Seq<Seq<char>>,
    results: Seq<Option<TerminalMessage>>,
)
    requires
        nonces.len() == outputs.len(),
        results.len() == outputs.len(),
        forall|i: int|
            0 <= i < outputs.len() ==> output_sealed(
                key,
                nonces[i],
                client_id,
                outputs[i],
                #[trigger] results[i],
            ),
    ensures
        read_frames(key, client_id, sent_frames(results)) == sealable(outputs),
    decreases outputs.len(),
{
    if outputs.len() > 0 {
        let n = outputs.len() - 1;
        assert forall|i: int| 0 <= i < n implies output_sealed(
            key,
            nonces.drop_last()[i],
            client_id,
            outputs.drop_last()[i],
            #[trigger] results.drop_last()[i],
        ) by {
            assert(results.drop_last()[i] == results[i]);
        }
        law_output_read_in_order(
            key,
            client_id,
            nonces.drop_last(),
            outputs.drop_last(),
            results.drop_last(),
        );
        assert(output_sealed(key, nonces[n], client_id, outputs[n], results[n]));
        if let Some(message) = results.last() {
            let frames = sent_frames(results);
            assert(frames.drop_last() =~= sent_frames(results.drop_last()));
            assert(frames.last() == message@);
        }
    }
}

/// What reaches the session of what a viewer typed is what decrypts of it, once
/// and in order; nothing at all of a viewer who may only watch.
pub proof fn law_input_delivered_in_order(
    key: Seq<u8>,
    is_read_only: bool,
    inputs: Seq<Seq<u8>>,
    results: Seq<Option<Vec<u8>>>,
)
    requires
        results.len() == inputs.len(),
        forall|i: int|
            0 <= i < inputs.len() ==> input_opened(
                key,
                is_read_only,
                inputs[i],
                #[trigger] results[i],
            ),
    ensures
        delivered(results) == if is_read_only {
            Seq::empty()
        } else {
            openable(key, inputs)
        },
    decreases inputs.len(),
{
    if inputs.len() > 0 {
        let n = inputs.len() - 1;
        assert forall|i: int| 0 <= i < n implies input_opened(
            key,
            is_read_only,
            inputs.drop_last()[i],
            #[trigger] results.drop_last()[i],
        ) by {
            assert(results.drop_last()[i] == results[i]);
        }
        law_input_delivered_in_order(key, is_read_only, inputs.drop_last(), results.drop_last());
        assert(input_opened(key, is_read_only, inputs[n], results[n]));
    }
}

/// A client that was made carries its viewer's traffic: with the key that
/// waited for the client, the viewer reads all of the output in order, and the
/// session gets in order what of the viewer's input decrypts, or none of it
/// where the viewer was let in to watch.
pub proof fn law_spawned_client_carries_traffic(
    before: HostView,
    after: HostView,
    client_id: u32,
    channels: ClientChannels,
    client: SpawnedClient,
    nonces: Seq<Seq<u8>>,
    outputs: Seq<Seq<char>>,
    frames: Seq<Option<TerminalMessage>>,
    inputs: Seq<Seq<u8>>,
    taken: Seq<Option<Vec<u8>>>,
)
    requires
        client_spawned(before, after, client_id, Ok(()), channels, Ok(client)),
        nonces.len() == outputs.len(),
        frames.len() == outputs.len(),
        forall|i: int|
            0 <= i < outputs.len() ==> output_sealed(
                client.e2e_key@,
                nonces[i],
                client_id,
                outputs[i],
                #[trigger] frames[i],
            ),
        taken.len() == inputs.len(),
        forall|i: int|
            0 <= i < inputs.len() ==> input_opened(
                client.e2e_key@,
                client.is_read_only,
                inputs[i],
                #[trigger] taken[i],
            ),
    ensures
        before.pending_e2e_keys.contains_key(client_id),
        before.pending_read_only.contains_key(client_id),
        read_frames(before.pending_e2e_keys[client_id], client_id, sent_frames(frames)) == sealable(
            outputs,
        ),
        delivered(taken) == if before.pending_read_only[client_id] {
            Seq::empty()
        } else {
            openable(before.pending_e2e_keys[client_id], inputs)
        },
{
    law_output_read_in_order(client.e2e_key@, client_id, nonces, outputs, frames);
    law_input_delivered_in_order(client.e2e_key@, client.is_read_only, inputs, taken);
}

} // verus!
