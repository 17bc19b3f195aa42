//! What a session host keeps of its tunnels to relays.

use crate::collections::keys_of;
use crate::conversion::{ControlMessage, ControlView};
use crate::text;
use std::collections::HashMap;
use vstd::prelude::*;
use vstd::string::*;

verus! {

/// How a tunnel fares.
#[derive(Debug, Clone, PartialEq, Eq)]
pub enum RelayTunnelStatus {
    /// The tunnel is up, under this address.
    Connected(String),
    /// The tunnel is down and being opened again, for the `attempt`th time.
    Reconnecting { last_known_url: Option<String>, attempt: u32 },
    /// The tunnel is down for good, for this reason.
    Failed(String),
}

impl RelayTunnelStatus {
    /// What begins the text of a tunnel that is being opened again. It cannot
    /// be taken for an address.
    pub const RECONNECTING_SENTINEL: &'static str = "__RELAY_RECONNECTING__:";

    /// What begins the text of a tunnel that is down for good.
    pub const FAILED_SENTINEL: &'static str = "__RELAY_FAILED__:";

    pub open spec fn sentinel(self) -> Seq<char> {
        match self {
            RelayTunnelStatus::Connected(url) => url@,
            RelayTunnelStatus::Reconnecting { attempt, .. } => RelayTunnelStatus::RECONNECTING_SENTINEL@
                + text::decimal(attempt as nat),
            RelayTunnelStatus::Failed(message) => RelayTunnelStatus::FAILED_SENTINEL@ + message@,
        }
    }

    /// The status as one text: the address, or a sentinel and what belongs to
    /// it.
    pub fn to_mode_info_sentinel(&self) -> (r: Option<String>)
        ensures
            r matches Some(s) && s@ == self.sentinel(),
    {
        match self {
            RelayTunnelStatus::Connected(url) => Some(url.clone()),
            RelayTunnelStatus::Reconnecting { last_known_url: _, attempt } => Some(
                RelayTunnelStatus::RECONNECTING_SENTINEL.to_string().concat(
                    text::decimal_text(*attempt as u64).as_str(),
                ),
            ),
            RelayTunnelStatus::Failed(message) => Some(
                RelayTunnelStatus::FAILED_SENTINEL.to_string().concat(message.as_str()),
            ),
        }
    }
}

/// The three kinds of status can be told apart by their texts, where the
/// address of a tunnel begins with neither sentinel.
pub proof fn law_sentinels_distinct(status: RelayTunnelStatus)
    requires
        status matches RelayTunnelStatus::Connected(url) ==> !text::begins_with(
            url@,
            RelayTunnelStatus::RECONNECTING_SENTINEL@,
        ) && !text::begins_with(url@, RelayTunnelStatus::FAILED_SENTINEL@),
    ensures
        status is Reconnecting <==> text::begins_with(status.sentinel(), RelayTunnelStatus::RECONNECTING_SENTINEL@),
        status is Failed <==> text::begins_with(status.sentinel(), RelayTunnelStatus::FAILED_SENTINEL@),
        status matches RelayTunnelStatus::Failed(message) ==> status.sentinel().skip(
            RelayTunnelStatus::FAILED_SENTINEL@.len() as int,
        ) == message@,
{
    reveal_strlit("__RELAY_RECONNECTING__:");
    reveal_strlit("__RELAY_FAILED__:");
    let s = status.sentinel();
    let r = RelayTunnelStatus::RECONNECTING_SENTINEL@;
    let f = RelayTunnelStatus::FAILED_SENTINEL@;
    if status is Reconnecting {
        assert(s.subrange(0, r.len() as int) =~= r);
        assert(s[8] == 'R');
        if text::begins_with(s, f) {
            assert(s.subrange(0, f.len() as int)[8] == f[8]);
        }
    }
    if status is Failed {
        assert(s.subrange(0, f.len() as int) =~= f);
        assert(s[8] == 'F');
        if text::begins_with(s, r) {
            assert(s.subrange(0, r.len() as int)[8] == r[8]);
        }
        assert(s.skip(f.len() as int) =~= status->Failed_0@);
    }
}

/// A running tunnel. The channels are known by number.
#[derive(Debug)]
pub struct RelayTunnelHandle {
    pub public_url: String,
    pub slug: String,
    pub tunnel_id: String,
    /// Stops the tunnel as it was first opened.
    pub shutdown_tx: Option<u64>,
    /// Whether the tunnel is not to be opened again.
    pub stop_requested: bool,
    /// Stops the tunnel as it was last opened again.
    pub current_iteration_shutdown: Option<u64>,
    pub status: RelayTunnelStatus,
    /// Takes what goes to the relay, while the tunnel is up.
    pub control_tx: Option<u64>,
}

/// The tunnels of a session host, by the client that asked for them.
#[derive(Debug)]
pub struct RelayTunnelRegistry {
    inner: HashMap<u16, RelayTunnelHandle>,
}

impl View for RelayTunnelRegistry {
    type V = Map<u16, RelayTunnelHandle>;

    closed spec fn view(&self) -> Map<u16, RelayTunnelHandle> {
        self.inner@
    }
}

impl RelayTunnelRegistry {
    pub fn new() -> (registry: RelayTunnelRegistry)
        ensures
            registry@ == Map::<u16, RelayTunnelHandle>::empty(),
    {
        RelayTunnelRegistry { inner: HashMap::new() }
    }

    /// Keeps a tunnel; the one that the client had before is lost.
    pub fn insert(&mut self, client_id: u16, handle: RelayTunnelHandle)
        ensures
            final(self)@ == old(self)@.insert(client_id, handle),
    {
        let _ = self.inner.insert(client_id, handle);
    }

    pub fn remove(&mut self, client_id: u16) -> (r: Option<RelayTunnelHandle>)
        ensures
            final(self)@ == old(self)@.remove(client_id),
            match r {
                Some(handle) => old(self)@.contains_key(client_id) && handle
                    == old(self)@[client_id],
                None => !old(self)@.contains_key(client_id),
            },
    {
        self.inner.remove(&client_id)
    }

    /// Asks something of a tunnel that is there.
    pub fn with_handle<R, F: FnOnce(&RelayTunnelHandle) -> R>(&self, client_id: u16, f: F) -> (r:
        Option<R>)
        requires
            self@.contains_key(client_id) ==> call_requires(f, (&self@[client_id],)),
        ensures
            match r {
                Some(x) => self@.contains_key(client_id) && call_ensures(
                    f,
                    (&self@[client_id],),
                    x,
                ),
                None => !self@.contains_key(client_id),
            },
    {
        match self.inner.get(&client_id) {
            Some(handle) => Some(f(handle)),
            None => None,
        }
    }

    /// How a client's tunnel fares, as one text.
    pub fn status_sentinel(&self, client_id: u16) -> (r: Option<String>)
        ensures
            match r {
                Some(s) => self@.contains_key(client_id) && s@
                    == self@[client_id].status.sentinel(),
                None => !self@.contains_key(client_id),
            },
    {
        match self.inner.get(&client_id) {
            Some(handle) => handle.status.to_mode_info_sentinel(),
            None => None,
        }
    }

    /// Takes a client's tunnel out and marks it as not to be opened again. The
    /// channels that stop it are in what is given back.
    pub fn stop_relay_tunnel(&mut self, client_id: u16) -> (r: Option<RelayTunnelHandle>)
        ensures
            final(self)@ == old(self)@.remove(client_id),
            match r {
                Some(handle) => old(self)@.contains_key(client_id) && handle == (
                RelayTunnelHandle { stop_requested: true, ..old(self)@[client_id] }),
                None => !old(self)@.contains_key(client_id),
            },
    {
        match self.inner.remove(&client_id) {
            Some(handle) => {
                let mut handle = handle;
                handle.stop_requested = true;
                Some(handle)
            },
            None => None,
        }
    }

    /// The channels to the relays of all tunnels that are up, once per tunnel.
    pub fn control_channels(&self) -> (channels: Vec<u64>)
        ensures
            lists_channels(self@, channels@),
    {
        let keys = keys_of(&self.inner);
        let mut channels: Vec<u64> = Vec::new();
        let mut i: usize = 0;
        proof {
            assert(keys@.take(0) =~= Seq::<u16>::empty());
        }
        while i < keys.len()
            invariant
                i <= keys@.len(),
                keys@.to_set() == self@.dom(),
                channels@ == channels_along(self@, keys@.take(i as int)),
            decreases keys@.len() - i,
        {
            let key = keys[i];
            proof {
                assert(keys@.contains(key));
                assert(keys@.to_set().contains(key));
                assert(keys@.take(i + 1).drop_last() =~= keys@.take(i as int));
                assert(keys@.take(i + 1).last() == key);
            }
            match self.inner.get(&key) {
                Some(handle) => {
                    match handle.control_tx {
                        Some(channel) => {
                            channels.push(channel);
                        },
                        None => {},
                    }
                },
                None => {},
            }
            i = i + 1;
        }
        proof {
            assert(keys@.take(i as int) =~= keys@);
        }
        channels
    }

    /// What every relay is told when a token is revoked: the message, and the
    /// channels to send it on, once per tunnel.
    pub fn broadcast_revoke_token(&self, token_hash: String) -> (r: (Vec<u64>, ControlMessage))
        ensures
            lists_channels(self@, r.0@),
            r.1@ == (ControlView::RevokeToken { token_hash: token_hash@ }),
    {
        (self.control_channels(), ControlMessage::RevokeToken { token_hash })
    }
}

/// The channels of these tunnels, of those that have one, in this order.
pub open spec fn channels_along(
    tunnels: Map<u16, RelayTunnelHandle>,
    client_ids: Seq<u16>,
) -> Seq<u64>
    decreases client_ids.len(),
{
    if client_ids.len() == 0 {
        Seq::empty()
    } else {
        let rest = channels_along(tunnels, client_ids.drop_last());
        match tunnels[client_ids.last()].control_tx {
            Some(channel) => rest.push(channel),
            None => rest,
        }
    }
}

/// Whether `channels` are those of the tunnels, in the order of some walk
/// through them that comes to each tunnel once.
pub open spec fn lists_channels(
    tunnels: Map<u16, RelayTunnelHandle>,
    channels: Seq<u64>,
) -> bool {
    exists|client_ids: Seq<u16>|
        client_ids.no_duplicates() && client_ids.to_set() == tunnels.dom() && channels
            == #[trigger] channels_along(tunnels, client_ids)
}

/// The tunnels that have this channel.
pub open spec fn with_channel(tunnels: Map<u16, RelayTunnelHandle>, channel: u64) -> Set<u16> {
    Set::new(
        |client_id: u16|
            tunnels.contains_key(client_id) && tunnels[client_id].control_tx == Some(channel),
    )
}

proof fn lemma_channels_along(
    tunnels: Map<u16, RelayTunnelHandle>,
    client_ids: Seq<u16>,
    channel: u64,
)
    requires
        client_ids.no_duplicates(),
        forall|i: int| 0 <= i < client_ids.len() ==> tunnels.contains_key(#[trigger] client_ids[i]),
    ensures
        ({
            let found = with_channel(tunnels, channel).intersect(client_ids.to_set());
            &&& found.finite()
            &&& channels_along(tunnels, client_ids).to_multiset().count(channel) == found.len()
        }),
    decreases client_ids.len(),
{
    broadcast use vstd::seq_lib::group_to_multiset_ensures;

    let found = with_channel(tunnels, channel).intersect(client_ids.to_set());
    if client_ids.len() == 0 {
        assert(found =~= Set::<u16>::empty());
    } else {
        let init = client_ids.drop_last();
        let last = client_ids.last();
        let before = with_channel(tunnels, channel).intersect(init.to_set());
        assert(last == client_ids[client_ids.len() - 1]);
        assert forall|i: int| 0 <= i < init.len() implies tunnels.contains_key(
            #[trigger] init[i],
        ) by {
            assert(init[i] == client_ids[i]);
        }
        lemma_channels_along(tunnels, init, channel);
        assert(!init.contains(last)) by {
            if init.contains(last) {
                let i = choose|i: int| 0 <= i < init.len() && init[i] == last;
                assert(client_ids[i] == client_ids[client_ids.len() - 1]);
            }
        }
        assert forall|id: u16| client_ids.contains(id) == (init.contains(id) || id == last) by {
            if init.contains(id) {
                let i = choose|i: int| 0 <= i < init.len() && init[i] == id;
                assert(client_ids[i] == id);
            }
            if client_ids.contains(id) && id != last {
                let i = choose|i: int| 0 <= i < client_ids.len() && client_ids[i] == id;
                assert(init[i] == id);
            }
        }
        if tunnels[last].control_tx == Some(channel) {
            assert(found =~= before.insert(last));
        } else {
            assert(found =~= before);
        }
    }
}

/// Every relay is told once per tunnel: a channel is listed as often as there
/// are tunnels that have it.
pub proof fn law_channels_once_per_tunnel(
    tunnels: Map<u16, RelayTunnelHandle>,
    channels: Seq<u64>,
    channel: u64,
)
    requires
        lists_channels(tunnels, channels),
    ensures
        with_channel(tunnels, channel).finite(),
        channels.to_multiset().count(channel) == with_channel(tunnels, channel).len(),
        channels.contains(channel) <==> with_channel(tunnels, channel).len() > 0,
{
    broadcast use vstd::seq_lib::group_to_multiset_ensures;

    let client_ids = choose|client_ids: Seq<u16>|
        client_ids.no_duplicates() && client_ids.to_set() == tunnels.dom() && channels
            == #[trigger] channels_along(tunnels, client_ids);
    assert forall|i: int| 0 <= i < client_ids.len() implies tunnels.contains_key(
        #[trigger] client_ids[i],
    ) by {
        assert(client_ids.contains(client_ids[i]));
        assert(client_ids.to_set().contains(client_ids[i]));
    }
    lemma_channels_along(tunnels, client_ids, channel);
    assert(with_channel(tunnels, channel).intersect(client_ids.to_set()) =~= with_channel(
        tunnels,
        channel,
    ));
}

impl Default for RelayTunnelRegistry {
    fn default() -> (registry: RelayTunnelRegistry)
        ensures
            registry@ == Map::<u16, RelayTunnelHandle>::empty(),
    {
        RelayTunnelRegistry::new()
    }
}

/// A tunnel that was kept can be stopped once, and not a second time.
pub proof fn law_tunnel_stops_once(
    tunnels: Map<u16, RelayTunnelHandle>,
    client_id: u16,
    handle: RelayTunnelHandle,
)
    ensures
        tunnels.insert(client_id, handle).contains_key(client_id),
        !tunnels.insert(client_id, handle).remove(client_id).contains_key(client_id),
{
}

} // verus!
