//! Opening a tunnel from a session host to a relay.

use crate::conversion::{ControlMessage, ControlView, TerminalMessage, TerminalView};
use crate::multiplexer::{HostView, RelayTunnelState};
use crate::protocol::PROTOCOL_VERSION;
use crate::relay_types::{RelayTunnelHandle, RelayTunnelRegistry, RelayTunnelStatus};
use crate::socket::ControlRead;
use crate::text;
use vstd::prelude::*;
use vstd::string::*;

verus! {

/// What a session host hands on to its tunnels of its own configuration.
#[derive(Debug)]
pub struct RelayContext {
    pub config_file_path: String,
    pub support_kitty_keyboard_protocol: Option<bool>,
}

impl RelayContext {
    /// Whether the configuration turns the Kitty keyboard protocol off; it has
    /// to say so.
    pub fn disables_kitty_protocol(&self) -> (r: bool)
        ensures
            r == (self.support_kitty_keyboard_protocol == Some(false)),
    {
        match self.support_kitty_keyboard_protocol {
            Some(supported) => !supported,
            None => false,
        }
    }
}

/// Where the control tunnel of a relay is.
pub fn control_tunnel_url(relay_url: &str) -> (url: String)
    ensures
        url@ == text::without_trailing(relay_url@, '/') + "/tunnel/control"@,
{
    let base = text::trim_trailing(relay_url, '/');
    text::joined(base.as_str(), "/tunnel/control")
}

/// Where the terminal tunnel of a relay is, for the tunnel with this slug.
pub fn terminal_tunnel_url(relay_url: &str, slug: &str) -> (url: String)
    ensures
        url@ == text::without_trailing(relay_url@, '/') + "/tunnel/terminal?slug="@ + slug@,
{
    let base = text::trim_trailing(relay_url, '/');
    let start = text::joined(base.as_str(), "/tunnel/terminal?slug=");
    text::joined(start.as_str(), slug)
}

/// What a session host says first on a control tunnel. `requested_slug` is the
/// slug that it had before, or empty.
pub fn auth_message(
    token: String,
    session_name: String,
    zellij_version: String,
    requested_slug: String,
) -> (message: ControlMessage)
    ensures
        message@ == (ControlView::Auth {
            token: token@,
            session_name: session_name@,
            protocol_version: PROTOCOL_VERSION,
            zellij_version: zellij_version@,
            requested_slug: requested_slug@,
        }),
{
    ControlMessage::Auth {
        token,
        session_name,
        protocol_version: PROTOCOL_VERSION,
        zellij_version,
        requested_slug,
    }
}

/// What a session host says first on a terminal tunnel.
pub fn ready_message(tunnel_id: String) -> (message: TerminalMessage)
    ensures
        message@ == (TerminalView::Ready { tunnel_id: tunnel_id@ }),
{
    TerminalMessage::Ready { tunnel_id }
}

/// A control tunnel that the relay has taken on.
#[derive(Debug)]
pub struct ControlTunnelSession {
    pub public_url: String,
    pub slug: String,
    pub tunnel_id: String,
}

/// What [`control_reply`] returns.
pub open spec fn control_reply_is(
    read: ControlRead,
    r: Option<Result<ControlTunnelSession, String>>,
) -> bool {
    match read {
        ControlRead::Message(message) => match message@ {
            ControlView::Established { public_url, slug, tunnel_id } => {
                &&& r matches Some(Ok(session))
                &&& session.public_url@ == public_url
                &&& session.slug@ == slug
                &&& session.tunnel_id@ == tunnel_id
            },
            ControlView::Error { message: reason } => r matches Some(Err(e)) && e@
                == "the relay refused the tunnel: "@ + reason,
            _ => r matches Some(Err(e)) && e@ == "the relay gave an unexpected answer"@,
        },
        ControlRead::Skipped => r is None,
        ControlRead::Ended => r matches Some(Err(e)) && e@
            == "the relay closed the control tunnel"@,
    }
}

/// What a session host makes of the relay's first words on a control tunnel.
/// With `None` it reads on.
pub fn control_reply(read: ControlRead) -> (r: Option<Result<ControlTunnelSession, String>>)
    ensures
        control_reply_is(read, r),
{
    match read {
        ControlRead::Message(ControlMessage::Established { public_url, slug, tunnel_id }) => Some(
            Ok(ControlTunnelSession { public_url, slug, tunnel_id }),
        ),
        ControlRead::Message(ControlMessage::Error { message }) => Some(
            Err(text::joined("the relay refused the tunnel: ", message.as_str())),
        ),
        ControlRead::Message(_) => Some(Err("the relay gave an unexpected answer".to_string())),
        ControlRead::Skipped => None,
        ControlRead::Ended => Some(Err("the relay closed the control tunnel".to_string())),
    }
}

/// A tunnel that was opened.
#[derive(Debug)]
pub struct StartedTunnel {
    pub public_url: String,
    pub state: RelayTunnelState,
}

/// The registry entry of a tunnel that was opened.
pub open spec fn is_fresh_handle(
    handle: RelayTunnelHandle,
    session: ControlTunnelSession,
    shutdown_tx: u64,
    control_tx: u64,
) -> bool {
    &&& handle.public_url@ == session.public_url@
    &&& handle.slug@ == session.slug@
    &&& handle.tunnel_id@ == session.tunnel_id@
    &&& handle.shutdown_tx == Some(shutdown_tx)
    &&& !handle.stop_requested
    &&& handle.current_iteration_shutdown is None
    &&& handle.status matches RelayTunnelStatus::Connected(url) && url@ == session.public_url@
    &&& handle.control_tx == Some(control_tx)
}

/// What [`start_relay_tunnel`] does and returns.
pub open spec fn tunnel_kept(
    before: Map<u16, RelayTunnelHandle>,
    after: Map<u16, RelayTunnelHandle>,
    client_id: u16,
    session_name: Seq<char>,
    control: Result<ControlTunnelSession, String>,
    terminal: Result<(), String>,
    shutdown_tx: u64,
    control_tx: u64,
    r: Result<StartedTunnel, String>,
) -> bool {
    match (control, terminal) {
        (Err(e), _) => r == Err::<StartedTunnel, String>(e) && after == before,
        (Ok(_), Err(e)) => r == Err::<StartedTunnel, String>(e) && after == before,
        (Ok(session), Ok(_)) => {
            &&& after.contains_key(client_id)
            &&& after.remove(client_id) == before.remove(client_id)
            &&& is_fresh_handle(after[client_id], session, shutdown_tx, control_tx)
            &&& r matches Ok(started)
            &&& started.public_url@ == session.public_url@
            &&& started.state.wf()
            &&& started.state@ == HostView::opened(session.tunnel_id@, session_name)
        },
    }
}

/// Keeps a tunnel whose two sockets were opened, and gives its public address.
/// Where one of them could not be opened nothing is kept. `shutdown_tx` stops
/// the tunnel, `control_tx` takes what goes to the relay.
pub fn start_relay_tunnel(
    registry: &mut RelayTunnelRegistry,
    client_id: u16,
    session_name: String,
    control: Result<ControlTunnelSession, String>,
    terminal: Result<(), String>,
    shutdown_tx: u64,
    control_tx: u64,
) -> (r: Result<StartedTunnel, String>)
    ensures
        tunnel_kept(
            old(registry)@,
            final(registry)@,
            client_id,
            session_name@,
            control,
            terminal,
            shutdown_tx,
            control_tx,
            r,
        ),
{
    let session = match control {
        Ok(session) => session,
        Err(e) => {
            return Err(e);
        },
    };
    match terminal {
        Ok(_) => {},
        Err(e) => {
            return Err(e);
        },
    }
    let ControlTunnelSession { public_url, slug, tunnel_id } = session;
    let state = RelayTunnelState::new(tunnel_id.clone(), session_name);
    let handle = RelayTunnelHandle {
        public_url: public_url.clone(),
        slug,
        tunnel_id,
        shutdown_tx: Some(shutdown_tx),
        stop_requested: false,
        current_iteration_shutdown: None,
        status: RelayTunnelStatus::Connected(public_url.clone()),
        control_tx: Some(control_tx),
    };
    registry.insert(client_id, handle);
    proof {
        assert(registry@.remove(client_id) =~= old(registry)@.remove(client_id));
    }
    Ok(StartedTunnel { public_url, state })
}

} // verus!
