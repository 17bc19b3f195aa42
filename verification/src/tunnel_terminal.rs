//! The terminal tunnel of a session host: how it is linked to the control
//! tunnel, and where its frames go.

use crate::conversion;
use crate::conversion::{TerminalMessage, TerminalView};
use crate::ids;
use crate::registry::{Registry, TunnelEntry, TunnelView, ViewerHandle};
use crate::socket::SocketFrame;
use crate::text;
use crate::wire_format;
use vstd::prelude::*;

verus! {

/// What the relay makes of a request for a terminal tunnel, before it has read
/// a frame of it.
#[derive(Debug)]
pub enum TerminalRequest {
    /// The socket is for the tunnel with this id, and for no later one.
    Welcome { tunnel_id: u128 },
    /// The host is told why not, and the tunnel closes.
    Rejected(TerminalMessage),
}

/// What the first frame of a terminal tunnel leads to.
#[derive(Debug)]
pub enum TerminalHandshake {
    Linked,
    /// The host is told why not, and the tunnel closes.
    Rejected(TerminalMessage),
    /// The tunnel is gone.
    Dropped,
}

pub open spec fn refusal(message: TerminalMessage, words: Seq<char>) -> bool {
    message@ == (TerminalView::Error { message: words })
}

fn refuse(words: &str) -> (message: TerminalMessage)
    ensures
        refusal(message, words@),
{
    TerminalMessage::Error { message: words.to_string() }
}

/// What [`terminal_request`] returns.
pub open spec fn terminal_request_is(
    tunnels: Map<Seq<char>, TunnelView>,
    slug: Seq<char>,
    r: TerminalRequest,
) -> bool {
    if slug.len() == 0 {
        r matches TerminalRequest::Rejected(message) && refusal(
            message,
            "missing ?slug query parameter"@,
        )
    } else if !tunnels.contains_key(slug) {
        r matches TerminalRequest::Rejected(message) && refusal(message, "unknown slug"@)
    } else {
        r == (TerminalRequest::Welcome { tunnel_id: tunnels[slug].tunnel_id })
    }
}

/// Whether a terminal tunnel may be opened for a slug.
pub fn terminal_request(registry: &Registry, slug: &str) -> (r: TerminalRequest)
    requires
        registry.wf(),
    ensures
        terminal_request_is(registry@, slug@, r),
{
    if slug.is_empty() {
        return TerminalRequest::Rejected(refuse("missing ?slug query parameter"));
    }
    match registry.get(slug) {
        Some(entry) => TerminalRequest::Welcome { tunnel_id: entry.tunnel_id },
        None => TerminalRequest::Rejected(refuse("unknown slug")),
    }
}

/// The channels to the terminal sockets of viewers, of those who have one.
pub open spec fn terminal_sinks(viewers: Map<u128, ViewerHandle>, ids: Seq<u128>) -> Seq<u64>
    decreases ids.len(),
{
    if ids.len() == 0 {
        Seq::empty()
    } else {
        let sinks = terminal_sinks(viewers, ids.drop_last());
        if viewers.contains_key(ids.last()) && viewers[ids.last()].terminal_sink_tx is Some {
            sinks.push(viewers[ids.last()].terminal_sink_tx->0)
        } else {
            sinks
        }
    }
}

/// What the relay does about a message of the host: nothing, or send the data
/// as it is on each of the channels.
#[derive(Debug)]
pub enum TerminalDispatch {
    Nothing,
    SendBinary { sinks: Vec<u64>, data: Vec<u8> },
}

/// What the first frame of a terminal tunnel leads to, for the tunnel with this
/// id.
pub open spec fn handshake_is(
    tunnel_id: u128,
    first: Option<SocketFrame>,
    handshake: TerminalHandshake,
) -> bool {
    match first {
        None | Some(SocketFrame::Failed) => handshake is Dropped,
        Some(SocketFrame::Binary(bytes)) => match wire_format::decode_frame(
            crate::terminal_frame::schema(),
            bytes@,
        ) {
            Some(Some(content)) => if content == (TerminalView::Ready {
                tunnel_id: ids::hyphenated(tunnel_id),
            }).content() {
                handshake is Linked
            } else {
                handshake matches TerminalHandshake::Rejected(message) && refusal(
                    message,
                    "first frame must be TunnelReady with matching tunnel_id"@,
                )
            },
            _ => handshake matches TerminalHandshake::Rejected(message) && refusal(
                message,
                "malformed TerminalFrame"@,
            ),
        },
        Some(_) => handshake matches TerminalHandshake::Rejected(message) && refusal(
            message,
            "expected binary TunnelReady frame"@,
        ),
    }
}

impl TunnelView {
    /// Where a message of the host goes, and what of it: terminal data goes to
    /// the terminal sockets of the viewers of its client.
    pub open spec fn fanned_out(self, message: TerminalView) -> Option<(Seq<u64>, Seq<u8>)> {
        match message {
            TerminalView::TerminalFrameData { client_id, data } => Some(
                (terminal_sinks(self.viewers, self.viewers_of(client_id)), data),
            ),
            _ => None,
        }
    }

    /// The terminal tunnel was linked; `tx` takes what goes to the host.
    pub open spec fn terminal_linked_on(self, tx: u64) -> TunnelView {
        TunnelView { terminal_linked: true, terminal_tx: Some(tx), ..self }
    }
}

impl TunnelEntry {
    /// Judges the first frame of a terminal tunnel, which has to name the
    /// tunnel that it belongs to. Where it does, the tunnel is linked, and
    /// `tx` takes what goes to the host.
    pub fn terminal_handshake(&mut self, first: Option<SocketFrame>, tx: u64) -> (handshake:
        TerminalHandshake)
        requires
            old(self).maps_wf(),
        ensures
            final(self).maps_wf(),
            old(self).wf() ==> final(self).wf(),
            handshake is Linked ==> final(self)@ == old(self)@.terminal_linked_on(tx),
            !(handshake is Linked) ==> final(self)@ == old(self)@,
            handshake_is(old(self)@.tunnel_id, first, handshake),
    {
        let bytes = match first {
            Some(SocketFrame::Binary(bytes)) => bytes,
            Some(SocketFrame::Failed) => {
                return TerminalHandshake::Dropped;
            },
            None => {
                return TerminalHandshake::Dropped;
            },
            Some(_) => {
                return TerminalHandshake::Rejected(refuse("expected binary TunnelReady frame"));
            },
        };
        let message = match conversion::decode_terminal_frame(bytes.as_slice()) {
            Ok(message) => message,
            Err(_) => {
                return TerminalHandshake::Rejected(refuse("malformed TerminalFrame"));
            },
        };
        let own_id = ids::id_text(self.tunnel_id);
        let ghost expected = TerminalView::Ready { tunnel_id: ids::hyphenated(self@.tunnel_id) };
        let linked = match &message {
            TerminalMessage::Ready { tunnel_id } => text::same_text(
                tunnel_id.as_str(),
                own_id.as_str(),
            ),
            _ => false,
        };
        proof {
            if message@.content() == expected.content() {
                conversion::law_terminal_content_injective(message@, expected);
            }
        }
        if linked {
            self.terminal_linked_flag = true;
            self.terminal_tx = Some(tx);
            TerminalHandshake::Linked
        } else {
            TerminalHandshake::Rejected(
                refuse("first frame must be TunnelReady with matching tunnel_id"),
            )
        }
    }

    fn terminal_sinks_for(&self, ids: &[u128]) -> (sinks: Vec<u64>)
        ensures
            sinks@ == terminal_sinks(self@.viewers, ids@),
    {
        let mut sinks: Vec<u64> = Vec::new();
        let mut i: usize = 0;
        proof {
            assert(ids@.take(0) =~= Seq::<u128>::empty());
        }
        while i < ids.len()
            invariant
                i <= ids@.len(),
                sinks@ == terminal_sinks(self@.viewers, ids@.take(i as int)),
            decreases ids@.len() - i,
        {
            proof {
                assert(ids@.take(i + 1).drop_last() =~= ids@.take(i as int));
                assert(ids@.take(i + 1).last() == ids@[i as int]);
            }
            match self.viewers.get(&ids[i]) {
                Some(handle) => {
                    match handle.terminal_sink_tx {
                        Some(sink) => {
                            sinks.push(sink);
                        },
                        None => {},
                    }
                },
                None => {},
            }
            i = i + 1;
        }
        proof {
            assert(ids@.take(i as int) =~= ids@);
        }
        sinks
    }

    /// What the relay does about a message of the host. Terminal data goes out
    /// unread and unchanged.
    pub fn dispatch_terminal(&self, message: TerminalMessage) -> (dispatch: TerminalDispatch)
        requires
            self.maps_wf(),
        ensures
            match self@.fanned_out(message@) {
                Some((channels, bytes)) => dispatch matches TerminalDispatch::SendBinary {
                    sinks,
                    data,
                } && sinks@ == channels && data@ == bytes,
                None => dispatch is Nothing,
            },
    {
        match message {
            TerminalMessage::TerminalFrameData { client_id, data } => {
                let ids = self.viewers_for_client_id(client_id);
                let sinks = self.terminal_sinks_for(ids.as_slice());
                TerminalDispatch::SendBinary { sinks, data }
            },
            _ => TerminalDispatch::Nothing,
        }
    }

    /// The terminal tunnel closed.
    pub fn terminal_closed(&mut self)
        requires
            old(self).maps_wf(),
        ensures
            final(self).maps_wf(),
            old(self).wf() ==> final(self).wf(),
            final(self)@ == (TunnelView { terminal_tx: None, ..old(self)@ }),
    {
        self.terminal_tx = None;
    }
}

} // verus!
