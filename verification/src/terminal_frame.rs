//! What a terminal frame can carry.

use crate::conversion::TerminalView;
use crate::protocol::{TerminalFrameData, TunnelError, TunnelReady};
use crate::wire_codec;
use crate::wire_codec::{clone_bytes, pop_bytes, pop_text, pop_uint32, Field};
use crate::wire_format;
use crate::wire_format::Kind;
use vstd::prelude::*;

verus! {

#[derive(Clone, Debug, PartialEq)]
pub enum Payload {
    Ready(TunnelReady),
    Error(TunnelError),
    TerminalFrameData(TerminalFrameData),
}

impl View for Payload {
    type V = TerminalView;

    open spec fn view(&self) -> TerminalView {
        match *self {
            Payload::Ready(p) => TerminalView::Ready { tunnel_id: p.tunnel_id@ },
            Payload::Error(p) => TerminalView::Error { message: p.message@ },
            Payload::TerminalFrameData(p) => TerminalView::TerminalFrameData {
                client_id: p.client_id,
                data: p.data@,
            },
        }
    }
}

/// The fields of each message, in the order of the messages' tags.
pub open spec fn schema() -> Seq<Seq<Kind>> {
    seq![
        seq![Kind::Text],
        seq![Kind::Text],
        seq![Kind::Uint32, Kind::Bytes],
    ]
}

/// The fields of each message, in the order of the messages' tags.
pub(crate) fn schema_table() -> (table: Vec<Vec<Kind>>)
    ensures
        wire_codec::schema_views(table@) == schema(),
{
    let table: Vec<Vec<Kind>> = vec![
        vec![Kind::Text],
        vec![Kind::Text],
        vec![Kind::Uint32, Kind::Bytes],
    ];
    proof {
        let views = wire_codec::schema_views(table@);
        assert(views[0] =~= schema()[0]);
        assert(views[1] =~= schema()[1]);
        assert(views[2] =~= schema()[2]);
        assert(views =~= schema());
    }
    table
}

impl Payload {
    /// The tag and the fields that the payload is written as.
    pub(crate) fn to_fields(&self) -> (r: (u32, Vec<Field>))
        ensures
            r.0 == self@.content().0,
            wire_codec::field_views(r.1@) == self@.content().1,
            r.1@.len() == self@.content().1.len(),
    {
        let (tag, fields): (u32, Vec<Field>) = match self {
            Payload::Ready(p) => (1, vec![Field::Text(p.tunnel_id.clone())]),
            Payload::Error(p) => (2, vec![Field::Text(p.message.clone())]),
            Payload::TerminalFrameData(p) => (
                3,
                vec![Field::Uint32(p.client_id), Field::Bytes(clone_bytes(&p.data))],
            ),
        };
        proof {
            assert(wire_codec::field_views(fields@) =~= self@.content().1);
        }
        (tag, fields)
    }

    /// The payload that is written as `fields` under `tag`.
    pub(crate) fn from_fields(tag: u32, fields: Vec<Field>) -> (payload: Payload)
        requires
            1 <= tag <= schema().len(),
            wire_format::has_kinds(wire_codec::field_views(fields@), schema()[tag - 1]),
        ensures
            payload@.content() == (tag as nat, wire_codec::field_views(fields@)),
    {
        let ghost views = wire_codec::field_views(fields@);
        proof {
            assert forall|i: int| 0 <= i < fields@.len() implies (#[trigger] fields@[i])@.kind()
                == schema()[tag - 1][i] by {
                assert(views[i] == fields@[i]@);
            }
        }
        let mut fields: Vec<Field> = fields;
        let payload: Payload = if tag == 1 {
            let tunnel_id: String = pop_text(&mut fields);
            Payload::Ready(TunnelReady { tunnel_id })
        } else if tag == 2 {
            let message: String = pop_text(&mut fields);
            Payload::Error(TunnelError { message })
        } else {
            let data: Vec<u8> = pop_bytes(&mut fields);
            let client_id: u32 = pop_uint32(&mut fields);
            Payload::TerminalFrameData(TerminalFrameData { client_id, data })
        };
        proof {
            assert(payload@.content().1 =~= views);
        }
        payload
    }
}

} // verus!
