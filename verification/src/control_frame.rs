//! What a control frame can carry.

use crate::conversion::ControlView;
use crate::protocol::{
    AuthChallenge,
    AuthResponse,
    ClientConnected,
    ClientDisconnected,
    ControlFrameData,
    ReadOnlyViewerUpdate,
    RevokeToken,
    SessionSize,
    TunnelAuth,
    TunnelError,
    TunnelEstablished,
};
use crate::wire_codec;
use crate::wire_codec::{clone_bytes, pop_bool, pop_bytes, pop_text, pop_uint32, Field};
use crate::wire_format;
use crate::wire_format::Kind;
use vstd::prelude::*;

verus! {

#[derive(Clone, Debug, PartialEq)]
pub enum Payload {
    Auth(TunnelAuth),
    Established(TunnelEstablished),
    Error(TunnelError),
    AuthChallenge(AuthChallenge),
    AuthResponse(AuthResponse),
    ClientConnected(ClientConnected),
    ClientDisconnected(ClientDisconnected),
    ControlFrameData(ControlFrameData),
    ReadOnlyViewerUpdate(ReadOnlyViewerUpdate),
    SessionSize(SessionSize),
    RevokeToken(RevokeToken),
}

impl View for Payload {
    type V = ControlView;

    open spec fn view(&self) -> ControlView {
        match *self {
            Payload::Auth(p) => ControlView::Auth {
                token: p.token@,
                session_name: p.session_name@,
                protocol_version: p.protocol_version,
                zellij_version: p.zellij_version@,
                requested_slug: p.requested_slug@,
            },
            Payload::Established(p) => ControlView::Established {
                public_url: p.public_url@,
                slug: p.slug@,
                tunnel_id: p.tunnel_id@,
            },
            Payload::Error(p) => ControlView::Error { message: p.message@ },
            Payload::AuthChallenge(p) => ControlView::AuthChallenge {
                request_id: p.request_id@,
                token_hash: p.token_hash@,
            },
            Payload::AuthResponse(p) => ControlView::AuthResponse {
                request_id: p.request_id@,
                client_id: p.client_id,
                accepted: p.accepted,
                is_read_only: p.is_read_only,
                session_token_hash: p.session_token_hash@,
                e2e_encrypted: p.e2e_encrypted,
            },
            Payload::ClientConnected(p) => ControlView::ClientConnected { client_id: p.client_id },
            Payload::ClientDisconnected(p) => ControlView::ClientDisconnected {
                client_id: p.client_id,
            },
            Payload::ControlFrameData(p) => ControlView::ControlFrameData {
                client_id: p.client_id,
                data: p.data@,
            },
            Payload::ReadOnlyViewerUpdate(p) => ControlView::ReadOnlyViewerUpdate {
                token_hash: p.token_hash@,
                count: p.count,
            },
            Payload::SessionSize(p) => ControlView::SessionSize {
                client_id: p.client_id,
                rows: p.rows,
                cols: p.cols,
            },
            Payload::RevokeToken(p) => ControlView::RevokeToken { token_hash: p.token_hash@ },
        }
    }
}

/// The fields of each message, in the order of the messages' tags.
pub open spec fn schema() -> Seq<Seq<Kind>> {
    seq![
        seq![Kind::Text, Kind::Text, Kind::Uint32, Kind::Text, Kind::Text],
        seq![Kind::Text, Kind::Text, Kind::Text],
        seq![Kind::Text],
        seq![Kind::Bytes, Kind::Text],
        seq![Kind::Bytes, Kind::Uint32, Kind::Bool, Kind::Bool, Kind::Text, Kind::Bool],
        seq![Kind::Uint32],
        seq![Kind::Uint32],
        seq![Kind::Uint32, Kind::Bytes],
        seq![Kind::Text, Kind::Uint32],
        seq![Kind::Uint32, Kind::Uint32, Kind::Uint32],
        seq![Kind::Text],
    ]
}

/// The fields of each message, in the order of the messages' tags.
pub(crate) fn schema_table() -> (table: Vec<Vec<Kind>>)
    ensures
        wire_codec::schema_views(table@) == schema(),
{
    let table: Vec<Vec<Kind>> = vec![
        vec![Kind::Text, Kind::Text, Kind::Uint32, Kind::Text, Kind::Text],
        vec![Kind::Text, Kind::Text, Kind::Text],
        vec![Kind::Text],
        vec![Kind::Bytes, Kind::Text],
        vec![Kind::Bytes, Kind::Uint32, Kind::Bool, Kind::Bool, Kind::Text, Kind::Bool],
        vec![Kind::Uint32],
        vec![Kind::Uint32],
        vec![Kind::Uint32, Kind::Bytes],
        vec![Kind::Text, Kind::Uint32],
        vec![Kind::Uint32, Kind::Uint32, Kind::Uint32],
        vec![Kind::Text],
    ];
    proof {
        let views = wire_codec::schema_views(table@);
        assert(views[0] =~= schema()[0]);
        assert(views[1] =~= schema()[1]);
        assert(views[2] =~= schema()[2]);
        assert(views[3] =~= schema()[3]);
        assert(views[4] =~= schema()[4]);
        assert(views[5] =~= schema()[5]);
        assert(views[6] =~= schema()[6]);
        assert(views[7] =~= schema()[7]);
        assert(views[8] =~= schema()[8]);
        assert(views[9] =~= schema()[9]);
        assert(views[10] =~= schema()[10]);
        assert(views =~= schema());
    }
    table
}

impl Payload {
    /// The tag and the fields that the payload is written as.
    pub(crate) fn to_fields(&self) -> (r: (u32, Vec<Field>))
        ensures
            r.0 == self@.content().0,
            wire_codec::field_views(r.1@) == self@.content().1,
            r.1@.len() == self@.content().1.len(),
    {
        let (tag, fields): (u32, Vec<Field>) = match self {
            Payload::Auth(p) => (
                1,
                vec![
                    Field::Text(p.token.clone()),
                    Field::Text(p.session_name.clone()),
                    Field::Uint32(p.protocol_version),
                    Field::Text(p.zellij_version.clone()),
                    Field::Text(p.requested_slug.clone()),
                ],
            ),
            Payload::Established(p) => (
                2,
                vec![
                    Field::Text(p.public_url.clone()),
                    Field::Text(p.slug.clone()),
                    Field::Text(p.tunnel_id.clone()),
                ],
            ),
            Payload::Error(p) => (3, vec![Field::Text(p.message.clone())]),
            Payload::AuthChallenge(p) => (
                4,
                vec![Field::Bytes(clone_bytes(&p.request_id)), Field::Text(p.token_hash.clone())],
            ),
            Payload::AuthResponse(p) => (
                5,
                vec![
                    Field::Bytes(clone_bytes(&p.request_id)),
                    Field::Uint32(p.client_id),
                    Field::Bool(p.accepted),
                    Field::Bool(p.is_read_only),
                    Field::Text(p.session_token_hash.clone()),
                    Field::Bool(p.e2e_encrypted),
                ],
            ),
            Payload::ClientConnected(p) => (6, vec![Field::Uint32(p.client_id)]),
            Payload::ClientDisconnected(p) => (7, vec![Field::Uint32(p.client_id)]),
            Payload::ControlFrameData(p) => (
                8,
                vec![Field::Uint32(p.client_id), Field::Bytes(clone_bytes(&p.data))],
            ),
            Payload::ReadOnlyViewerUpdate(p) => (
                9,
                vec![Field::Text(p.token_hash.clone()), Field::Uint32(p.count)],
            ),
            Payload::SessionSize(p) => (
                10,
                vec![Field::Uint32(p.client_id), Field::Uint32(p.rows), Field::Uint32(p.cols)],
            ),
            Payload::RevokeToken(p) => (11, vec![Field::Text(p.token_hash.clone())]),
        };
        proof {
            assert(wire_codec::field_views(fields@) =~= self@.content().1);
        }
        (tag, fields)
    }

    /// The payload that is written as `fields` under `tag`.
    pub(crate) fn from_fields(tag: u32, fields: Vec<Field>) -> (payload: Payload)
        requires
            1 <= tag <= schema().len(),
            wire_format::has_kinds(wire_codec::field_views(fields@), schema()[tag - 1]),
        ensures
            payload@.content() == (tag as nat, wire_codec::field_views(fields@)),
    {
        let ghost views = wire_codec::field_views(fields@);
        proof {
            assert forall|i: int| 0 <= i < fields@.len() implies (#[trigger] fields@[i])@.kind()
                == schema()[tag - 1][i] by {
                assert(views[i] == fields@[i]@);
            }
        }
        let mut fields: Vec<Field> = fields;
        let payload: Payload = if tag == 1 {
            let requested_slug: String = pop_text(&mut fields);
            let zellij_version: String = pop_text(&mut fields);
            let protocol_version: u32 = pop_uint32(&mut fields);
            let session_name: String = pop_text(&mut fields);
            let token: String = pop_text(&mut fields);
            Payload::Auth(
                TunnelAuth {
                    token,
                    session_name,
                    protocol_version,
                    zellij_version,
                    requested_slug,
                },
            )
        } else if tag == 2 {
            let tunnel_id: String = pop_text(&mut fields);
            let slug: String = pop_text(&mut fields);
            let public_url: String = pop_text(&mut fields);
            Payload::Established(TunnelEstablished { public_url, slug, tunnel_id })
        } else if tag == 3 {
            let message: String = pop_text(&mut fields);
            Payload::Error(TunnelError { message })
        } else if tag == 4 {
            let token_hash: String = pop_text(&mut fields);
            let request_id: Vec<u8> = pop_bytes(&mut fields);
            Payload::AuthChallenge(AuthChallenge { request_id, token_hash })
        } else if tag == 5 {
            let e2e_encrypted: bool = pop_bool(&mut fields);
            let session_token_hash: String = pop_text(&mut fields);
            let is_read_only: bool = pop_bool(&mut fields);
            let accepted: bool = pop_bool(&mut fields);
            let client_id: u32 = pop_uint32(&mut fields);
            let request_id: Vec<u8> = pop_bytes(&mut fields);
            Payload::AuthResponse(
                AuthResponse {
                    request_id,
                    client_id,
                    accepted,
                    is_read_only,
                    session_token_hash,
                    e2e_encrypted,
                },
            )
        } else if tag == 6 {
            let client_id: u32 = pop_uint32(&mut fields);
            Payload::ClientConnected(ClientConnected { client_id })
        } else if tag == 7 {
            let client_id: u32 = pop_uint32(&mut fields);
            Payload::ClientDisconnected(ClientDisconnected { client_id })
        } else if tag == 8 {
            let data: Vec<u8> = pop_bytes(&mut fields);
            let client_id: u32 = pop_uint32(&mut fields);
            Payload::ControlFrameData(ControlFrameData { client_id, data })
        } else if tag == 9 {
            let count: u32 = pop_uint32(&mut fields);
            let token_hash: String = pop_text(&mut fields);
            Payload::ReadOnlyViewerUpdate(ReadOnlyViewerUpdate { token_hash, count })
        } else if tag == 10 {
            let cols: u32 = pop_uint32(&mut fields);
            let rows: u32 = pop_uint32(&mut fields);
            let client_id: u32 = pop_uint32(&mut fields);
            Payload::SessionSize(SessionSize { client_id, rows, cols })
        } else {
            let token_hash: String = pop_text(&mut fields);
            Payload::RevokeToken(RevokeToken { token_hash })
        };
        proof {
            assert(payload@.content().1 =~= views);
        }
        payload
    }
}

} // verus!
