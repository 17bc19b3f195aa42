//! What an instruction for the web server can be.

use crate::web_server_contract::{
    GetRelayTunnelStatusMsg,
    QueryVersionMsg,
    RevokeRelayTokenMsg,
    ShutdownWebServerMsg,
    StartRelayTunnelMsg,
    StopRelayTunnelMsg,
};
use crate::wire_codec;
use crate::wire_codec::{pop_text, pop_uint32, Field};
use crate::wire_format;
use crate::wire_format::{FieldView, Kind};
use vstd::prelude::*;

verus! {

#[derive(Clone, Debug, PartialEq)]
pub enum Instruction {
    ShutdownWebServer(ShutdownWebServerMsg),
    QueryVersion(QueryVersionMsg),
    StartRelayTunnel(StartRelayTunnelMsg),
    StopRelayTunnel(StopRelayTunnelMsg),
    GetRelayTunnelStatus(GetRelayTunnelStatusMsg),
    RevokeRelayToken(RevokeRelayTokenMsg),
}

/// The mathematical value of a [`Instruction`].
#[verifier::ext_equal]
pub enum InstructionView {
    ShutdownWebServer,
    QueryVersion,
    StartRelayTunnel {
        client_id: u32,
        session_name: Seq<char>,
        relay_url: Seq<char>,
        zellij_version: Seq<char>,
        relay_tunnel_auth_token: Seq<char>,
    },
    StopRelayTunnel { client_id: u32 },
    GetRelayTunnelStatus { client_id: u32 },
    RevokeRelayToken { token_hash: Seq<char> },
}

impl View for Instruction {
    type V = InstructionView;

    open spec fn view(&self) -> InstructionView {
        match *self {
            Instruction::ShutdownWebServer(_) => InstructionView::ShutdownWebServer,
            Instruction::QueryVersion(_) => InstructionView::QueryVersion,
            Instruction::StartRelayTunnel(m) => InstructionView::StartRelayTunnel {
                client_id: m.client_id,
                session_name: m.session_name@,
                relay_url: m.relay_url@,
                zellij_version: m.zellij_version@,
                relay_tunnel_auth_token: m.relay_tunnel_auth_token@,
            },
            Instruction::StopRelayTunnel(m) => InstructionView::StopRelayTunnel {
                client_id: m.client_id,
            },
            Instruction::GetRelayTunnelStatus(m) => InstructionView::GetRelayTunnelStatus {
                client_id: m.client_id,
            },
            Instruction::RevokeRelayToken(m) => InstructionView::RevokeRelayToken {
                token_hash: m.token_hash@,
            },
        }
    }
}

impl InstructionView {
    /// The tag and the fields that the message is written as.
    pub open spec fn content(self) -> (nat, Seq<FieldView>) {
        match self {
            InstructionView::ShutdownWebServer => (1, seq![]),
            InstructionView::QueryVersion => (2, seq![]),
            InstructionView::StartRelayTunnel {
                client_id,
                session_name,
                relay_url,
                zellij_version,
                relay_tunnel_auth_token,
            } => (
                3,
                seq![
                    FieldView::Uint32(client_id),
                    FieldView::Text(session_name),
                    FieldView::Text(relay_url),
                    FieldView::Text(zellij_version),
                    FieldView::Text(relay_tunnel_auth_token),
                ],
            ),
            InstructionView::StopRelayTunnel { client_id } => (
                4,
                seq![FieldView::Uint32(client_id)],
            ),
            InstructionView::GetRelayTunnelStatus { client_id } => (
                5,
                seq![FieldView::Uint32(client_id)],
            ),
            InstructionView::RevokeRelayToken { token_hash } => (
                6,
                seq![FieldView::Text(token_hash)],
            ),
        }
    }

    /// The message that is written as these fields under this tag.
    pub open spec fn of_content(content: (nat, Seq<FieldView>)) -> InstructionView {
        let (tag, fields) = content;
        if tag == 1 {
            InstructionView::ShutdownWebServer
        } else if tag == 2 {
            InstructionView::QueryVersion
        } else if tag == 3 {
            InstructionView::StartRelayTunnel {
                client_id: fields[0]->Uint32_0,
                session_name: fields[1]->Text_0,
                relay_url: fields[2]->Text_0,
                zellij_version: fields[3]->Text_0,
                relay_tunnel_auth_token: fields[4]->Text_0,
            }
        } else if tag == 4 {
            InstructionView::StopRelayTunnel {
                client_id: fields[0]->Uint32_0,
            }
        } else if tag == 5 {
            InstructionView::GetRelayTunnelStatus {
                client_id: fields[0]->Uint32_0,
            }
        } else {
            InstructionView::RevokeRelayToken {
                token_hash: fields[0]->Text_0,
            }
        }
    }

    /// The message with its 32-bit numbers cut to the sixteen bits that they
    /// stand for.
    pub open spec fn narrowed(self) -> InstructionView {
        match self {
            InstructionView::StartRelayTunnel {
                client_id,
                session_name,
                relay_url,
                zellij_version,
                relay_tunnel_auth_token,
            } => InstructionView::StartRelayTunnel {
                client_id: client_id % 0x1_0000,
                session_name,
                relay_url,
                zellij_version,
                relay_tunnel_auth_token,
            },
            InstructionView::StopRelayTunnel { client_id } => InstructionView::StopRelayTunnel {
                client_id: client_id % 0x1_0000,
            },
            InstructionView::GetRelayTunnelStatus {
                client_id,
            } => InstructionView::GetRelayTunnelStatus {
                client_id: client_id % 0x1_0000,
            },
            _ => self,
        }
    }

    /// The bytes of the message.
    pub open spec fn encoded(self) -> Seq<u8> {
        wire_format::encode_frame(Some(self.content()))
    }
}

/// The fields of each message, in the order of the messages' tags.
pub open spec fn schema() -> Seq<Seq<Kind>> {
    seq![
        seq![],
        seq![],
        seq![Kind::Uint32, Kind::Text, Kind::Text, Kind::Text, Kind::Text],
        seq![Kind::Uint32],
        seq![Kind::Uint32],
        seq![Kind::Text],
    ]
}

pub proof fn lemma_content(message: InstructionView)
    ensures
        1 <= message.content().0 <= schema().len(),
        wire_format::has_kinds(message.content().1, schema()[message.content().0 - 1]),
        message.content().1.len() <= 5,
        schema().len() == 6,
        InstructionView::of_content(message.content()) == message,
{
}

/// The fields of each message, in the order of the messages' tags.
pub(crate) fn schema_table() -> (table: Vec<Vec<Kind>>)
    ensures
        wire_codec::schema_views(table@) == schema(),
{
    let fields_1: Vec<Kind> = Vec::new();
    let fields_2: Vec<Kind> = Vec::new();
    let fields_3: Vec<Kind> = vec![Kind::Uint32, Kind::Text, Kind::Text, Kind::Text, Kind::Text];
    let fields_4: Vec<Kind> = vec![Kind::Uint32];
    let fields_5: Vec<Kind> = vec![Kind::Uint32];
    let fields_6: Vec<Kind> = vec![Kind::Text];
    let table: Vec<Vec<Kind>> = vec![fields_1, fields_2, fields_3, fields_4, fields_5, fields_6];
    proof {
        let views = wire_codec::schema_views(table@);
        assert(views[0] =~= schema()[0]);
        assert(views[1] =~= schema()[1]);
        assert(views[2] =~= schema()[2]);
        assert(views[3] =~= schema()[3]);
        assert(views[4] =~= schema()[4]);
        assert(views[5] =~= schema()[5]);
        assert(views =~= schema());
    }
    table
}

impl Instruction {
    /// The tag and the fields that the message is written as.
    pub(crate) fn to_fields(&self) -> (r: (u32, Vec<Field>))
        ensures
            r.0 == self@.content().0,
            wire_codec::field_views(r.1@) == self@.content().1,
            r.1@.len() == self@.content().1.len(),
    {
        let (tag, fields): (u32, Vec<Field>) = match self {
            Instruction::ShutdownWebServer(_) => (1, Vec::new()),
            Instruction::QueryVersion(_) => (2, Vec::new()),
            Instruction::StartRelayTunnel(m) => (
                3,
                vec![
                    Field::Uint32(m.client_id),
                    Field::Text(m.session_name.clone()),
                    Field::Text(m.relay_url.clone()),
                    Field::Text(m.zellij_version.clone()),
                    Field::Text(m.relay_tunnel_auth_token.clone()),
                ],
            ),
            Instruction::StopRelayTunnel(m) => (4, vec![Field::Uint32(m.client_id)]),
            Instruction::GetRelayTunnelStatus(m) => (5, vec![Field::Uint32(m.client_id)]),
            Instruction::RevokeRelayToken(m) => (6, vec![Field::Text(m.token_hash.clone())]),
        };
        proof {
            assert(wire_codec::field_views(fields@) =~= self@.content().1);
        }
        (tag, fields)
    }

    /// The message that is written as `fields` under `tag`.
    pub(crate) fn from_fields(tag: u32, fields: Vec<Field>) -> (message: Instruction)
        requires
            1 <= tag <= schema().len(),
            wire_format::has_kinds(wire_codec::field_views(fields@), schema()[tag - 1]),
        ensures
            message@.content() == (tag as nat, wire_codec::field_views(fields@)),
    {
        let ghost views = wire_codec::field_views(fields@);
        proof {
            assert forall|i: int| 0 <= i < fields@.len() implies (#[trigger] fields@[i])@.kind()
                == schema()[tag - 1][i] by {
                assert(views[i] == fields@[i]@);
            }
        }
        let mut fields: Vec<Field> = fields;
        let message: Instruction = if tag == 1 {
            Instruction::ShutdownWebServer(ShutdownWebServerMsg {  })
        } else if tag == 2 {
            Instruction::QueryVersion(QueryVersionMsg {  })
        } else if tag == 3 {
            let relay_tunnel_auth_token: String = pop_text(&mut fields);
            let zellij_version: String = pop_text(&mut fields);
            let relay_url: String = pop_text(&mut fields);
            let session_name: String = pop_text(&mut fields);
            let client_id: u32 = pop_uint32(&mut fields);
            Instruction::StartRelayTunnel(
                StartRelayTunnelMsg {
                    client_id,
                    session_name,
                    relay_url,
                    zellij_version,
                    relay_tunnel_auth_token,
                },
            )
        } else if tag == 4 {
            let client_id: u32 = pop_uint32(&mut fields);
            Instruction::StopRelayTunnel(StopRelayTunnelMsg { client_id })
        } else if tag == 5 {
            let client_id: u32 = pop_uint32(&mut fields);
            Instruction::GetRelayTunnelStatus(GetRelayTunnelStatusMsg { client_id })
        } else {
            let token_hash: String = pop_text(&mut fields);
            Instruction::RevokeRelayToken(RevokeRelayTokenMsg { token_hash })
        };
        proof {
            assert(message@.content().1 =~= views);
        }
        message
    }
}

} // verus!
