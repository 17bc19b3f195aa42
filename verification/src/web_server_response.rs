//! What a response of the web server can be.

use crate::web_server_contract::{
    RelayTunnelErrorMsg,
    RelayTunnelEstablishedMsg,
    RelayTunnelStatusReportMsg,
    RelayTunnelStoppedMsg,
    VersionResponseMsg,
};
use crate::wire_codec;
use crate::wire_codec::{pop_optional_text, pop_text, pop_uint32, Field};
use crate::wire_format;
use crate::wire_format::{FieldView, Kind};
use vstd::prelude::*;

verus! {

#[derive(Clone, Debug, PartialEq)]
pub enum Response {
    Version(VersionResponseMsg),
    RelayTunnelEstablished(RelayTunnelEstablishedMsg),
    RelayTunnelStopped(RelayTunnelStoppedMsg),
    RelayTunnelError(RelayTunnelErrorMsg),
    RelayTunnelStatusReport(RelayTunnelStatusReportMsg),
}

/// The mathematical value of a [`Response`].
#[verifier::ext_equal]
pub enum ResponseView {
    Version { version: Seq<char>, ip: Seq<char>, port: u32 },
    RelayTunnelEstablished {
        client_id: u32,
        public_url: Seq<char>,
        slug: Seq<char>,
        tunnel_id: Seq<char>,
    },
    RelayTunnelStopped { client_id: u32 },
    RelayTunnelError { client_id: u32, message: Seq<char> },
    RelayTunnelStatusReport { client_id: u32, status_url: Option<Seq<char>> },
}

impl View for Response {
    type V = ResponseView;

    open spec fn view(&self) -> ResponseView {
        match *self {
            Response::Version(m) => ResponseView::Version {
                version: m.version@,
                ip: m.ip@,
                port: m.port,
            },
            Response::RelayTunnelEstablished(m) => ResponseView::RelayTunnelEstablished {
                client_id: m.client_id,
                public_url: m.public_url@,
                slug: m.slug@,
                tunnel_id: m.tunnel_id@,
            },
            Response::RelayTunnelStopped(m) => ResponseView::RelayTunnelStopped {
                client_id: m.client_id,
            },
            Response::RelayTunnelError(m) => ResponseView::RelayTunnelError {
                client_id: m.client_id,
                message: m.message@,
            },
            Response::RelayTunnelStatusReport(m) => ResponseView::RelayTunnelStatusReport {
                client_id: m.client_id,
                status_url: (match m.status_url { Some(s) => Some(s@), None => None }),
            },
        }
    }
}

impl ResponseView {
    /// The tag and the fields that the message is written as.
    pub open spec fn content(self) -> (nat, Seq<FieldView>) {
        match self {
            ResponseView::Version { version, ip, port } => (
                1,
                seq![FieldView::Text(version), FieldView::Text(ip), FieldView::Uint32(port)],
            ),
            ResponseView::RelayTunnelEstablished { client_id, public_url, slug, tunnel_id } => (
                2,
                seq![
                    FieldView::Uint32(client_id),
                    FieldView::Text(public_url),
                    FieldView::Text(slug),
                    FieldView::Text(tunnel_id),
                ],
            ),
            ResponseView::RelayTunnelStopped { client_id } => (
                3,
                seq![FieldView::Uint32(client_id)],
            ),
            ResponseView::RelayTunnelError { client_id, message } => (
                4,
                seq![FieldView::Uint32(client_id), FieldView::Text(message)],
            ),
            ResponseView::RelayTunnelStatusReport { client_id, status_url } => (
                5,
                seq![FieldView::Uint32(client_id), FieldView::OptionalText(status_url)],
            ),
        }
    }

    /// The message that is written as these fields under this tag.
    pub open spec fn of_content(content: (nat, Seq<FieldView>)) -> ResponseView {
        let (tag, fields) = content;
        if tag == 1 {
            ResponseView::Version {
                version: fields[0]->Text_0,
                ip: fields[1]->Text_0,
                port: fields[2]->Uint32_0,
            }
        } else if tag == 2 {
            ResponseView::RelayTunnelEstablished {
                client_id: fields[0]->Uint32_0,
                public_url: fields[1]->Text_0,
                slug: fields[2]->Text_0,
                tunnel_id: fields[3]->Text_0,
            }
        } else if tag == 3 {
            ResponseView::RelayTunnelStopped {
                client_id: fields[0]->Uint32_0,
            }
        } else if tag == 4 {
            ResponseView::RelayTunnelError {
                client_id: fields[0]->Uint32_0,
                message: fields[1]->Text_0,
            }
        } else {
            ResponseView::RelayTunnelStatusReport {
                client_id: fields[0]->Uint32_0,
                status_url: fields[1]->OptionalText_0,
            }
        }
    }

    /// The message with its 32-bit numbers cut to the sixteen bits that they
    /// stand for.
    pub open spec fn narrowed(self) -> ResponseView {
        match self {
            ResponseView::Version { version, ip, port } => ResponseView::Version {
                version,
                ip,
                port: port % 0x1_0000,
            },
            ResponseView::RelayTunnelEstablished {
                client_id,
                public_url,
                slug,
                tunnel_id,
            } => ResponseView::RelayTunnelEstablished {
                client_id: client_id % 0x1_0000,
                public_url,
                slug,
                tunnel_id,
            },
            ResponseView::RelayTunnelStopped { client_id } => ResponseView::RelayTunnelStopped {
                client_id: client_id % 0x1_0000,
            },
            ResponseView::RelayTunnelError {
                client_id,
                message,
            } => ResponseView::RelayTunnelError {
                client_id: client_id % 0x1_0000,
                message,
            },
            ResponseView::RelayTunnelStatusReport {
                client_id,
                status_url,
            } => ResponseView::RelayTunnelStatusReport {
                client_id: client_id % 0x1_0000,
                status_url,
            },
        }
    }

    /// The bytes of the message.
    pub open spec fn encoded(self) -> Seq<u8> {
        wire_format::encode_frame(Some(self.content()))
    }
}

/// The fields of each message, in the order of the messages' tags.
pub open spec fn schema() -> Seq<Seq<Kind>> {
    seq![
        seq![Kind::Text, Kind::Text, Kind::Uint32],
        seq![Kind::Uint32, Kind::Text, Kind::Text, Kind::Text],
        seq![Kind::Uint32],
        seq![Kind::Uint32, Kind::Text],
        seq![Kind::Uint32, Kind::OptionalText],
    ]
}

pub proof fn lemma_content(message: ResponseView)
    ensures
        1 <= message.content().0 <= schema().len(),
        wire_format::has_kinds(message.content().1, schema()[message.content().0 - 1]),
        message.content().1.len() <= 5,
        schema().len() == 5,
        ResponseView::of_content(message.content()) == message,
{
}

/// The fields of each message, in the order of the messages' tags.
pub(crate) fn schema_table() -> (table: Vec<Vec<Kind>>)
    ensures
        wire_codec::schema_views(table@) == schema(),
{
    let fields_1: Vec<Kind> = vec![Kind::Text, Kind::Text, Kind::Uint32];
    let fields_2: Vec<Kind> = vec![Kind::Uint32, Kind::Text, Kind::Text, Kind::Text];
    let fields_3: Vec<Kind> = vec![Kind::Uint32];
    let fields_4: Vec<Kind> = vec![Kind::Uint32, Kind::Text];
    let fields_5: Vec<Kind> = vec![Kind::Uint32, Kind::OptionalText];
    let table: Vec<Vec<Kind>> = vec![fields_1, fields_2, fields_3, fields_4, fields_5];
    proof {
        let views = wire_codec::schema_views(table@);
        assert(views[0] =~= schema()[0]);
        assert(views[1] =~= schema()[1]);
        assert(views[2] =~= schema()[2]);
        assert(views[3] =~= schema()[3]);
        assert(views[4] =~= schema()[4]);
        assert(views =~= schema());
    }
    table
}

impl Response {
    /// The tag and the fields that the message is written as.
    pub(crate) fn to_fields(&self) -> (r: (u32, Vec<Field>))
        ensures
            r.0 == self@.content().0,
            wire_codec::field_views(r.1@) == self@.content().1,
            r.1@.len() == self@.content().1.len(),
    {
        let (tag, fields): (u32, Vec<Field>) = match self {
            Response::Version(m) => (
                1,
                vec![
                    Field::Text(m.version.clone()),
                    Field::Text(m.ip.clone()),
                    Field::Uint32(m.port),
                ],
            ),
            Response::RelayTunnelEstablished(m) => (
                2,
                vec![
                    Field::Uint32(m.client_id),
                    Field::Text(m.public_url.clone()),
                    Field::Text(m.slug.clone()),
                    Field::Text(m.tunnel_id.clone()),
                ],
            ),
            Response::RelayTunnelStopped(m) => (3, vec![Field::Uint32(m.client_id)]),
            Response::RelayTunnelError(m) => (
                4,
                vec![Field::Uint32(m.client_id), Field::Text(m.message.clone())],
            ),
            Response::RelayTunnelStatusReport(m) => (
                5,
                vec![
                    Field::Uint32(m.client_id),
                    Field::OptionalText(clone_optional(&m.status_url)),
                ],
            ),
        };
        proof {
            assert(wire_codec::field_views(fields@) =~= self@.content().1);
        }
        (tag, fields)
    }

    /// The message that is written as `fields` under `tag`.
    pub(crate) fn from_fields(tag: u32, fields: Vec<Field>) -> (message: Response)
        requires
            1 <= tag <= schema().len(),
            wire_format::has_kinds(wire_codec::field_views(fields@), schema()[tag - 1]),
        ensures
            message@.content() == (tag as nat, wire_codec::field_views(fields@)),
    {
        let ghost views = wire_codec::field_views(fields@);
        proof {
            assert forall|i: int| 0 <= i < fields@.len() implies (#[trigger] fields@[i])@.kind()
                == schema()[tag - 1][i] by {
                assert(views[i] == fields@[i]@);
            }
        }
        let mut fields: Vec<Field> = fields;
        let message: Response = if tag == 1 {
            let port: u32 = pop_uint32(&mut fields);
            let ip: String = pop_text(&mut fields);
            let version: String = pop_text(&mut fields);
            Response::Version(VersionResponseMsg { version, ip, port })
        } else if tag == 2 {
            let tunnel_id: String = pop_text(&mut fields);
            let slug: String = pop_text(&mut fields);
            let public_url: String = pop_text(&mut fields);
            let client_id: u32 = pop_uint32(&mut fields);
            Response::RelayTunnelEstablished(
                RelayTunnelEstablishedMsg { client_id, public_url, slug, tunnel_id },
            )
        } else if tag == 3 {
            let client_id: u32 = pop_uint32(&mut fields);
            Response::RelayTunnelStopped(RelayTunnelStoppedMsg { client_id })
        } else if tag == 4 {
            let message: String = pop_text(&mut fields);
            let client_id: u32 = pop_uint32(&mut fields);
            Response::RelayTunnelError(RelayTunnelErrorMsg { client_id, message })
        } else {
            let status_url: Option<String> = pop_optional_text(&mut fields);
            let client_id: u32 = pop_uint32(&mut fields);
            Response::RelayTunnelStatusReport(RelayTunnelStatusReportMsg { client_id, status_url })
        };
        proof {
            assert(message@.content().1 =~= views);
        }
        message
    }
}

fn clone_optional(text: &Option<String>) -> (copy: Option<String>)
    ensures
        copy == *text,
{
    match text {
        Some(s) => Some(s.clone()),
        None => None,
    }
}

} // verus!
