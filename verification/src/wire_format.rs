//! The tag/length/value format that every message of the relay travels in,
//! as mathematics: what bytes a message is written as, and what a byte string
//! means when it is read back.
//!
//! A message body is a list of values, one per field; the field at position
//! `i` has the tag `i + 1`. A frame carries at most one body, under the tag
//! that tells which message it is.

use vstd::prelude::*;
use vstd::utf8;

verus! {

/// How deep unknown groups may nest in a frame.
pub const RECURSION_LIMIT: u32 = 100;

/// How deep unknown groups may nest in a message inside a frame.
pub const BODY_RECURSION_LIMIT: u32 = 99;

pub const WIRE_VARINT: u8 = 0;

pub const WIRE_FIXED64: u8 = 1;

pub const WIRE_DELIMITED: u8 = 2;

pub const WIRE_START_GROUP: u8 = 3;

pub const WIRE_END_GROUP: u8 = 4;

pub const WIRE_FIXED32: u8 = 5;

/// The type of a field.
#[derive(Clone, Copy, PartialEq, Eq, Structural, Debug)]
pub enum Kind {
    Text,
    Bytes,
    Uint32,
    Bool,
    OptionalText,
}

/// The mathematical value of a field.
#[verifier::ext_equal]
pub enum FieldView {
    Text(Seq<char>),
    Bytes(Seq<u8>),
    Uint32(u32),
    Bool(bool),
    OptionalText(Option<Seq<char>>),
}

impl FieldView {
    pub open spec fn kind(self) -> Kind {
        match self {
            FieldView::Text(_) => Kind::Text,
            FieldView::Bytes(_) => Kind::Bytes,
            FieldView::Uint32(_) => Kind::Uint32,
            FieldView::Bool(_) => Kind::Bool,
            FieldView::OptionalText(_) => Kind::OptionalText,
        }
    }

    /// Whether the field is left out when the message is written.
    pub open spec fn is_default(self) -> bool {
        self == default_field(self.kind())
    }
}

/// The value of a field that does not occur in the bytes.
pub open spec fn default_field(kind: Kind) -> FieldView {
    match kind {
        Kind::Text => FieldView::Text(Seq::empty()),
        Kind::Bytes => FieldView::Bytes(Seq::empty()),
        Kind::Uint32 => FieldView::Uint32(0),
        Kind::Bool => FieldView::Bool(false),
        Kind::OptionalText => FieldView::OptionalText(None),
    }
}

pub open spec fn default_body(kinds: Seq<Kind>) -> Seq<FieldView> {
    Seq::new(kinds.len(), |i: int| default_field(kinds[i]))
}

/// Whether `fields` is a body of a message with the fields `kinds`.
pub open spec fn has_kinds(fields: Seq<FieldView>, kinds: Seq<Kind>) -> bool {
    &&& fields.len() == kinds.len()
    &&& forall|i: int| 0 <= i < kinds.len() ==> (#[trigger] fields[i]).kind() == kinds[i]
}

// ---------------------------------------------------------------- writing

/// A number in groups of seven bits, the lowest first; every byte but the
/// last has its top bit set.
pub open spec fn varint(n: nat) -> Seq<u8>
    decreases n,
{
    if n < 128 {
        seq![n as u8]
    } else {
        seq![(n % 128 + 128) as u8] + varint(n / 128)
    }
}

pub open spec fn field_key(tag: nat, wire: u8) -> Seq<u8> {
    varint(8 * tag + wire as nat)
}

/// A length, then that many bytes.
pub open spec fn delimited(payload: Seq<u8>) -> Seq<u8> {
    varint(payload.len()) + payload
}

pub open spec fn varint_field(tag: nat, n: nat) -> Seq<u8> {
    field_key(tag, WIRE_VARINT) + varint(n)
}

pub open spec fn delimited_field(tag: nat, payload: Seq<u8>) -> Seq<u8> {
    field_key(tag, WIRE_DELIMITED) + delimited(payload)
}

/// The bytes of one field. A field that has its default value takes none.
pub open spec fn encode_field(tag: nat, field: FieldView) -> Seq<u8> {
    if field.is_default() {
        Seq::empty()
    } else {
        match field {
            FieldView::Text(s) => delimited_field(tag, utf8::encode_utf8(s)),
            FieldView::Bytes(b) => delimited_field(tag, b),
            FieldView::Uint32(n) => varint_field(tag, n as nat),
            FieldView::Bool(_) => varint_field(tag, 1),
            FieldView::OptionalText(s) => delimited_field(tag, utf8::encode_utf8(s->0)),
        }
    }
}

/// The bytes of the fields from position `from` on.
pub open spec fn encode_fields(fields: Seq<FieldView>, from: nat) -> Seq<u8>
    decreases fields.len() - from,
{
    if from >= fields.len() {
        Seq::empty()
    } else {
        encode_field(from + 1, fields[from as int]) + encode_fields(fields, from + 1)
    }
}

pub open spec fn encode_body(fields: Seq<FieldView>) -> Seq<u8> {
    encode_fields(fields, 0)
}

/// The bytes of a frame: nothing for one without a message, else the message's
/// body under its tag.
pub open spec fn encode_frame(content: Option<(nat, Seq<FieldView>)>) -> Seq<u8> {
    match content {
        None => Seq::empty(),
        Some((tag, fields)) => delimited_field(tag, encode_body(fields)),
    }
}

// ---------------------------------------------------------------- reading

/// The number at the front of `s` and how many bytes it takes, when `used`
/// bytes of it have been read. A number takes at most ten bytes and has at
/// most 64 bits.
pub open spec fn parse_varint_after(s: Seq<u8>, used: nat) -> Option<(nat, nat)>
    decreases 10 - used,
{
    if used >= 10 || s.len() == 0 {
        None
    } else if s[0] < 128 {
        if used == 9 && s[0] >= 2 {
            None
        } else {
            Some((s[0] as nat, 1))
        }
    } else {
        match parse_varint_after(s.skip(1), used + 1) {
            Some((high, n)) => Some(((s[0] - 128 + 128 * high) as nat, n + 1)),
            None => None,
        }
    }
}

pub open spec fn parse_varint(s: Seq<u8>) -> Option<(nat, nat)> {
    parse_varint_after(s, 0)
}

/// The field tag and wire type at the front of `s`, and how many bytes they
/// take.
pub open spec fn parse_key(s: Seq<u8>) -> Option<(nat, u8, nat)> {
    match parse_varint(s) {
        Some((key, n)) => if key <= u32::MAX && key % 8 <= 5 && key / 8 >= 1 {
            Some((key / 8, (key % 8) as u8, n))
        } else {
            None
        },
        None => None,
    }
}

/// The payload of a delimited field whose length is at the front of `s`, and
/// how many bytes length and payload take.
pub open spec fn parse_delimited(s: Seq<u8>) -> Option<(Seq<u8>, nat)> {
    match parse_varint(s) {
        Some((len, n)) => if n + len <= s.len() {
            Some((s.subrange(n as int, (n + len) as int), n + len))
        } else {
            None
        },
        None => None,
    }
}

/// How many bytes the value of a field of no known tag takes.
pub open spec fn skip_value(tag: nat, wire: u8, s: Seq<u8>, depth: nat) -> Option<nat>
    decreases depth, s.len(), 1nat,
{
    if depth == 0 {
        None
    } else if wire == WIRE_VARINT {
        match parse_varint(s) {
            Some((_, n)) => Some(n),
            None => None,
        }
    } else if wire == WIRE_FIXED64 {
        if s.len() >= 8 {
            Some(8)
        } else {
            None
        }
    } else if wire == WIRE_FIXED32 {
        if s.len() >= 4 {
            Some(4)
        } else {
            None
        }
    } else if wire == WIRE_DELIMITED {
        match parse_delimited(s) {
            Some((_, n)) => Some(n),
            None => None,
        }
    } else if wire == WIRE_START_GROUP {
        skip_group(tag, s, depth)
    } else {
        None
    }
}

/// How many bytes are left of an open group, its end included.
pub open spec fn skip_group(tag: nat, s: Seq<u8>, depth: nat) -> Option<nat>
    decreases depth, s.len(), 0nat,
{
    if depth == 0 {
        None
    } else {
        match parse_key(s) {
            None => None,
            Some((inner_tag, wire, n)) => if wire == WIRE_END_GROUP {
                if inner_tag == tag {
                    Some(n)
                } else {
                    None
                }
            } else {
                match skip_value(inner_tag, wire, s.skip(n as int), (depth - 1) as nat) {
                    None => None,
                    Some(m) => {
                        proof {
                            lemma_key_len(s);
                        }
                        if n + m > s.len() {
                            None
                        } else {
                            match skip_group(tag, s.skip((n + m) as int), depth) {
                                None => None,
                                Some(k) => Some(n + m + k),
                            }
                        }
                    },
                }
            },
        }
    }
}

/// The value of a field of the type `kind` at the front of `s`, and how many
/// bytes it takes. A number that is too large for 32 bits loses its high bits.
pub open spec fn parse_value(kind: Kind, wire: u8, s: Seq<u8>) -> Option<(FieldView, nat)> {
    match kind {
        Kind::Uint32 | Kind::Bool => if wire == WIRE_VARINT {
            match parse_varint(s) {
                Some((v, n)) => Some(
                    (
                        if kind == Kind::Bool {
                            FieldView::Bool(v != 0)
                        } else {
                            FieldView::Uint32((v % 0x1_0000_0000) as u32)
                        },
                        n,
                    ),
                ),
                None => None,
            }
        } else {
            None
        },
        Kind::Text | Kind::Bytes | Kind::OptionalText => if wire == WIRE_DELIMITED {
            match parse_delimited(s) {
                Some((payload, n)) => if kind == Kind::Bytes {
                    Some((FieldView::Bytes(payload), n))
                } else if !utf8::valid_utf8(payload) {
                    None
                } else if kind == Kind::Text {
                    Some((FieldView::Text(utf8::decode_utf8(payload)), n))
                } else {
                    Some((FieldView::OptionalText(Some(utf8::decode_utf8(payload))), n))
                },
                None => None,
            }
        } else {
            None
        },
    }
}

/// What reading the body `s` makes of `fields`: a field that occurs replaces
/// what was there, a tag that the message does not have is passed over.
pub open spec fn merge_body(
    kinds: Seq<Kind>,
    fields: Seq<FieldView>,
    s: Seq<u8>,
) -> Option<Seq<FieldView>>
    decreases s.len(),
{
    if s.len() == 0 {
        Some(fields)
    } else {
        match parse_key(s) {
            None => None,
            Some((tag, wire, n)) => {
                proof {
                    lemma_key_len(s);
                    lemma_value_len(kinds[tag - 1], wire, s.skip(n as int));
                    lemma_skip_len(tag, wire, s.skip(n as int), BODY_RECURSION_LIMIT as nat);
                }
                if tag <= kinds.len() {
                    match parse_value(kinds[tag - 1], wire, s.skip(n as int)) {
                        None => None,
                        Some((field, m)) => merge_body(
                            kinds,
                            fields.update(tag - 1, field),
                            s.skip((n + m) as int),
                        ),
                    }
                } else {
                    match skip_value(tag, wire, s.skip(n as int), BODY_RECURSION_LIMIT as nat) {
                        None => None,
                        Some(m) => merge_body(kinds, fields, s.skip((n + m) as int)),
                    }
                }
            },
        }
    }
}

/// The body that a message with the tag `tag` is merged into.
pub open spec fn merge_base(
    kinds: Seq<Kind>,
    content: Option<(nat, Seq<FieldView>)>,
    tag: nat,
) -> Seq<FieldView> {
    match content {
        Some((t, fields)) => if t == tag {
            fields
        } else {
            default_body(kinds)
        },
        None => default_body(kinds),
    }
}

/// What reading the frame `s` makes of `content`: a message of the same tag is
/// merged into it, one of another known tag replaces it, an unknown tag is
/// passed over. `schema` lists the fields of the messages with the tags 1, 2
/// and so on.
pub open spec fn merge_frame(
    schema: Seq<Seq<Kind>>,
    content: Option<(nat, Seq<FieldView>)>,
    s: Seq<u8>,
) -> Option<Option<(nat, Seq<FieldView>)>>
    decreases s.len(),
{
    if s.len() == 0 {
        Some(content)
    } else {
        match parse_key(s) {
            None => None,
            Some((tag, wire, n)) => {
                proof {
                    lemma_key_len(s);
                    lemma_varint_len(s.skip(n as int), 0);
                    lemma_skip_len(tag, wire, s.skip(n as int), RECURSION_LIMIT as nat);
                }
                if tag <= schema.len() {
                    if wire != WIRE_DELIMITED {
                        None
                    } else {
                        match parse_delimited(s.skip(n as int)) {
                            None => None,
                            Some((payload, m)) => match merge_body(
                                schema[tag - 1],
                                merge_base(schema[tag - 1], content, tag),
                                payload,
                            ) {
                                None => None,
                                Some(fields) => merge_frame(
                                    schema,
                                    Some((tag, fields)),
                                    s.skip((n + m) as int),
                                ),
                            },
                        }
                    }
                } else {
                    match skip_value(tag, wire, s.skip(n as int), RECURSION_LIMIT as nat) {
                        None => None,
                        Some(m) => merge_frame(schema, content, s.skip((n + m) as int)),
                    }
                }
            },
        }
    }
}

/// What the frame `s` holds: `None` where `s` is no frame.
pub open spec fn decode_frame(schema: Seq<Seq<Kind>>, s: Seq<u8>) -> Option<
    Option<(nat, Seq<FieldView>)>,
> {
    merge_frame(schema, None, s)
}

// ---------------------------------------------------------------- lengths

pub proof fn lemma_varint_len(s: Seq<u8>, used: nat)
    ensures
        parse_varint_after(s, used) matches Some((v, n)) ==> 1 <= n <= s.len(),
    decreases 10 - used,
{
    if used < 10 && s.len() > 0 && s[0] >= 128 {
        lemma_varint_len(s.skip(1), used + 1);
    }
}

pub proof fn lemma_key_len(s: Seq<u8>)
    ensures
        parse_key(s) matches Some((tag, wire, n)) ==> 1 <= n <= s.len() && tag >= 1,
{
    lemma_varint_len(s, 0);
}

pub proof fn lemma_skip_len(tag: nat, wire: u8, s: Seq<u8>, depth: nat)
    ensures
        skip_value(tag, wire, s, depth) matches Some(n) ==> n <= s.len(),
    decreases depth, s.len(), 1nat,
{
    lemma_varint_len(s, 0);
    if depth > 0 && wire == WIRE_START_GROUP {
        lemma_skip_group_len(tag, s, depth);
    }
}

pub proof fn lemma_skip_group_len(tag: nat, s: Seq<u8>, depth: nat)
    ensures
        skip_group(tag, s, depth) matches Some(n) ==> n <= s.len(),
    decreases depth, s.len(), 0nat,
{
    lemma_key_len(s);
    if depth > 0 {
        if let Some((inner_tag, wire, n)) = parse_key(s) {
            if let Some(m) = skip_value(inner_tag, wire, s.skip(n as int), (depth - 1) as nat) {
                if n + m <= s.len() {
                    lemma_skip_group_len(tag, s.skip((n + m) as int), depth);
                }
            }
        }
    }
}

pub proof fn lemma_value_len(kind: Kind, wire: u8, s: Seq<u8>)
    ensures
        parse_value(kind, wire, s) matches Some((field, n)) ==> n <= s.len(),
{
    lemma_varint_len(s, 0);
}

} // verus!
