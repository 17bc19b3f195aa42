//! Reading and writing the wire format.

use crate::wire_format;
use crate::wire_format::{
    FieldView, Kind, BODY_RECURSION_LIMIT, RECURSION_LIMIT, WIRE_DELIMITED, WIRE_END_GROUP,
    WIRE_FIXED32, WIRE_FIXED64, WIRE_START_GROUP, WIRE_VARINT,
};
use vstd::prelude::*;
use vstd::slice::{slice_subrange, slice_to_vec};
use vstd::utf8;

verus! {

/// The error of `prost`'s readers.
#[verifier::external_type_specification]
#[verifier::external_body]
pub struct ExDecodeError(prost::DecodeError);

/// The value of a field.
#[derive(Debug)]
pub enum Field {
    Text(String),
    Bytes(Vec<u8>),
    Uint32(u32),
    Bool(bool),
    OptionalText(Option<String>),
}

impl View for Field {
    type V = FieldView;

    open spec fn view(&self) -> FieldView {
        match *self {
            Field::Text(s) => FieldView::Text(s@),
            Field::Bytes(b) => FieldView::Bytes(b@),
            Field::Uint32(n) => FieldView::Uint32(n),
            Field::Bool(b) => FieldView::Bool(b),
            Field::OptionalText(s) => FieldView::OptionalText(
                match s {
                    Some(s) => Some(s@),
                    None => None,
                },
            ),
        }
    }
}

pub open spec fn field_views(fields: Seq<Field>) -> Seq<FieldView> {
    fields.map_values(|f: Field| f@)
}

pub open spec fn schema_views(schema: Seq<Vec<Kind>>) -> Seq<Seq<Kind>> {
    schema.map_values(|k: Vec<Kind>| k@)
}

/// What a frame holds: the tag of its message and the message's fields.
pub type Content = Option<(u32, Vec<Field>)>;

pub open spec fn content_view(content: Content) -> Option<(nat, Seq<FieldView>)> {
    match content {
        Some((tag, fields)) => Some((tag as nat, field_views(fields@))),
        None => None,
    }
}

pub(crate) fn clone_bytes(bytes: &Vec<u8>) -> (copy: Vec<u8>)
    ensures
        copy@ == bytes@,
{
    slice_to_vec(bytes.as_slice())
}

pub(crate) fn pop_text(fields: &mut Vec<Field>) -> (text: String)
    requires
        old(fields)@.len() > 0,
        old(fields)@.last()@.kind() == Kind::Text,
    ensures
        final(fields)@ == old(fields)@.drop_last(),
        old(fields)@.last()@ == FieldView::Text(text@),
{
    match fields.pop() {
        Some(Field::Text(text)) => text,
        _ => String::new(),
    }
}

pub(crate) fn pop_optional_text(fields: &mut Vec<Field>) -> (text: Option<String>)
    requires
        old(fields)@.len() > 0,
        old(fields)@.last()@.kind() == Kind::OptionalText,
    ensures
        final(fields)@ == old(fields)@.drop_last(),
        old(fields)@.last()@ == Field::OptionalText(text)@,
{
    match fields.pop() {
        Some(Field::OptionalText(text)) => text,
        _ => None,
    }
}

pub(crate) fn pop_bytes(fields: &mut Vec<Field>) -> (bytes: Vec<u8>)
    requires
        old(fields)@.len() > 0,
        old(fields)@.last()@.kind() == Kind::Bytes,
    ensures
        final(fields)@ == old(fields)@.drop_last(),
        old(fields)@.last()@ == FieldView::Bytes(bytes@),
{
    match fields.pop() {
        Some(Field::Bytes(bytes)) => bytes,
        _ => Vec::new(),
    }
}

pub(crate) fn pop_uint32(fields: &mut Vec<Field>) -> (n: u32)
    requires
        old(fields)@.len() > 0,
        old(fields)@.last()@.kind() == Kind::Uint32,
    ensures
        final(fields)@ == old(fields)@.drop_last(),
        old(fields)@.last()@ == FieldView::Uint32(n),
{
    match fields.pop() {
        Some(Field::Uint32(n)) => n,
        _ => 0,
    }
}

pub(crate) fn pop_bool(fields: &mut Vec<Field>) -> (b: bool)
    requires
        old(fields)@.len() > 0,
        old(fields)@.last()@.kind() == Kind::Bool,
    ensures
        final(fields)@ == old(fields)@.drop_last(),
        old(fields)@.last()@ == FieldView::Bool(b),
{
    match fields.pop() {
        Some(Field::Bool(b)) => b,
        _ => false,
    }
}

/// `prost::encoding::decode_varint`: the number at the front of `bytes` and
/// what follows it. It fails where the bytes end inside the number, where the
/// number takes more than ten bytes, and where it does not fit in 64 bits.
#[verifier::external_body]
fn read_varint(bytes: &[u8]) -> (r: Result<(u64, &[u8]), prost::DecodeError>)
    ensures
        match wire_format::parse_varint(bytes@) {
            Some((v, n)) => r matches Ok((value, rest)) && value == v && rest@ == bytes@.skip(
                n as int,
            ),
            None => r is Err,
        },
{
    let mut rest = bytes;
    match prost::encoding::decode_varint(&mut rest) {
        Ok(value) => Ok((value, rest)),
        Err(e) => Err(e),
    }
}

/// `prost::encoding::encode_varint`: appends the number in groups of seven
/// bits.
#[verifier::external_body]
fn write_varint(value: u64, out: &mut Vec<u8>)
    ensures
        final(out)@ == old(out)@ + wire_format::varint(value as nat),
{
    prost::encoding::encode_varint(value, out)
}

/// `std::str::from_utf8`: the text that `bytes` encode, where they are valid
/// UTF-8.
#[verifier::external_body]
pub(crate) fn utf8_text(bytes: &[u8]) -> (r: Option<&str>)
    ensures
        r matches Some(s) ==> utf8::valid_utf8(bytes@) && s@ == utf8::decode_utf8(bytes@),
        r is None ==> !utf8::valid_utf8(bytes@),
{
    match std::str::from_utf8(bytes) {
        Ok(s) => Some(s),
        Err(_) => None,
    }
}

fn skip_bytes(bytes: &[u8], n: usize) -> (rest: &[u8])
    requires
        n <= bytes@.len(),
    ensures
        rest@ == bytes@.skip(n as int),
{
    slice_subrange(bytes, n, bytes.len())
}

fn read_key(bytes: &[u8]) -> (r: Option<(u32, u8, &[u8])>)
    ensures
        match wire_format::parse_key(bytes@) {
            Some((t, w, n)) => r matches Some((tag, wire, rest)) && tag == t && wire == w && rest@
                == bytes@.skip(n as int),
            None => r is None,
        },
{
    match read_varint(bytes) {
        Ok((key, rest)) => {
            if key > u32::MAX as u64 {
                return None;
            }
            let wire: u64 = key % 8;
            let tag: u64 = key / 8;
            if wire > 5 || tag == 0 {
                return None;
            }
            Some((tag as u32, wire as u8, rest))
        },
        Err(_) => None,
    }
}

/// The payload behind its length, and what follows it.
fn read_delimited(bytes: &[u8]) -> (r: Option<(&[u8], &[u8])>)
    ensures
        match wire_format::parse_delimited(bytes@) {
            Some((p, n)) => r matches Some((payload, rest)) && payload@ == p && rest@
                == bytes@.skip(n as int),
            None => r is None,
        },
{
    proof {
        wire_format::lemma_varint_len(bytes@, 0);
    }
    match read_varint(bytes) {
        Ok((len, rest)) => {
            if len > rest.len() as u64 {
                return None;
            }
            let len: usize = len as usize;
            let payload = slice_subrange(rest, 0, len);
            let after = skip_bytes(rest, len);
            proof {
                let (l, n) = wire_format::parse_varint(bytes@)->0;
                assert(payload@ =~= bytes@.subrange(n as int, (n + l) as int));
                assert(after@ =~= bytes@.skip((n + l) as int));
            }
            Some((payload, after))
        },
        Err(_) => None,
    }
}

/// What follows the value of a field that the message does not have.
fn skip_value(tag: u32, wire: u8, bytes: &[u8], depth: u32) -> (r: Option<&[u8]>)
    ensures
        match wire_format::skip_value(tag as nat, wire, bytes@, depth as nat) {
            Some(n) => r matches Some(rest) && rest@ == bytes@.skip(n as int),
            None => r is None,
        },
    decreases depth, 1nat,
{
    if depth == 0 {
        return None;
    }
    if wire == WIRE_VARINT {
        match read_varint(bytes) {
            Ok((_, rest)) => Some(rest),
            Err(_) => None,
        }
    } else if wire == WIRE_FIXED64 {
        if bytes.len() >= 8 {
            Some(skip_bytes(bytes, 8))
        } else {
            None
        }
    } else if wire == WIRE_FIXED32 {
        if bytes.len() >= 4 {
            Some(skip_bytes(bytes, 4))
        } else {
            None
        }
    } else if wire == WIRE_DELIMITED {
        match read_delimited(bytes) {
            Some((_, rest)) => Some(rest),
            None => None,
        }
    } else if wire == WIRE_START_GROUP {
        skip_group(tag, bytes, depth)
    } else {
        None
    }
}

/// What follows the end of an open group.
fn skip_group(tag: u32, bytes: &[u8], depth: u32) -> (r: Option<&[u8]>)
    requires
        depth > 0,
    ensures
        match wire_format::skip_group(tag as nat, bytes@, depth as nat) {
            Some(n) => r matches Some(rest) && rest@ == bytes@.skip(n as int),
            None => r is None,
        },
    decreases depth, 0nat,
{
    let mut left: &[u8] = bytes;
    let ghost mut used: nat = 0;
    proof {
        assert(bytes@.skip(0) =~= bytes@);
    }
    loop
        invariant
            depth > 0,
            used <= bytes@.len(),
            left@ == bytes@.skip(used as int),
            wire_format::skip_group(tag as nat, bytes@, depth as nat) == match wire_format::skip_group(
                tag as nat,
                left@,
                depth as nat,
            ) {
                Some(n) => Some(used + n),
                None => None::<nat>,
            },
        decreases left@.len(),
    {
        proof {
            wire_format::lemma_key_len(left@);
        }
        let (inner_tag, wire, value) = match read_key(left) {
            Some(key) => key,
            None => {
                return None;
            },
        };
        let ghost n = (wire_format::parse_key(left@)->0).2;
        if wire == WIRE_END_GROUP {
            if inner_tag == tag {
                proof {
                    assert(value@ =~= bytes@.skip((used + n) as int));
                }
                return Some(value);
            }
            return None;
        }
        proof {
            wire_format::lemma_skip_len(inner_tag as nat, wire, value@, (depth - 1) as nat);
        }
        match skip_value(inner_tag, wire, value, depth - 1) {
            Some(rest) => {
                proof {
                    let m = wire_format::skip_value(
                        inner_tag as nat,
                        wire,
                        value@,
                        (depth - 1) as nat,
                    )->0;
                    assert(rest@ =~= left@.skip((n + m) as int));
                    assert(rest@ =~= bytes@.skip((used + n + m) as int));
                    used = used + n + m;
                }
                left = rest;
            },
            None => {
                return None;
            },
        }
    }
}

/// The value of a field of the type `kind`, and what follows it.
fn read_value(kind: Kind, wire: u8, bytes: &[u8]) -> (r: Option<(Field, &[u8])>)
    ensures
        match wire_format::parse_value(kind, wire, bytes@) {
            Some((f, n)) => r matches Some((field, rest)) && field@ == f && rest@ == bytes@.skip(
                n as int,
            ),
            None => r is None,
        },
{
    match kind {
        Kind::Uint32 | Kind::Bool => {
            if wire != WIRE_VARINT {
                return None;
            }
            match read_varint(bytes) {
                Ok((v, rest)) => {
                    if kind == Kind::Bool {
                        Some((Field::Bool(v != 0), rest))
                    } else {
                        let low: u32 = #[verifier::truncate] (v as u32);
                        assert(low as u64 == v % 0x1_0000_0000u64) by (bit_vector)
                            requires
                                low == v as u32,
                        ;
                        Some((Field::Uint32(low), rest))
                    }
                },
                Err(_) => None,
            }
        },
        Kind::Text | Kind::Bytes | Kind::OptionalText => {
            if wire != WIRE_DELIMITED {
                return None;
            }
            match read_delimited(bytes) {
                Some((payload, rest)) => {
                    if kind == Kind::Bytes {
                        return Some((Field::Bytes(slice_to_vec(payload)), rest));
                    }
                    match utf8_text(payload) {
                        Some(text) => {
                            if kind == Kind::Text {
                                Some((Field::Text(text.to_string()), rest))
                            } else {
                                Some((Field::OptionalText(Some(text.to_string())), rest))
                            }
                        },
                        None => None,
                    }
                },
                None => None,
            }
        },
    }
}

/// Reads the body `bytes` on top of `base`.
pub fn merge_body(kinds: &[Kind], base: Vec<Field>, bytes: &[u8]) -> (r: Option<Vec<Field>>)
    requires
        kinds@.len() == base@.len(),
    ensures
        match wire_format::merge_body(kinds@, field_views(base@), bytes@) {
            Some(f) => r matches Some(merged) && field_views(merged@) == f && merged@.len()
                == kinds@.len(),
            None => r is None,
        },
{
    let mut fields: Vec<Field> = base;
    let mut left: &[u8] = bytes;
    while left.len() > 0
        invariant
            kinds@.len() == fields@.len(),
            wire_format::merge_body(kinds@, field_views(fields@), left@)
                == wire_format::merge_body(kinds@, field_views(base@), bytes@),
        decreases left@.len(),
    {
        proof {
            wire_format::lemma_key_len(left@);
        }
        let (tag, wire, value) = match read_key(left) {
            Some(key) => key,
            None => {
                return None;
            },
        };
        let ghost n = (wire_format::parse_key(left@)->0).2;
        if tag as u64 <= kinds.len() as u64 {
            let at: usize = tag as usize - 1;
            let kind = kinds[at];
            proof {
                wire_format::lemma_value_len(kind, wire, value@);
            }
            match read_value(kind, wire, value) {
                Some((field, rest)) => {
                    proof {
                        let m = (wire_format::parse_value(kind, wire, value@)->0).1;
                        assert(rest@ =~= left@.skip((n + m) as int));
                        assert(field_views(fields@.update(at as int, field)) =~= field_views(
                            fields@,
                        ).update(at as int, field@));
                    }
                    fields.set(at, field);
                    left = rest;
                },
                None => {
                    return None;
                },
            }
        } else {
            proof {
                wire_format::lemma_skip_len(tag as nat, wire, value@, BODY_RECURSION_LIMIT as nat);
            }
            match skip_value(tag, wire, value, BODY_RECURSION_LIMIT) {
                Some(rest) => {
                    proof {
                        let m = wire_format::skip_value(
                            tag as nat,
                            wire,
                            value@,
                            BODY_RECURSION_LIMIT as nat,
                        )->0;
                        assert(rest@ =~= left@.skip((n + m) as int));
                    }
                    left = rest;
                },
                None => {
                    return None;
                },
            }
        }
    }
    Some(fields)
}

fn default_field(kind: Kind) -> (field: Field)
    ensures
        field@ == wire_format::default_field(kind),
{
    match kind {
        Kind::Text => Field::Text(String::new()),
        Kind::Bytes => Field::Bytes(Vec::new()),
        Kind::Uint32 => Field::Uint32(0),
        Kind::Bool => Field::Bool(false),
        Kind::OptionalText => Field::OptionalText(None),
    }
}

fn default_body(kinds: &[Kind]) -> (fields: Vec<Field>)
    ensures
        field_views(fields@) == wire_format::default_body(kinds@),
        fields@.len() == kinds@.len(),
{
    let mut fields: Vec<Field> = Vec::new();
    let mut i: usize = 0;
    while i < kinds.len()
        invariant
            i <= kinds@.len(),
            fields@.len() == i,
            forall|j: int|
                0 <= j < i ==> (#[trigger] fields@[j])@ == wire_format::default_field(kinds@[j]),
        decreases kinds@.len() - i,
    {
        fields.push(default_field(kinds[i]));
        i = i + 1;
    }
    proof {
        assert(field_views(fields@) =~= wire_format::default_body(kinds@));
    }
    fields
}

/// Whether the body that a frame holds has the right number of fields.
pub open spec fn content_fits(content: Content, schema: Seq<Vec<Kind>>) -> bool {
    content matches Some((tag, fields)) ==> 1 <= tag <= schema.len() && fields@.len() == schema[tag
        - 1]@.len()
}

/// What the frame `bytes` holds; `None` where `bytes` are no frame.
pub fn decode_frame(schema: &[Vec<Kind>], bytes: &[u8]) -> (r: Option<Content>)
    ensures
        match wire_format::decode_frame(schema_views(schema@), bytes@) {
            Some(c) => r matches Some(content) && content_view(content) == c && content_fits(
                content,
                schema@,
            ),
            None => r is None,
        },
{
    let mut content: Content = None;
    let mut left: &[u8] = bytes;
    let ghost schema_view = schema_views(schema@);
    while left.len() > 0
        invariant
            schema_view == schema_views(schema@),
            content_fits(content, schema@),
            wire_format::merge_frame(schema_view, content_view(content), left@)
                == wire_format::decode_frame(schema_view, bytes@),
        decreases left@.len(),
    {
        proof {
            wire_format::lemma_key_len(left@);
        }
        let (tag, wire, value) = match read_key(left) {
            Some(key) => key,
            None => {
                return None;
            },
        };
        let ghost n = (wire_format::parse_key(left@)->0).2;
        if tag as u64 <= schema.len() as u64 {
            if wire != WIRE_DELIMITED {
                return None;
            }
            proof {
                wire_format::lemma_varint_len(value@, 0);
            }
            let (payload, rest) = match read_delimited(value) {
                Some(parts) => parts,
                None => {
                    return None;
                },
            };
            let kinds = schema[tag as usize - 1].as_slice();
            let ghost before = content_view(content);
            let base: Vec<Field> = match content {
                Some((t, fields)) => {
                    if t == tag {
                        fields
                    } else {
                        default_body(kinds)
                    }
                },
                None => default_body(kinds),
            };
            proof {
                let m = (wire_format::parse_delimited(value@)->0).1;
                assert(rest@ =~= left@.skip((n + m) as int));
                assert(schema_view[tag - 1] == kinds@);
                assert(field_views(base@) == wire_format::merge_base(kinds@, before, tag as nat));
            }
            match merge_body(kinds, base, payload) {
                Some(fields) => {
                    content = Some((tag, fields));
                },
                None => {
                    return None;
                },
            }
            left = rest;
        } else {
            proof {
                wire_format::lemma_skip_len(tag as nat, wire, value@, RECURSION_LIMIT as nat);
            }
            match skip_value(tag, wire, value, RECURSION_LIMIT) {
                Some(rest) => {
                    proof {
                        let m = wire_format::skip_value(
                            tag as nat,
                            wire,
                            value@,
                            RECURSION_LIMIT as nat,
                        )->0;
                        assert(rest@ =~= left@.skip((n + m) as int));
                    }
                    left = rest;
                },
                None => {
                    return None;
                },
            }
        }
    }
    Some(content)
}

fn write_key(tag: u32, wire: u8, out: &mut Vec<u8>)
    requires
        8 * tag + 7 <= u32::MAX,
        wire <= 5,
    ensures
        final(out)@ == old(out)@ + wire_format::field_key(tag as nat, wire),
{
    write_varint(8 * tag as u64 + wire as u64, out);
}

fn write_delimited_field(tag: u32, payload: &[u8], out: &mut Vec<u8>)
    requires
        8 * tag + 7 <= u32::MAX,
    ensures
        final(out)@ == old(out)@ + wire_format::delimited_field(tag as nat, payload@),
{
    write_key(tag, WIRE_DELIMITED, out);
    write_varint(payload.len() as u64, out);
    out.extend_from_slice(payload);
    proof {
        assert(final(out)@ =~= old(out)@ + wire_format::delimited_field(tag as nat, payload@));
    }
}

fn write_varint_field(tag: u32, n: u64, out: &mut Vec<u8>)
    requires
        8 * tag + 7 <= u32::MAX,
    ensures
        final(out)@ == old(out)@ + wire_format::varint_field(tag as nat, n as nat),
{
    write_key(tag, WIRE_VARINT, out);
    write_varint(n, out);
    proof {
        assert(final(out)@ =~= old(out)@ + wire_format::varint_field(tag as nat, n as nat));
    }
}

fn write_field(tag: u32, field: &Field, out: &mut Vec<u8>)
    requires
        8 * tag + 7 <= u32::MAX,
    ensures
        final(out)@ == old(out)@ + wire_format::encode_field(tag as nat, field@),
{
    let ghost before = out@;
    match field {
        Field::Text(s) => {
            proof {
                lemma_empty_text(s@);
            }
            if s.as_str().as_bytes().len() > 0 {
                write_delimited_field(tag, s.as_str().as_bytes(), out);
            }
        },
        Field::Bytes(b) => {
            if b.len() > 0 {
                write_delimited_field(tag, b.as_slice(), out);
            } else {
                assert(b@ =~= Seq::<u8>::empty());
            }
        },
        Field::Uint32(n) => {
            if *n != 0 {
                write_varint_field(tag, *n as u64, out);
            }
        },
        Field::Bool(b) => {
            if *b {
                write_varint_field(tag, 1, out);
            }
        },
        Field::OptionalText(s) => {
            if let Some(s) = s {
                write_delimited_field(tag, s.as_str().as_bytes(), out);
            }
        },
    }
    proof {
        if field@.is_default() {
            assert(out@ =~= before + wire_format::encode_field(tag as nat, field@));
        }
    }
}

/// Only the empty text takes no bytes.
proof fn lemma_empty_text(s: Seq<char>)
    ensures
        utf8::encode_utf8(s).len() == 0 <==> s == Seq::<char>::empty(),
{
    utf8::encode_utf8_decode_utf8(s);
    if utf8::encode_utf8(s).len() == 0 {
        assert(utf8::encode_utf8(s) =~= Seq::<u8>::empty());
        assert(utf8::decode_utf8(Seq::<u8>::empty()) =~= Seq::<char>::empty());
    } else if s.len() == 0 {
        assert(utf8::encode_utf8(s) =~= Seq::<u8>::empty());
    }
}

/// The bytes of a body.
pub fn encode_body(fields: &[Field]) -> (bytes: Vec<u8>)
    requires
        8 * fields@.len() + 7 <= u32::MAX,
    ensures
        bytes@ == wire_format::encode_body(field_views(fields@)),
{
    let mut out: Vec<u8> = Vec::new();
    let mut i: usize = 0;
    let ghost views = field_views(fields@);
    proof {
        assert(out@ + wire_format::encode_fields(views, 0) =~= wire_format::encode_body(views));
    }
    while i < fields.len()
        invariant
            i <= fields@.len(),
            8 * fields@.len() + 7 <= u32::MAX,
            views == field_views(fields@),
            out@ + wire_format::encode_fields(views, i as nat) == wire_format::encode_body(views),
        decreases fields@.len() - i,
    {
        let ghost before = out@;
        write_field(i as u32 + 1, &fields[i], &mut out);
        proof {
            assert(out@ + wire_format::encode_fields(views, i as nat + 1) =~= before
                + wire_format::encode_fields(views, i as nat));
        }
        i = i + 1;
    }
    proof {
        assert(out@ + wire_format::encode_fields(views, i as nat) =~= out@);
    }
    out
}

/// The bytes of a frame.
pub fn encode_frame(content: &Content) -> (bytes: Vec<u8>)
    requires
        *content matches Some((tag, fields)) ==> 8 * tag + 7 <= u32::MAX && 8 * fields@.len() + 7
            <= u32::MAX,
    ensures
        bytes@ == wire_format::encode_frame(content_view(*content)),
{
    let mut out: Vec<u8> = Vec::new();
    if let Some((tag, fields)) = content {
        let body = encode_body(fields.as_slice());
        write_delimited_field(*tag, body.as_slice(), &mut out);
    }
    proof {
        assert(out@ =~= wire_format::encode_frame(content_view(*content)));
    }
    out
}

} // verus!
