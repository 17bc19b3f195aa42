//! What holds of the wire format as a whole: a reader gets back what a writer
//! wrote, and reading two frames in a row is reading one after the other.

use crate::wire_format;
use crate::wire_format::{
    FieldView, Kind, RECURSION_LIMIT, WIRE_DELIMITED, WIRE_END_GROUP, WIRE_START_GROUP, WIRE_VARINT,
};
use vstd::prelude::*;
use vstd::utf8;

verus! {

/// What a number may still hold when `used` bytes of it have been read.
pub open spec fn varint_bound(used: nat) -> nat
    decreases 9 - used,
{
    if used >= 9 {
        2
    } else {
        128 * varint_bound(used + 1)
    }
}

proof fn lemma_varint_bound()
    ensures
        varint_bound(0) == u64::MAX + 1,
{
    reveal_with_fuel(varint_bound, 10);
}

proof fn lemma_varint_nonempty(n: nat)
    ensures
        wire_format::varint(n).len() >= 1,
{
}

proof fn lemma_read_varint_after(n: nat, used: nat, rest: Seq<u8>)
    requires
        used <= 9,
        n < varint_bound(used),
    ensures
        wire_format::parse_varint_after(wire_format::varint(n) + rest, used) == Some(
            (n, wire_format::varint(n).len()),
        ),
    decreases n,
{
    let s = wire_format::varint(n) + rest;
    if n < 128 {
        assert(s[0] == n as u8);
    } else {
        assert(used < 9);
        lemma_read_varint_after(n / 128, used + 1, rest);
        assert(s[0] == (n % 128 + 128) as u8);
        assert(s.skip(1) =~= wire_format::varint(n / 128) + rest);
    }
}

/// A number of up to 64 bits is read back as it was written, whatever follows.
pub proof fn law_varint_roundtrip(n: nat, rest: Seq<u8>)
    requires
        n <= u64::MAX,
    ensures
        wire_format::parse_varint(wire_format::varint(n) + rest) == Some(
            (n, wire_format::varint(n).len()),
        ),
{
    lemma_varint_bound();
    lemma_read_varint_after(n, 0, rest);
}

proof fn lemma_read_key(tag: nat, wire: u8, rest: Seq<u8>)
    requires
        1 <= tag,
        8 * tag + 7 <= u32::MAX,
        wire <= 5,
    ensures
        wire_format::parse_key(wire_format::field_key(tag, wire) + rest) == Some(
            (tag, wire, wire_format::field_key(tag, wire).len()),
        ),
{
    law_varint_roundtrip(8 * tag + wire as nat, rest);
    assert((8 * tag + wire as nat) / 8 == tag);
    assert((8 * tag + wire as nat) % 8 == wire as nat);
}

proof fn lemma_read_delimited(payload: Seq<u8>, rest: Seq<u8>)
    requires
        payload.len() <= u64::MAX,
    ensures
        wire_format::parse_delimited(wire_format::delimited(payload) + rest) == Some(
            (payload, wire_format::delimited(payload).len()),
        ),
{
    let n = wire_format::varint(payload.len()).len();
    assert(wire_format::delimited(payload) + rest =~= wire_format::varint(payload.len()) + (payload
        + rest));
    law_varint_roundtrip(payload.len(), payload + rest);
    assert((wire_format::delimited(payload) + rest).subrange(n as int, (n + payload.len()) as int)
        =~= payload);
}

/// The wire type of a field.
spec fn wire_of(field: FieldView) -> u8 {
    match field {
        FieldView::Uint32(_) | FieldView::Bool(_) => WIRE_VARINT,
        _ => WIRE_DELIMITED,
    }
}

/// What stands behind a field's key.
spec fn value_of(field: FieldView) -> Seq<u8> {
    match field {
        FieldView::Text(t) => wire_format::delimited(utf8::encode_utf8(t)),
        FieldView::Bytes(b) => wire_format::delimited(b),
        FieldView::Uint32(n) => wire_format::varint(n as nat),
        FieldView::Bool(_) => wire_format::varint(1),
        FieldView::OptionalText(t) => wire_format::delimited(utf8::encode_utf8(t->0)),
    }
}

proof fn lemma_read_value(field: FieldView, rest: Seq<u8>)
    requires
        !field.is_default(),
        value_of(field).len() <= u64::MAX,
    ensures
        wire_format::parse_value(field.kind(), wire_of(field), value_of(field) + rest) == Some(
            (field, value_of(field).len()),
        ),
{
    match field {
        FieldView::Text(t) => {
            lemma_read_delimited(utf8::encode_utf8(t), rest);
            utf8::encode_utf8_valid_utf8(t);
            utf8::encode_utf8_decode_utf8(t);
        },
        FieldView::Bytes(b) => {
            lemma_read_delimited(b, rest);
        },
        FieldView::Uint32(n) => {
            law_varint_roundtrip(n as nat, rest);
        },
        FieldView::Bool(b) => {
            assert(b);
            law_varint_roundtrip(1, rest);
        },
        FieldView::OptionalText(t) => {
            assert(t is Some);
            lemma_read_delimited(utf8::encode_utf8(t->0), rest);
            utf8::encode_utf8_valid_utf8(t->0);
            utf8::encode_utf8_decode_utf8(t->0);
        },
    }
}

/// Reading one written field, whatever follows it.
proof fn lemma_read_field(
    kinds: Seq<Kind>,
    fields: Seq<FieldView>,
    tag: nat,
    field: FieldView,
    rest: Seq<u8>,
)
    requires
        1 <= tag <= kinds.len() == fields.len(),
        8 * tag + 7 <= u32::MAX,
        kinds[tag - 1] == field.kind(),
        fields[tag - 1] == wire_format::default_field(field.kind()),
        wire_format::encode_field(tag, field).len() <= u64::MAX,
    ensures
        wire_format::merge_body(kinds, fields, wire_format::encode_field(tag, field) + rest)
            == wire_format::merge_body(kinds, fields.update(tag - 1, field), rest),
{
    let e = wire_format::encode_field(tag, field);
    let s = e + rest;
    if field.is_default() {
        assert(s =~= rest);
        assert(fields.update(tag - 1, field) =~= fields);
    } else {
        let wire = wire_of(field);
        let key = wire_format::field_key(tag, wire);
        let value = value_of(field);
        assert(e == key + value);
        assert(s =~= key + (value + rest));
        lemma_read_key(tag, wire, value + rest);
        lemma_read_value(field, rest);
        assert(s.skip(key.len() as int) =~= value + rest);
        assert(s.skip((key.len() + value.len()) as int) =~= rest);
        lemma_varint_nonempty(8 * tag + wire as nat);
    }
}

/// The fields before `from` as in `fields`, the others at their defaults.
spec fn filled_until(fields: Seq<FieldView>, from: nat) -> Seq<FieldView> {
    Seq::new(
        fields.len(),
        |i: int|
            if i < from {
                fields[i]
            } else {
                wire_format::default_field(fields[i].kind())
            },
    )
}

proof fn lemma_read_fields(kinds: Seq<Kind>, fields: Seq<FieldView>, from: nat)
    requires
        wire_format::has_kinds(fields, kinds),
        from <= fields.len(),
        8 * fields.len() + 7 <= u32::MAX,
        wire_format::encode_fields(fields, from).len() <= u64::MAX,
    ensures
        wire_format::merge_body(
            kinds,
            filled_until(fields, from),
            wire_format::encode_fields(fields, from),
        ) == Some(fields),
    decreases fields.len() - from,
{
    if from == fields.len() {
        assert(filled_until(fields, from) =~= fields);
    } else {
        let rest = wire_format::encode_fields(fields, from + 1);
        lemma_read_field(
            kinds,
            filled_until(fields, from),
            from + 1,
            fields[from as int],
            rest,
        );
        assert(filled_until(fields, from).update(from as int, fields[from as int])
            =~= filled_until(fields, from + 1));
        lemma_read_fields(kinds, fields, from + 1);
    }
}

/// A body is read back as it was written.
pub proof fn law_body_roundtrip(kinds: Seq<Kind>, fields: Seq<FieldView>)
    requires
        wire_format::has_kinds(fields, kinds),
        8 * fields.len() + 7 <= u32::MAX,
        wire_format::encode_body(fields).len() <= u64::MAX,
    ensures
        wire_format::merge_body(
            kinds,
            wire_format::default_body(kinds),
            wire_format::encode_body(fields),
        ) == Some(fields),
{
    assert(filled_until(fields, 0) =~= wire_format::default_body(kinds));
    lemma_read_fields(kinds, fields, 0);
}

/// A frame is read back as it was written.
pub proof fn law_frame_roundtrip(schema: Seq<Seq<Kind>>, content: Option<(nat, Seq<FieldView>)>)
    requires
        8 * schema.len() + 7 <= u32::MAX,
        content matches Some((tag, fields)) ==> {
            &&& 1 <= tag <= schema.len()
            &&& wire_format::has_kinds(fields, schema[tag - 1])
            &&& 8 * fields.len() + 7 <= u32::MAX
        },
        wire_format::encode_frame(content).len() <= u64::MAX,
    ensures
        wire_format::decode_frame(schema, wire_format::encode_frame(content)) == Some(content),
{
    if let Some((tag, fields)) = content {
        let body = wire_format::encode_body(fields);
        let key = wire_format::field_key(tag, WIRE_DELIMITED);
        let s = wire_format::encode_frame(content);
        let none = Seq::<u8>::empty();
        assert(s == key + wire_format::delimited(body));
        lemma_read_key(tag, WIRE_DELIMITED, wire_format::delimited(body));
        assert(s.skip(key.len() as int) =~= wire_format::delimited(body) + none);
        lemma_read_delimited(body, none);
        law_body_roundtrip(schema[tag - 1], fields);
        lemma_varint_nonempty(8 * tag + WIRE_DELIMITED as nat);
        assert(s.skip((key.len() + wire_format::delimited(body).len()) as int) =~= none);
        assert(wire_format::merge_frame(schema, content, none) == Some(content));
    }
}

proof fn lemma_merged_body_kinds(kinds: Seq<Kind>, fields: Seq<FieldView>, s: Seq<u8>)
    requires
        wire_format::has_kinds(fields, kinds),
    ensures
        wire_format::merge_body(kinds, fields, s) matches Some(merged)
            ==> wire_format::has_kinds(merged, kinds),
    decreases s.len(),
{
    if s.len() > 0 {
        wire_format::lemma_key_len(s);
        if let Some((tag, wire, n)) = wire_format::parse_key(s) {
            let value = s.skip(n as int);
            if tag <= kinds.len() {
                wire_format::lemma_value_len(kinds[tag - 1], wire, value);
                if let Some((field, m)) = wire_format::parse_value(kinds[tag - 1], wire, value) {
                    lemma_merged_body_kinds(
                        kinds,
                        fields.update(tag - 1, field),
                        s.skip((n + m) as int),
                    );
                }
            } else {
                let depth = wire_format::BODY_RECURSION_LIMIT as nat;
                wire_format::lemma_skip_len(tag, wire, value, depth);
                if let Some(m) = wire_format::skip_value(tag, wire, value, depth) {
                    lemma_merged_body_kinds(kinds, fields, s.skip((n + m) as int));
                }
            }
        }
    }
}

/// Whether what a frame holds is a message of the schema.
pub open spec fn in_schema(schema: Seq<Seq<Kind>>, content: Option<(nat, Seq<FieldView>)>) -> bool {
    content matches Some((tag, fields)) ==> 1 <= tag <= schema.len() && wire_format::has_kinds(
        fields,
        schema[tag - 1],
    )
}

proof fn lemma_merged_frame_kinds(
    schema: Seq<Seq<Kind>>,
    content: Option<(nat, Seq<FieldView>)>,
    s: Seq<u8>,
)
    requires
        in_schema(schema, content),
    ensures
        wire_format::merge_frame(schema, content, s) matches Some(merged) ==> in_schema(
            schema,
            merged,
        ),
    decreases s.len(),
{
    if s.len() > 0 {
        wire_format::lemma_key_len(s);
        if let Some((tag, wire, n)) = wire_format::parse_key(s) {
            let value = s.skip(n as int);
            if tag <= schema.len() {
                wire_format::lemma_varint_len(value, 0);
                if let Some((payload, m)) = wire_format::parse_delimited(value) {
                    let kinds = schema[tag - 1];
                    let base = wire_format::merge_base(kinds, content, tag);
                    lemma_merged_body_kinds(kinds, base, payload);
                    if let Some(fields) = wire_format::merge_body(kinds, base, payload) {
                        lemma_merged_frame_kinds(
                            schema,
                            Some((tag, fields)),
                            s.skip((n + m) as int),
                        );
                    }
                }
            } else {
                wire_format::lemma_skip_len(tag, wire, value, RECURSION_LIMIT as nat);
                if let Some(m) = wire_format::skip_value(tag, wire, value, RECURSION_LIMIT as nat) {
                    lemma_merged_frame_kinds(schema, content, s.skip((n + m) as int));
                }
            }
        }
    }
}

/// What is read from a frame is a message of the schema.
pub proof fn law_decoded_kinds(schema: Seq<Seq<Kind>>, s: Seq<u8>)
    ensures
        wire_format::decode_frame(schema, s) matches Some(content) ==> in_schema(schema, content),
{
    lemma_merged_frame_kinds(schema, None, s);
}

// ------------------------------------------------- reading one after the other

proof fn lemma_varint_extend(s: Seq<u8>, used: nat, rest: Seq<u8>)
    requires
        wire_format::parse_varint_after(s, used) is Some,
    ensures
        wire_format::parse_varint_after(s + rest, used) == wire_format::parse_varint_after(s, used),
    decreases 10 - used,
{
    if s[0] >= 128 {
        lemma_varint_extend(s.skip(1), used + 1, rest);
        assert((s + rest).skip(1) =~= s.skip(1) + rest);
    }
}

proof fn lemma_key_extend(s: Seq<u8>, rest: Seq<u8>)
    requires
        wire_format::parse_key(s) is Some,
    ensures
        wire_format::parse_key(s + rest) == wire_format::parse_key(s),
{
    lemma_varint_extend(s, 0, rest);
}

proof fn lemma_delimited_extend(s: Seq<u8>, rest: Seq<u8>)
    requires
        wire_format::parse_delimited(s) is Some,
    ensures
        wire_format::parse_delimited(s + rest) == wire_format::parse_delimited(s),
{
    lemma_varint_extend(s, 0, rest);
    let (len, n) = wire_format::parse_varint(s)->0;
    assert((s + rest).subrange(n as int, (n + len) as int) =~= s.subrange(
        n as int,
        (n + len) as int,
    ));
}

proof fn lemma_skip_extend(tag: nat, wire: u8, s: Seq<u8>, depth: nat, rest: Seq<u8>)
    requires
        wire_format::skip_value(tag, wire, s, depth) is Some,
    ensures
        wire_format::skip_value(
            tag,
            wire,
            s + rest,
            depth,
        ) == wire_format::skip_value(tag, wire, s, depth),
    decreases depth, s.len(), 1nat,
{
    if wire == WIRE_VARINT {
        lemma_varint_extend(s, 0, rest);
    } else if wire == WIRE_DELIMITED {
        lemma_delimited_extend(s, rest);
    } else if wire == WIRE_START_GROUP {
        lemma_skip_group_extend(tag, s, depth, rest);
    }
}

proof fn lemma_skip_group_extend(tag: nat, s: Seq<u8>, depth: nat, rest: Seq<u8>)
    requires
        wire_format::skip_group(tag, s, depth) is Some,
    ensures
        wire_format::skip_group(tag, s + rest, depth) == wire_format::skip_group(tag, s, depth),
    decreases depth, s.len(), 0nat,
{
    wire_format::lemma_key_len(s);
    lemma_key_extend(s, rest);
    let (inner_tag, wire, n) = wire_format::parse_key(s)->0;
    if wire != WIRE_END_GROUP {
        let d = (depth - 1) as nat;
        let m = wire_format::skip_value(inner_tag, wire, s.skip(n as int), d)->0;
        lemma_skip_extend(inner_tag, wire, s.skip(n as int), d, rest);
        assert((s + rest).skip(n as int) =~= s.skip(n as int) + rest);
        lemma_skip_group_extend(tag, s.skip((n + m) as int), depth, rest);
        assert((s + rest).skip((n + m) as int) =~= s.skip((n + m) as int) + rest);
    }
}

/// Reading a frame that is two frames end to end is reading the first and
/// then the second on top of it.
pub proof fn law_frame_concatenation(
    schema: Seq<Seq<Kind>>,
    content: Option<(nat, Seq<FieldView>)>,
    first: Seq<u8>,
    second: Seq<u8>,
)
    requires
        wire_format::merge_frame(schema, content, first) is Some,
    ensures
        wire_format::merge_frame(schema, content, first + second) == wire_format::merge_frame(
            schema,
            wire_format::merge_frame(schema, content, first)->0,
            second,
        ),
    decreases first.len(),
{
    let whole = first + second;
    if first.len() == 0 {
        assert(whole =~= second);
    } else {
        wire_format::lemma_key_len(first);
        lemma_key_extend(first, second);
        let (tag, wire, n) = wire_format::parse_key(first)->0;
        let after_key = first.skip(n as int);
        assert(whole.skip(n as int) =~= after_key + second);
        if tag <= schema.len() {
            wire_format::lemma_varint_len(after_key, 0);
            lemma_delimited_extend(after_key, second);
            let (payload, m) = wire_format::parse_delimited(after_key)->0;
            let base = wire_format::merge_base(schema[tag - 1], content, tag);
            let fields = wire_format::merge_body(schema[tag - 1], base, payload)->0;
            let left = first.skip((n + m) as int);
            assert(whole.skip((n + m) as int) =~= left + second);
            law_frame_concatenation(schema, Some((tag, fields)), left, second);
        } else {
            wire_format::lemma_skip_len(tag, wire, after_key, RECURSION_LIMIT as nat);
            lemma_skip_extend(tag, wire, after_key, RECURSION_LIMIT as nat, second);
            let m = wire_format::skip_value(tag, wire, after_key, RECURSION_LIMIT as nat)->0;
            let left = first.skip((n + m) as int);
            assert(whole.skip((n + m) as int) =~= left + second);
            law_frame_concatenation(schema, content, left, second);
        }
    }
}

/// A field of an unknown tag behind a frame changes nothing of what the frame
/// holds.
pub proof fn law_unknown_field_ignored(
    schema: Seq<Seq<Kind>>,
    frame: Seq<u8>,
    tag: nat,
    wire: u8,
    value: Seq<u8>,
)
    requires
        wire_format::decode_frame(schema, frame) is Some,
        schema.len() < tag,
        8 * tag + 7 <= u32::MAX,
        wire <= 5,
        wire_format::skip_value(tag, wire, value, RECURSION_LIMIT as nat) == Some(value.len()),
    ensures
        wire_format::decode_frame(
            schema,
            frame + (wire_format::field_key(tag, wire) + value),
        ) == wire_format::decode_frame(schema, frame),
{
    let key = wire_format::field_key(tag, wire);
    let unknown = key + value;
    let content = wire_format::decode_frame(schema, frame)->0;
    law_frame_concatenation(schema, None, frame, unknown);
    lemma_read_key(tag, wire, value);
    lemma_varint_nonempty(8 * tag + wire as nat);
    assert(unknown.skip(key.len() as int) =~= value);
    let none = Seq::<u8>::empty();
    assert(unknown.skip((key.len() + value.len()) as int) =~= none);
    assert(wire_format::merge_frame(schema, content, none) == Some(content));
}

// ---------------------------------------------------------------- merging

/// What becomes of fields that are written over others: a field that is left out
/// stays what it was.
pub open spec fn written_over(base: Seq<FieldView>, fields: Seq<FieldView>) -> Seq<FieldView> {
    Seq::new(
        fields.len(),
        |i: int|
            if fields[i].is_default() {
                base[i]
            } else {
                fields[i]
            },
    )
}

/// The fields before `from` written over, the others still as in `base`.
spec fn over_until(base: Seq<FieldView>, fields: Seq<FieldView>, from: nat) -> Seq<FieldView> {
    Seq::new(
        fields.len(),
        |i: int|
            if i < from && !fields[i].is_default() {
                fields[i]
            } else {
                base[i]
            },
    )
}

/// Reading one written field over whatever was there.
proof fn lemma_merge_field(
    kinds: Seq<Kind>,
    fields: Seq<FieldView>,
    tag: nat,
    field: FieldView,
    rest: Seq<u8>,
)
    requires
        1 <= tag <= kinds.len() == fields.len(),
        8 * tag + 7 <= u32::MAX,
        kinds[tag - 1] == field.kind(),
        !field.is_default(),
        wire_format::encode_field(tag, field).len() <= u64::MAX,
    ensures
        wire_format::merge_body(kinds, fields, wire_format::encode_field(tag, field) + rest)
            == wire_format::merge_body(kinds, fields.update(tag - 1, field), rest),
{
    let e = wire_format::encode_field(tag, field);
    let s = e + rest;
    let wire = wire_of(field);
    let key = wire_format::field_key(tag, wire);
    let value = value_of(field);
    assert(e == key + value);
    assert(s =~= key + (value + rest));
    lemma_read_key(tag, wire, value + rest);
    lemma_read_value(field, rest);
    assert(s.skip(key.len() as int) =~= value + rest);
    assert(s.skip((key.len() + value.len()) as int) =~= rest);
    lemma_varint_nonempty(8 * tag + wire as nat);
}

/// Reading one written message on top of what was there.
proof fn lemma_merge_message(
    schema: Seq<Seq<Kind>>,
    content: Option<(nat, Seq<FieldView>)>,
    tag: nat,
    fields: Seq<FieldView>,
    merged: Seq<FieldView>,
)
    requires
        8 * schema.len() + 7 <= u32::MAX,
        1 <= tag <= schema.len(),
        wire_format::encode_frame(Some((tag, fields))).len() <= u64::MAX,
        wire_format::merge_body(
            schema[tag - 1],
            wire_format::merge_base(schema[tag - 1], content, tag),
            wire_format::encode_body(fields),
        ) == Some(merged),
    ensures
        wire_format::merge_frame(schema, content, wire_format::encode_frame(Some((tag, fields))))
            == Some(Some((tag, merged))),
{
    let body = wire_format::encode_body(fields);
    let key = wire_format::field_key(tag, WIRE_DELIMITED);
    let s = wire_format::encode_frame(Some((tag, fields)));
    let none = Seq::<u8>::empty();
    assert(s == key + wire_format::delimited(body));
    lemma_read_key(tag, WIRE_DELIMITED, wire_format::delimited(body));
    assert(s.skip(key.len() as int) =~= wire_format::delimited(body) + none);
    lemma_read_delimited(body, none);
    lemma_varint_nonempty(8 * tag + WIRE_DELIMITED as nat);
    assert(s.skip((key.len() + wire_format::delimited(body).len()) as int) =~= none);
    assert(wire_format::merge_frame(schema, Some((tag, merged)), none) == Some(
        Some((tag, merged)),
    ));
}

proof fn lemma_write_over(
    kinds: Seq<Kind>,
    base: Seq<FieldView>,
    fields: Seq<FieldView>,
    from: nat,
)
    requires
        wire_format::has_kinds(fields, kinds),
        wire_format::has_kinds(base, kinds),
        from <= fields.len(),
        8 * fields.len() + 7 <= u32::MAX,
        wire_format::encode_fields(fields, from).len() <= u64::MAX,
    ensures
        wire_format::merge_body(
            kinds,
            over_until(base, fields, from),
            wire_format::encode_fields(fields, from),
        ) == Some(written_over(base, fields)),
    decreases fields.len() - from,
{
    let now = over_until(base, fields, from);
    if from == fields.len() {
        assert(now =~= written_over(base, fields));
    } else {
        let rest = wire_format::encode_fields(fields, from + 1);
        let field = fields[from as int];
        let e = wire_format::encode_field(from + 1, field);
        lemma_write_over(kinds, base, fields, from + 1);
        if field.is_default() {
            assert(e + rest =~= rest);
            assert(now =~= over_until(base, fields, from + 1));
        } else {
            lemma_merge_field(kinds, now, from + 1, field, rest);
            assert(now.update(from as int, field) =~= over_until(base, fields, from + 1));
        }
    }
}

/// Two messages end to end: where they are of one kind, the second is written
/// over the first, field by field; where they are not, the second alone counts.
pub proof fn law_second_message_counts(
    schema: Seq<Seq<Kind>>,
    first: (nat, Seq<FieldView>),
    second: (nat, Seq<FieldView>),
)
    requires
        8 * schema.len() + 7 <= u32::MAX,
        in_schema(schema, Some(first)),
        in_schema(schema, Some(second)),
        8 * first.1.len() + 7 <= u32::MAX,
        8 * second.1.len() + 7 <= u32::MAX,
        wire_format::encode_frame(Some(first)).len() <= u64::MAX,
        wire_format::encode_frame(Some(second)).len() <= u64::MAX,
    ensures
        wire_format::decode_frame(
            schema,
            wire_format::encode_frame(Some(first)) + wire_format::encode_frame(Some(second)),
        ) == Some(
            Some(
                if first.0 == second.0 {
                    (second.0, written_over(first.1, second.1))
                } else {
                    second
                },
            ),
        ),
{
    law_frame_roundtrip(schema, Some(first));
    law_frame_concatenation(
        schema,
        None,
        wire_format::encode_frame(Some(first)),
        wire_format::encode_frame(Some(second)),
    );
    let (tag, fields) = second;
    let kinds = schema[tag - 1];
    if first.0 == tag {
        assert(over_until(first.1, fields, 0) =~= first.1);
        lemma_write_over(kinds, first.1, fields, 0);
        lemma_merge_message(schema, Some(first), tag, fields, written_over(first.1, fields));
    } else {
        law_body_roundtrip(kinds, fields);
        lemma_merge_message(schema, Some(first), tag, fields, fields);
    }
}

// ---------------------------------------------------------------- values

/// The number that groups of seven bits stand for, the lowest first.
pub open spec fn varint_value(bytes: Seq<u8>) -> nat
    decreases bytes.len(),
{
    if bytes.len() == 0 {
        0
    } else {
        bytes[0] as nat % 128 + 128 * varint_value(bytes.skip(1))
    }
}

/// A number is written in as few groups of seven bits as it takes, the lowest
/// first; the top bit tells whether another one follows.
pub proof fn law_varint_is_value(n: nat)
    ensures
        ({
            let s = wire_format::varint(n);
            &&& s.len() > 0
            &&& varint_value(s) == n
            &&& s.last() < 128
            &&& s.len() > 1 ==> s.last() != 0
            &&& forall|i: int| 0 <= i < s.len() - 1 ==> #[trigger] s[i] >= 128
        }),
    decreases n,
{
    let s = wire_format::varint(n);
    if n < 128 {
        reveal_with_fuel(varint_value, 2);
        assert(s.skip(1) =~= Seq::<u8>::empty());
    } else {
        let rest = wire_format::varint(n / 128);
        law_varint_is_value(n / 128);
        assert(s.skip(1) =~= rest);
        assert(s.last() == rest.last());
        if rest.len() == 1 {
            reveal_with_fuel(varint_value, 2);
            assert(rest.skip(1) =~= Seq::<u8>::empty());
            assert(rest.last() == rest[0]);
        }
        assert forall|i: int| 0 <= i < s.len() - 1 implies #[trigger] s[i] >= 128 by {
            if i > 0 {
                assert(s[i] == rest[i - 1]);
            }
        }
    }
}

/// A field takes bytes exactly if it has not its default value: the empty text,
/// no bytes, zero, false, or no text at all. They begin with its tag.
pub proof fn law_default_takes_no_bytes(tag: nat, field: FieldView)
    requires
        1 <= tag < 16,
    ensures
        wire_format::encode_field(tag, field).len() == 0 <==> match field {
            FieldView::Text(t) => t.len() == 0,
            FieldView::Bytes(b) => b.len() == 0,
            FieldView::Uint32(n) => n == 0,
            FieldView::Bool(b) => !b,
            FieldView::OptionalText(t) => t is None,
        },
        wire_format::encode_field(tag, field).len() > 0 ==> wire_format::encode_field(
            tag,
            field,
        )[0] == 8 * tag + (if field is Uint32 || field is Bool {
            0int
        } else {
            2
        }),
{
    assert(wire_format::varint(8 * tag) == seq![(8 * tag) as u8]);
    assert(wire_format::varint(8 * tag + 2) == seq![(8 * tag + 2) as u8]);
    match field {
        FieldView::Text(t) => {
            if t.len() == 0 {
                assert(t =~= Seq::empty());
            }
        },
        FieldView::Bytes(b) => {
            if b.len() == 0 {
                assert(b =~= Seq::empty());
            }
        },
        _ => {},
    }
}

/// A text is read only if it is UTF-8; bytes are read whatever they are.
pub proof fn law_text_is_utf8(payload: Seq<u8>, rest: Seq<u8>)
    requires
        payload.len() <= u64::MAX,
    ensures
        wire_format::parse_value(
            Kind::Text,
            WIRE_DELIMITED,
            wire_format::delimited(payload) + rest,
        ) is Some <==> utf8::valid_utf8(payload),
        wire_format::parse_value(
            Kind::OptionalText,
            WIRE_DELIMITED,
            wire_format::delimited(payload) + rest,
        ) is Some <==> utf8::valid_utf8(payload),
        wire_format::parse_value(
            Kind::Bytes,
            WIRE_DELIMITED,
            wire_format::delimited(payload) + rest,
        ) == Some((FieldView::Bytes(payload), wire_format::delimited(payload).len())),
{
    lemma_read_delimited(payload, rest);
}

/// A number that is too large for its field loses its high bits, and any number
/// but zero counts as true.
pub proof fn law_numbers_are_cut(n: nat, rest: Seq<u8>)
    requires
        n <= u64::MAX,
    ensures
        wire_format::parse_value(Kind::Uint32, WIRE_VARINT, wire_format::varint(n) + rest) == Some(
            (FieldView::Uint32((n % 0x1_0000_0000) as u32), wire_format::varint(n).len()),
        ),
        wire_format::parse_value(Kind::Bool, WIRE_VARINT, wire_format::varint(n) + rest) == Some(
            (FieldView::Bool(n > 0), wire_format::varint(n).len()),
        ),
{
    law_varint_roundtrip(n, rest);
}

/// What is shorter than its length says cannot be read.
pub proof fn law_short_payload_refused(n: nat, payload: Seq<u8>)
    requires
        payload.len() < n <= u64::MAX,
    ensures
        wire_format::parse_delimited(wire_format::varint(n) + payload) is None,
{
    law_varint_roundtrip(n, payload);
}

/// A field of no known tag is passed over by its wire type: a number, eight
/// bytes, four bytes, or a length and that many bytes. What is too short for it,
/// the end of a group that was not begun, and a wire type that does not exist
/// are refused, and so is anything that is nested too deep.
pub proof fn law_unknown_value_skipped(
    tag: nat,
    n: nat,
    payload: Seq<u8>,
    fixed: Seq<u8>,
    rest: Seq<u8>,
    depth: nat,
)
    requires
        n <= u64::MAX,
        payload.len() <= u64::MAX,
        depth > 0,
    ensures
        wire_format::skip_value(tag, 0, wire_format::varint(n) + rest, depth) == Some(
            wire_format::varint(n).len(),
        ),
        wire_format::skip_value(tag, 2, wire_format::delimited(payload) + rest, depth) == Some(
            wire_format::delimited(payload).len(),
        ),
        wire_format::skip_value(tag, 1, fixed, depth) == if fixed.len() < 8 {
            None::<nat>
        } else {
            Some(8nat)
        },
        wire_format::skip_value(tag, 5, fixed, depth) == if fixed.len() < 4 {
            None::<nat>
        } else {
            Some(4nat)
        },
        wire_format::skip_value(tag, 4, fixed, depth) is None,
        wire_format::skip_value(tag, 6, fixed, depth) is None,
        wire_format::skip_value(tag, 7, fixed, depth) is None,
        forall|wire: u8| wire_format::skip_value(tag, wire, fixed, 0) is None,
{
    law_varint_roundtrip(n, rest);
    lemma_read_delimited(payload, rest);
}

/// A group is passed over field by field, to the end that belongs to it; the end
/// of another group is refused.
pub proof fn law_unknown_group_skipped(
    tag: nat,
    inner_tag: nat,
    wire: u8,
    value: Seq<u8>,
    more: Seq<u8>,
    depth: nat,
)
    requires
        1 <= tag,
        8 * tag + 7 <= u32::MAX,
        1 <= inner_tag,
        8 * inner_tag + 7 <= u32::MAX,
        wire <= 5,
        wire != WIRE_END_GROUP,
        depth > 0,
        wire_format::skip_value(inner_tag, wire, value + more, (depth - 1) as nat) == Some(
            value.len(),
        ),
    ensures
        wire_format::skip_value(tag, 3, wire_format::field_key(tag, 4) + more, depth) == Some(
            wire_format::field_key(tag, 4).len(),
        ),
        inner_tag != tag ==> wire_format::skip_value(
            tag,
            3,
            wire_format::field_key(inner_tag, 4) + more,
            depth,
        ) is None,
        wire_format::skip_value(
            tag,
            3,
            wire_format::field_key(inner_tag, wire) + (value + more),
            depth,
        ) == match wire_format::skip_value(tag, 3, more, depth) {
            Some(n) => Some(wire_format::field_key(inner_tag, wire).len() + value.len() + n),
            None => None,
        },
{
    lemma_read_key(tag, WIRE_END_GROUP, more);
    lemma_read_key(inner_tag, WIRE_END_GROUP, more);
    lemma_read_key(inner_tag, wire, value + more);
    let key = wire_format::field_key(inner_tag, wire);
    let s = key + (value + more);
    assert(s.skip(key.len() as int) =~= value + more);
    assert(s.skip((key.len() + value.len()) as int) =~= more);
}

} // verus!
