//! What holds of texts, numbers and cookies, whatever they are.

use crate::cookies;
use crate::ids;
use crate::ipc_listener;
use crate::slug;
use crate::text;
use vstd::prelude::*;

verus! {

// ---------------------------------------------------------------- numbers

/// The number that decimal digits stand for.
pub open spec fn decimal_value(s: Seq<char>) -> int
    decreases s.len(),
{
    if s.len() == 0 {
        0
    } else {
        10 * decimal_value(s.drop_last()) + (s.last() as int - '0' as int)
    }
}

/// A number is written in the digits from 0 to 9, with no 0 in front of others,
/// and they stand for it.
pub proof fn law_decimal_is_value(n: nat)
    ensures
        text::decimal(n).len() > 0,
        forall|i: int|
            0 <= i < text::decimal(n).len() ==> '0' <= #[trigger] text::decimal(n)[i] <= '9',
        decimal_value(text::decimal(n)) == n,
        n > 0 ==> text::decimal(n)[0] != '0',
        n < 10 ==> text::decimal(n).len() == 1,
    decreases n,
{
    let s = text::decimal(n);
    if n < 10 {
        reveal_with_fuel(decimal_value, 2);
        assert(s.drop_last() =~= Seq::empty());
    } else {
        law_decimal_is_value(n / 10);
        assert(s.drop_last() =~= text::decimal(n / 10));
        assert(s[0] == text::decimal(n / 10)[0]);
        if n / 10 < 10 {
            assert(text::decimal(n / 10)[0] == text::digit(n / 10));
        }
        assert forall|i: int| 0 <= i < s.len() implies '0' <= #[trigger] s[i] <= '9' by {
            if i < s.len() - 1 {
                assert(s[i] == text::decimal(n / 10)[i]);
            }
        }
    }
}

/// The value of a lower-case hexadecimal digit.
pub open spec fn hex_digit_value(c: char) -> int {
    if c <= '9' {
        c as int - '0' as int
    } else {
        c as int - 'a' as int + 10
    }
}

pub open spec fn is_hex_digit(c: char) -> bool {
    '0' <= c <= '9' || 'a' <= c <= 'f'
}

/// Bytes are written in two lower-case hexadecimal digits each, the higher one
/// first, and they stand for the byte.
pub proof fn law_hex_is_value(bytes: Seq<u8>)
    ensures
        text::hex(bytes).len() == 2 * bytes.len(),
        forall|i: int|
            0 <= i < text::hex(bytes).len() ==> is_hex_digit(#[trigger] text::hex(bytes)[i]),
        forall|i: int|
            0 <= i < bytes.len() ==> hex_digit_value(text::hex(bytes)[2 * i]) * 16
                + hex_digit_value(text::hex(bytes)[2 * i + 1]) == #[trigger] bytes[i],
{
    assert forall|i: int| 0 <= i < bytes.len() implies hex_digit_value(text::hex(bytes)[2 * i]) * 16
        + hex_digit_value(text::hex(bytes)[2 * i + 1]) == #[trigger] bytes[i] by {
        assert((2 * i) / 2 == i && (2 * i) % 2 == 0);
        assert((2 * i + 1) / 2 == i && (2 * i + 1) % 2 == 1);
    }
}

/// The number that bytes stand for, the highest first.
pub open spec fn be_value(bytes: Seq<u8>) -> nat
    decreases bytes.len(),
{
    if bytes.len() == 0 {
        0
    } else {
        256 * be_value(bytes.drop_last()) + bytes.last() as nat
    }
}

/// How many numbers there are of `len` bytes.
pub open spec fn byte_count(len: nat) -> nat
    decreases len,
{
    if len == 0 {
        1
    } else {
        256 * byte_count((len - 1) as nat)
    }
}

/// The bytes of a number that fits stand for it, the highest first.
pub proof fn law_be_bytes_is_value(n: nat, len: nat)
    requires
        n < byte_count(len),
    ensures
        ids::be_bytes(n, len).len() == len,
        be_value(ids::be_bytes(n, len)) == n,
    decreases len,
{
    if len > 0 {
        law_be_bytes_is_value(n / 256, (len - 1) as nat);
        assert(ids::be_bytes(n, len).drop_last() =~= ids::be_bytes(
            n / 256,
            (len - 1) as nat,
        ));
    }
}

/// Where the digit `i` of an id stands in its text.
pub open spec fn digit_place(i: int) -> int {
    if i < 8 {
        i
    } else if i < 12 {
        i + 1
    } else if i < 16 {
        i + 2
    } else if i < 20 {
        i + 3
    } else {
        i + 4
    }
}

/// An id is written in 36 characters: its 32 hexadecimal digits, with a hyphen
/// behind the digits 8, 12, 16 and 20.
pub proof fn law_id_text_shape(id: u128)
    ensures
        ids::hyphenated(id).len() == 36,
        ids::hyphenated(id)[8] == '-',
        ids::hyphenated(id)[13] == '-',
        ids::hyphenated(id)[18] == '-',
        ids::hyphenated(id)[23] == '-',
        forall|i: int|
            0 <= i < 32 ==> ids::hyphenated(id)[digit_place(i)] == #[trigger] text::hex(
                ids::be_bytes(id as nat, 16),
            )[i],
        forall|i: int|
            0 <= i < 32 ==> is_hex_digit(
                #[trigger] text::hex(ids::be_bytes(id as nat, 16))[i],
            ),
{
    ids::lemma_be_bytes_len(id as nat, 16);
    law_hex_is_value(ids::be_bytes(id as nat, 16));
}

/// No two ids are written alike.
pub proof fn law_id_texts_distinct(a: u128, b: u128)
    requires
        ids::hyphenated(a) == ids::hyphenated(b),
    ensures
        a == b,
{
    let x = ids::be_bytes(a as nat, 16);
    let y = ids::be_bytes(b as nat, 16);
    let g = text::hex(x);
    let h = text::hex(y);
    law_id_text_shape(a);
    law_id_text_shape(b);
    assert(g =~= h) by {
        law_hex_is_value(x);
        law_hex_is_value(y);
        ids::lemma_be_bytes_len(a as nat, 16);
        ids::lemma_be_bytes_len(b as nat, 16);
        assert forall|i: int| 0 <= i < 32 implies g[i] == h[i] by {
            assert(ids::hyphenated(a)[digit_place(i)] == g[i]);
            assert(ids::hyphenated(b)[digit_place(i)] == h[i]);
        }
    }
    law_hex_distinct(x, y);
    assert(byte_count(16) == 0x1_0000_0000_0000_0000_0000_0000_0000_0000) by {
        reveal_with_fuel(byte_count, 17);
    }
    law_be_bytes_is_value(a as nat, 16);
    law_be_bytes_is_value(b as nat, 16);
}

/// No two strings of bytes are written alike.
pub proof fn law_hex_distinct(a: Seq<u8>, b: Seq<u8>)
    requires
        text::hex(a) == text::hex(b),
    ensures
        a == b,
{
    law_hex_is_value(a);
    law_hex_is_value(b);
    assert(a.len() == b.len());
    assert forall|i: int| 0 <= i < a.len() implies a[i] == b[i] by {
        assert(hex_digit_value(text::hex(a)[2 * i]) * 16 + hex_digit_value(
            text::hex(a)[2 * i + 1],
        ) == a[i]);
        assert(hex_digit_value(text::hex(b)[2 * i]) * 16 + hex_digit_value(
            text::hex(b)[2 * i + 1],
        ) == b[i]);
    }
    assert(a =~= b);
}

/// The four bytes of a length stand in the order of their weight, the lowest
/// first: the number is read back from them, and made of them.
pub proof fn law_length_lowest_byte_first(a: u8, b: u8, c: u8, d: u8)
    ensures
        ipc_listener::le32_value(seq![a, b, c, d]) == a + 256 * b + 65536 * c + 16777216 * d,
        ipc_listener::le32((a + 256 * b + 65536 * c + 16777216 * d) as nat) == seq![a, b, c, d],
{
    let low: int = a + 256 * b;
    let mid: int = low + 65536 * c;
    let n: int = mid + 16777216 * d;
    assert(n % 256 == a);
    assert(n / 256 == b + 256 * c + 65536 * d);
    assert((b + 256 * c + 65536 * d) % 256 == b);
    assert(n / 65536 == c + 256 * d);
    assert((c + 256 * d) % 256 == c);
    assert(n / 16777216 == d);
    assert(ipc_listener::le32(n as nat) =~= seq![a, b, c, d]);
}

/// A message with its length in front is four bytes longer, and stands behind
/// them as it is.
pub proof fn law_message_behind_length(message: Seq<u8>)
    ensures
        ipc_listener::framed(message).len() == message.len() + 4,
        ipc_listener::framed(message).skip(4) == message,
{
    assert(ipc_listener::framed(message).skip(4) =~= message);
}

/// A slug has as many characters as there are bytes, and each is picked by the
/// lowest five bits of its byte: the letters from a to z first, then the digits
/// from 2 to 7.
pub proof fn law_slug_alphabet(bytes: Seq<u8>)
    ensures
        slug::picked(bytes).len() == bytes.len(),
        forall|i: int|
            0 <= i < bytes.len() ==> #[trigger] slug::picked(bytes)[i] as int == if bytes[i] % 32
                < 26 {
                'a' as int + bytes[i] % 32
            } else {
                '2' as int + (bytes[i] % 32 - 26)
            },
{
    reveal_strlit("abcdefghijklmnopqrstuvwxyz234567");
}

// ---------------------------------------------------------------- searching

/// A pattern stands where something precedes it and something follows it: there,
/// and only there, it occurs.
pub proof fn law_occurrence(before: Seq<char>, pattern: Seq<char>, after: Seq<char>)
    ensures
        text::occurs_at(before + pattern + after, pattern, before.len() as int),
        text::contains_text(before + pattern + after, pattern),
        text::begins_with(pattern + after, pattern),
        text::ends_with(before + pattern, pattern),
{
    let s = before + pattern + after;
    assert(s.subrange(before.len() as int, (before.len() + pattern.len()) as int) =~= pattern);
    assert((pattern + after).subrange(0, pattern.len() as int) =~= pattern);
    assert((before + pattern).subrange(
        before.len() as int,
        (before.len() + pattern.len()) as int,
    ) =~= pattern);
    assert(text::occurs_at(s, pattern, before.len() as int));
}

/// A pattern that occurs splits the text in what precedes it, itself and what
/// follows it.
pub proof fn law_occurrence_splits(s: Seq<char>, pattern: Seq<char>, at: int)
    ensures
        text::occurs_at(s, pattern, at) ==> 0 <= at && at + pattern.len() <= s.len() && s == s.take(
            at,
        ) + pattern + s.skip(at + pattern.len()),
        text::begins_with(s, pattern) ==> s == pattern + s.skip(pattern.len() as int),
        text::ends_with(s, pattern) ==> s == s.take(s.len() - pattern.len()) + pattern,
{
    if text::occurs_at(s, pattern, at) {
        assert(s =~= s.take(at) + s.subrange(at, at + pattern.len()) + s.skip(at + pattern.len()));
    }
    if text::begins_with(s, pattern) {
        assert(s =~= s.subrange(0, pattern.len() as int) + s.skip(pattern.len() as int));
    }
    if text::ends_with(s, pattern) {
        let at = s.len() - pattern.len();
        assert(s =~= s.take(at) + s.subrange(at, s.len() as int));
    }
}

/// A text contains a pattern only if it is made of something, the pattern and
/// something.
pub proof fn law_contained_text_splits(s: Seq<char>, pattern: Seq<char>)
    requires
        text::contains_text(s, pattern),
    ensures
        exists|before: Seq<char>, after: Seq<char>| s == #[trigger] (before + pattern + after),
{
    let at = choose|at: int| text::occurs_at(s, pattern, at);
    law_occurrence_splits(s, pattern, at);
}

/// The first occurrence of a pattern is replaced, what precedes it stays, and
/// what follows it is treated in the same way.
pub proof fn law_first_occurrence_replaced(
    before: Seq<char>,
    pattern: Seq<char>,
    after: Seq<char>,
    with: Seq<char>,
)
    requires
        pattern.len() > 0,
        forall|at: int|
            0 <= at < before.len() ==> !(#[trigger] text::occurs_at(
                before + pattern + after,
                pattern,
                at,
            )),
    ensures
        text::replaced(before + pattern + after, pattern, with) == before + with + text::replaced(
            after,
            pattern,
            with,
        ),
    decreases before.len(),
{
    let s = before + pattern + after;
    if before.len() == 0 {
        assert(s =~= pattern + after);
        law_occurrence(before, pattern, after);
        assert(s.skip(pattern.len() as int) =~= after);
    } else {
        assert(!text::occurs_at(s, pattern, 0));
        let rest = before.skip(1);
        assert(s.skip(1) =~= rest + pattern + after);
        assert forall|at: int| 0 <= at < rest.len() implies !(#[trigger] text::occurs_at(
            rest + pattern + after,
            pattern,
            at,
        )) by {
            assert(!text::occurs_at(s, pattern, at + 1));
            if at + pattern.len() <= s.skip(1).len() {
                assert(s.skip(1).subrange(at, at + pattern.len()) =~= s.subrange(
                    at + 1,
                    at + 1 + pattern.len(),
                ));
            }
        }
        law_first_occurrence_replaced(rest, pattern, after, with);
        assert(before =~= seq![before[0]] + rest);
    }
}

/// A text in which a pattern does not occur stays as it is.
pub proof fn law_nothing_to_replace(s: Seq<char>, pattern: Seq<char>, with: Seq<char>)
    requires
        !text::contains_text(s, pattern),
    ensures
        text::replaced(s, pattern, with) == s,
    decreases s.len(),
{
    if s.len() > 0 && pattern.len() > 0 {
        assert(!text::occurs_at(s, pattern, 0));
        let rest = s.skip(1);
        assert forall|at: int| !(#[trigger] text::occurs_at(rest, pattern, at)) by {
            assert(!text::occurs_at(s, pattern, at + 1));
            if 0 <= at && at + pattern.len() <= rest.len() {
                assert(rest.subrange(at, at + pattern.len()) =~= s.subrange(
                    at + 1,
                    at + 1 + pattern.len(),
                ));
            }
        }
        law_nothing_to_replace(rest, pattern, with);
        assert(s =~= seq![s[0]] + rest);
    }
}

// ---------------------------------------------------------------- splitting

pub open spec fn all_white(s: Seq<char>) -> bool {
    forall|i: int| 0 <= i < s.len() ==> text::is_white(#[trigger] s[i])
}

/// In ASCII the white space is the space and the characters from the tab to the
/// carriage return.
pub proof fn law_white_space(c: char)
    requires
        c <= '\u{7f}',
    ensures
        text::is_white(c) <==> c == ' ' || '\t' <= c <= '\r',
{
}

proof fn lemma_trimmed_start(s: Seq<char>) -> (front: Seq<char>)
    ensures
        all_white(front),
        s == front + text::trimmed_start(s),
        text::trimmed_start(s).len() > 0 ==> !text::is_white(text::trimmed_start(s)[0]),
    decreases s.len(),
{
    if s.len() > 0 && text::is_white(s[0]) {
        let front = lemma_trimmed_start(s.skip(1));
        assert(s =~= seq![s[0]] + s.skip(1));
        assert(s =~= (seq![s[0]] + front) + text::trimmed_start(s));
        seq![s[0]] + front
    } else {
        assert(s =~= Seq::<char>::empty() + s);
        Seq::empty()
    }
}

proof fn lemma_trimmed_end(s: Seq<char>) -> (back: Seq<char>)
    ensures
        all_white(back),
        s == text::trimmed_end(s) + back,
        text::trimmed_end(s).len() > 0 ==> !text::is_white(text::trimmed_end(s).last()),
    decreases s.len(),
{
    if s.len() > 0 && text::is_white(s.last()) {
        let back = lemma_trimmed_end(s.drop_last());
        assert(s =~= s.drop_last().push(s.last()));
        assert(s =~= text::trimmed_end(s) + back.push(s.last()));
        back.push(s.last())
    } else {
        assert(s =~= s + Seq::<char>::empty());
        Seq::empty()
    }
}

/// What is trimmed off a text is white space at its two ends, and all of it:
/// what is left neither begins nor ends with white space.
pub proof fn law_trimmed_is_white_space(s: Seq<char>)
    ensures
        exists|front: Seq<char>, back: Seq<char>|
            #![trigger all_white(front), all_white(back)]
            all_white(front) && all_white(back) && s == front + text::trimmed(s) + back,
        text::trimmed(s).len() > 0 ==> !text::is_white(text::trimmed(s)[0]) && !text::is_white(
            text::trimmed(s).last(),
        ),
{
    let front = lemma_trimmed_start(s);
    let inner = text::trimmed_start(s);
    let back = lemma_trimmed_end(inner);
    if text::trimmed(s).len() > 0 {
        assert(inner[0] == text::trimmed(s)[0]);
    }
    assert(all_white(front) && all_white(back));
    assert(s =~= front + text::trimmed(s) + back);
}

/// A text with no white space at its ends stays as it is.
pub proof fn law_nothing_to_trim(s: Seq<char>)
    requires
        s.len() > 0 ==> !text::is_white(s[0]) && !text::is_white(s.last()),
    ensures
        text::trimmed(s) == s,
{
}

/// Texts with a separator between them.
pub open spec fn rejoined(parts: Seq<Seq<char>>, separator: char) -> Seq<char>
    decreases parts.len(),
{
    if parts.len() == 0 {
        Seq::empty()
    } else if parts.len() == 1 {
        parts[0]
    } else {
        parts[0] + seq![separator] + rejoined(parts.skip(1), separator)
    }
}

/// The pieces of a text hold no separator, and with the separator between them
/// they are the text again.
pub proof fn law_pieces_rejoin(s: Seq<char>, separator: char)
    ensures
        text::pieces(s, separator).len() > 0,
        rejoined(text::pieces(s, separator), separator) == s,
        forall|i: int|
            0 <= i < text::pieces(s, separator).len() ==> !(#[trigger] text::pieces(
                s,
                separator,
            )[i]).contains(separator),
    decreases s.len(),
{
    text::lemma_find_char(s, separator);
    let parts = text::pieces(s, separator);
    match text::find_char(s, separator) {
        None => {},
        Some(n) => {
            let i = n as int;
            let tail = text::pieces(s.skip(i + 1), separator);
            law_pieces_rejoin(s.skip(i + 1), separator);
            assert(parts =~= seq![s.take(i)] + tail);
            assert(parts.skip(1) =~= tail);
            assert(s =~= s.take(i) + seq![separator] + s.skip(i + 1));
            assert forall|k: int| 0 <= k < parts.len() implies !(#[trigger] parts[k]).contains(
                separator,
            ) by {
                if k > 0 {
                    assert(parts[k] == tail[k - 1]);
                }
            }
        },
    }
}

/// The pieces of a text with a separator in it are those of what stands before
/// it and those of what stands behind it.
pub proof fn law_pieces_add_up(a: Seq<char>, b: Seq<char>, separator: char)
    ensures
        text::pieces(a + seq![separator] + b, separator) == text::pieces(a, separator)
            + text::pieces(b, separator),
    decreases a.len(),
{
    let s = a + seq![separator] + b;
    text::lemma_find_char(a, separator);
    text::lemma_find_char(s, separator);
    match text::find_char(a, separator) {
        None => {
            let n = text::find_char(s, separator)->0;
            assert(s[a.len() as int] == separator);
            if n < a.len() {
                assert(s[n as int] == a[n as int]);
            }
            assert(n == a.len());
            assert(s.take(n as int) =~= a);
            assert(s.skip(n as int + 1) =~= b);
        },
        Some(k) => {
            assert(s[k as int] == separator);
            let n = text::find_char(s, separator)->0;
            if n < k {
                assert(s[n as int] == a[n as int]);
            }
            assert(n == k);
            assert(s.take(n as int) =~= a.take(k as int));
            assert(s.skip(n as int + 1) =~= a.skip(k as int + 1) + seq![separator] + b);
            law_pieces_add_up(a.skip(k as int + 1), b, separator);
            assert(text::pieces(s, separator) =~= text::pieces(a, separator) + text::pieces(
                b,
                separator,
            ));
        },
    }
}

/// What is taken off the end of a text is one character, over and over, as long
/// as there is any.
pub proof fn law_trailing_taken_off(s: Seq<char>, c: char)
    ensures
        ({
            let r = text::without_trailing(s, c);
            &&& r.len() <= s.len()
            &&& r == s.take(r.len() as int)
            &&& forall|i: int| r.len() <= i < s.len() ==> #[trigger] s[i] == c
            &&& r.len() > 0 ==> r.last() != c
        }),
    decreases s.len(),
{
    if s.len() > 0 && s.last() == c {
        law_trailing_taken_off(s.drop_last(), c);
        let r = text::without_trailing(s, c);
        assert(r =~= s.take(r.len() as int));
        assert forall|i: int| r.len() <= i < s.len() implies #[trigger] s[i] == c by {
            if i < s.len() - 1 {
                assert(s.drop_last()[i] == s[i]);
            }
        }
    } else {
        assert(s.take(s.len() as int) =~= s);
    }
}

// ---------------------------------------------------------------- cookies

/// A later header counts before an earlier one: its value where it has the
/// cookie, and otherwise what the earlier ones say.
pub proof fn law_later_header_counts(headers: Seq<Seq<char>>, header: Seq<char>, name: Seq<char>)
    ensures
        cookies::cookie_in(headers.push(header), name) == match cookies::cookie_in(
            seq![header],
            name,
        ) {
            Some(value) => Some(value),
            None => cookies::cookie_in(headers, name),
        },
        cookies::cookie_in(Seq::empty(), name) is None,
{
    let trim = |p: Seq<char>| text::trimmed(p);
    let own = text::pieces(header, ';').map_values(trim);
    assert(headers.push(header).drop_last() =~= headers);
    assert(cookies::header_pieces(headers.push(header)) == cookies::header_pieces(headers) + own);
    assert(seq![header].drop_last() =~= Seq::empty());
    assert(cookies::header_pieces(seq![header].drop_last()) =~= Seq::empty());
    assert(cookies::header_pieces(seq![header]) =~= own);
    lemma_last_value_adds_up(cookies::header_pieces(headers), own, name);
}

proof fn lemma_last_value_adds_up(a: Seq<Seq<char>>, b: Seq<Seq<char>>, name: Seq<char>)
    ensures
        cookies::last_value(a + b, name) == match cookies::last_value(b, name) {
            Some(value) => Some(value),
            None => cookies::last_value(a, name),
        },
    decreases b.len(),
{
    if b.len() == 0 {
        assert(a + b =~= a);
    } else {
        assert((a + b).drop_last() =~= a + b.drop_last());
        lemma_last_value_adds_up(a, b.drop_last(), name);
    }
}

/// Two cookies in one header, with a `;` between them, are the same as in two
/// headers.
pub proof fn law_one_header_or_two(a: Seq<char>, b: Seq<char>, name: Seq<char>)
    ensures
        cookies::cookie_in(seq![a + seq![';'] + b], name) == cookies::cookie_in(seq![a, b], name),
{
    let trim = |p: Seq<char>| text::trimmed(p);
    law_pieces_add_up(a, b, ';');
    let both = a + seq![';'] + b;
    assert(seq![both].drop_last() =~= Seq::empty());
    assert(seq![a, b].drop_last() =~= seq![a]);
    assert(seq![a].drop_last() =~= Seq::empty());
    assert(cookies::header_pieces(seq![a].drop_last()) =~= Seq::empty());
    assert(cookies::header_pieces(seq![a]) =~= text::pieces(a, ';').map_values(trim));
    assert(cookies::header_pieces(seq![a, b]) =~= cookies::header_pieces(seq![a]) + text::pieces(
        b,
        ';',
    ).map_values(trim));
    assert(cookies::header_pieces(seq![both]) =~= text::pieces(both, ';').map_values(trim));
    assert(cookies::header_pieces(seq![both]) =~= cookies::header_pieces(seq![a, b]));
}

/// A cookie that a browser sends is found under its name, with its value, and
/// under no other.
pub proof fn law_cookie_found_by_name(name: Seq<char>, value: Seq<char>, other: Seq<char>)
    requires
        name.len() > 0,
        !name.contains('='),
        !name.contains(';'),
        !value.contains(';'),
        !text::is_white(name[0]),
        !text::is_white(name.last()),
        value.len() > 0 ==> !text::is_white(value[0]) && !text::is_white(value.last()),
        other != name,
    ensures
        cookies::cookie_in(seq![name + seq!['='] + value], name) == Some(value),
        cookies::cookie_in(seq![name + seq!['='] + value], other) is None,
{
    let header = name + seq!['='] + value;
    assert(!header.contains(';')) by {
        if header.contains(';') {
            let i = choose|i: int| 0 <= i < header.len() && header[i] == ';';
            if i < name.len() {
                assert(name[i] == ';');
            } else if i > name.len() {
                assert(value[i - name.len() - 1] == ';');
            }
        }
    }
    text::lemma_find_char(header, ';');
    assert(text::pieces(header, ';') == seq![header]);
    assert(header[0] == name[0]);
    assert(header.last() == if value.len() > 0 {
        value.last()
    } else {
        '='
    });
    law_nothing_to_trim(header);
    let trim = |p: Seq<char>| text::trimmed(p);
    assert(seq![header].drop_last() =~= Seq::<Seq<char>>::empty());
    assert(cookies::header_pieces(seq![header].drop_last()) =~= Seq::empty());
    assert(cookies::header_pieces(seq![header]) =~= seq![header]);
    text::lemma_find_char(header, '=');
    assert(header[name.len() as int] == '=');
    let i = text::find_char(header, '=')->0;
    if i < name.len() {
        assert(name[i as int] == '=');
    }
    assert(i == name.len());
    assert(header.take(i as int) =~= name);
    assert(header.skip(i as int + 1) =~= value);
    law_nothing_to_trim(name);
    law_nothing_to_trim(value);
    assert(cookies::cookie_pair(header) == Some((name, value)));
    reveal_with_fuel(cookies::last_value, 2);
    assert(seq![header].last() == header);
}

/// What has no `=`, or nothing in front of it, is no cookie.
pub proof fn law_no_cookie(s: Seq<char>)
    requires
        !s.contains('=') || s[0] == '=',
        !s.contains(';'),
    ensures
        cookies::cookie_pair(s) is None,
{
    text::lemma_find_char(s, ';');
    text::lemma_find_char(s, '=');
    if s.contains('=') {
        assert(text::find_char(s, '=') == Some(0nat));
        assert(s.take(0) =~= Seq::empty());
    }
}

} // verus!
