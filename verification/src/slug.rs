//! The short names under which tunnels are reached.

use crate::random;
use vstd::prelude::*;

verus! {

/// The length of a slug.
pub const SLUG_LEN: usize = 8;

/// The characters of a slug: 32 of them, so that a random byte picks each
/// equally often.
pub const ALPHABET: &'static str = "abcdefghijklmnopqrstuvwxyz234567";

/// The slug that random bytes pick.
pub open spec fn picked(bytes: Seq<u8>) -> Seq<char> {
    Seq::new(bytes.len(), |i: int| ALPHABET@[bytes[i] as int % 32])
}

/// The slug that random bytes pick.
pub fn slug_from(bytes: &[u8]) -> (slug: String)
    ensures
        slug@ == picked(bytes@),
{
    let letters = crate::text::chars_of(ALPHABET);
    let mut slug = String::new();
    let mut i: usize = 0;
    proof {
        reveal_strlit("abcdefghijklmnopqrstuvwxyz234567");
    }
    while i < bytes.len()
        invariant
            i <= bytes@.len(),
            letters@ == ALPHABET@,
            letters@.len() == 32,
            slug@ == picked(bytes@).take(i as int),
        decreases bytes@.len() - i,
    {
        slug.push(letters[(bytes[i] % 32) as usize]);
        i = i + 1;
        proof {
            assert(slug@ =~= picked(bytes@).take(i as int));
        }
    }
    proof {
        assert(picked(bytes@).take(i as int) =~= picked(bytes@));
    }
    slug
}

/// A random slug.
pub fn generate() -> (slug: String)
    ensures
        exists|bytes: Seq<u8>| bytes.len() == SLUG_LEN && slug@ == #[trigger] picked(bytes),
{
    let bytes = random::random_bytes::<SLUG_LEN>();
    let slug = slug_from(bytes.as_slice());
    proof {
        assert(bytes@.len() == SLUG_LEN);
        assert(slug@ == picked(bytes@));
    }
    slug
}

// ---------------------------------------------------------------- free slugs

/// How many slugs there are.
pub const SLUG_COUNT: u64 = 0x100_0000_0000;

/// The number of the slug that bytes pick: each of them is a digit.
pub open spec fn number(bytes: Seq<u8>) -> nat
    decreases bytes.len(),
{
    if bytes.len() == 0 {
        0
    } else {
        32 * number(bytes.drop_last()) + bytes.last() as nat % 32
    }
}

/// The text of `len` characters with this number.
pub open spec fn numbered(n: nat, len: nat) -> Seq<char>
    decreases len,
{
    if len == 0 {
        Seq::empty()
    } else {
        numbered(n / 32, (len - 1) as nat).push(ALPHABET@[n as int % 32])
    }
}

/// The slug `k` places behind the one with the number `drawn`; behind the last
/// one comes the first.
pub open spec fn walked(drawn: nat, k: nat) -> Seq<char> {
    numbered((drawn + k) % SLUG_COUNT as nat, SLUG_LEN as nat)
}

/// The first slug that is not taken, from `k` places behind the drawn one on;
/// the drawn one itself where there is none.
pub open spec fn first_free(taken: Set<Seq<char>>, drawn: nat, k: nat) -> Seq<char>
    decreases SLUG_COUNT - k,
{
    if k >= SLUG_COUNT {
        walked(drawn, 0)
    } else if !taken.contains(walked(drawn, k)) {
        walked(drawn, k)
    } else {
        first_free(taken, drawn, k + 1)
    }
}

/// The slug for a new tunnel: the one that random bytes pick, or the next one
/// that is free.
pub open spec fn fresh_slug(taken: Set<Seq<char>>, drawn: Seq<u8>) -> Seq<char> {
    first_free(taken, number(drawn), 0)
}

/// The number of the slug that bytes pick; see [`number`].
pub(crate) fn slug_number(bytes: &[u8; SLUG_LEN]) -> (n: u64)
    ensures
        n == number(bytes@),
        n < SLUG_COUNT,
{
    let mut n: u64 = 0;
    let mut i: usize = 0;
    proof {
        assert(bytes@.take(0) =~= Seq::<u8>::empty());
        lemma_count();
    }
    while i < SLUG_LEN
        invariant
            i <= SLUG_LEN,
            bytes@.len() == SLUG_LEN,
            n == number(bytes@.take(i as int)),
            n < count(i as nat),
            count(SLUG_LEN as nat) == SLUG_COUNT,
        decreases SLUG_LEN - i,
    {
        proof {
            assert(bytes@.take(i + 1).drop_last() =~= bytes@.take(i as int));
            assert(bytes@.take(i + 1).last() == bytes@[i as int]);
            lemma_count_grows((i + 1) as nat, SLUG_LEN as nat);
        }
        n = 32 * n + (bytes[i] % 32) as u64;
        i = i + 1;
    }
    proof {
        assert(bytes@.take(i as int) =~= bytes@);
    }
    n
}

/// The slug with this number; see [`numbered`].
pub(crate) fn slug_with_number(n: u64) -> (slug: String)
    ensures
        slug@ == numbered(n as nat, SLUG_LEN as nat),
{
    let mut digits: [u8; SLUG_LEN] = [0;SLUG_LEN];
    let mut rest: u64 = n;
    let mut i: usize = SLUG_LEN;
    proof {
        assert(picked(digits@.skip(SLUG_LEN as int)) =~= Seq::<char>::empty());
    }
    while i > 0
        invariant
            i <= SLUG_LEN,
            digits@.len() == SLUG_LEN,
            numbered(n as nat, SLUG_LEN as nat) =~= numbered(rest as nat, i as nat) + picked(
                digits@.skip(i as int),
            ),
        decreases i,
    {
        let ghost before = digits@;
        let ghost tail = picked(before.skip(i as int));
        let digit: u8 = (rest % 32) as u8;
        digits[i - 1] = digit;
        proof {
            let now = digits@.skip(i - 1);
            assert(now.skip(1) =~= before.skip(i as int));
            assert(picked(now) =~= seq![ALPHABET@[digit as int % 32]] + tail);
            assert(numbered(rest as nat, i as nat) == numbered(
                rest as nat / 32,
                (i - 1) as nat,
            ).push(ALPHABET@[rest as int % 32]));
        }
        rest = rest / 32;
        i = i - 1;
    }
    proof {
        assert(digits@.skip(0) =~= digits@);
    }
    slug_from(digits.as_slice())
}

/// How many texts of `len` characters there are.
spec fn count(len: nat) -> nat
    decreases len,
{
    if len == 0 {
        1
    } else {
        32 * count((len - 1) as nat)
    }
}

proof fn lemma_count()
    ensures
        count(0) == 1,
        count(SLUG_LEN as nat) == SLUG_COUNT,
{
    reveal_with_fuel(count, 9);
}

proof fn lemma_count_grows(a: nat, b: nat)
    requires
        a <= b,
    ensures
        count(a) <= count(b),
    decreases b - a,
{
    if a < b {
        lemma_count_grows(a, (b - 1) as nat);
    }
}

proof fn lemma_number(bytes: Seq<u8>)
    ensures
        number(bytes) < count(bytes.len()),
        numbered(number(bytes), bytes.len()) == picked(bytes),
    decreases bytes.len(),
{
    if bytes.len() == 0 {
        assert(picked(bytes) =~= Seq::<char>::empty());
    } else {
        lemma_number(bytes.drop_last());
        assert(picked(bytes) =~= picked(bytes.drop_last()).push(
            ALPHABET@[bytes.last() as int % 32],
        ));
    }
}

/// The digits of a number.
spec fn digits_of(n: nat, len: nat) -> Seq<u8>
    decreases len,
{
    if len == 0 {
        Seq::empty()
    } else {
        digits_of(n / 32, (len - 1) as nat).push((n % 32) as u8)
    }
}

proof fn lemma_digits(n: nat, len: nat)
    ensures
        digits_of(n, len).len() == len,
        picked(digits_of(n, len)) == numbered(n, len),
    decreases len,
{
    if len == 0 {
        assert(picked(digits_of(n, len)) =~= numbered(n, len));
    } else {
        lemma_digits(n / 32, (len - 1) as nat);
        assert(picked(digits_of(n, len)) =~= numbered(n, len));
    }
}

proof fn lemma_letter(i: int)
    requires
        0 <= i < 32,
    ensures
        ALPHABET@.len() == 32,
        ALPHABET@[i] as int == if i < 26 {
            'a' as int + i
        } else {
            '2' as int + (i - 26)
        },
{
    reveal_strlit("abcdefghijklmnopqrstuvwxyz234567");
}

/// Different numbers give different texts.
proof fn lemma_numbered_injective(a: nat, b: nat, len: nat)
    requires
        a < count(len),
        b < count(len),
        numbered(a, len) == numbered(b, len),
    ensures
        a == b,
    decreases len,
{
    if len > 0 {
        let x = numbered(a, len);
        let y = numbered(b, len);
        assert(x.drop_last() =~= numbered(a / 32, (len - 1) as nat));
        assert(y.drop_last() =~= numbered(b / 32, (len - 1) as nat));
        lemma_numbered_injective(a / 32, b / 32, (len - 1) as nat);
        assert(x.last() == ALPHABET@[a as int % 32]);
        assert(y.last() == ALPHABET@[b as int % 32]);
        lemma_letter(a as int % 32);
        lemma_letter(b as int % 32);
    }
}

/// The slugs with numbers below `n`.
spec fn first_slugs(n: nat) -> Set<Seq<char>>
    decreases n,
{
    if n == 0 {
        Set::empty()
    } else {
        first_slugs((n - 1) as nat).insert(numbered((n - 1) as nat, SLUG_LEN as nat))
    }
}

proof fn lemma_first_slugs(n: nat, taken: Set<Seq<char>>)
    requires
        n <= SLUG_COUNT,
        forall|m: nat| m < n ==> taken.contains(#[trigger] numbered(m, SLUG_LEN as nat)),
    ensures
        first_slugs(n).finite(),
        first_slugs(n).len() == n,
        first_slugs(n).subset_of(taken),
        forall|s: Seq<char>| #[trigger]
            first_slugs(n).contains(s) ==> exists|m: nat|
                m < n && s == #[trigger] numbered(m, SLUG_LEN as nat),
    decreases n,
{
    lemma_count();
    if n > 0 {
        let p = (n - 1) as nat;
        lemma_first_slugs(p, taken);
        let last = numbered(p, SLUG_LEN as nat);
        if first_slugs(p).contains(last) {
            let m = choose|m: nat| m < p && last == #[trigger] numbered(m, SLUG_LEN as nat);
            lemma_numbered_injective(m, p, SLUG_LEN as nat);
        }
        assert forall|s: Seq<char>| #[trigger] first_slugs(n).contains(s) implies exists|m: nat|
            m < n && s == #[trigger] numbered(m, SLUG_LEN as nat) by {
            if s != last {
                assert(first_slugs(p).contains(s));
                let m = choose|m: nat| m < p && s == #[trigger] numbered(m, SLUG_LEN as nat);
                assert(m < n && s == numbered(m, SLUG_LEN as nat));
            }
        }
    }
}

proof fn lemma_first_free(taken: Set<Seq<char>>, drawn: nat, k: nat)
    requires
        k <= SLUG_COUNT,
    ensures
        exists|m: nat| m < SLUG_COUNT && first_free(taken, drawn, k) == #[trigger] walked(drawn, m),
        !taken.contains(first_free(taken, drawn, k)) || forall|j: nat|
            k <= j < SLUG_COUNT ==> taken.contains(#[trigger] walked(drawn, j)),
    decreases SLUG_COUNT - k,
{
    if k >= SLUG_COUNT {
        assert(first_free(taken, drawn, k) == walked(drawn, 0));
    } else if taken.contains(walked(drawn, k)) {
        lemma_first_free(taken, drawn, k + 1);
    }
}

/// The slug for a new tunnel is always one that random bytes can pick; it is
/// the drawn one where that is free; and as long as not all slugs are taken, it
/// is free.
pub proof fn law_fresh_slug(taken: Set<Seq<char>>, drawn: Seq<u8>)
    requires
        taken.finite(),
        drawn.len() == SLUG_LEN,
    ensures
        exists|bytes: Seq<u8>|
            bytes.len() == SLUG_LEN && fresh_slug(taken, drawn) == #[trigger] picked(bytes),
        !taken.contains(picked(drawn)) ==> fresh_slug(taken, drawn) == picked(drawn),
        taken.len() < SLUG_COUNT ==> !taken.contains(fresh_slug(taken, drawn)),
{
    let n = number(drawn);
    let len = SLUG_LEN as nat;
    lemma_count();
    lemma_number(drawn);
    lemma_first_free(taken, n, 0);
    let slug = fresh_slug(taken, drawn);
    let m = choose|m: nat| m < SLUG_COUNT && slug == #[trigger] walked(n, m);
    let v = (n + m) % SLUG_COUNT as nat;
    lemma_digits(v, len);
    assert(slug == picked(digits_of(v, len)));
    assert(walked(n, 0) == picked(drawn));
    if taken.contains(slug) {
        assert forall|v: nat| v < SLUG_COUNT implies taken.contains(#[trigger] numbered(v, len)) by {
            let j: nat = if v >= n {
                (v - n) as nat
            } else {
                (v + SLUG_COUNT - n) as nat
            };
            assert((n + j) % SLUG_COUNT as nat == v);
            assert(taken.contains(walked(n, j)));
        }
        lemma_first_slugs(SLUG_COUNT as nat, taken);
        vstd::set_lib::lemma_len_subset(first_slugs(SLUG_COUNT as nat), taken);
    }
}

} // verus!
