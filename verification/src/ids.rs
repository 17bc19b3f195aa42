//! Random 128-bit identifiers and how they are written.

use crate::text;
use uuid::Uuid;
use vstd::prelude::*;

verus! {

/// The lowest `len` bytes of a number, the highest first.
pub open spec fn be_bytes(n: nat, len: nat) -> Seq<u8>
    decreases len,
{
    if len == 0 {
        Seq::empty()
    } else {
        be_bytes(n / 256, (len - 1) as nat).push((n % 256) as u8)
    }
}

pub proof fn lemma_be_bytes_len(n: nat, len: nat)
    ensures
        be_bytes(n, len).len() == len,
    decreases len,
{
    if len > 0 {
        lemma_be_bytes_len(n / 256, (len - 1) as nat);
    }
}

fn be_bytes_of(n: u128, len: usize) -> (bytes: Vec<u8>)
    ensures
        bytes@ == be_bytes(n as nat, len as nat),
    decreases len,
{
    if len == 0 {
        Vec::new()
    } else {
        let mut bytes = be_bytes_of(n / 256, len - 1);
        bytes.push((n % 256) as u8);
        bytes
    }
}

/// The sixteen bytes of an id.
pub fn id_bytes(id: u128) -> (bytes: Vec<u8>)
    ensures
        bytes@ == be_bytes(id as nat, 16),
        bytes@.len() == 16,
{
    proof {
        lemma_be_bytes_len(id as nat, 16);
    }
    be_bytes_of(id, 16)
}

/// An id as text: 32 hexadecimal digits in groups of 8, 4, 4, 4 and 12.
pub open spec fn hyphenated(id: u128) -> Seq<char> {
    let h = text::hex(be_bytes(id as nat, 16));
    h.subrange(0, 8) + seq!['-'] + h.subrange(8, 12) + seq!['-'] + h.subrange(12, 16) + seq!['-']
        + h.subrange(16, 20) + seq!['-'] + h.subrange(20, 32)
}

/// The id that a text stands for, where it stands for one.
pub uninterp spec fn parsed_uuid(text: Seq<char>) -> Option<u128>;

/// `uuid::Uuid::new_v4`: a random id. Nothing is known of its value.
#[verifier::external_body]
pub(crate) fn random_id() -> (id: u128) {
    Uuid::new_v4().as_u128()
}

/// `uuid::Uuid`'s `to_string`: the id in lower-case groups. `Uuid::parse_str`
/// reads the id back from it.
#[verifier::external_body]
pub(crate) fn id_text(id: u128) -> (s: String)
    ensures
        s@ == hyphenated(id),
        parsed_uuid(s@) == Some(id),
{
    Uuid::from_u128(id).to_string()
}

/// `uuid::Uuid::parse_str`: the id that a text stands for. Besides the groups
/// that [`id_text`] writes it takes plain digits, braces round the groups and
/// the prefix of a URN; the contract gives the result a name.
#[verifier::external_body]
pub(crate) fn parse_id(text: &str) -> (r: Option<u128>)
    ensures
        r == parsed_uuid(text@),
{
    match Uuid::parse_str(text) {
        Ok(id) => Some(id.as_u128()),
        Err(_) => None,
    }
}

} // verus!
