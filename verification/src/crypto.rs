//! End-to-end encryption between a session host and its viewers.
//!
//! Both ends derive the key from the token that the viewer was given and from
//! the tunnel's id; the relay in between sees neither the token nor the key.
//! Data travels as the nonce followed by the ciphertext.

use crate::random;
use crate::text;
use aes_gcm::aead::{Aead, KeyInit};
use aes_gcm::{Aes256Gcm, Key, Nonce};
use hkdf::Hkdf;
use sha2::{Digest, Sha256};
use vstd::prelude::*;
use vstd::slice::slice_subrange;
use vstd::string::*;
use vstd::utf8;

verus! {

/// The salt of the key derivation; it names the scheme and its version.
pub const HKDF_SALT: &'static str = "zellij-e2e-v1";

/// The length of a nonce in bytes.
pub const NONCE_LEN: usize = 12;

/// The length of a key in bytes.
pub const KEY_LEN: usize = 32;

/// The length of the authentication tag that the cipher appends.
pub const TAG_LEN: usize = 16;

/// The longest plaintext that the cipher's counter suffices for.
pub const MAX_PLAINTEXT: u64 = 0xf_ffff_ffe0;

/// The length above which the cipher refuses a plaintext.
pub const PLAINTEXT_LIMIT: u64 = 0x10_0000_0000;

/// The length above which the cipher refuses a ciphertext, its tag not
/// counted.
pub const CIPHERTEXT_LIMIT: u64 = 0x10_0000_0010;

/// The error of the cipher.
#[verifier::external_type_specification]
#[verifier::external_body]
pub struct ExAeadError(aes_gcm::Error);

#[derive(Debug, Clone, Copy, PartialEq, Eq, Structural)]
pub enum CryptoError {
    TooShort { expected: usize, actual: usize },
    Decrypt,
    Encrypt,
}

impl CryptoError {
    pub open spec fn text(self) -> Seq<char> {
        match self {
            CryptoError::TooShort { expected, actual } => "ciphertext too short (expected >= "@
                + text::decimal(expected as nat) + " bytes, got "@ + text::decimal(actual as nat)
                + ")"@,
            CryptoError::Decrypt => "aead decryption failed"@,
            CryptoError::Encrypt => "aead encryption failed"@,
        }
    }

    /// The error in words.
    pub fn message(&self) -> (s: String)
        ensures
            s@ == self.text(),
    {
        match self {
            CryptoError::TooShort { expected, actual } => {
                let mut s = "ciphertext too short (expected >= ".to_string();
                s.append(text::decimal_text(*expected as u64).as_str());
                s.append(" bytes, got ");
                s.append(text::decimal_text(*actual as u64).as_str());
                s.append(")");
                s
            },
            CryptoError::Decrypt => "aead decryption failed".to_string(),
            CryptoError::Encrypt => "aead encryption failed".to_string(),
        }
    }
}

/// What HKDF with SHA-256 derives: `len` bytes from the salt, the key material
/// and the context.
pub uninterp spec fn hkdf_sha256(
    salt: Seq<u8>,
    key_material: Seq<u8>,
    info: Seq<u8>,
    len: nat,
) -> Seq<u8>;

/// What AES-256-GCM encrypts a plaintext to, without associated data: the
/// ciphertext with the authentication tag behind it.
pub uninterp spec fn aes256_gcm_sealed(
    key: Seq<u8>,
    nonce: Seq<u8>,
    plaintext: Seq<u8>,
) -> Seq<u8>;

/// What AES-256-GCM decrypts a ciphertext to, without associated data; `None`
/// where the authentication tag does not fit.
pub uninterp spec fn aes256_gcm_opened(
    key: Seq<u8>,
    nonce: Seq<u8>,
    ciphertext: Seq<u8>,
) -> Option<Seq<u8>>;

/// The SHA-256 digest of a byte string.
pub uninterp spec fn sha256_digest(data: Seq<u8>) -> Seq<u8>;

/// `hkdf::Hkdf::<Sha256>::new` followed by `expand` to the length of a key. An
/// output of that length is always allowed.
#[verifier::external_body]
fn hkdf_key(salt: &[u8], key_material: &[u8], info: &[u8]) -> (key: [u8; KEY_LEN])
    ensures
        key@ == hkdf_sha256(salt@, key_material@, info@, KEY_LEN as nat),
{
    let hk = Hkdf::<Sha256>::new(Some(salt), key_material);
    let mut okm = [0u8; KEY_LEN];
    hk.expand(info, &mut okm).expect("HKDF output length is valid");
    okm
}

/// `aes_gcm::Aes256Gcm`'s `encrypt`. It refuses a plaintext above its limit;
/// between `MAX_PLAINTEXT` and that limit there are fewer counters than blocks,
/// and `cipher::StreamCipherCore::apply_keystream_partial`, which it calls, is
/// documented to panic then. The ciphertext is longer than the plaintext by the
/// tag, and decrypts to the plaintext.
#[verifier::external_body]
fn aes_seal(key: &[u8; KEY_LEN], nonce: &[u8], plaintext: &[u8]) -> (r: Result<
    Vec<u8>,
    aes_gcm::Error,
>)
    requires
        nonce@.len() == NONCE_LEN,
        plaintext@.len() <= MAX_PLAINTEXT || plaintext@.len() > PLAINTEXT_LIMIT,
    ensures
        r is Err <==> plaintext@.len() > PLAINTEXT_LIMIT,
        r matches Ok(ciphertext) ==> {
            &&& ciphertext@ == aes256_gcm_sealed(key@, nonce@, plaintext@)
            &&& ciphertext@.len() == plaintext@.len() + TAG_LEN
            &&& aes256_gcm_opened(key@, nonce@, ciphertext@) == Some(plaintext@)
        },
{
    let cipher = Aes256Gcm::new(Key::<Aes256Gcm>::from_slice(key));
    cipher.encrypt(Nonce::from_slice(nonce), plaintext)
}

/// `aes_gcm::Aes256Gcm`'s `decrypt`. A ciphertext without room for the tag is
/// refused. For one whose tag fits but that has more blocks than there are
/// counters, `cipher::StreamCipherCore::apply_keystream_partial`, which it
/// calls, is documented to panic.
#[verifier::external_body]
fn aes_open(key: &[u8; KEY_LEN], nonce: &[u8], ciphertext: &[u8]) -> (r: Result<
    Vec<u8>,
    aes_gcm::Error,
>)
    requires
        nonce@.len() == NONCE_LEN,
        ciphertext@.len() <= MAX_PLAINTEXT + TAG_LEN || ciphertext@.len() > CIPHERTEXT_LIMIT
            + TAG_LEN,
    ensures
        match aes256_gcm_opened(key@, nonce@, ciphertext@) {
            Some(p) => r matches Ok(plaintext) && plaintext@ == p,
            None => r is Err,
        },
        ciphertext@.len() < TAG_LEN ==> r is Err,
        r matches Ok(plaintext) ==> plaintext@.len() + TAG_LEN == ciphertext@.len(),
{
    let cipher = Aes256Gcm::new(Key::<Aes256Gcm>::from_slice(key));
    cipher.decrypt(Nonce::from_slice(nonce), ciphertext)
}

/// `sha2::Sha256`'s `digest`; a digest has 32 bytes.
#[verifier::external_body]
fn sha256(data: &[u8]) -> (digest: Vec<u8>)
    ensures
        digest@ == sha256_digest(data@),
        digest@.len() == 32,
{
    Sha256::digest(data).to_vec()
}

/// The key of a tunnel for the viewers who came in with a token.
pub open spec fn derived_key(token: Seq<char>, tunnel_id: Seq<char>) -> Seq<u8> {
    hkdf_sha256(
        utf8::encode_utf8(HKDF_SALT@),
        utf8::encode_utf8(token),
        utf8::encode_utf8(tunnel_id),
        KEY_LEN as nat,
    )
}

/// Derives the key from a token and the id of a tunnel. The tunnel's id keeps
/// the keys of two tunnels apart that share a token.
pub fn derive_key(raw_token: &str, tunnel_id: &str) -> (key: [u8; KEY_LEN])
    ensures
        key@ == derived_key(raw_token@, tunnel_id@),
{
    hkdf_key(HKDF_SALT.as_bytes(), raw_token.as_bytes(), tunnel_id.as_bytes())
}

/// The lower-case hexadecimal SHA-256 digest of a token: all that the relay
/// ever learns of it.
pub open spec fn hashed_token(token: Seq<char>) -> Seq<char> {
    text::hex(sha256_digest(utf8::encode_utf8(token)))
}

pub fn hash_token(raw_token: &str) -> (hash: String)
    ensures
        hash@ == hashed_token(raw_token@),
{
    text::hex_text(sha256(raw_token.as_bytes()).as_slice())
}

/// Whether the cipher either encrypts or refuses a plaintext of this length.
pub open spec fn plaintext_fits(len: nat) -> bool {
    len <= MAX_PLAINTEXT || len > PLAINTEXT_LIMIT
}

/// Whether the cipher either decrypts or refuses a payload of this length.
pub open spec fn payload_fits(len: nat) -> bool {
    len <= NONCE_LEN + MAX_PLAINTEXT + TAG_LEN || len > NONCE_LEN + CIPHERTEXT_LIMIT + TAG_LEN
}

/// See [`plaintext_fits`].
pub fn plaintext_length_fits(len: usize) -> (r: bool)
    ensures
        r == plaintext_fits(len as nat),
{
    let len: u64 = len as u64;
    len <= MAX_PLAINTEXT || len > PLAINTEXT_LIMIT
}

/// See [`payload_fits`].
pub fn payload_length_fits(len: usize) -> (r: bool)
    ensures
        r == payload_fits(len as nat),
{
    let len: u64 = len as u64;
    let overhead: u64 = NONCE_LEN as u64 + TAG_LEN as u64;
    len <= overhead + MAX_PLAINTEXT || len > overhead + CIPHERTEXT_LIMIT
}

/// A nonce with the ciphertext of `plaintext` behind it.
pub open spec fn sealed_payload(key: Seq<u8>, nonce: Seq<u8>, plaintext: Seq<u8>) -> Seq<u8> {
    nonce + aes256_gcm_sealed(key, nonce, plaintext)
}

/// What a payload decrypts to.
pub open spec fn opened_payload(key: Seq<u8>, payload: Seq<u8>) -> Result<Seq<u8>, CryptoError> {
    if payload.len() < NONCE_LEN {
        Err(CryptoError::TooShort { expected: NONCE_LEN, actual: payload.len() as usize })
    } else {
        match aes256_gcm_opened(
            key,
            payload.take(NONCE_LEN as int),
            payload.skip(NONCE_LEN as int),
        ) {
            Some(plaintext) => Ok(plaintext),
            None => Err(CryptoError::Decrypt),
        }
    }
}

/// Encrypts with a given nonce. What comes out decrypts to the plaintext.
pub fn encrypt_with_nonce(key: &[u8; KEY_LEN], nonce: &[u8; NONCE_LEN], plaintext: &[u8]) -> (r:
    Result<Vec<u8>, CryptoError>)
    requires
        plaintext_fits(plaintext@.len()),
    ensures
        plaintext@.len() > PLAINTEXT_LIMIT ==> r == Err::<Vec<u8>, CryptoError>(
            CryptoError::Encrypt,
        ),
        plaintext@.len() <= PLAINTEXT_LIMIT ==> (r matches Ok(payload) && {
            &&& payload@ == sealed_payload(key@, nonce@, plaintext@)
            &&& payload@.len() == NONCE_LEN + plaintext@.len() + TAG_LEN
            &&& opened_payload(key@, payload@) == Ok::<Seq<u8>, CryptoError>(plaintext@)
        }),
{
    let nonce_bytes: &[u8] = nonce.as_slice();
    match aes_seal(key, nonce_bytes, plaintext) {
        Ok(ciphertext) => {
            let mut out: Vec<u8> = Vec::new();
            out.extend_from_slice(nonce_bytes);
            out.extend_from_slice(ciphertext.as_slice());
            proof {
                assert(out@ =~= nonce@ + ciphertext@);
                assert(out@.take(NONCE_LEN as int) =~= nonce@);
                assert(out@.skip(NONCE_LEN as int) =~= ciphertext@);
            }
            Ok(out)
        },
        Err(_) => Err(CryptoError::Encrypt),
    }
}

/// Encrypts with a fresh random nonce. What comes out decrypts to the
/// plaintext, whatever the nonce was.
pub fn encrypt(key: &[u8; KEY_LEN], plaintext: &[u8]) -> (r: Result<Vec<u8>, CryptoError>)
    requires
        plaintext_fits(plaintext@.len()),
    ensures
        plaintext@.len() > PLAINTEXT_LIMIT ==> r == Err::<Vec<u8>, CryptoError>(
            CryptoError::Encrypt,
        ),
        plaintext@.len() <= PLAINTEXT_LIMIT ==> (r matches Ok(payload) && {
            &&& payload@.len() == NONCE_LEN + plaintext@.len() + TAG_LEN
            &&& payload@ == sealed_payload(key@, payload@.take(NONCE_LEN as int), plaintext@)
            &&& opened_payload(key@, payload@) == Ok::<Seq<u8>, CryptoError>(plaintext@)
        }),
{
    let nonce = random::random_bytes::<NONCE_LEN>();
    let r = encrypt_with_nonce(key, &nonce, plaintext);
    proof {
        if r is Ok {
            assert(r->Ok_0@.take(NONCE_LEN as int) =~= nonce@);
        }
    }
    r
}

/// Decrypts a payload that [`encrypt`] made.
pub fn decrypt(key: &[u8; KEY_LEN], nonce_and_ct: &[u8]) -> (r: Result<Vec<u8>, CryptoError>)
    requires
        payload_fits(nonce_and_ct@.len()),
    ensures
        match opened_payload(key@, nonce_and_ct@) {
            Ok(p) => r matches Ok(plaintext) && plaintext@ == p,
            Err(e) => r == Err::<Vec<u8>, CryptoError>(e),
        },
        nonce_and_ct@.len() < NONCE_LEN + TAG_LEN ==> r is Err,
{
    if nonce_and_ct.len() < NONCE_LEN {
        return Err(CryptoError::TooShort { expected: NONCE_LEN, actual: nonce_and_ct.len() });
    }
    let nonce = slice_subrange(nonce_and_ct, 0, NONCE_LEN);
    let ciphertext = slice_subrange(nonce_and_ct, NONCE_LEN, nonce_and_ct.len());
    proof {
        assert(nonce@ =~= nonce_and_ct@.take(NONCE_LEN as int));
        assert(ciphertext@ =~= nonce_and_ct@.skip(NONCE_LEN as int));
    }
    match aes_open(key, nonce, ciphertext) {
        Ok(plaintext) => Ok(plaintext),
        Err(_) => Err(CryptoError::Decrypt),
    }
}

/// A payload is its nonce, which is twelve bytes long, and behind it what was
/// encrypted. What is shorter than a nonce is told by its length; what does not
/// decrypt is told as that.
pub proof fn law_nonce_in_front(key: Seq<u8>, nonce: Seq<u8>, rest: Seq<u8>, short: Seq<u8>)
    requires
        nonce.len() == 12,
        short.len() < 12,
    ensures
        aes256_gcm_opened(key, nonce, rest) matches Some(plaintext) ==> opened_payload(
            key,
            nonce + rest,
        ) == Ok::<Seq<u8>, CryptoError>(plaintext),
        aes256_gcm_opened(key, nonce, rest) is None ==> opened_payload(key, nonce + rest) == Err::<
            Seq<u8>,
            CryptoError,
        >(CryptoError::Decrypt),
        opened_payload(key, short) matches Err(CryptoError::TooShort { expected, actual })
            && expected == 12 && actual == short.len(),
        sealed_payload(key, nonce, rest).take(12) == nonce,
        sealed_payload(key, nonce, rest).skip(12) == aes256_gcm_sealed(key, nonce, rest),
{
    assert((nonce + rest).take(12) =~= nonce);
    assert((nonce + rest).skip(12) =~= rest);
    assert(sealed_payload(key, nonce, rest).take(12) =~= nonce);
    assert(sealed_payload(key, nonce, rest).skip(12) =~= aes256_gcm_sealed(key, nonce, rest));
}

} // verus!
