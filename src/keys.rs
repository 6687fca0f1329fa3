//! WireGuard keys: stored key entries, their base64 text, and key-pair
//! generation.

use vstd::prelude::*;

use base64::engine::general_purpose::STANDARD;
use base64::Engine;

use crate::error::ServiceError;

verus! {

/// A stored public key with its name and owner.
#[derive(Debug)]
pub struct Key {
    pub key: [u8; 32],
    pub name: String,
    pub user_id: u128,
}

/// Text of `b` in standard base64 with padding.
pub uninterp spec fn base64_text(b: Seq<u8>) -> Seq<char>;

/// Bytes that standard base64 decodes `s` to, if `s` is valid base64.
pub uninterp spec fn base64_bytes(s: Seq<char>) -> Option<Seq<u8>>;

/// The X25519 public key of a secret key.
pub uninterp spec fn x25519_public(secret: Seq<u8>) -> Seq<u8>;

/// Whether `c` belongs to the standard base64 alphabet (`A`-`Z`, `a`-`z`,
/// `0`-`9`, `+`, `/`) or is its padding (`=`).
pub open spec fn is_base64_char(c: char) -> bool {
    ('A' <= c <= 'Z') || ('a' <= c <= 'z') || ('0' <= c <= '9') || c == '+' || c == '/' || c == '='
}

/// Relies on base64's `STANDARD.encode`: the text depends on the bytes
/// alone and is made of the standard alphabet and padding.
#[verifier::external_body]
pub(crate) fn base64_encode(b: &[u8]) -> (r: String)
    ensures
        r@ == base64_text(b@),
        forall|i: int| 0 <= i < r@.len() ==> is_base64_char(#[trigger] r@[i]),
{
    STANDARD.encode(b)
}

/// Relies on base64's `STANDARD.decode`: the bytes depend on the text alone,
/// and text that `STANDARD.encode` made decodes back to the bytes it encoded.
#[verifier::external_body]
pub(crate) fn base64_decode(s: &str) -> (r: Option<Vec<u8>>)
    ensures
        match r {
            Some(v) => base64_bytes(s@) == Some(v@),
            None => base64_bytes(s@).is_none(),
        },
        forall|b: Seq<u8>| #[trigger] base64_text(b) == s@ ==> r.is_some() && r.unwrap()@ == b,
{
    STANDARD.decode(s).ok()
}

/// Relies on x25519-dalek's `StaticSecret::random_from_rng` with the
/// operating system's generator: 32 random bytes of a secret key.
#[verifier::external_body]
fn random_secret() -> (r: [u8; 32]) {
    x25519_dalek::StaticSecret::random_from_rng(rand::rngs::OsRng).to_bytes()
}

/// Relies on x25519-dalek's `PublicKey::from(&StaticSecret)`: the public key
/// depends on the secret's bytes alone.
#[verifier::external_body]
fn public_key_of(secret: &[u8; 32]) -> (r: [u8; 32])
    ensures
        r@ == x25519_public(secret@),
{
    x25519_dalek::PublicKey::from(&x25519_dalek::StaticSecret::from(*secret)).to_bytes()
}

/// A fresh key pair: the public key, and the random secret key it belongs to.
pub fn generate_key_pair() -> (r: ([u8; 32], [u8; 32]))
    ensures
        r.0@ == x25519_public(r.1@),
{
    let secret = random_secret();
    let public = public_key_of(&secret);
    (public, secret)
}

/// The standard base64 text of a key.
pub fn key_to_base64(key: &[u8; 32]) -> (r: String)
    ensures
        r@ == base64_text(key@),
        forall|i: int| 0 <= i < r@.len() ==> is_base64_char(#[trigger] r@[i]),
{
    base64_encode(key.as_slice())
}

/// A key made of exactly 32 bytes.
pub fn key_from_slice(b: &[u8]) -> (r: Option<[u8; 32]>)
    ensures
        r.is_some() <==> b@.len() == 32,
        r.is_some() ==> r.unwrap()@ == b@,
{
    if b.len() != 32 {
        return None;
    }
    let mut key = [0u8; 32];
    let mut i: usize = 0;
    while i < 32
        invariant
            b@.len() == 32,
            i <= 32,
            key@.len() == 32,
            forall|j: int| 0 <= j < i ==> key@[j] == b@[j],
        decreases 32 - i,
    {
        key[i] = b[i];
        i = i + 1;
    }
    proof {
        assert(key@ =~= b@);
    }
    Some(key)
}

/// Whether `s` is the base64 text of exactly 32 bytes.
pub open spec fn is_key_text(s: Seq<char>) -> bool {
    base64_bytes(s).is_some() && base64_bytes(s).unwrap().len() == 32
}

/// Reads a public key given as standard base64 text: it must decode to
/// exactly 32 bytes, else the key is invalid.
pub fn decode_public_key(s: &str) -> (r: Result<[u8; 32], ServiceError>)
    ensures
        is_key_text(s@) <==> r.is_ok(),
        r.is_ok() ==> Some(r.unwrap()@) == base64_bytes(s@),
        !is_key_text(s@) ==> r == Err::<[u8; 32], ServiceError>(ServiceError::InvalidKey),
        forall|b: Seq<u8>|
            #[trigger] base64_text(b) == s@ && b.len() == 32 ==> r.is_ok() && r.unwrap()@ == b,
{
    match base64_decode(s) {
        Some(v) => match key_from_slice(v.as_slice()) {
            Some(k) => Ok(k),
            None => Err(ServiceError::InvalidKey),
        },
        None => Err(ServiceError::InvalidKey),
    }
}

} // verus!
