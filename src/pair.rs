//! Pair tokens: an IPv4 address signed with the server's HMAC-SHA256 secret,
//! which lets a chat user claim an existing tunnel address.

use vstd::prelude::*;

use hmac::{Hmac, Mac};
use jwt::{SignWithKey, VerifyWithKey};
use sha2::Sha256;

verus! {

/// The token that signs `ip` with `secret`.
pub uninterp spec fn signed_token(secret: Seq<u8>, ip: u32) -> Seq<char>;

/// The address that `token` carries, if its signature is valid for `secret`.
pub uninterp spec fn token_claim(secret: Seq<u8>, token: Seq<char>) -> Option<u32>;

/// Relies on hmac's `Hmac::<Sha256>::new_from_slice` (any key length) and
/// jwt's `sign_with_key`: an HS256 token whose claims are the address as a
/// number; the token depends on the secret and the address alone.
#[verifier::external_body]
pub(crate) fn sign_token(secret: &[u8], ip: u32) -> (r: Option<String>)
    ensures
        r.is_some(),
        r.unwrap()@ == signed_token(secret@, ip),
{
    let key: Hmac<Sha256> = Hmac::new_from_slice(secret).ok()?;
    ip.sign_with_key(&key).ok()
}

/// Relies on hmac's `Hmac::<Sha256>::new_from_slice` and jwt's
/// `verify_with_key`: the address in the claims when the signature checks
/// out; the answer depends on the secret and the token alone, and a token
/// signed with the same secret verifies back to the address it signed.
#[verifier::external_body]
pub(crate) fn verify_token(secret: &[u8], token: &str) -> (r: Option<u32>)
    ensures
        r == token_claim(secret@, token@),
        forall|ip: u32| #[trigger] signed_token(secret@, ip) == token@ ==> r == Some(ip),
{
    let key: Hmac<Sha256> = Hmac::new_from_slice(secret).ok()?;
    token.verify_with_key(&key).ok()
}

} // verus!
