//! Secrets in protected memory.

use secstr::{SecStr, SecVec};
use vstd::prelude::*;
use vstd::utf8::encode_utf8;

verus! {

/// A vector in protected memory.
#[verifier::external_type_specification]
#[verifier::external_body]
#[verifier::reject_recursive_types(T)]
pub struct ExSecVec<T: Copy>(SecVec<T>);

/// The bytes that a secret holds.
pub uninterp spec fn secret_bytes(secret: SecStr) -> Seq<u8>;

/// Calls `secstr::SecStr::from`: the secret holds the UTF-8 bytes of the text.
#[verifier::external_body]
pub(super) fn seal(text: &str) -> (secret: SecStr)
    ensures
        secret_bytes(secret) == encode_utf8(text@),
{
    SecStr::from(text)
}

/// Calls `secstr::SecStr::unsecure`, which lends out the bytes of the secret.
#[verifier::external_body]
pub(super) fn unseal(secret: &SecStr) -> (bytes: &[u8])
    ensures
        bytes@ == secret_bytes(*secret),
{
    secret.unsecure()
}

} // verus!
