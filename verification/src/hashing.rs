//! Credential hashing: one-way password hashing and verification, backed
//! by bcrypt behind two trusted wrappers.
use vstd::prelude::*;

verus! {

/// Whether bcrypt verification of `password` against `hash` succeeds.
/// Deterministic: bcrypt re-derives the digest from the salt and cost
/// embedded in `hash` and compares.
pub uninterp spec fn bcrypt_verifies(password: Seq<char>, hash: Seq<char>) -> bool;

/// Relies on bcrypt::hash: the returned string embeds the salt, cost, and
/// digest, and bcrypt::verify of the same password against it returns true.
/// The salt is drawn from OS randomness, so nothing is stated beyond the
/// round trip, which holds for every salt.
#[verifier::external_body]
fn bcrypt_hash(password: &str, cost: u32) -> (r: Option<String>)
    ensures
        r is Some ==> bcrypt_verifies(password@, r->Some_0@),
{
    bcrypt::hash(password, cost).ok()
}

/// Relies on bcrypt::verify: deterministic in the password and the hash
/// string; a malformed hash is reported as an error, folded to false here
/// exactly as a mismatch is.
#[verifier::external_body]
fn bcrypt_check(password: &str, hash: &str) -> (r: bool)
    ensures
        r == bcrypt_verifies(password@, hash@),
{
    bcrypt::verify(password, hash).unwrap_or(false)
}

/// One-way hash of a plaintext password with the given work factor.
/// Fails only on catastrophic backend failure; callers treat that as fatal
/// to the request.
pub fn hash_password(password: &str, cost: u32) -> (r: Option<String>)
    ensures
        r is Some ==> bcrypt_verifies(password@, r->Some_0@),
{
    bcrypt_hash(password, cost)
}

/// Verifies a plaintext password against a stored hash; never fails on a
/// mismatch or a malformed hash, it returns false.
pub fn verify_password(password: &str, hash: &str) -> (r: bool)
    ensures
        r == bcrypt_verifies(password@, hash@),
{
    bcrypt_check(password, hash)
}

} // verus!
