//! Password storage, resting on the bcrypt crate.
//!
//! What a bcrypt hash looks like takes pages to state, so two aspects of
//! bcrypt's verification are only given names here: [`password_matches`],
//! the boolean it computes, and [`bcrypt_hash_wf`], whether it can compute
//! at all. Hashing promises that both names hold of the fresh hash,
//! checking decides them; nothing else is assumed of the scheme.

use vstd::prelude::*;

verus! {

/// Whether this password belongs to this stored hash, as bcrypt's
/// verification decides it. A function of the two strings alone.
pub uninterp spec fn password_matches(password: Seq<char>, hashed: Seq<char>) -> bool;

/// Whether bcrypt's verification accepts this stored hash at all: sixty
/// ASCII bytes in bcrypt's format with a cost in the allowed range. Its
/// error paths read the hash alone, so this is a function of one string.
pub uninterp spec fn bcrypt_hash_wf(hashed: Seq<char>) -> bool;

/// Relies on bcrypt::hash: a fresh salted hash of the password, which
/// bcrypt::verify accepts and matches for the same password. The salt is
/// random, so two calls return different strings; with the cost in bcrypt's
/// allowed range the only failures left are the platform's randomness
/// source.
#[verifier::external_body]
pub(crate) fn hash_password(password: &str, cost: u32) -> (r: Result<String, ()>)
    requires
        4 <= cost <= 31,
    ensures
        r matches Ok(h) ==> password_matches(password@, h@) && bcrypt_hash_wf(h@),
{
    match bcrypt::hash(password, cost) {
        Ok(h) => Ok(h),
        Err(_) => Err(()),
    }
}

/// Relies on bcrypt::verify: recomputes the hash from the password and the
/// salt inside `hashed` and compares. It errs exactly on a stored hash it
/// cannot parse — a condition of the hash alone, since the cost and salt
/// come out of the hash and a long password is truncated, never rejected.
#[verifier::external_body]
pub(crate) fn verify_password(password: &str, hashed: &str) -> (r: Result<bool, ()>)
    ensures
        r is Ok <==> bcrypt_hash_wf(hashed@),
        r matches Ok(b) ==> b == password_matches(password@, hashed@),
{
    match bcrypt::verify(password, hashed) {
        Ok(b) => Ok(b),
        Err(_) => Err(()),
    }
}

} // verus!
