//! Password hashing, through the bcrypt crate.
//!
//! A password is stored as a self-contained, salted bcrypt digest string.
//! The digest of a fresh hash depends on a random salt, so nothing is
//! assumed about its exact bytes; what is assumed is that verification is
//! a pure function of password and digest, that a fresh digest verifies
//! the password it was made from, and that the digest string keeps to
//! bcrypt's documented 60-byte `$2b$..` format.

use vstd::prelude::*;

verus! {

/// Whether bcrypt accepts `digest` as a well-formed hash string whose
/// recomputation from `password` matches.  Verification reads the cost
/// and salt out of the digest itself, so the outcome depends on these
/// two arguments alone; a malformed digest never verifies.
pub uninterp spec fn bcrypt_verifies(password: Seq<u8>, digest: Seq<u8>) -> bool;

/// A byte that may appear in a bcrypt digest string: `$`, `.`, `/`,
/// digits and letters.
pub open spec fn digest_byte_ok(b: u8) -> bool {
    b == 36 || b == 46 || b == 47 || (48 <= b && b <= 57) || (65 <= b && b <= 90) || (97 <= b
        && b <= 122)
}

/// The shape of a digest as bcrypt emits it: exactly 60 bytes, all from
/// the digest alphabet.  In particular it holds no `:`, no newline and
/// no whitespace, so a digest embeds into a `name:digest` record line
/// without escaping.
pub open spec fn digest_wf(d: Seq<u8>) -> bool {
    d.len() == 60 && forall|i: int| 0 <= i < d.len() ==> digest_byte_ok(d[i])
}

/// Hash `password` with a fresh random salt.  Returns `None` when the
/// platform's randomness source fails; the caller treats that as fatal.
///
/// Relies on bcrypt::hash: the returned string is the 60-byte
/// `$2b$<cost>$<salt><hash>` form over bcrypt's base64 alphabet, and
/// bcrypt::verify of the same password against it recomputes the same
/// hash and succeeds.
#[verifier::external_body]
pub fn hashp(password: &Vec<u8>) -> (r: Option<Vec<u8>>)
    ensures
        r is Some ==> digest_wf(r.unwrap()@),
        r is Some ==> bcrypt_verifies(password@, r.unwrap()@),
{
    match bcrypt::hash(password.as_slice(), bcrypt::DEFAULT_COST) {
        Ok(digest) => Some(digest.into_bytes()),
        Err(_) => None,
    }
}

/// Decide whether `password` matches `digest`.  A digest that is not
/// UTF-8, not bcrypt-shaped, or simply wrong yields `false`, never an
/// error.
///
/// Relies on bcrypt::verify: it parses cost and salt out of the digest
/// and recomputes the hash, so its outcome is a function of the two
/// arguments alone; every parse failure is an error, mapped to `false`
/// here.
#[verifier::external_body]
pub fn verify_password(password: &Vec<u8>, digest: &Vec<u8>) -> (r: bool)
    ensures
        r == bcrypt_verifies(password@, digest@),
{
    match core::str::from_utf8(digest.as_slice()) {
        Ok(d) => bcrypt::verify(password.as_slice(), d).unwrap_or(false),
        Err(_) => false,
    }
}

} // verus!
