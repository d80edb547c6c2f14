//! Password digests, made and checked by the `bcrypt` crate.

use vstd::prelude::*;

verus! {

/// The error type of the `bcrypt` crate, carried through unread.
#[verifier::external_type_specification]
#[verifier::external_body]
pub struct ExBcryptError(bcrypt::BcryptError);

/// What `bcrypt::verify` answers for a password and a digest: `Some(b)` where
/// it returns `Ok(b)`, `None` where it returns an error.
pub uninterp spec fn digest_verdict(password: Seq<char>, digest: Seq<char>) -> Option<bool>;

/// Calls `bcrypt::hash` with the crate's default cost.  The salt is random,
/// so the digest is not determined by the password; what is claimed is that
/// `bcrypt::verify` accepts the password against any digest that comes back,
/// since it hashes the password again with the salt and cost that the digest
/// records and compares the two.
#[verifier::external_body]
pub(crate) fn hash_password(password: &str) -> (digest: Result<String, bcrypt::BcryptError>)
    ensures
        digest matches Ok(d) ==> digest_verdict(password@, d@) == Some(true),
{
    bcrypt::hash(password, bcrypt::DEFAULT_COST)
}

/// The answer in a result of `bcrypt::verify`, without the error.
pub open spec fn answer(verdict: Result<bool, bcrypt::BcryptError>) -> Option<bool> {
    match verdict {
        Ok(b) => Some(b),
        Err(_) => None,
    }
}

/// Calls `bcrypt::verify`, whose answer depends on the password and the
/// digest alone; the contract gives that answer its name.
#[verifier::external_body]
pub(crate) fn verify_password(password: &str, digest: &str) -> (verdict: Result<
    bool,
    bcrypt::BcryptError,
>)
    ensures
        answer(verdict) == digest_verdict(password@, digest@),
{
    bcrypt::verify(password, digest)
}

/// The text that `bcrypt` gives for one of its errors, through the error's
/// `Display`; nothing is claimed of it.
#[verifier::external_body]
pub(crate) fn describe(error: &bcrypt::BcryptError) -> (text: String) {
    error.to_string()
}

} // verus!
