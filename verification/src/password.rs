//! Password hashing and verification, delegated to a standard
//! password-hashing primitive. The library never stores or compares
//! plaintext: it stores the opaque hash and asks the primitive whether a
//! presented password matches it.

use vstd::prelude::*;
use crate::error::Error;

verus! {

/// What checking `password` against the stored `hash` yields: `None` when
/// the stored hash cannot be parsed or checked at all (an internal failure),
/// otherwise whether the password matches. Checking is deterministic in the
/// password and the hash string, which fixes both parameters and salt.
pub uninterp spec fn pwd_check(password: Seq<char>, hash: Seq<char>) -> Option<bool>;

/// Relies on `argon2::Argon2::default` with `PasswordHash::generate` over a
/// salt drawn from `rand::thread_rng`: the produced PHC string parses back,
/// and verifying the same password against it succeeds, whatever salt was
/// drawn. `None` reports the primitive's own failure.
#[verifier::external_body]
fn argon2_hash(password: &str) -> (r: Option<String>)
    ensures
        match r {
            Some(hash) => pwd_check(password@, hash@) == Some(true),
            None => true,
        },
{
    let salt = argon2::password_hash::SaltString::generate(rand::thread_rng());
    match argon2::password_hash::PasswordHash::generate(
        argon2::Argon2::default(),
        password,
        &salt,
    ) {
        Ok(hash) => Some(hash.to_string()),
        Err(_) => None,
    }
}

/// Relies on `argon2::password_hash::PasswordHash::new` to parse the stored
/// hash and `PasswordHash::verify_password` with `argon2::Argon2::default`
/// to check the password against it: a deterministic recomputation under the
/// hash's own parameters and salt.
#[verifier::external_body]
fn argon2_verify(password: &str, hash: &str) -> (r: Option<bool>)
    ensures
        r == pwd_check(password@, hash@),
{
    match argon2::password_hash::PasswordHash::new(hash) {
        Ok(parsed) => match parsed.verify_password(&[&argon2::Argon2::default()], password) {
            Ok(()) => Some(true),
            Err(argon2::password_hash::Error::Password) => Some(false),
            Err(_) => None,
        },
        Err(_) => None,
    }
}

/// Hashes a password for storage. `None` reports the primitive's failure;
/// every produced hash verifies against the password it was made from.
pub fn hash_password(password: &str) -> (r: Option<String>)
    ensures
        match r {
            Some(hash) => pwd_check(password@, hash@) == Some(true),
            None => true,
        },
{
    argon2_hash(password)
}

/// Checks a presented password against a stored hash: a mismatch is
/// `Unauthorized`, a hash that cannot be checked at all is an internal
/// failure.
pub fn verify_password(password: &str, hash: &str) -> (r: Result<(), Error>)
    ensures
        r == match pwd_check(password@, hash@) {
            Some(true) => Ok::<(), Error>(()),
            Some(false) => Err::<(), Error>(Error::Unauthorized),
            None => Err::<(), Error>(Error::Internal),
        },
{
    match argon2_verify(password, hash) {
        Some(true) => Ok(()),
        Some(false) => Err(Error::Unauthorized),
        None => Err(Error::Internal),
    }
}

} // verus!
