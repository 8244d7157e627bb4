//! One-way password digests: Argon2id with a fresh random salt, stored as a
//! self-describing PHC string.
use vstd::prelude::*;
use vstd::utf8::encode_utf8;

verus! {

#[verifier::external_type_specification]
#[verifier::external_body]
pub struct ExPasswordHashError(argon2::password_hash::Error);

/// The longest password, in UTF-8 bytes, that Argon2 hashes.
pub const MAX_PASSWORD_BYTES: usize = 0xFFFFFFFF;

/// Why a digest could not be made or read.
#[derive(Clone, Copy, Debug, PartialEq, Eq, Structural)]
pub enum PasswordError {
    /// The hashing primitive refused the input.
    Hashing,
    /// The stored digest is no PHC string: corrupt data, not a wrong password.
    HashFormat,
}

/// `argon2::PasswordHash::new` accepts the string.
pub uninterp spec fn phc_parses(hash: Seq<char>) -> bool;

/// Argon2's `verify_password` accepts the password against the parsed digest.
pub uninterp spec fn argon2_accepts(password: Seq<char>, hash: Seq<char>) -> bool;

/// `hash` is a digest that was made from `password`.
pub open spec fn is_digest_of(hash: Seq<char>, password: Seq<char>) -> bool {
    phc_parses(hash) && argon2_accepts(password, hash)
}

/// What checking `password` against the stored `hash` yields.
pub open spec fn password_check(password: Seq<char>, hash: Seq<char>) -> Result<bool, PasswordError> {
    if phc_parses(hash) {
        Ok(argon2_accepts(password, hash))
    } else {
        Err(PasswordError::HashFormat)
    }
}

/// Relies on argon2's `Argon2::default().hash_password` over a salt from
/// `SaltString::generate(&mut OsRng)`, and on the round trip that the
/// crate documents: the PHC string it returns parses with
/// `PasswordHash::new` and verifies against the same password. With the
/// default parameters and a generated salt it fails exactly on a password
/// of more than `MAX_PWD_LEN` bytes (`verify_inputs`).
#[verifier::external_body]
fn argon2_hash(password: &str) -> (r: Result<String, argon2::password_hash::Error>)
    ensures
        r matches Ok(h) ==> is_digest_of(h@, password@),
        r is Ok <==> encode_utf8(password@).len() <= MAX_PASSWORD_BYTES,
{
    let salt = argon2::password_hash::SaltString::generate(
        &mut argon2::password_hash::rand_core::OsRng,
    );
    let argon2 = argon2::Argon2::default();
    let digest = argon2::PasswordHasher::hash_password(&argon2, password.as_bytes(), &salt)?;
    Ok(digest.to_string())
}

/// Relies on argon2's `PasswordHash::new`, which fails exactly on a string
/// that is no PHC string, and `Argon2::verify_password`, which compares in
/// constant time with the parameters and salt that the string carries.
#[verifier::external_body]
fn argon2_verify(password: &str, hash: &str) -> (r: Result<bool, argon2::password_hash::Error>)
    ensures
        r is Ok <==> phc_parses(hash@),
        r matches Ok(b) ==> b == argon2_accepts(password@, hash@),
{
    let parsed = argon2::PasswordHash::new(hash)?;
    let argon2 = argon2::Argon2::default();
    Ok(argon2::PasswordVerifier::verify_password(&argon2, password.as_bytes(), &parsed).is_ok())
}

/// A digest of `password` under a fresh random salt; it fails only on a
/// password longer than Argon2 takes.
pub fn hash(password: String) -> (r: Result<String, PasswordError>)
    ensures
        r matches Ok(h) ==> is_digest_of(h@, password@),
        r is Ok <==> encode_utf8(password@).len() <= MAX_PASSWORD_BYTES,
        r matches Err(e) ==> e == PasswordError::Hashing,
{
    match argon2_hash(password.as_str()) {
        Ok(h) => Ok(h),
        Err(_) => Err(PasswordError::Hashing),
    }
}

/// Whether `password` matches the stored digest `hash`; an error where the
/// digest is malformed.
pub fn verify(password: String, hash: String) -> (r: Result<bool, PasswordError>)
    ensures
        r == password_check(password@, hash@),
{
    match argon2_verify(password.as_str(), hash.as_str()) {
        Ok(b) => Ok(b),
        Err(_) => Err(PasswordError::HashFormat),
    }
}

/// A digest made from a password verifies against that password.
pub proof fn lemma_digest_verifies(password: Seq<char>, hash: Seq<char>)
    requires
        is_digest_of(hash, password),
    ensures
        password_check(password, hash) == Ok::<bool, PasswordError>(true),
{
}

} // verus!
