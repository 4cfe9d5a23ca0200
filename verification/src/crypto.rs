//! Password hashing with Argon2id: hashes are PHC strings that carry the
//! algorithm, its parameters and a random salt.
use vstd::prelude::*;
use argon2::password_hash::rand_core::OsRng;
use argon2::password_hash::{PasswordHash, PasswordHasher, PasswordVerifier, Salt, SaltString};
use argon2::Argon2;

verus! {

/// Errors of password operations.
#[derive(Debug)]
pub enum PasswordError {
    /// Hashing failed, with the reason.
    HashError(String),
    /// Verification failed for a reason other than a wrong password.
    VerifyError(String),
    /// The stored hash is not a PHC string.
    InvalidHash,
}

/// The PHC string that Argon2id with its default parameters makes of a
/// password and a (B64-encoded) salt, if it makes one.
pub uninterp spec fn argon2id_phc(password: Seq<char>, salt: Seq<char>) -> Option<Seq<char>>;

/// Whether text parses as a PHC string.
pub uninterp spec fn phc_parses(hash: Seq<char>) -> bool;

/// What Argon2 verification of a password against a parsed PHC string
/// answers: whether it matches, or nothing when it fails otherwise.
pub uninterp spec fn argon2_verdict(password: Seq<char>, hash: Seq<char>) -> Option<bool>;

/// A character of the B64 alphabet (standard Base64 without padding).
pub open spec fn is_b64_char(c: char) -> bool {
    ('A' <= c && c <= 'Z') || ('a' <= c && c <= 'z') || ('0' <= c && c <= '9') || c == '+' || c
        == '/'
}

/// The six-bit value of a B64 character.
pub open spec fn b64_value(c: char) -> int {
    if 'A' <= c && c <= 'Z' {
        c as int - 'A' as int
    } else if 'a' <= c && c <= 'z' {
        c as int - 'a' as int + 26
    } else if '0' <= c && c <= '9' {
        c as int - '0' as int + 52
    } else if c == '+' {
        62
    } else {
        63
    }
}

/// The B64 text of sixteen bytes: 22 characters of the alphabet, the last
/// of which carries two bits of data and four zero bits.
pub open spec fn is_b64_of_16_bytes(s: Seq<char>) -> bool {
    &&& s.len() == 22
    &&& forall|i: int| 0 <= i < s.len() ==> is_b64_char(#[trigger] s[i])
    &&& b64_value(s[21]) % 16 == 0
}

/// A password short enough for Argon2 (at most `0xFFFF_FFFF` bytes: with at
/// most four bytes a character, this many characters always fit).
pub open spec fn argon2_password_fits(password: Seq<char>) -> bool {
    password.len() <= 0x3FFF_FFFF
}

/// A fresh random salt (`SaltString::generate` with the operating system's
/// generator): sixteen random bytes in B64. Its value is random; what is
/// stated is its form, the B64 text of sixteen bytes.
#[verifier::external_body]
fn fresh_salt() -> (r: String)
    ensures
        is_b64_of_16_bytes(r@),
{
    SaltString::generate(&mut OsRng).as_str().to_string()
}

/// The Argon2id hash of a password with a salt, as a PHC string
/// (`Argon2::default().hash_password`). The result is named
/// `argon2id_phc`; the source shows that the string it writes begins with
/// `$argon2id$`, and that hashing succeeds for a salt that is the B64 text
/// of sixteen bytes and a password of at most `0xFFFF_FFFF` bytes (here: of
/// at most `0x3FFF_FFFF` characters). The
/// error's text is left unstated.
#[verifier::external_body]
fn argon2id_hash(password: &str, salt: &str) -> (r: Result<String, String>)
    ensures
        r is Ok <==> argon2id_phc(password@, salt@) is Some,
        is_b64_of_16_bytes(salt@) && argon2_password_fits(password@) ==> r is Ok,
        r is Ok ==> r->Ok_0@ == argon2id_phc(password@, salt@)->0,
        r is Ok ==> "$argon2id$"@.is_prefix_of(r->Ok_0@),
{
    match Salt::from_b64(salt) {
        Ok(s) => match Argon2::default().hash_password(password.as_bytes(), s) {
            Ok(h) => Ok(h.to_string()),
            Err(e) => Err(e.to_string()),
        },
        Err(e) => Err(e.to_string()),
    }
}

/// Whether text parses as a PHC string (`PasswordHash::new`). A string that
/// Argon2id wrote parses; one that is empty or does not begin with `$` does
/// not.
#[verifier::external_body]
fn password_hash_parses(hash: &str) -> (r: bool)
    ensures
        r == phc_parses(hash@),
        hash@.len() == 0 || hash@[0] != '$' ==> !r,
        (exists|p: Seq<char>, s: Seq<char>| argon2id_phc(p, s) == Some(hash@)) ==> r,
{
    PasswordHash::new(hash).is_ok()
}

/// Verifies a password against a PHC string
/// (`Argon2::default().verify_password`): `Ok(true)` on a match, `Ok(false)`
/// on a wrong password, and the error's text otherwise. The answer is named
/// `argon2_verdict`; the source shows that a password verifies against a
/// hash that Argon2id made of it, and that against any hash Argon2id made
/// a password that fits is answered with a verdict, never an error.
#[verifier::external_body]
fn argon2_verify(password: &str, hash: &str) -> (r: Result<bool, String>)
    requires
        phc_parses(hash@),
    ensures
        r is Ok <==> argon2_verdict(password@, hash@) is Some,
        r is Ok ==> r->Ok_0 == argon2_verdict(password@, hash@)->0,
        (exists|s: Seq<char>| argon2id_phc(password@, s) == Some(hash@)) ==> (r is Ok
            && r->Ok_0),
        (exists|p: Seq<char>, s: Seq<char>| argon2id_phc(p, s) == Some(hash@))
            && argon2_password_fits(password@) ==> r is Ok,
{
    match PasswordHash::new(hash) {
        Ok(parsed) => match Argon2::default().verify_password(password.as_bytes(), &parsed) {
            Ok(()) => Ok(true),
            Err(argon2::password_hash::Error::Password) => Ok(false),
            Err(e) => Err(e.to_string()),
        },
        Err(e) => Err(e.to_string()),
    }
}

/// The result of hashing: the PHC string, or the hashing error.
pub fn hash_outcome(outcome: Result<String, String>) -> (r: Result<String, PasswordError>)
    ensures
        outcome is Ok ==> r is Ok && r->Ok_0@ == outcome->Ok_0@,
        outcome is Err ==> (r matches Err(PasswordError::HashError(m)) && m@ == outcome->Err_0@),
{
    match outcome {
        Ok(h) => Ok(h),
        Err(m) => Err(PasswordError::HashError(m)),
    }
}

/// The result of verifying: whether the password matched, or the
/// verification error.
pub fn verify_outcome(outcome: Result<bool, String>) -> (r: Result<bool, PasswordError>)
    ensures
        outcome is Ok ==> (r is Ok && r->Ok_0 == outcome->Ok_0),
        outcome is Err ==> (r matches Err(PasswordError::VerifyError(m)) && m@
            == outcome->Err_0@),
{
    match outcome {
        Ok(b) => Ok(b),
        Err(m) => Err(PasswordError::VerifyError(m)),
    }
}

/// Hashes a password with Argon2id and the given B64 salt: the PHC string
/// that Argon2id makes of them, or the hashing error. Hashing succeeds for
/// a salt that is the B64 text of sixteen bytes and a password of at most
/// `0x3FFF_FFFF` characters.
pub fn hash_password_with_salt(password: &str, salt: &str) -> (r: Result<String, PasswordError>)
    ensures
        r is Ok <==> argon2id_phc(password@, salt@) is Some,
        r is Ok ==> r->Ok_0@ == argon2id_phc(password@, salt@)->0,
        r is Ok ==> "$argon2id$"@.is_prefix_of(r->Ok_0@),
        r is Err ==> r->Err_0 is HashError,
        is_b64_of_16_bytes(salt@) && argon2_password_fits(password@) ==> r is Ok,
{
    hash_outcome(argon2id_hash(password, salt))
}

/// Hashes a password with Argon2id and a fresh random salt, giving a PHC
/// string that begins with `$argon2id$` and that the password verifies
/// against. The salt is sixteen random bytes; hashing succeeds for every
/// password of at most `0x3FFF_FFFF` characters (so at most `0xFFFF_FFFF`
/// bytes).
pub fn hash_password(password: &str) -> (r: Result<String, PasswordError>)
    ensures
        argon2_password_fits(password@) ==> r is Ok,
        r is Ok ==> "$argon2id$"@.is_prefix_of(r->Ok_0@),
        r is Ok ==> exists|s: Seq<char>|
            is_b64_of_16_bytes(s) && argon2id_phc(password@, s) == Some(r->Ok_0@),
        r is Err ==> r->Err_0 is HashError,
{
    let salt = fresh_salt();
    let r = hash_password_with_salt(password, salt.as_str());
    proof {
        if r is Ok {
            assert(is_b64_of_16_bytes(salt@) && argon2id_phc(password@, salt@) == Some(r->Ok_0@));
        }
    }
    r
}

/// Verifies a password against a stored PHC string: `InvalidHash` when the
/// string does not parse (among others, any string that does not begin with
/// `$`), else whether the password matches. Against a hash that Argon2id
/// made, a password that fits always gets a verdict.
pub fn verify_password(password: &str, hash: &str) -> (r: Result<bool, PasswordError>)
    ensures
        !phc_parses(hash@) ==> r matches Err(PasswordError::InvalidHash),
        hash@.len() == 0 || hash@[0] != '$' ==> r matches Err(PasswordError::InvalidHash),
        (exists|p: Seq<char>, s: Seq<char>| argon2id_phc(p, s) == Some(hash@))
            && argon2_password_fits(password@) ==> r is Ok,
        phc_parses(hash@) && argon2_verdict(password@, hash@) is Some ==> (r is Ok && r->Ok_0
            == argon2_verdict(password@, hash@)->0),
        phc_parses(hash@) && argon2_verdict(password@, hash@) is None ==> (r is Err
            && r->Err_0 is VerifyError),
        (exists|s: Seq<char>| argon2id_phc(password@, s) == Some(hash@)) ==> (r is Ok
            && r->Ok_0),
{
    if !password_hash_parses(hash) {
        return Err(PasswordError::InvalidHash);
    }
    verify_outcome(argon2_verify(password, hash))
}

} // verus!
