//! Token generation, token fingerprinting, and credential hashing.
//!
//! Random tokens come from the operating system's generator; fingerprints are
//! SHA-256 digests; passwords are hashed with Argon2, a memory-hard, salted
//! algorithm. The calls into those crates stand behind trusted wrappers; the
//! logic built on them is verified against the wrappers' contracts.

use vstd::prelude::*;

use argon2::password_hash::{PasswordHash, SaltString};
use argon2::{Argon2, PasswordHasher, PasswordVerifier};
use rand::distributions::Alphanumeric;
use rand::Rng;
use sha2::{Digest, Sha256};

verus! {

/// Whether `c` is one of the characters a generated token may hold:
/// an ASCII letter or digit.
pub open spec fn is_token_char(c: char) -> bool {
    ('a' <= c && c <= 'z') || ('A' <= c && c <= 'Z') || ('0' <= c && c <= '9')
}

/// A string of exactly `len` characters from the token alphabet.
pub open spec fn valid_token(t: Seq<char>, len: int) -> bool {
    t.len() == len && forall|i: int| 0 <= i < t.len() ==> is_token_char(#[trigger] t[i])
}

/// The SHA-256 digest of a string's characters. Left uninterpreted: the
/// digest is a function of the input alone, and nothing further is assumed
/// of its value.
pub uninterp spec fn sha256_of(s: Seq<char>) -> Seq<u8>;

/// Whether a stored password hash parses as a PHC-format hash string.
/// Names the success of `argon2::password_hash::PasswordHash::new`, which is
/// a function of the string alone.
pub uninterp spec fn phc_parses(hash: Seq<char>) -> bool;

/// Whether `password` matches the PHC hash string `hash`: recomputing the
/// hash with the algorithm, parameters and salt embedded in `hash` yields
/// `hash`'s own output. Names the success of
/// `argon2::PasswordVerifier::verify_password`, which recomputes from its two
/// arguments alone and so is a function of them.
pub uninterp spec fn password_matches(password: Seq<char>, hash: Seq<char>) -> bool;

/// Relies on rand's `Alphanumeric` distribution: every sampled byte is an
/// ASCII letter or digit, so the collected string has exactly `length` such
/// characters.
#[verifier::external_body]
pub(crate) fn rand_string(length: usize) -> (r: String)
    ensures
        r@.len() == length,
        forall|i: int| 0 <= i < r@.len() ==> is_token_char(#[trigger] r@[i]),
{
    rand::thread_rng()
        .sample_iter(&Alphanumeric)
        .take(length)
        .map(char::from)
        .collect::<String>()
}

/// Relies on sha2's `Sha256`: the digest of the input's bytes, 32 bytes long,
/// depending on the input alone.
#[verifier::external_body]
pub(crate) fn sha256(input: &str) -> (r: Vec<u8>)
    ensures
        r@ == sha256_of(input@),
        r@.len() == 32,
{
    let mut hasher = Sha256::new();
    hasher.update(input.as_bytes());
    hasher.finalize().as_slice().into()
}

/// A password hash could not be produced. Catastrophic parameter
/// misconfiguration is the only cause; it is never user-attributable.
#[derive(PartialEq, Eq, Structural, Clone, Copy, Debug)]
pub struct HashError;

/// Relies on argon2's `PasswordHasher::hash_password` with a salt from
/// `SaltString::generate`: on success the returned PHC string embeds the
/// algorithm, parameters, salt and output, so it parses back, and
/// re-verification against the same password recomputes the same output.
/// The salt is random, so nothing relates the results of two calls.
#[verifier::external_body]
pub fn hash_password(password: &str) -> (r: Result<String, HashError>)
    ensures
        match r {
            Ok(h) => phc_parses(h@) && password_matches(password@, h@),
            Err(_) => true,
        },
{
    let salt = SaltString::generate(&mut rand::rngs::OsRng);
    match Argon2::default().hash_password(password.as_bytes(), &salt) {
        Ok(hashed) => Ok(hashed.to_string()),
        Err(_) => Err(HashError),
    }
}

/// The outcome of checking a password against a stored hash.
#[derive(PartialEq, Eq, Structural, Clone, Copy, Debug)]
pub enum VerifyOutcome {
    /// The stored hash parsed and the password matches it.
    Success,
    /// The stored hash parsed but the password does not match it.
    Mismatch,
    /// The stored hash is not a parsable PHC string.
    Malformed,
}

/// Relies on `argon2::password_hash::PasswordHash::new` to parse the stored
/// hash, and on `argon2::PasswordVerifier::verify_password` to recompute the
/// hash with the parsed parameters and compare outputs in constant time.
#[verifier::external_body]
pub fn verify_password(password: &str, hash: &str) -> (r: VerifyOutcome)
    ensures
        r == (if !phc_parses(hash@) {
            VerifyOutcome::Malformed
        } else if password_matches(password@, hash@) {
            VerifyOutcome::Success
        } else {
            VerifyOutcome::Mismatch
        }),
{
    match PasswordHash::new(hash) {
        Ok(parsed) => {
            if Argon2::default().verify_password(password.as_bytes(), &parsed).is_ok() {
                VerifyOutcome::Success
            } else {
                VerifyOutcome::Mismatch
            }
        },
        Err(_) => VerifyOutcome::Malformed,
    }
}

/// The condition under which `verify_password` reports `Success`.
pub open spec fn verify_succeeds(password: Seq<char>, hash: Seq<char>) -> bool {
    phc_parses(hash) && password_matches(password, hash)
}

/// Any hash that `hash_password` produced for a password verifies as that
/// password, and so does any other hash produced for the same password in a
/// separate call: verification reads the salt out of the hash string
/// itself, so the two hashes need not be equal for both to verify.
pub proof fn lemma_fresh_hash_verifies(password: Seq<char>, h1: Seq<char>, h2: Seq<char>)
    requires
        phc_parses(h1) && password_matches(password, h1),
        phc_parses(h2) && password_matches(password, h2),
    ensures
        verify_succeeds(password, h1),
        verify_succeeds(password, h2),
{
}

/// Whether two strings are equal.
pub fn str_equal(a: &str, b: &str) -> (r: bool)
    ensures
        r == (a@ == b@),
{
    a.to_owned() == b.to_owned()
}

/// `c` with an ASCII capital letter mapped to its lower-case form; any other
/// character is left as it is.
pub open spec fn ascii_lower_char(c: char) -> char {
    if 'A' <= c && c <= 'Z' {
        ((c as u8) + 32) as char
    } else {
        c
    }
}

/// A string's characters with ASCII capitals lowered.
pub open spec fn ascii_lower(s: Seq<char>) -> Seq<char> {
    s.map_values(|c: char| ascii_lower_char(c))
}

/// Whether two strings are equal up to ASCII case, the equality the user
/// store applies to usernames.
pub open spec fn eq_ignore_case(a: Seq<char>, b: Seq<char>) -> bool {
    ascii_lower(a) == ascii_lower(b)
}

/// Compares two strings case-insensitively over ASCII letters.
pub fn str_eq_ignore_ascii_case(a: &str, b: &str) -> (r: bool)
    ensures
        r == eq_ignore_case(a@, b@),
{
    let a_len = a.unicode_len();
    let b_len = b.unicode_len();
    if a_len != b_len {
        assert(ascii_lower(a@).len() != ascii_lower(b@).len());
        return false;
    }
    let mut i: usize = 0;
    while i < a_len
        invariant
            a_len == a@.len(),
            b_len == b@.len(),
            a_len == b_len,
            i <= a_len,
            forall|j: int| 0 <= j < i ==> ascii_lower_char(#[trigger] a@[j]) == ascii_lower_char(
                b@[j],
            ),
        decreases a_len - i,
    {
        let ca = lower_char(a.get_char(i));
        let cb = lower_char(b.get_char(i));
        if ca != cb {
            assert(ascii_lower(a@)[i as int] != ascii_lower(b@)[i as int]);
            return false;
        }
        i += 1;
    }
    assert(ascii_lower(a@) =~= ascii_lower(b@));
    true
}

/// Lowers one ASCII capital letter; other characters pass through.
fn lower_char(c: char) -> (r: char)
    ensures
        r == ascii_lower_char(c),
{
    if 'A' <= c && c <= 'Z' {
        ((c as u8) + 32) as char
    } else {
        c
    }
}

} // verus!
