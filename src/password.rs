//! Password credentials: PBKDF2-HMAC-SHA256 hashes with a random salt,
//! stored as lowercase hexadecimal text.

use vstd::prelude::*;
use ring::rand::SecureRandom;
use crate::error::{AppError, Failure};

verus! {

/// hex::FromHexError, the error of hex::decode; only carried and mapped.
#[verifier::external_type_specification]
#[verifier::external_body]
pub struct ExFromHexError(hex::FromHexError);

/// ring::error::Unspecified, the error of ring's random source; only carried
/// and mapped.
#[verifier::external_type_specification]
#[verifier::external_body]
pub struct ExUnspecified(ring::error::Unspecified);

/// Iterations of the key derivation for every password.
pub const PBKDF2_ITERATIONS: u32 = 100000;

/// Bytes of random salt per password.
pub const SALT_LEN: usize = 16;

/// Bytes of derived key stored per password.
pub const HASH_LEN: usize = 32;

/// Salts and passwords handed to the key derivation are shorter than this
/// (1 GiB); the digest's own input limit lies far above it.
pub const MAX_KDF_INPUT: usize = 0x4000_0000;

/// The UTF-8 bytes of a text.
pub open spec fn utf8_of(s: Seq<char>) -> Seq<u8> {
    vstd::utf8::encode_utf8(s)
}

/// The lowercase hexadecimal digit for `d` (0 to 15).
pub open spec fn hex_digit(d: int) -> char {
    if d < 10 {
        (d + 48) as char
    } else {
        (d + 87) as char
    }
}

/// Value of a hexadecimal digit of either case; -1 for any other character.
pub open spec fn hex_value(c: char) -> int {
    if '0' <= c && c <= '9' {
        c as int - 48
    } else if 'a' <= c && c <= 'f' {
        c as int - 87
    } else if 'A' <= c && c <= 'F' {
        c as int - 55
    } else {
        -1
    }
}

/// Two lowercase hexadecimal digits per byte, high nibble first.
pub open spec fn hex_text(b: Seq<u8>) -> Seq<char> {
    Seq::new(
        2 * b.len(),
        |i: int|
            if i % 2 == 0 {
                hex_digit(b[i / 2] as int / 16)
            } else {
                hex_digit(b[i / 2] as int % 16)
            },
    )
}

/// The bytes a hexadecimal text stands for: none unless it has an even
/// number of characters, all of them hexadecimal digits.
pub open spec fn hex_bytes(t: Seq<char>) -> Option<Seq<u8>> {
    if t.len() % 2 == 0 && forall|i: int| 0 <= i < t.len() ==> hex_value(#[trigger] t[i]) >= 0 {
        Some(Seq::new((t.len() / 2) as nat, |i: int| (16 * hex_value(t[2 * i]) + hex_value(t[2 * i + 1])) as u8))
    } else {
        None
    }
}

/// The PBKDF2-HMAC-SHA256 key of `len` bytes derived from `secret` and
/// `salt` in `iterations` rounds.
pub uninterp spec fn pbkdf2_sha256(iterations: nat, salt: Seq<u8>, secret: Seq<u8>, len: nat) -> Seq<u8>;

/// Relies on hex::encode: two lowercase digits per byte, high nibble first.
#[verifier::external_body]
fn hex_encode(bytes: &[u8]) -> (r: String)
    ensures
        r@ == hex_text(bytes@),
{
    hex::encode(bytes)
}

/// Relies on hex::decode: it accepts exactly the texts of an even number of
/// hexadecimal digits (either case) and returns one byte per pair.
#[verifier::external_body]
fn hex_decode(text: &str) -> (r: Result<Vec<u8>, hex::FromHexError>)
    ensures
        match r {
            Ok(v) => hex_bytes(text@) == Some(v@),
            Err(_) => hex_bytes(text@) is None,
        },
{
    hex::decode(text)
}

/// Relies on ring::pbkdf2::derive with PBKDF2_HMAC_SHA256. ring panics
/// only for outputs over 2^32 blocks or inputs past the digest's limit,
/// which `requires` leaves out.
#[verifier::external_body]
fn pbkdf2_derive(iterations: u32, salt: &[u8], secret: &[u8], len: usize) -> (r: Vec<u8>)
    requires
        iterations > 0,
        salt@.len() < MAX_KDF_INPUT,
        secret@.len() < MAX_KDF_INPUT,
        len <= u32::MAX,
    ensures
        r@ == pbkdf2_sha256(iterations as nat, salt@, secret@, len as nat),
        r@.len() == len,
{
    let mut out = vec![0u8; len];
    ring::pbkdf2::derive(
        ring::pbkdf2::PBKDF2_HMAC_SHA256,
        std::num::NonZeroU32::new(iterations).unwrap(),
        salt,
        secret,
        &mut out,
    );
    out
}

/// Relies on ring::pbkdf2::verify with PBKDF2_HMAC_SHA256, which succeeds
/// exactly when `previously_derived` is not empty and equals the key that
/// `derive` gives for its length.
#[verifier::external_body]
fn pbkdf2_verify(iterations: u32, salt: &[u8], secret: &[u8], previously_derived: &[u8]) -> (r: bool)
    requires
        iterations > 0,
    ensures
        salt@.len() < MAX_KDF_INPUT && secret@.len() < MAX_KDF_INPUT && previously_derived@.len()
            <= u32::MAX ==> r == (previously_derived@.len() > 0 && pbkdf2_sha256(
            iterations as nat,
            salt@,
            secret@,
            previously_derived@.len(),
        ) == previously_derived@),
{
    ring::pbkdf2::verify(
        ring::pbkdf2::PBKDF2_HMAC_SHA256,
        std::num::NonZeroU32::new(iterations).unwrap(),
        salt,
        secret,
        previously_derived,
    ).is_ok()
}

/// Relies on ring::rand::SystemRandom::fill for `len` random bytes; it may
/// fail when the operating system's source does.
#[verifier::external_body]
pub(crate) fn random_bytes(len: usize) -> (r: Result<Vec<u8>, ring::error::Unspecified>)
    ensures
        r matches Ok(v) ==> v@.len() == len,
{
    let mut out = vec![0u8; len];
    match ring::rand::SystemRandom::new().fill(&mut out) {
        Ok(()) => Ok(out),
        Err(e) => Err(e),
    }
}

/// Result of checking `password` against a stored salt and hash.
pub open spec fn credential_check(salt: Seq<char>, hashed_password: Seq<char>, password: Seq<char>) -> Result<
    bool,
    AppError,
> {
    match (hex_bytes(salt), hex_bytes(hashed_password)) {
        (Some(s), Some(h)) => if s.len() >= MAX_KDF_INPUT || utf8_of(password).len() >= MAX_KDF_INPUT {
            Err(AppError { inner: Failure::PasswordTooLong })
        } else {
            Ok(
                0 < h.len() <= u32::MAX && pbkdf2_sha256(
                    PBKDF2_ITERATIONS as nat,
                    s,
                    utf8_of(password),
                    h.len(),
                ) == h,
            )
        },
        _ => Err(AppError { inner: Failure::MalformedCredential }),
    }
}

/// `salt` and `hashed_password` are a credential for `password`: the
/// hexadecimal text of a salt of SALT_LEN bytes and of the key derived from
/// the password with it.
pub open spec fn is_credential_for(salt: Seq<char>, hashed_password: Seq<char>, password: Seq<char>) -> bool {
    exists|s: Seq<u8>, k: Seq<u8>|
        s.len() == SALT_LEN && k.len() == HASH_LEN && k == pbkdf2_sha256(
            PBKDF2_ITERATIONS as nat,
            s,
            utf8_of(password),
            HASH_LEN as nat,
        ) && #[trigger] hex_text(s) == salt && #[trigger] hex_text(k) == hashed_password
}

/// Derives a credential for `password`: returns (salt, hashed password),
/// both in hexadecimal.
pub fn derive(password: String) -> (r: Result<(String, String), AppError>)
    ensures
        utf8_of(password@).len() >= MAX_KDF_INPUT ==> r == Err::<(String, String), AppError>(
            AppError { inner: Failure::PasswordTooLong },
        ),
        utf8_of(password@).len() < MAX_KDF_INPUT ==> match r {
            Ok((salt, hashed_password)) => is_credential_for(salt@, hashed_password@, password@),
            Err(e) => e.inner == Failure::RandomSource,
        },
{
    let secret = password.as_str().as_bytes();
    if secret.len() >= MAX_KDF_INPUT {
        return Err(AppError::new(Failure::PasswordTooLong));
    }
    let salt = match random_bytes(SALT_LEN) {
        Ok(s) => s,
        Err(_) => {
            return Err(AppError::new(Failure::RandomSource));
        },
    };
    let hashed = pbkdf2_derive(PBKDF2_ITERATIONS, salt.as_slice(), secret, HASH_LEN);
    let salt_text = hex_encode(salt.as_slice());
    let hashed_text = hex_encode(hashed.as_slice());
    assert(hex_text(salt@) == salt_text@ && hex_text(hashed@) == hashed_text@);
    Ok((salt_text, hashed_text))
}

/// Checks `password` against a stored salt and hash (both hexadecimal).
pub fn verify_with_salt(salt: String, hashed_password: String, password: String) -> (r: Result<bool, AppError>)
    ensures
        r == credential_check(salt@, hashed_password@, password@),
{
    let salt = match hex_decode(salt.as_str()) {
        Ok(s) => s,
        Err(_) => {
            return Err(AppError::new(Failure::MalformedCredential));
        },
    };
    let hashed = match hex_decode(hashed_password.as_str()) {
        Ok(h) => h,
        Err(_) => {
            return Err(AppError::new(Failure::MalformedCredential));
        },
    };
    let secret = password.as_str().as_bytes();
    if salt.len() >= MAX_KDF_INPUT || secret.len() >= MAX_KDF_INPUT {
        return Err(AppError::new(Failure::PasswordTooLong));
    }
    if hashed.len() > u32::MAX as usize {
        return Ok(false);
    }
    Ok(pbkdf2_verify(PBKDF2_ITERATIONS, salt.as_slice(), secret, hashed.as_slice()))
}

/// Decoding the hexadecimal text of bytes gives the bytes back.
pub proof fn lemma_hex_round_trip(b: Seq<u8>)
    ensures
        hex_bytes(hex_text(b)) == Some(b),
{
    let t = hex_text(b);
    assert forall|i: int| 0 <= i < t.len() implies hex_value(#[trigger] t[i]) >= 0 by {
        let x = b[i / 2] as int;
        assert(0 <= x / 16 < 16 && 0 <= x % 16 < 16) by (nonlinear_arith)
            requires 0 <= x < 256;
    }
    let d = Seq::new((t.len() / 2) as nat, |i: int| (16 * hex_value(t[2 * i]) + hex_value(t[2 * i + 1])) as u8);
    assert forall|i: int| 0 <= i < b.len() implies #[trigger] d[i] == b[i] by {
        let x = b[i] as int;
        assert((2 * i) / 2 == i && (2 * i + 1) / 2 == i && (2 * i) % 2 == 0 && (2 * i + 1) % 2 == 1);
        assert(0 <= x / 16 < 16 && 0 <= x % 16 < 16 && 16 * (x / 16) + x % 16 == x) by (nonlinear_arith)
            requires 0 <= x < 256;
    }
    assert(d =~= b);
}

/// A credential derived for a password verifies for that password.
pub proof fn lemma_derived_credential_verifies(salt: Seq<char>, hashed_password: Seq<char>, password: Seq<char>)
    requires
        is_credential_for(salt, hashed_password, password),
        utf8_of(password).len() < MAX_KDF_INPUT,
    ensures
        credential_check(salt, hashed_password, password) == Ok::<bool, AppError>(true),
{
    let (s, k) = choose|s: Seq<u8>, k: Seq<u8>|
        s.len() == SALT_LEN && k.len() == HASH_LEN && k == pbkdf2_sha256(
            PBKDF2_ITERATIONS as nat,
            s,
            utf8_of(password),
            HASH_LEN as nat,
        ) && #[trigger] hex_text(s) == salt && #[trigger] hex_text(k) == hashed_password;
    lemma_hex_round_trip(s);
    lemma_hex_round_trip(k);
}

} // verus!
