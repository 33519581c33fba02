//! Keys derived from passwords with PBKDF2 over HMAC-SHA-512, and the record
//! that keeps a derived key together with the salt and the iteration count
//! it was made with.

use vstd::prelude::*;
use vstd::slice::slice_to_vec;
use crate::error::Error;
use crate::primitives::{
    derivable, key_matches, pbkdf2_derive, pbkdf2_hmac_sha512, pbkdf2_verify, MAX_HASH_INPUT,
};
use crate::random::random_bytes;

verus! {

/// The iteration count that `pbkdf2` derives with.
pub const DEFAULT_ITERATIONS: u32 = 100_000;

/// The length of the salt that `pbkdf2` draws, in bytes.
pub const SALT_LEN: usize = 64;

/// The length of the key that `pbkdf2` derives, in bytes.
pub const DERIVED_KEY_LEN: usize = 64;

/// The name under which stored records identify the derivation.
pub const ALGORITHM_ID: &'static str = "PBKDF2-HMAC-SHA512";

/// `key` is the key of `len` bytes derived from the password, the salt and
/// the iteration count.
pub open spec fn is_derived_key(
    password: Seq<u8>,
    salt: Seq<u8>,
    iterations: u32,
    len: nat,
    key: Seq<u8>,
) -> bool {
    key.len() == len && key == pbkdf2_hmac_sha512(password, salt, iterations, len)
}

/// What `verify_password` returns.
pub open spec fn verify_password_spec(
    password: Seq<u8>,
    salt: Seq<u8>,
    iterations: u32,
    expected: Seq<u8>,
) -> Result<bool, Error> {
    if iterations == 0 {
        Err(Error::InvalidIterationCount)
    } else {
        Ok(key_matches(password, salt, iterations, expected))
    }
}

/// Derives a key of `output_length` bytes from a password and a salt.
///
/// A zero iteration count is rejected with `InvalidIterationCount`; every
/// other count gives the key.
pub fn derive(password: &[u8], salt: &[u8], iteration_count: u32, output_length: usize) -> (r:
    Result<Vec<u8>, Error>)
    requires
        derivable(password@, salt@, output_length as nat),
    ensures
        r is Err <==> iteration_count == 0,
        r matches Err(e) ==> e == Error::InvalidIterationCount,
        r matches Ok(key) ==> is_derived_key(
            password@,
            salt@,
            iteration_count,
            output_length as nat,
            key@,
        ),
{
    if iteration_count == 0 {
        Err(Error::InvalidIterationCount)
    } else {
        Ok(pbkdf2_derive(iteration_count, salt, password, output_length))
    }
}

/// Checks a password against a key that was derived earlier, comparing in
/// constant time.
///
/// A mismatch is `Ok(false)`, never an error; only a zero iteration count is
/// rejected, with `InvalidIterationCount`.
pub fn verify_password(
    password: &[u8],
    salt: &[u8],
    iteration_count: u32,
    expected_key: &[u8],
) -> (r: Result<bool, Error>)
    ensures
        r == verify_password_spec(password@, salt@, iteration_count, expected_key@),
{
    if iteration_count == 0 {
        Err(Error::InvalidIterationCount)
    } else {
        match pbkdf2_verify(iteration_count, salt, password, expected_key) {
            Ok(_) => Ok(true),
            Err(_) => Ok(false),
        }
    }
}

/// What is stored for one password: the derived key with the salt and the
/// iteration count it was made with. A record read back from storage may
/// lack the salt or the count; such a record verifies no password.
pub struct PasswordRecord {
    /// The salt, drawn afresh for this password.
    pub salt: Option<Vec<u8>>,
    /// The iteration count the key was derived with.
    pub iteration_count: Option<u32>,
    /// The derived key.
    pub derived_key: Vec<u8>,
}

impl PasswordRecord {
    /// The name of the derivation, to be stored beside the record.
    pub fn algorithm_id(&self) -> (id: &'static str)
        ensures
            id@ == ALGORITHM_ID@,
    {
        ALGORITHM_ID
    }
}

/// What `verify_record` returns: a record without its salt or its count is
/// rejected before anything is derived; a complete one is verified as
/// `verify_password` verifies its parts.
pub open spec fn verify_record_spec(password: Seq<u8>, record: PasswordRecord) -> Result<
    bool,
    Error,
> {
    match (record.salt, record.iteration_count) {
        (Some(salt), Some(count)) => verify_password_spec(
            password,
            salt@,
            count,
            record.derived_key@,
        ),
        _ => Err(Error::MissingParameters),
    }
}

/// Checks a password against a stored record.
///
/// Fails with `MissingParameters` when the record lacks its salt or its
/// iteration count, with `InvalidIterationCount` when the count is zero; no
/// default stands in for either.
pub fn verify_record(password: &[u8], record: &PasswordRecord) -> (r: Result<bool, Error>)
    ensures
        r == verify_record_spec(password@, *record),
{
    match (&record.salt, &record.iteration_count) {
        (Some(salt), Some(count)) => verify_password(
            password,
            salt.as_slice(),
            *count,
            record.derived_key.as_slice(),
        ),
        _ => Err(Error::MissingParameters),
    }
}

/// Derives a key and keeps it with what it was derived from.
///
/// A zero iteration count is rejected with `InvalidIterationCount`; every
/// other count gives a complete record.
pub fn derive_record(
    password: &[u8],
    salt: Vec<u8>,
    iteration_count: u32,
    output_length: usize,
) -> (r: Result<PasswordRecord, Error>)
    requires
        derivable(password@, salt@, output_length as nat),
    ensures
        r is Err <==> iteration_count == 0,
        r matches Err(e) ==> e == Error::InvalidIterationCount,
        r matches Ok(record) ==> {
            &&& record.salt == Some(salt)
            &&& record.iteration_count == Some(iteration_count)
            &&& is_derived_key(
                password@,
                salt@,
                iteration_count,
                output_length as nat,
                record.derived_key@,
            )
        },
{
    match derive(password, salt.as_slice(), iteration_count, output_length) {
        Ok(derived_key) => Ok(
            PasswordRecord { salt: Some(salt), iteration_count: Some(iteration_count), derived_key },
        ),
        Err(e) => Err(e),
    }
}

/// Draws a fresh salt of `SALT_LEN` bytes, to be used for one password and
/// stored with its key.
///
/// The only failure is `RandomnessUnavailable`.
pub fn generate_salt() -> (r: Result<Vec<u8>, Error>)
    ensures
        r matches Err(e) ==> e == Error::RandomnessUnavailable,
        r matches Ok(salt) ==> salt@.len() == SALT_LEN,
{
    match random_bytes::<64>() {
        Ok(bytes) => Ok(slice_to_vec(bytes.as_slice())),
        Err(e) => Err(e),
    }
}

/// Derives a key of `DERIVED_KEY_LEN` bytes from a password, with a fresh
/// random salt of `SALT_LEN` bytes and `DEFAULT_ITERATIONS` iterations.
///
/// The only failure is `RandomnessUnavailable`, when the system gives no
/// salt. The record that comes back is complete, and the password verifies
/// against it.
pub fn pbkdf2(password: &[u8]) -> (r: Result<PasswordRecord, Error>)
    requires
        password@.len() <= MAX_HASH_INPUT,
    ensures
        r matches Err(e) ==> e == Error::RandomnessUnavailable,
        r matches Ok(record) ==> {
            &&& record.iteration_count == Some(DEFAULT_ITERATIONS)
            &&& record.salt matches Some(salt)
            &&& salt@.len() == SALT_LEN
            &&& is_derived_key(
                password@,
                salt@,
                DEFAULT_ITERATIONS,
                DERIVED_KEY_LEN as nat,
                record.derived_key@,
            )
            &&& verify_record_spec(password@, record) == Ok::<bool, Error>(true)
        },
{
    match generate_salt() {
        Err(e) => Err(e),
        Ok(salt) => derive_record(password, salt, DEFAULT_ITERATIONS, DERIVED_KEY_LEN),
    }
}

/// A key derived from a password verifies against that password, under the
/// same salt and iteration count, when it is not empty.
pub proof fn law_derived_key_verifies(
    password: Seq<u8>,
    salt: Seq<u8>,
    iterations: u32,
    len: nat,
    key: Seq<u8>,
)
    requires
        iterations != 0,
        len > 0,
        derivable(password, salt, len),
        is_derived_key(password, salt, iterations, len, key),
    ensures
        verify_password_spec(password, salt, iterations, key) == Ok::<bool, Error>(true),
{
}

/// Another password verifies against a derived key exactly when it derives
/// the same key.
pub proof fn law_other_password_verifies_iff_same_key(
    password: Seq<u8>,
    other: Seq<u8>,
    salt: Seq<u8>,
    iterations: u32,
    len: nat,
    key: Seq<u8>,
)
    requires
        iterations != 0,
        len > 0,
        derivable(password, salt, len),
        derivable(other, salt, len),
        is_derived_key(password, salt, iterations, len, key),
    ensures
        verify_password_spec(other, salt, iterations, key) == Ok::<bool, Error>(
            pbkdf2_hmac_sha512(other, salt, iterations, len) == pbkdf2_hmac_sha512(
                password,
                salt,
                iterations,
                len,
            ),
        ),
{
}

/// A complete record made by `derive_record` verifies the password it was
/// derived from.
pub proof fn law_record_verifies(password: Seq<u8>, record: PasswordRecord, len: nat)
    requires
        len > 0,
        record.salt matches Some(salt) && record.iteration_count matches Some(count) && count != 0
            && derivable(password, salt@, len) && is_derived_key(
            password,
            salt@,
            count,
            len,
            record.derived_key@,
        ),
    ensures
        verify_record_spec(password, record) == Ok::<bool, Error>(true),
{
}

} // verus!
