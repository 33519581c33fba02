//! The hash primitives, as `ring` provides them.
//!
//! This module is the whole of what the library takes on trust from `ring`.
//! What a primitive computes has a name and no definition: `sha256_bytes`,
//! `hmac_sha256`, `pbkdf2_hmac_sha512`. Each function below makes one call
//! into `ring`, and its contract says which name the result is, on which
//! inputs `ring` would panic, and when it reports a failure. Nothing else in
//! the library calls `ring`.

use vstd::prelude::*;

verus! {

/// The most bytes that a SHA-2 computation of `ring` takes in: the length in
/// bits must fit in 64 bits.
pub const MAX_HASH_INPUT: u64 = 0x1fff_ffff_ffff_ffff;

/// The length of a SHA-256 digest and of an HMAC-SHA-256 tag, in bytes.
pub const SHA256_OUTPUT_LEN: usize = 32;

/// The bytes that an HMAC-SHA-256 computation spends on its padded key
/// before the message: one block.
pub const SHA256_BLOCK_LEN: u64 = 64;

/// The longest key that PBKDF2 over HMAC-SHA-512 derives: one 64-byte block
/// for each value of a 32-bit block index but zero.
pub const MAX_DERIVED_LEN: u64 = 274_877_906_880;

/// The bytes that the first HMAC-SHA-512 of each PBKDF2 block spends beside
/// the salt: the 128-byte padded key and the 4-byte block index.
pub const SALT_OVERHEAD: u64 = 132;

/// `ring::digest::Context`: a digest computation that is fed in steps.
/// Nothing is known of a value of it but what `absorbed` names.
#[verifier::external_type_specification]
#[verifier::external_body]
pub struct ExRingDigestContext(ring::digest::Context);

/// `ring::error::Unspecified`: the error without details that `ring` gives
/// for every failure. Nothing is known of a value of it.
#[verifier::external_type_specification]
#[verifier::external_body]
pub struct ExRingUnspecified(ring::error::Unspecified);

/// The bytes that a digest context has taken in since it was made, in order.
pub uninterp spec fn absorbed(cx: ring::digest::Context) -> Seq<u8>;

/// The SHA-256 digest of a byte string.
pub uninterp spec fn sha256_bytes(data: Seq<u8>) -> Seq<u8>;

/// The HMAC-SHA-256 tag of a message under a key.
pub uninterp spec fn hmac_sha256(key: Seq<u8>, message: Seq<u8>) -> Seq<u8>;

/// The first `len` bytes of the PBKDF2 output for HMAC-SHA-512.
pub uninterp spec fn pbkdf2_hmac_sha512(
    password: Seq<u8>,
    salt: Seq<u8>,
    iterations: u32,
    len: nat,
) -> Seq<u8>;

/// The messages that can be signed: after the key's block, the message still
/// fits the hash.
pub open spec fn signable(message: Seq<u8>) -> bool {
    message.len() + SHA256_BLOCK_LEN <= MAX_HASH_INPUT
}

/// Whether `candidate` is the tag of the message under the key. A message
/// too long to be signed has no tag.
pub open spec fn tag_matches(key: Seq<u8>, message: Seq<u8>, candidate: Seq<u8>) -> bool {
    signable(message) && candidate == hmac_sha256(key, message)
}

/// The lengths on which a key can be derived: the password and the salt fit
/// the hash, and the output is no longer than PBKDF2 allows.
pub open spec fn derivable(password: Seq<u8>, salt: Seq<u8>, len: nat) -> bool {
    &&& password.len() <= MAX_HASH_INPUT
    &&& salt.len() + SALT_OVERHEAD <= MAX_HASH_INPUT
    &&& len <= MAX_DERIVED_LEN
}

/// Whether `expected` is what the password derives to. An empty key matches
/// no password.
pub open spec fn key_matches(
    password: Seq<u8>,
    salt: Seq<u8>,
    iterations: u32,
    expected: Seq<u8>,
) -> bool {
    &&& expected.len() > 0
    &&& derivable(password, salt, expected.len())
    &&& expected == pbkdf2_hmac_sha512(password, salt, iterations, expected.len())
}

/// `ring::digest::Context::new` for SHA-256: the new context has taken in
/// nothing.
#[verifier::external_body]
pub(crate) fn context_new() -> (cx: ring::digest::Context)
    ensures
        absorbed(cx) == Seq::<u8>::empty(),
{
    ring::digest::Context::new(&ring::digest::SHA256)
}

/// `ring::digest::Context::update`: the context takes in `data` after what
/// it already holds.
#[verifier::external_body]
pub(crate) fn context_update(cx: &mut ring::digest::Context, data: &[u8])
    ensures
        absorbed(*final(cx)) == absorbed(*old(cx)) + data@,
{
    cx.update(data)
}

/// `ring::digest::Context::finish`: the 32 bytes of the SHA-256 digest of
/// everything the context has taken in. The outside function panics when
/// that is more than `MAX_HASH_INPUT` bytes.
#[verifier::external_body]
pub(crate) fn context_finish(cx: ring::digest::Context) -> (out: [u8; 32])
    requires
        absorbed(cx).len() <= MAX_HASH_INPUT,
    ensures
        out@ == sha256_bytes(absorbed(cx)),
{
    let mut out = [0u8; 32];
    out.copy_from_slice(cx.finish().as_ref());
    out
}

/// `ring::rand::generate` on `ring::rand::SystemRandom`: `N` bytes from the
/// system's random source, or the outside error when the source gives none.
/// What the bytes are is not stated; two calls may differ.
#[verifier::external_body]
pub(crate) fn system_random<const N: usize>() -> (r: Result<[u8; N], ring::error::Unspecified>) {
    let rng = ring::rand::SystemRandom::new();
    match ring::rand::generate::<[u8; N]>(&rng) {
        Ok(random) => Ok(random.expose()),
        Err(e) => Err(e),
    }
}

/// `ring::hmac::sign` under `ring::hmac::Key::new` with `HMAC_SHA256`: the
/// 32 bytes of the tag. The outside functions panic on a key or a message
/// too long for the hash.
#[verifier::external_body]
pub(crate) fn hmac_sign(key: &[u8], message: &[u8]) -> (tag: [u8; 32])
    requires
        key@.len() <= MAX_HASH_INPUT,
        signable(message@),
    ensures
        tag@ == hmac_sha256(key@, message@),
{
    let key = ring::hmac::Key::new(ring::hmac::HMAC_SHA256, key);
    let mut tag = [0u8; 32];
    tag.copy_from_slice(ring::hmac::sign(&key, message).as_ref());
    tag
}

/// `ring::hmac::verify` under `ring::hmac::Key::new` with `HMAC_SHA256`: it
/// computes the tag of the message and compares it with `candidate` in
/// constant time. It succeeds exactly when the message is one that can be
/// signed and `candidate` is its tag. `Key::new` panics on a key too long
/// for the hash.
#[verifier::external_body]
pub(crate) fn hmac_verify(key: &[u8], message: &[u8], candidate: &[u8]) -> (r: Result<
    (),
    ring::error::Unspecified,
>)
    requires
        key@.len() <= MAX_HASH_INPUT,
    ensures
        r is Ok <==> tag_matches(key@, message@, candidate@),
{
    let key = ring::hmac::Key::new(ring::hmac::HMAC_SHA256, key);
    ring::hmac::verify(&key, message, candidate)
}

/// `ring::pbkdf2::derive` with `PBKDF2_HMAC_SHA512`, into a fresh buffer of
/// `len` bytes: the derived key. The outside function panics on more output
/// than `MAX_DERIVED_LEN`, and on a password or a salt too long for the
/// hash; the iteration count it takes is non-zero.
#[verifier::external_body]
pub(crate) fn pbkdf2_derive(iterations: u32, salt: &[u8], password: &[u8], len: usize) -> (out:
    Vec<u8>)
    requires
        iterations > 0,
        derivable(password@, salt@, len as nat),
    ensures
        out@.len() == len,
        out@ == pbkdf2_hmac_sha512(password@, salt@, iterations, len as nat),
{
    let mut out = vec![0u8; len];
    let rounds = std::num::NonZeroU32::new(iterations).unwrap();
    ring::pbkdf2::derive(ring::pbkdf2::PBKDF2_HMAC_SHA512, rounds, salt, password, &mut out);
    out
}

/// `ring::pbkdf2::verify` with `PBKDF2_HMAC_SHA512`: it derives as many
/// bytes as `expected` has and compares them with it in constant time. It
/// succeeds exactly when `expected` is not empty, the lengths are ones that
/// `derive` takes, and the bytes agree. The iteration count it takes is
/// non-zero.
#[verifier::external_body]
pub(crate) fn pbkdf2_verify(
    iterations: u32,
    salt: &[u8],
    password: &[u8],
    expected: &[u8],
) -> (r: Result<(), ring::error::Unspecified>)
    requires
        iterations > 0,
    ensures
        r is Ok <==> key_matches(password@, salt@, iterations, expected@),
{
    let rounds = std::num::NonZeroU32::new(iterations).unwrap();
    ring::pbkdf2::verify(ring::pbkdf2::PBKDF2_HMAC_SHA512, rounds, salt, password, expected)
}

} // verus!
