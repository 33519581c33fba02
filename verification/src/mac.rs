//! Message authentication with HMAC-SHA-256 under a 32-byte secret key.

use vstd::prelude::*;
use crate::error::Error;
use crate::primitives::{
    hmac_sha256, hmac_sign, hmac_verify, signable, tag_matches, SHA256_OUTPUT_LEN,
};
use crate::random::random_bytes;

verus! {

/// What `verify` returns: a candidate of another length than a tag's is
/// malformed; one of the right length is accepted exactly when it is the tag
/// of the message under the key.
pub open spec fn verify_spec(key: Seq<u8>, message: Seq<u8>, candidate: Seq<u8>) -> Result<
    bool,
    Error,
> {
    if candidate.len() != SHA256_OUTPUT_LEN {
        Err(Error::MalformedTag)
    } else {
        Ok(tag_matches(key, message, candidate))
    }
}

/// A secret key for signing and verifying: 32 bytes.
///
/// The type has no `Debug`: a key does not reach a log by way of `{:?}`.
pub struct AuthKey {
    bytes: [u8; 32],
}

impl View for AuthKey {
    type V = Seq<u8>;

    closed spec fn view(&self) -> Seq<u8> {
        self.bytes@
    }
}

impl AuthKey {
    /// The key with the given bytes.
    pub fn from_bytes(bytes: [u8; 32]) -> (key: AuthKey)
        ensures
            key@ == bytes@,
    {
        AuthKey { bytes }
    }

    /// The key's bytes, for the caller to keep safe.
    pub fn expose(&self) -> (bytes: &[u8; 32])
        ensures
            bytes@ == self@,
    {
        &self.bytes
    }
}

/// The tag of a message under a key: 32 bytes.
///
/// The type has no `==`: a candidate is compared with a tag by `verify`, in
/// constant time.
#[derive(Clone, Copy)]
pub struct Tag {
    bytes: [u8; 32],
}

impl View for Tag {
    type V = Seq<u8>;

    closed spec fn view(&self) -> Seq<u8> {
        self.bytes@
    }
}

impl Tag {
    /// The tag's bytes.
    pub fn as_bytes(&self) -> (bytes: &[u8])
        ensures
            bytes@ == self@,
            bytes@.len() == SHA256_OUTPUT_LEN,
    {
        self.bytes.as_slice()
    }
}

/// Draws a fresh key from the system's random source.
///
/// The only failure is `RandomnessUnavailable`.
pub fn generate_key() -> (r: Result<AuthKey, Error>)
    ensures
        r matches Err(e) ==> e == Error::RandomnessUnavailable,
{
    match random_bytes::<32>() {
        Ok(bytes) => Ok(AuthKey { bytes }),
        Err(e) => Err(e),
    }
}

/// The tag of `message` under `key`: a function of the two alone.
pub fn sign(key: &AuthKey, message: &[u8]) -> (tag: Tag)
    requires
        signable(message@),
    ensures
        tag@ == hmac_sha256(key@, message@),
{
    Tag { bytes: hmac_sign(key.bytes.as_slice(), message) }
}

/// Recomputes the tag of `message` under `key` and compares it with
/// `candidate` in constant time.
///
/// A mismatch is `Ok(false)`, never an error; only a candidate that has not
/// the length of a tag is rejected, with `MalformedTag`.
pub fn verify(key: &AuthKey, message: &[u8], candidate: &[u8]) -> (r: Result<bool, Error>)
    ensures
        r == verify_spec(key@, message@, candidate@),
{
    if candidate.len() != SHA256_OUTPUT_LEN {
        Err(Error::MalformedTag)
    } else {
        match hmac_verify(key.bytes.as_slice(), message, candidate) {
            Ok(_) => Ok(true),
            Err(_) => Ok(false),
        }
    }
}

/// Signs `data` under a key drawn for this one call.
///
/// The only failure is `RandomnessUnavailable`. The tag that comes back is
/// the tag of `data` under some 32-byte key.
pub fn hmac(data: &[u8]) -> (r: Result<Tag, Error>)
    requires
        signable(data@),
    ensures
        r matches Err(e) ==> e == Error::RandomnessUnavailable,
        r matches Ok(tag) ==> exists|key: Seq<u8>|
            key.len() == SHA256_OUTPUT_LEN && tag@ == #[trigger] hmac_sha256(key, data@),
{
    match generate_key() {
        Ok(key) => {
            let tag = sign(&key, data);
            Ok(tag)
        },
        Err(e) => Err(e),
    }
}

/// The tag that `sign` gives for a message is accepted by `verify` for that
/// message under the same key.
pub proof fn law_signed_message_verifies(key: AuthKey, message: Seq<u8>, tag: Tag)
    requires
        signable(message),
        tag@ == hmac_sha256(key@, message),
    ensures
        verify_spec(key@, message, tag@) == Ok::<bool, Error>(true),
{
}

/// Under another key or for another message, `verify` accepts a tag exactly
/// when the other key and message have that same tag.
pub proof fn law_verify_accepts_only_the_tag(
    key: AuthKey,
    message: Seq<u8>,
    other_key: AuthKey,
    other_message: Seq<u8>,
    tag: Tag,
)
    requires
        signable(message),
        signable(other_message),
        tag@ == hmac_sha256(key@, message),
    ensures
        verify_spec(other_key@, other_message, tag@) == Ok::<bool, Error>(
            hmac_sha256(other_key@, other_message) == hmac_sha256(key@, message),
        ),
{
}

} // verus!
