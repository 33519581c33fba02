//! Streaming content integrity: SHA-256 digests of data that arrives in
//! pieces, HMAC-SHA-256 tags under a random key, keys derived from passwords
//! with PBKDF2, and the rule by which an archive's entries find their place
//! when a prefix is taken off their paths.
//!
//! The hash primitives are `ring`'s. What they compute is named, not
//! restated: the contracts say which primitive is applied to which bytes,
//! when an operation fails, and with which error.

pub mod archive;
pub mod bytes;
pub mod digest;
pub mod error;
pub mod hex;
pub mod kdf;
pub mod mac;
pub mod primitives;
pub mod random;

pub use archive::{entry_destination, strip_prefix};
pub use digest::{absorb_read, checked_sha256, sha256, Digest, DigestContext, Progress};
pub use error::Error;
pub use kdf::{pbkdf2, verify_password, verify_record, PasswordRecord};
pub use mac::{generate_key, hmac, sign, verify, AuthKey, Tag};
