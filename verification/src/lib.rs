//! Delegated capability tokens: a versioned token model, its canonical
//! binary codec, multi-scheme signing and attachment, and validation of
//! the holder identity, the validity window and the signature.
//!
//! The token type and its builders live in [`token`], the wire format and
//! its round-trip proof in [`codec`], the signing methods in [`sign`] and
//! the validation checks in [`validate`]. The cryptographic primitives
//! are supplied by an outside signature engine behind the trusted
//! wrappers in [`crypto`].

pub mod codec;
pub mod crypto;
pub mod errors;
pub mod sign;
pub mod token;
pub mod validate;
