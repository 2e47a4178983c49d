use vstd::prelude::*;

verus! {

/// Every way a token operation can fail, grouped by the phase that
/// reports it: construction, signing or signature attachment, decoding,
/// topping lookup, and validation or signature verification.
#[derive(Clone, Copy, Debug, PartialEq, Eq, Structural)]
pub enum TokenError {
    /// construction: the payload version is neither 0 nor 1
    UnsupportedVersion,
    /// construction: a version 1 token was given a fee mode byte above 1
    UnsupportedFeeMode,
    /// construction or signing: a key is shorter than the version requires
    InvalidKeyLength,
    /// signing or attachment: the scheme does not belong to the token's version
    SchemeVersionMismatch,
    /// attachment: the signature is not exactly as wide as the version requires
    InvalidSignatureLength,
    /// signing: the signature engine rejected the key material
    SigningFailed,
    /// decoding: fewer bytes remain than the next field requires
    TruncatedInput,
    /// decoding: the version tag matches neither version 0 nor version 1
    UnknownVersion,
    /// decoding: a topping's declared length exceeds the remaining bytes
    MalformedTopping,
    /// decoding or verification: the scheme byte is not usable for the version
    UnsupportedScheme,
    /// lookup: no topping entry has the requested name
    ToppingNotFound,
    /// validation: the presented identity is not the token's holder
    WrongHolder,
    /// validation: the timestamp lies before the token's `not_before`
    NotYetValid,
    /// validation: the timestamp lies after the token's `expiry`
    Expired,
    /// verification: the signature does not verify against the issuer
    InvalidSignature,
}

} // verus!
