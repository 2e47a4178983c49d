use vstd::prelude::*;

verus! {

/// Whether the signature engine accepts `sig` as a signature by `signer`
/// over `payload` under the scheme named by the wire byte `scheme`.
/// Verification is a pure function of these four arguments.
pub uninterp spec fn crypto_verifies(
    scheme: u8,
    sig: Seq<u8>,
    signer: Seq<u8>,
    payload: Seq<u8>,
) -> bool;

/// Relies on doughnut_rs::signature::crypto::verify_signature: a pure,
/// deterministic check of a signature against a signer and a payload,
/// keyed by the scheme byte. Every failure reason collapses to `false`.
/// The ECDSA and EIP-191 checks read the first 64 signature bytes, so the
/// signature must be at least that wide.
#[verifier::external_body]
pub(crate) fn crypto_verify(scheme: u8, sig: &Vec<u8>, signer: &Vec<u8>, payload: &Vec<u8>) -> (r:
    bool)
    requires
        sig@.len() >= 64,
    ensures
        r == crypto_verifies(scheme, sig@, signer@, payload@),
{
    doughnut_rs::signature::crypto::verify_signature(
        scheme,
        sig.as_slice(),
        signer.as_slice(),
        payload.as_slice(),
    ).is_ok()
}

/// What Ed25519 signing yields for a public key, a secret key and a
/// payload: `None` when the engine rejects the key material. Signing is
/// deterministic, so the result is a function of these three arguments.
pub uninterp spec fn ed25519_sign_of(
    public_key: Seq<u8>,
    secret_key: Seq<u8>,
    payload: Seq<u8>,
) -> Option<Seq<u8>>;

/// What ECDSA signing yields for a secret key and a payload: `None` when
/// the engine rejects the key. The nonce is derived deterministically, so
/// the result is a function of these two arguments.
pub uninterp spec fn ecdsa_sign_of(secret_key: Seq<u8>, payload: Seq<u8>) -> Option<Seq<u8>>;

/// What EIP-191 signing yields for a secret key and a payload: `None`
/// when the engine rejects the key. The nonce is derived
/// deterministically, so the result is a function of these two arguments.
pub uninterp spec fn eip191_sign_of(secret_key: Seq<u8>, payload: Seq<u8>) -> Option<Seq<u8>>;

/// The Ed25519 public key the engine derives from a 32-byte secret key,
/// a deterministic function of the key bytes.
pub uninterp spec fn ed25519_public_of(secret_key: Seq<u8>) -> Seq<u8>;

/// The compressed 33-byte secp256k1 public key the engine derives from a
/// 32-byte secret key, a deterministic function of the key bytes.
pub uninterp spec fn secp_public_of(secret_key: Seq<u8>) -> Seq<u8>;

/// Relies on doughnut_rs::signature::crypto::sign_ed25519: deterministic
/// (RFC 8032) in the keypair and the payload; on success the signature is
/// 64 bytes wide; a rejected keypair yields `None`. When the supplied
/// public key is the one derived from the secret key, the produced
/// signature verifies under that public key over the same payload.
#[verifier::external_body]
pub(crate) fn crypto_sign_ed25519(
    public_key: &Vec<u8>,
    secret_key: &Vec<u8>,
    payload: &Vec<u8>,
) -> (r: Option<Vec<u8>>)
    requires
        public_key@.len() == 32,
        secret_key@.len() == 32,
    ensures
        r is Some <==> ed25519_sign_of(public_key@, secret_key@, payload@) is Some,
        r matches Some(s) ==> Some(s@) == ed25519_sign_of(public_key@, secret_key@, payload@),
        r matches Some(s) ==> s@.len() == 64,
        r matches Some(s) ==> (public_key@ == ed25519_public_of(secret_key@)
            ==> crypto_verifies(1, s@, public_key@, payload@)),
{
    let pk: [u8; 32] = match public_key.as_slice().try_into() {
        Ok(a) => a,
        Err(_) => return None,
    };
    let sk: [u8; 32] = match secret_key.as_slice().try_into() {
        Ok(a) => a,
        Err(_) => return None,
    };
    match doughnut_rs::signature::crypto::sign_ed25519(&pk, &sk, payload.as_slice()) {
        Ok(sig) => Some(sig.to_vec()),
        Err(_) => None,
    }
}

/// Relies on doughnut_rs::signature::crypto::sign_sr25519: on success the
/// signature is 64 bytes wide; a rejected key yields `None`. Sr25519
/// signing draws fresh randomness, so two calls on the same arguments may
/// return different signatures, and nothing more is stated of the bytes;
/// the engine aborts only if the operating system's random source is
/// unavailable.
#[verifier::external_body]
pub(crate) fn crypto_sign_sr25519(
    public_key: &Vec<u8>,
    secret_key: &Vec<u8>,
    payload: &Vec<u8>,
) -> (r: Option<Vec<u8>>)
    requires
        secret_key@.len() == 64,
    ensures
        r matches Some(s) ==> s@.len() == 64,
{
    let sk: [u8; 64] = match secret_key.as_slice().try_into() {
        Ok(a) => a,
        Err(_) => return None,
    };
    match doughnut_rs::signature::crypto::sign_sr25519(
        public_key.as_slice(),
        &sk,
        payload.as_slice(),
    ) {
        Ok(sig) => Some(sig.to_vec()),
        Err(_) => None,
    }
}

/// Relies on doughnut_rs::signature::crypto::sign_ecdsa: deterministic
/// (an RFC 6979 nonce) in the key and the payload; on success the
/// signature is 65 bytes wide; a rejected key yields `None`. The produced
/// signature verifies under the secret key's own public key over the same
/// payload.
#[verifier::external_body]
pub(crate) fn crypto_sign_ecdsa(secret_key: &Vec<u8>, payload: &Vec<u8>) -> (r: Option<Vec<u8>>)
    requires
        secret_key@.len() == 32,
    ensures
        r is Some <==> ecdsa_sign_of(secret_key@, payload@) is Some,
        r matches Some(s) ==> Some(s@) == ecdsa_sign_of(secret_key@, payload@),
        r matches Some(s) ==> s@.len() == 65,
        r matches Some(s) ==> crypto_verifies(2, s@, secp_public_of(secret_key@), payload@),
{
    let sk: [u8; 32] = match secret_key.as_slice().try_into() {
        Ok(a) => a,
        Err(_) => return None,
    };
    match doughnut_rs::signature::crypto::sign_ecdsa(&sk, payload.as_slice()) {
        Ok(sig) => Some(sig.to_vec()),
        Err(_) => None,
    }
}

/// Relies on doughnut_rs::signature::crypto::sign_eip191: deterministic
/// (an RFC 6979 nonce) in the key and the payload; on success the
/// signature is 65 bytes wide; a rejected key yields `None`. The produced
/// signature verifies under the secret key's own public key over the same
/// payload.
#[verifier::external_body]
pub(crate) fn crypto_sign_eip191(secret_key: &Vec<u8>, payload: &Vec<u8>) -> (r: Option<Vec<u8>>)
    requires
        secret_key@.len() == 32,
    ensures
        r is Some <==> eip191_sign_of(secret_key@, payload@) is Some,
        r matches Some(s) ==> Some(s@) == eip191_sign_of(secret_key@, payload@),
        r matches Some(s) ==> s@.len() == 65,
        r matches Some(s) ==> crypto_verifies(3, s@, secp_public_of(secret_key@), payload@),
{
    let sk: [u8; 32] = match secret_key.as_slice().try_into() {
        Ok(a) => a,
        Err(_) => return None,
    };
    match doughnut_rs::signature::crypto::sign_eip191(&sk, payload.as_slice()) {
        Ok(sig) => Some(sig.to_vec()),
        Err(_) => None,
    }
}

} // verus!
