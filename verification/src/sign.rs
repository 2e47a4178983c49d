use vstd::prelude::*;

verus! {

use crate::codec::{lemma_payload_ignores_sig, payload_spec};
use crate::crypto::{crypto_sign_ecdsa, crypto_sign_ed25519, crypto_sign_eip191,
    crypto_sign_sr25519, crypto_verifies, ecdsa_sign_of, ed25519_public_of, ed25519_sign_of,
    eip191_sign_of, secp_public_of};
use crate::errors::TokenError;
use crate::token::{SigModel, SignatureRecord, SignatureScheme, Token, TokenModel, TokenV0,
    TokenV1, scheme_allowed, wf};
use crate::validate::signature_accepted;

/// What every signing method guarantees of its result: the scheme and the
/// version matched and the key had the right width exactly when no such
/// error is returned; on success the token is unchanged except that a
/// signature of the scheme's width is attached.
pub open spec fn sign_post(
    before: TokenModel,
    key_len: nat,
    scheme: SignatureScheme,
    want_key: nat,
    width: nat,
    r: Result<Token, TokenError>,
) -> bool {
    &&& (r == Err::<Token, TokenError>(TokenError::SchemeVersionMismatch) <==> !crate::token::scheme_allowed(
        before.version,
        scheme,
    ))
    &&& (r == Err::<Token, TokenError>(TokenError::InvalidKeyLength) <==> (
    crate::token::scheme_allowed(before.version, scheme) && key_len != want_key))
    &&& (r matches Ok(t) ==> crate::token::scheme_allowed(before.version, scheme) && key_len
        == want_key && (t@.sig matches Some(s) && s.scheme == scheme && s.bytes.len() == width)
        && t@ == (TokenModel { sig: t@.sig, ..before }) && wf(t@))
    &&& (r is Err ==> r == Err::<Token, TokenError>(TokenError::SchemeVersionMismatch) || r
        == Err::<Token, TokenError>(TokenError::InvalidKeyLength) || r == Err::<
        Token,
        TokenError,
    >(TokenError::SigningFailed))
}

impl Token {
    /// Sign a version 0 token with Sr25519 over its canonical payload;
    /// the 64-byte secret key must belong to the token's issuer. Sr25519
    /// signing is randomized, so whether the engine accepts the key and
    /// which bytes it returns are not functions of the inputs; the
    /// contract states what holds of every outcome.
    pub fn sign_sr25519(self, secret_key: &[u8]) -> (r: Result<Token, TokenError>)
        requires
            wf(self@),
        ensures
            sign_post(self@, secret_key@.len(), SignatureScheme::Sr25519, 64, 64, r),
    {
        if matches!(self, Token::V1(_)) {
            return Err(TokenError::SchemeVersionMismatch);
        }
        if secret_key.len() != 64 {
            return Err(TokenError::InvalidKeyLength);
        }
        let payload = self.payload();
        let sk = vstd::slice::slice_to_vec(secret_key);
        let sig = match crypto_sign_sr25519(self.issuer(), &sk, &payload) {
            None => {
                return Err(TokenError::SigningFailed);
            },
            Some(s) => s,
        };
        Ok(self.attach(SignatureScheme::Sr25519, sig))
    }

    /// Sign a version 0 token with Ed25519 over its canonical payload;
    /// the 32-byte secret key must belong to the token's issuer. Signing
    /// succeeds exactly when the scheme fits the version, the key has the
    /// right width, and the engine accepts the issuer/key pair; the
    /// attached bytes are exactly what the engine returns.
    pub fn sign_ed25519(self, secret_key: &[u8]) -> (r: Result<Token, TokenError>)
        requires
            wf(self@),
        ensures
            sign_post(self@, secret_key@.len(), SignatureScheme::Ed25519, 32, 64, r),
            r is Ok <==> (scheme_allowed(self@.version, SignatureScheme::Ed25519) && secret_key@.len()
                == 32 && ed25519_sign_of(self@.issuer, secret_key@, payload_spec(self@)) is Some),
            r matches Ok(t) ==> (t@.sig matches Some(s) && Some(s.bytes) == ed25519_sign_of(
                self@.issuer,
                secret_key@,
                payload_spec(self@),
            )),
            r matches Ok(t) ==> (self@.issuer == ed25519_public_of(secret_key@)
                ==> signature_accepted(t@)),
    {
        if matches!(self, Token::V1(_)) {
            return Err(TokenError::SchemeVersionMismatch);
        }
        if secret_key.len() != 32 {
            return Err(TokenError::InvalidKeyLength);
        }
        let payload = self.payload();
        let sk = vstd::slice::slice_to_vec(secret_key);
        let sig = match crypto_sign_ed25519(self.issuer(), &sk, &payload) {
            None => {
                return Err(TokenError::SigningFailed);
            },
            Some(s) => s,
        };
        let tok = self.attach(SignatureScheme::Ed25519, sig);
        proof {
            lemma_payload_ignores_sig(tok@, self@);
        }
        Ok(tok)
    }

    /// Sign a version 1 token with ECDSA over its canonical payload,
    /// using a 32-byte secret key. Signing succeeds exactly when the
    /// scheme fits the version, the key has the right width, and the
    /// engine accepts the key; the attached bytes are exactly what the
    /// engine returns.
    pub fn sign_ecdsa(self, secret_key: &[u8]) -> (r: Result<Token, TokenError>)
        requires
            wf(self@),
        ensures
            sign_post(self@, secret_key@.len(), SignatureScheme::Ecdsa, 32, 65, r),
            r is Ok <==> (scheme_allowed(self@.version, SignatureScheme::Ecdsa) && secret_key@.len()
                == 32 && ecdsa_sign_of(secret_key@, payload_spec(self@)) is Some),
            r matches Ok(t) ==> (t@.sig matches Some(s) && Some(s.bytes) == ecdsa_sign_of(
                secret_key@,
                payload_spec(self@),
            )),
            r matches Ok(t) ==> (t@.sig matches Some(s) && crypto_verifies(
                2,
                s.bytes,
                secp_public_of(secret_key@),
                payload_spec(self@),
            )),
            r matches Ok(t) ==> (self@.issuer == secp_public_of(secret_key@)
                ==> signature_accepted(t@)),
    {
        if matches!(self, Token::V0(_)) {
            return Err(TokenError::SchemeVersionMismatch);
        }
        if secret_key.len() != 32 {
            return Err(TokenError::InvalidKeyLength);
        }
        let payload = self.payload();
        let sk = vstd::slice::slice_to_vec(secret_key);
        let sig = match crypto_sign_ecdsa(&sk, &payload) {
            None => {
                return Err(TokenError::SigningFailed);
            },
            Some(s) => s,
        };
        let tok = self.attach(SignatureScheme::Ecdsa, sig);
        proof {
            lemma_payload_ignores_sig(tok@, self@);
        }
        Ok(tok)
    }

    /// Sign a version 1 token with the Ethereum personal-message scheme
    /// over its canonical payload, using a 32-byte secret key. Signing
    /// succeeds exactly when the scheme fits the version, the key has the
    /// right width, and the engine accepts the key; the attached bytes are
    /// exactly what the engine returns.
    pub fn sign_eip191(self, secret_key: &[u8]) -> (r: Result<Token, TokenError>)
        requires
            wf(self@),
        ensures
            sign_post(self@, secret_key@.len(), SignatureScheme::Eip191, 32, 65, r),
            r is Ok <==> (scheme_allowed(self@.version, SignatureScheme::Eip191) && secret_key@.len()
                == 32 && eip191_sign_of(secret_key@, payload_spec(self@)) is Some),
            r matches Ok(t) ==> (t@.sig matches Some(s) && Some(s.bytes) == eip191_sign_of(
                secret_key@,
                payload_spec(self@),
            )),
            r matches Ok(t) ==> (t@.sig matches Some(s) && crypto_verifies(
                3,
                s.bytes,
                secp_public_of(secret_key@),
                payload_spec(self@),
            )),
            r matches Ok(t) ==> (self@.issuer == secp_public_of(secret_key@)
                ==> signature_accepted(t@)),
    {
        if matches!(self, Token::V0(_)) {
            return Err(TokenError::SchemeVersionMismatch);
        }
        if secret_key.len() != 32 {
            return Err(TokenError::InvalidKeyLength);
        }
        let payload = self.payload();
        let sk = vstd::slice::slice_to_vec(secret_key);
        let sig = match crypto_sign_eip191(&sk, &payload) {
            None => {
                return Err(TokenError::SigningFailed);
            },
            Some(s) => s,
        };
        let tok = self.attach(SignatureScheme::Eip191, sig);
        proof {
            lemma_payload_ignores_sig(tok@, self@);
        }
        Ok(tok)
    }

    /// Replace the signature fields, leaving every other field unchanged.
    fn attach(self, scheme: SignatureScheme, bytes: Vec<u8>) -> (r: Token)
        ensures
            r@ == (TokenModel {
                sig: Some(SigModel { scheme, bytes: bytes@ }),
                ..self@
            }),
    {
        let record = SignatureRecord { scheme, bytes };
        match self {
            Token::V0(t) => {
                let tok = Token::V0(TokenV0 { sig: Some(record), ..t });
                proof {
                    assert(tok@ =~~= (TokenModel {
                        sig: Some(SigModel { scheme, bytes: bytes@ }),
                        ..self@
                    }));
                }
                tok
            },
            Token::V1(t) => {
                let tok = Token::V1(TokenV1 { sig: Some(record), ..t });
                proof {
                    assert(tok@ =~~= (TokenModel {
                        sig: Some(SigModel { scheme, bytes: bytes@ }),
                        ..self@
                    }));
                }
                tok
            },
        }
    }
}

} // verus!
