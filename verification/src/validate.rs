use vstd::prelude::*;

verus! {

use crate::codec::payload_spec;
use crate::crypto::{crypto_verifies, crypto_verify};
use crate::errors::TokenError;
use crate::token::{Token, bytes_equal, scheme_byte, sig_width, wf};

/// The validity window: both bounds are inclusive.
pub open spec fn in_window(not_before: u32, expiry: u32, now: u32) -> bool {
    not_before <= now <= expiry
}

/// Whether the signature engine accepts the token's signature, stated of
/// the token's model: there is an attached signature and it verifies
/// against the issuer over the canonical payload.
pub open spec fn signature_accepted(m: crate::token::TokenModel) -> bool {
    m.sig matches Some(s) && crypto_verifies(
        scheme_byte(s.scheme),
        s.bytes,
        m.issuer,
        payload_spec(m),
    )
}

impl Token {
    /// Check that `who` is the token's holder, byte-exactly, and that
    /// `now` lies inside the inclusive validity window. The first failing
    /// check decides the error, and the window errors tell a token not
    /// yet valid apart from an expired one.
    pub fn validate(&self, who: &[u8], now: u32) -> (r: Result<(), TokenError>)
        ensures
            r == Err::<(), TokenError>(TokenError::WrongHolder) <==> who@ != self@.holder,
            r == Err::<(), TokenError>(TokenError::NotYetValid) <==> (who@ == self@.holder && now
                < self@.not_before),
            r == Err::<(), TokenError>(TokenError::Expired) <==> (who@ == self@.holder && now
                >= self@.not_before && now > self@.expiry),
            r is Ok <==> (who@ == self@.holder && in_window(self@.not_before, self@.expiry, now)),
    {
        if !bytes_equal(who, self.holder().as_slice()) {
            return Err(TokenError::WrongHolder);
        }
        if now < self.not_before() {
            return Err(TokenError::NotYetValid);
        }
        if now > self.expiry() {
            return Err(TokenError::Expired);
        }
        Ok(())
    }

    /// Check the attached signature against the issuer over the canonical
    /// payload. An unsigned token has no usable scheme; a signed token's
    /// scheme always belongs to its version, so the only other failure is
    /// a signature the engine rejects.
    pub fn verify_signature(&self) -> (r: Result<(), TokenError>)
        requires
            wf(self@),
        ensures
            r == Err::<(), TokenError>(TokenError::UnsupportedScheme) <==> self@.sig is None,
            r is Ok <==> signature_accepted(self@),
            r is Err ==> r == Err::<(), TokenError>(TokenError::UnsupportedScheme) || r == Err::<
                (),
                TokenError,
            >(TokenError::InvalidSignature),
    {
        let sig = match self {
            Token::V0(t) => &t.sig,
            Token::V1(t) => &t.sig,
        };
        let srec = match sig {
            None => {
                return Err(TokenError::UnsupportedScheme);
            },
            Some(s) => s,
        };
        proof {
            assert(srec@.bytes.len() == sig_width(self@.version));
        }
        let payload = self.payload();
        let sb = crate::codec::scheme_byte_of(srec.scheme);
        if crypto_verify(sb, &srec.bytes, self.issuer(), &payload) {
            Ok(())
        } else {
            Err(TokenError::InvalidSignature)
        }
    }

    /// Structured full verification: the holder and window checks, then
    /// the signature check, short-circuiting on the first failure.
    pub fn verify_checked(&self, who: &[u8], now: u32) -> (r: Result<(), TokenError>)
        requires
            wf(self@),
        ensures
            r == Err::<(), TokenError>(TokenError::WrongHolder) <==> who@ != self@.holder,
            r == Err::<(), TokenError>(TokenError::NotYetValid) <==> (who@ == self@.holder && now
                < self@.not_before),
            r == Err::<(), TokenError>(TokenError::Expired) <==> (who@ == self@.holder && now
                >= self@.not_before && now > self@.expiry),
            r == Err::<(), TokenError>(TokenError::UnsupportedScheme) <==> (who@ == self@.holder
                && in_window(self@.not_before, self@.expiry, now) && self@.sig is None),
            r == Err::<(), TokenError>(TokenError::InvalidSignature) <==> (who@ == self@.holder
                && in_window(self@.not_before, self@.expiry, now) && self@.sig is Some
                && !signature_accepted(self@)),
            r is Ok <==> (who@ == self@.holder && in_window(self@.not_before, self@.expiry, now)
                && signature_accepted(self@)),
    {
        match self.validate(who, now) {
            Err(e) => Err(e),
            Ok(()) => self.verify_signature(),
        }
    }

    /// Boolean convenience wrapper over `verify_checked`.
    pub fn verify(&self, who: &[u8], now: u32) -> (r: bool)
        requires
            wf(self@),
        ensures
            r == (who@ == self@.holder && in_window(self@.not_before, self@.expiry, now)
                && signature_accepted(self@)),
    {
        match self.verify_checked(who, now) {
            Ok(()) => true,
            Err(_) => false,
        }
    }
}

} // verus!
