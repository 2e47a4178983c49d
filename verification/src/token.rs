use vstd::prelude::*;

verus! {

use crate::errors::TokenError;

/// The two wire layouts a token can have. The version is fixed at
/// construction and decides the width of every fixed-size field.
#[derive(Clone, Copy, Debug, PartialEq, Eq, Structural)]
pub enum PayloadVersion {
    V0,
    V1,
}

/// Who bears the transaction cost. Only version 1 tokens carry this.
#[derive(Clone, Copy, Debug, PartialEq, Eq, Structural)]
pub enum FeeMode {
    Issuer,
    Holder,
}

/// The four signing schemes. Each belongs to exactly one payload version:
/// Sr25519 and Ed25519 to version 0, ECDSA and EIP-191 to version 1.
#[derive(Clone, Copy, Debug, PartialEq, Eq, Structural)]
pub enum SignatureScheme {
    Sr25519,
    Ed25519,
    Ecdsa,
    Eip191,
}

/// A named permission entry: a byte-exact name and an opaque value.
#[derive(Clone, Debug, PartialEq, Eq)]
pub struct Topping {
    pub name: Vec<u8>,
    pub value: Vec<u8>,
}

/// An attached signature: the scheme that produced it and its raw bytes.
#[derive(Clone, Debug, PartialEq, Eq)]
pub struct SignatureRecord {
    pub scheme: SignatureScheme,
    pub bytes: Vec<u8>,
}

/// A version 0 token: 32-byte identities, 64-byte signature, no fee mode.
#[derive(Clone, Debug, PartialEq, Eq)]
pub struct TokenV0 {
    pub issuer: Vec<u8>,
    pub holder: Vec<u8>,
    pub not_before: u32,
    pub expiry: u32,
    pub toppings: Vec<Topping>,
    pub sig: Option<SignatureRecord>,
}

/// A version 1 token: 33-byte identities, a fee mode, 65-byte signature.
#[derive(Clone, Debug, PartialEq, Eq)]
pub struct TokenV1 {
    pub issuer: Vec<u8>,
    pub holder: Vec<u8>,
    pub fee_mode: FeeMode,
    pub not_before: u32,
    pub expiry: u32,
    pub toppings: Vec<Topping>,
    pub sig: Option<SignatureRecord>,
}

/// A delegated capability token, a tagged union over the two layouts.
#[derive(Clone, Debug, PartialEq, Eq)]
pub enum Token {
    V0(TokenV0),
    V1(TokenV1),
}

/// Mathematical model of a topping.
#[verifier::ext_equal]
pub struct ToppingModel {
    pub name: Seq<u8>,
    pub value: Seq<u8>,
}

/// Mathematical model of an attached signature.
#[verifier::ext_equal]
pub struct SigModel {
    pub scheme: SignatureScheme,
    pub bytes: Seq<u8>,
}

/// Mathematical model of a token, shared by both layouts: the version
/// field is the tag, and `fee_mode` is `None` exactly on version 0.
#[verifier::ext_equal]
pub struct TokenModel {
    pub version: PayloadVersion,
    pub issuer: Seq<u8>,
    pub holder: Seq<u8>,
    pub fee_mode: Option<FeeMode>,
    pub not_before: u32,
    pub expiry: u32,
    pub toppings: Seq<ToppingModel>,
    pub sig: Option<SigModel>,
}

impl View for Topping {
    type V = ToppingModel;

    open spec fn view(&self) -> ToppingModel {
        ToppingModel { name: self.name@, value: self.value@ }
    }
}

impl View for SignatureRecord {
    type V = SigModel;

    open spec fn view(&self) -> SigModel {
        SigModel { scheme: self.scheme, bytes: self.bytes@ }
    }
}

impl View for Token {
    type V = TokenModel;

    open spec fn view(&self) -> TokenModel {
        match self {
            Token::V0(t) => TokenModel {
                version: PayloadVersion::V0,
                issuer: t.issuer@,
                holder: t.holder@,
                fee_mode: None,
                not_before: t.not_before,
                expiry: t.expiry,
                toppings: t.toppings@.map_values(|x: Topping| x@),
                sig: match t.sig {
                    None => None,
                    Some(s) => Some(s@),
                },
            },
            Token::V1(t) => TokenModel {
                version: PayloadVersion::V1,
                issuer: t.issuer@,
                holder: t.holder@,
                fee_mode: Some(t.fee_mode),
                not_before: t.not_before,
                expiry: t.expiry,
                toppings: t.toppings@.map_values(|x: Topping| x@),
                sig: match t.sig {
                    None => None,
                    Some(s) => Some(s@),
                },
            },
        }
    }
}

/// Width in bytes of the issuer and holder fields for a version.
pub open spec fn id_width(v: PayloadVersion) -> nat {
    match v {
        PayloadVersion::V0 => 32,
        PayloadVersion::V1 => 33,
    }
}

/// Width in bytes of the signature field for a version.
pub open spec fn sig_width(v: PayloadVersion) -> nat {
    match v {
        PayloadVersion::V0 => 64,
        PayloadVersion::V1 => 65,
    }
}

/// Which schemes a version admits.
pub open spec fn scheme_allowed(v: PayloadVersion, s: SignatureScheme) -> bool {
    match v {
        PayloadVersion::V0 => s == SignatureScheme::Sr25519 || s == SignatureScheme::Ed25519,
        PayloadVersion::V1 => s == SignatureScheme::Ecdsa || s == SignatureScheme::Eip191,
    }
}

/// The wire tag of a version.
pub open spec fn version_tag(v: PayloadVersion) -> u16 {
    match v {
        PayloadVersion::V0 => 0u16,
        PayloadVersion::V1 => 1u16,
    }
}

/// The version a wire tag names; meaningful only for tags 0 and 1.
pub open spec fn version_of_tag(t: u16) -> PayloadVersion {
    if t == 0 {
        PayloadVersion::V0
    } else {
        PayloadVersion::V1
    }
}

/// The wire byte of a fee mode.
pub open spec fn fee_byte(f: FeeMode) -> u8 {
    match f {
        FeeMode::Issuer => 0u8,
        FeeMode::Holder => 1u8,
    }
}

/// The fee mode a wire byte names; meaningful only for bytes 0 and 1.
pub open spec fn fee_of_byte(b: u8) -> FeeMode {
    if b == 0 {
        FeeMode::Issuer
    } else {
        FeeMode::Holder
    }
}

/// The wire byte of a scheme.
pub open spec fn scheme_byte(s: SignatureScheme) -> u8 {
    match s {
        SignatureScheme::Sr25519 => 0u8,
        SignatureScheme::Ed25519 => 1u8,
        SignatureScheme::Ecdsa => 2u8,
        SignatureScheme::Eip191 => 3u8,
    }
}

/// The scheme a wire byte names, if any.
pub open spec fn scheme_of_byte(b: u8) -> Option<SignatureScheme> {
    if b == 0 {
        Some(SignatureScheme::Sr25519)
    } else if b == 1 {
        Some(SignatureScheme::Ed25519)
    } else if b == 2 {
        Some(SignatureScheme::Ecdsa)
    } else if b == 3 {
        Some(SignatureScheme::Eip191)
    } else {
        None
    }
}

/// A topping whose name and value fit the wire format's length prefixes.
pub open spec fn wf_topping(t: ToppingModel) -> bool {
    t.name.len() <= 0xFFFF && t.value.len() <= 0xFFFF
}

/// Well-formedness of a token model: field widths match the version,
/// the fee mode is present exactly on version 1, the toppings fit the
/// wire format, and any attached signature belongs to the version.
pub open spec fn wf(m: TokenModel) -> bool {
    &&& m.issuer.len() == id_width(m.version)
    &&& m.holder.len() == id_width(m.version)
    &&& (m.fee_mode is None <==> m.version is V0)
    &&& m.toppings.len() <= 0xFFFF
    &&& (forall|i: int| 0 <= i < m.toppings.len() ==> wf_topping(#[trigger] m.toppings[i]))
    &&& match m.sig {
        None => true,
        Some(s) => scheme_allowed(m.version, s.scheme) && s.bytes.len() == sig_width(m.version),
    }
}

/// The model `create` yields on success.
pub open spec fn created_model(
    version: u16,
    issuer: Seq<u8>,
    holder: Seq<u8>,
    fee_mode: u8,
    expiry: u32,
    not_before: u32,
) -> TokenModel {
    let v = version_of_tag(version);
    TokenModel {
        version: v,
        issuer: issuer.take(id_width(v) as int),
        holder: holder.take(id_width(v) as int),
        fee_mode: if v is V0 {
            None
        } else {
            Some(fee_of_byte(fee_mode))
        },
        not_before,
        expiry,
        toppings: Seq::empty(),
        sig: None,
    }
}

/// Copy the first `n` bytes of a slice into a fresh vector.
fn take_prefix(src: &[u8], n: usize) -> (r: Vec<u8>)
    requires
        n <= src@.len(),
    ensures
        r@ == src@.take(n as int),
{
    let mut out: Vec<u8> = Vec::new();
    proof {
        assert(out@ =~= src@.take(0));
    }
    let mut i: usize = 0;
    while i < n
        invariant
            i <= n,
            n <= src@.len(),
            out@ == src@.take(i as int),
        decreases n - i,
    {
        out.push(src[i]);
        proof {
            assert(out@ =~= src@.take(i + 1 as int));
        }
        i = i + 1;
    }
    out
}

/// First-match lookup of a topping value by byte-exact name.
pub open spec fn topping_lookup(ts: Seq<ToppingModel>, name: Seq<u8>) -> Option<Seq<u8>>
    decreases ts.len(),
{
    if ts.len() == 0 {
        None
    } else if ts[0].name == name {
        Some(ts[0].value)
    } else {
        topping_lookup(ts.drop_first(), name)
    }
}

/// Byte-exact comparison of two slices.
pub(crate) fn bytes_equal(a: &[u8], b: &[u8]) -> (r: bool)
    ensures
        r == (a@ == b@),
{
    if a.len() != b.len() {
        proof {
            assert(a@.len() != b@.len());
        }
        return false;
    }
    let mut i: usize = 0;
    while i < a.len()
        invariant
            i <= a@.len(),
            a@.len() == b@.len(),
            forall|j: int| 0 <= j < i ==> a@[j] == b@[j],
        decreases a@.len() - i,
    {
        if a[i] != b[i] {
            return false;
        }
        i = i + 1;
    }
    proof {
        assert(a@ =~= b@);
    }
    true
}

impl Token {
    /// Build an unsigned token. The issuer and holder must supply at least
    /// the width the chosen version requires; extra bytes are dropped.
    pub fn create(
        version: u16,
        issuer: &[u8],
        holder: &[u8],
        fee_mode: u8,
        expiry: u32,
        not_before: u32,
    ) -> (r: Result<Token, TokenError>)
        ensures
            r is Ok <==> (version <= 1 && !(version == 1 && fee_mode > 1)
                && issuer@.len() >= id_width(version_of_tag(version))
                && holder@.len() >= id_width(version_of_tag(version))),
            r matches Ok(t) ==> t@ == created_model(
                version, issuer@, holder@, fee_mode, expiry, not_before) && wf(t@),
            r == Err::<Token, TokenError>(TokenError::UnsupportedVersion) <==> version > 1,
            r == Err::<Token, TokenError>(TokenError::UnsupportedFeeMode)
                <==> (version == 1 && fee_mode > 1),
            r == Err::<Token, TokenError>(TokenError::InvalidKeyLength)
                <==> (version <= 1 && !(version == 1 && fee_mode > 1)
                    && (issuer@.len() < id_width(version_of_tag(version))
                        || holder@.len() < id_width(version_of_tag(version)))),
    {
        if version > 1 {
            return Err(TokenError::UnsupportedVersion);
        }
        if version == 1 && fee_mode > 1 {
            return Err(TokenError::UnsupportedFeeMode);
        }
        let w: usize = if version == 0 {
            32
        } else {
            33
        };
        if issuer.len() < w || holder.len() < w {
            return Err(TokenError::InvalidKeyLength);
        }
        let issuer_v = take_prefix(issuer, w);
        let holder_v = take_prefix(holder, w);
        if version == 0 {
            let tok = Token::V0(TokenV0 {
                issuer: issuer_v,
                holder: holder_v,
                not_before,
                expiry,
                toppings: Vec::new(),
                sig: None,
            });
            proof {
                assert(tok@.toppings =~= Seq::<ToppingModel>::empty());
                assert(tok@ =~~= created_model(
                    version, issuer@, holder@, fee_mode, expiry, not_before));
            }
            Ok(tok)
        } else {
            let fm = if fee_mode == 0 {
                FeeMode::Issuer
            } else {
                FeeMode::Holder
            };
            let tok = Token::V1(TokenV1 {
                issuer: issuer_v,
                holder: holder_v,
                fee_mode: fm,
                not_before,
                expiry,
                toppings: Vec::new(),
                sig: None,
            });
            proof {
                assert(tok@.toppings =~= Seq::<ToppingModel>::empty());
                assert(tok@ =~~= created_model(
                    version, issuer@, holder@, fee_mode, expiry, not_before));
            }
            Ok(tok)
        }
    }

    /// Append a permission entry; the order of earlier entries is kept.
    pub fn add_topping(self, name: &[u8], value: &[u8]) -> (r: Token)
        requires
            wf(self@),
            name@.len() <= 0xFFFF,
            value@.len() <= 0xFFFF,
            self@.toppings.len() < 0xFFFF,
        ensures
            r@ == (TokenModel {
                toppings: self@.toppings.push(ToppingModel { name: name@, value: value@ }),
                ..self@
            }),
            wf(r@),
    {
        let entry = Topping { name: vstd::slice::slice_to_vec(name), value: vstd::slice::slice_to_vec(value) };
        match self {
            Token::V0(mut t) => {
                t.toppings.push(entry);
                let tok = Token::V0(t);
                proof {
                    assert(tok@ =~~= (TokenModel {
                        toppings: self@.toppings.push(ToppingModel { name: name@, value: value@ }),
                        ..self@
                    }));
                }
                tok
            },
            Token::V1(mut t) => {
                t.toppings.push(entry);
                let tok = Token::V1(t);
                proof {
                    assert(tok@ =~~= (TokenModel {
                        toppings: self@.toppings.push(ToppingModel { name: name@, value: value@ }),
                        ..self@
                    }));
                }
                tok
            },
        }
    }

    /// Attach an externally produced signature under a declared scheme byte.
    pub fn add_signature(self, signature: &[u8], scheme: u8) -> (r: Result<Token, TokenError>)
        requires
            wf(self@),
        ensures
            r == Err::<Token, TokenError>(TokenError::SchemeVersionMismatch)
                <==> !(scheme_of_byte(scheme) matches Some(s) && scheme_allowed(self@.version, s)),
            r == Err::<Token, TokenError>(TokenError::InvalidSignatureLength)
                <==> ((scheme_of_byte(scheme) matches Some(s) && scheme_allowed(self@.version, s))
                    && signature@.len() != sig_width(self@.version)),
            r is Ok <==> ((scheme_of_byte(scheme) matches Some(s)
                && scheme_allowed(self@.version, s))
                && signature@.len() == sig_width(self@.version)),
            r matches Ok(t) ==> (scheme_of_byte(scheme) matches Some(s) && t@ == (TokenModel {
                sig: Some(SigModel { scheme: s, bytes: signature@ }),
                ..self@
            }) && wf(t@)),
    {
        let s = match scheme_from_byte(scheme) {
            Some(s) => s,
            None => {
                return Err(TokenError::SchemeVersionMismatch);
            },
        };
        let allowed = match self {
            Token::V0(_) => matches!(s, SignatureScheme::Sr25519 | SignatureScheme::Ed25519),
            Token::V1(_) => matches!(s, SignatureScheme::Ecdsa | SignatureScheme::Eip191),
        };
        if !allowed {
            return Err(TokenError::SchemeVersionMismatch);
        }
        let want: usize = match self {
            Token::V0(_) => 64,
            Token::V1(_) => 65,
        };
        if signature.len() != want {
            return Err(TokenError::InvalidSignatureLength);
        }
        let record = SignatureRecord { scheme: s, bytes: vstd::slice::slice_to_vec(signature) };
        match self {
            Token::V0(t) => {
                let tok = Token::V0(TokenV0 { sig: Some(record), ..t });
                proof {
                    assert(tok@ =~~= (TokenModel {
                        sig: Some(SigModel { scheme: s, bytes: signature@ }),
                        ..self@
                    }));
                }
                Ok(tok)
            },
            Token::V1(t) => {
                let tok = Token::V1(TokenV1 { sig: Some(record), ..t });
                proof {
                    assert(tok@ =~~= (TokenModel {
                        sig: Some(SigModel { scheme: s, bytes: signature@ }),
                        ..self@
                    }));
                }
                Ok(tok)
            },
        }
    }

    /// The issuer's public key bytes.
    pub fn issuer(&self) -> (r: &Vec<u8>)
        ensures
            r@ == self@.issuer,
    {
        match self {
            Token::V0(t) => &t.issuer,
            Token::V1(t) => &t.issuer,
        }
    }

    /// The holder's public key bytes.
    pub fn holder(&self) -> (r: &Vec<u8>)
        ensures
            r@ == self@.holder,
    {
        match self {
            Token::V0(t) => &t.holder,
            Token::V1(t) => &t.holder,
        }
    }

    /// The expiry timestamp (inclusive upper bound of the validity window).
    pub fn expiry(&self) -> (r: u32)
        ensures
            r == self@.expiry,
    {
        match self {
            Token::V0(t) => t.expiry,
            Token::V1(t) => t.expiry,
        }
    }

    /// The not-before timestamp (inclusive lower bound of the window).
    pub fn not_before(&self) -> (r: u32)
        ensures
            r == self@.not_before,
    {
        match self {
            Token::V0(t) => t.not_before,
            Token::V1(t) => t.not_before,
        }
    }

    /// The version tag: 0 or 1.
    pub fn payload_version(&self) -> (r: u16)
        ensures
            r == version_tag(self@.version),
    {
        match self {
            Token::V0(_) => 0,
            Token::V1(_) => 1,
        }
    }

    /// The fee mode; `None` on version 0 tokens.
    pub fn fee_mode(&self) -> (r: Option<FeeMode>)
        ensures
            r == self@.fee_mode,
    {
        match self {
            Token::V0(_) => None,
            Token::V1(t) => Some(t.fee_mode),
        }
    }

    /// The scheme of the attached signature, if the token is signed.
    pub fn signature_version(&self) -> (r: Option<SignatureScheme>)
        ensures
            r == (match self@.sig {
                None => None,
                Some(s) => Some(s.scheme),
            }),
    {
        let sig = match self {
            Token::V0(t) => &t.sig,
            Token::V1(t) => &t.sig,
        };
        match sig {
            None => None,
            Some(s) => Some(s.scheme),
        }
    }

    /// The attached signature bytes, if the token is signed.
    pub fn signature(&self) -> (r: Option<&Vec<u8>>)
        ensures
            (r is Some <==> self@.sig is Some),
            r matches Some(v) ==> (self@.sig matches Some(s) && v@ == s.bytes),
    {
        let sig = match self {
            Token::V0(t) => &t.sig,
            Token::V1(t) => &t.sig,
        };
        match sig {
            None => None,
            Some(s) => Some(&s.bytes),
        }
    }

    /// The ordered topping entries.
    pub fn toppings(&self) -> (r: &Vec<Topping>)
        ensures
            r@.map_values(|x: Topping| x@) == self@.toppings,
    {
        match self {
            Token::V0(t) => &t.toppings,
            Token::V1(t) => &t.toppings,
        }
    }

    /// The value of the first topping whose name matches byte-exactly.
    pub fn get_topping(&self, name: &[u8]) -> (r: Result<&Vec<u8>, TokenError>)
        ensures
            r is Ok <==> topping_lookup(self@.toppings, name@) is Some,
            r matches Ok(v) ==> topping_lookup(self@.toppings, name@) == Some(v@),
            r is Err ==> r == Err::<&Vec<u8>, TokenError>(TokenError::ToppingNotFound),
    {
        let ts = match self {
            Token::V0(t) => &t.toppings,
            Token::V1(t) => &t.toppings,
        };
        let ghost full = self@.toppings;
        proof {
            assert(full =~= ts@.map_values(|x: Topping| x@));
            assert(full.skip(0) =~= full);
        }
        let mut i: usize = 0;
        while i < ts.len()
            invariant
                i <= ts@.len(),
                full == self@.toppings,
                full == ts@.map_values(|x: Topping| x@),
                topping_lookup(full, name@) == topping_lookup(full.skip(i as int), name@),
            decreases ts@.len() - i,
        {
            proof {
                assert(full[i as int] == ts@[i as int]@);
            }
            if bytes_equal(ts[i].name.as_slice(), name) {
                proof {
                    lemma_lookup_head(full, name@, i as int);
                }
                return Ok(&ts[i].value);
            }
            proof {
                lemma_lookup_skip(full, name@, i as int);
            }
            i = i + 1;
        }
        proof {
            assert(full.skip(i as int) =~= Seq::<ToppingModel>::empty());
        }
        Err(TokenError::ToppingNotFound)
    }
}

/// Turn a scheme byte into a scheme.
pub(crate) fn scheme_from_byte(b: u8) -> (r: Option<SignatureScheme>)
    ensures
        r == scheme_of_byte(b),
{
    if b == 0 {
        Some(SignatureScheme::Sr25519)
    } else if b == 1 {
        Some(SignatureScheme::Ed25519)
    } else if b == 2 {
        Some(SignatureScheme::Ecdsa)
    } else if b == 3 {
        Some(SignatureScheme::Eip191)
    } else {
        None
    }
}

/// First match wins: appending an entry never changes what an already
/// present name resolves to; a name not yet present resolves to the new
/// entry's value exactly when the new entry carries that name.
pub proof fn lemma_first_match_wins(ts: Seq<ToppingModel>, t: ToppingModel, name: Seq<u8>)
    ensures
        topping_lookup(ts, name) is Some ==> topping_lookup(ts.push(t), name) == topping_lookup(
            ts,
            name,
        ),
        topping_lookup(ts, name) is None && t.name == name ==> topping_lookup(ts.push(t), name)
            == Some(t.value),
        topping_lookup(ts, name) is None && t.name != name ==> topping_lookup(ts.push(t), name)
            is None,
    decreases ts.len(),
{
    if ts.len() == 0 {
        assert(ts.push(t).len() == 1);
        assert(ts.push(t)[0] == t);
        assert(ts.push(t).drop_first() =~= Seq::<ToppingModel>::empty());
    } else {
        assert(ts.push(t)[0] == ts[0]);
        assert(ts.push(t).drop_first() =~= ts.drop_first().push(t));
        lemma_first_match_wins(ts.drop_first(), t, name);
    }
}

/// If the head of the remaining entries matches, the lookup over the whole
/// list returns that head's value.
proof fn lemma_lookup_head(ts: Seq<ToppingModel>, name: Seq<u8>, i: int)
    requires
        0 <= i < ts.len(),
        topping_lookup(ts, name) == topping_lookup(ts.skip(i), name),
        ts[i].name == name,
    ensures
        topping_lookup(ts, name) == Some(ts[i].value),
{
    assert(ts.skip(i).len() > 0);
    assert(ts.skip(i)[0] == ts[i]);
}

/// If the head of the remaining entries does not match, the lookup is
/// unchanged by dropping it.
proof fn lemma_lookup_skip(ts: Seq<ToppingModel>, name: Seq<u8>, i: int)
    requires
        0 <= i < ts.len(),
        ts[i].name != name,
    ensures
        topping_lookup(ts.skip(i), name) == topping_lookup(ts.skip(i + 1), name),
{
    assert(ts.skip(i).len() > 0);
    assert(ts.skip(i)[0] == ts[i]);
    assert(ts.skip(i).drop_first() =~= ts.skip(i + 1));
}

} // verus!
