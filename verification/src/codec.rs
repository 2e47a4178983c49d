use vstd::prelude::*;

verus! {

use crate::errors::TokenError;
use crate::token::{
    FeeMode, SigModel, SignatureRecord, SignatureScheme, Token, TokenModel, TokenV0, TokenV1,
    Topping, ToppingModel, fee_byte, fee_of_byte, id_width, scheme_allowed, scheme_byte,
    scheme_of_byte, sig_width, version_of_tag, version_tag, wf, wf_topping,
};

/// Wire byte standing in the scheme slot of an unsigned token.
pub const UNSIGNED_SCHEME: u8 = 255;

/// The two little-endian bytes of a 16-bit integer.
pub open spec fn enc_u16(x: u16) -> Seq<u8> {
    seq![(x % 256) as u8, (x / 256) as u8]
}

/// The four little-endian bytes of a 32-bit integer.
pub open spec fn enc_u32(x: u32) -> Seq<u8> {
    seq![
        (x % 256) as u8,
        ((x / 256) % 256) as u8,
        ((x / 65536) % 256) as u8,
        (x / 16777216) as u8,
    ]
}

/// The 16-bit integer whose little-endian bytes sit at `i` in `b`.
pub open spec fn read_u16(b: Seq<u8>, i: int) -> u16 {
    (b[i] + b[i + 1] * 256) as u16
}

/// The 32-bit integer whose little-endian bytes sit at `i` in `b`.
pub open spec fn read_u32(b: Seq<u8>, i: int) -> u32 {
    (b[i] + b[i + 1] * 256 + b[i + 2] * 65536 + b[i + 3] * 16777216) as u32
}

/// `n` zero bytes.
pub open spec fn zero_bytes(n: nat) -> Seq<u8> {
    Seq::new(n, |i: int| 0u8)
}

/// One topping on the wire: length-prefixed name, length-prefixed value.
pub open spec fn enc_topping(t: ToppingModel) -> Seq<u8> {
    enc_u16(t.name.len() as u16) + t.name + enc_u16(t.value.len() as u16) + t.value
}

/// The topping entries on the wire, in order.
pub open spec fn enc_toppings(ts: Seq<ToppingModel>) -> Seq<u8>
    decreases ts.len(),
{
    if ts.len() == 0 {
        Seq::empty()
    } else {
        enc_topping(ts[0]) + enc_toppings(ts.drop_first())
    }
}

/// The fee-mode byte on the wire; absent on version 0.
pub open spec fn fee_seq(m: TokenModel) -> Seq<u8> {
    match m.fee_mode {
        None => Seq::empty(),
        Some(f) => seq![fee_byte(f)],
    }
}

/// Canonical payload: every field except the signature metadata. These
/// are exactly the bytes a signature is computed over.
pub open spec fn payload_spec(m: TokenModel) -> Seq<u8> {
    enc_u16(version_tag(m.version)) + m.issuer + m.holder + fee_seq(m) + enc_u32(m.not_before)
        + enc_u32(m.expiry) + enc_u16(m.toppings.len() as u16) + enc_toppings(m.toppings)
}

/// The signature trailer: the scheme byte and the fixed-width signature,
/// zeros under the unsigned marker when the token carries none.
pub open spec fn sig_tail_spec(m: TokenModel) -> Seq<u8> {
    match m.sig {
        None => seq![UNSIGNED_SCHEME] + zero_bytes(sig_width(m.version)),
        Some(s) => seq![scheme_byte(s.scheme)] + s.bytes,
    }
}

/// The full wire form of a token.
pub open spec fn encode_spec(m: TokenModel) -> Seq<u8> {
    payload_spec(m) + sig_tail_spec(m)
}

/// Parse `n` toppings of `b` starting at `i`: the entries and the position
/// after them. A missing length prefix is a truncation; a declared length
/// that exceeds the remaining bytes is a malformed topping.
pub open spec fn dec_toppings(b: Seq<u8>, i: int, n: nat) -> Result<
    (Seq<ToppingModel>, int),
    TokenError,
>
    decreases n,
{
    if n == 0 {
        Ok((Seq::empty(), i))
    } else if i + 2 > b.len() {
        Err(TokenError::TruncatedInput)
    } else {
        let nl = read_u16(b, i) as int;
        if i + 2 + nl > b.len() {
            Err(TokenError::MalformedTopping)
        } else {
            let name = b.subrange(i + 2, i + 2 + nl);
            let j = i + 2 + nl;
            if j + 2 > b.len() {
                Err(TokenError::TruncatedInput)
            } else {
                let vl = read_u16(b, j) as int;
                if j + 2 + vl > b.len() {
                    Err(TokenError::MalformedTopping)
                } else {
                    let value = b.subrange(j + 2, j + 2 + vl);
                    match dec_toppings(b, j + 2 + vl, (n - 1) as nat) {
                        Ok(p) => Ok((seq![ToppingModel { name, value }] + p.0, p.1)),
                        Err(e) => Err(e),
                    }
                }
            }
        }
    }
}

/// Prepend already-parsed entries to the rest of a topping parse.
pub open spec fn dec_cont(
    acc: Seq<ToppingModel>,
    r: Result<(Seq<ToppingModel>, int), TokenError>,
) -> Result<(Seq<ToppingModel>, int), TokenError> {
    match r {
        Ok(p) => Ok((acc + p.0, p.1)),
        Err(e) => Err(e),
    }
}

/// Strict decoding of a token from bytes. Fields are read in wire order;
/// the first failing field decides the error. Bytes after the signature
/// are ignored.
pub open spec fn decode_spec(b: Seq<u8>) -> Result<TokenModel, TokenError> {
    if b.len() < 2 {
        Err(TokenError::TruncatedInput)
    } else {
        let tag = read_u16(b, 0);
        if tag > 1 {
            Err(TokenError::UnknownVersion)
        } else {
            let v = version_of_tag(tag);
            let w = id_width(v) as int;
            let fl: int = if tag == 0 {
                0
            } else {
                1
            };
            if b.len() < 12 + 2 * w + fl {
                Err(TokenError::TruncatedInput)
            } else if tag == 1 && b[2 + 2 * w] > 1 {
                Err(TokenError::UnsupportedFeeMode)
            } else {
                let cnt = read_u16(b, 10 + 2 * w + fl);
                match dec_toppings(b, 12 + 2 * w + fl, cnt as nat) {
                    Err(e) => Err(e),
                    Ok(p) => {
                        let sw = sig_width(v) as int;
                        if b.len() < p.1 + 1 + sw {
                            Err(TokenError::TruncatedInput)
                        } else {
                            let sb = b[p.1];
                            let m = TokenModel {
                                version: v,
                                issuer: b.subrange(2, 2 + w),
                                holder: b.subrange(2 + w, 2 + 2 * w),
                                fee_mode: if tag == 0 {
                                    None
                                } else {
                                    Some(fee_of_byte(b[2 + 2 * w]))
                                },
                                not_before: read_u32(b, 2 + 2 * w + fl),
                                expiry: read_u32(b, 6 + 2 * w + fl),
                                toppings: p.0,
                                sig: None,
                            };
                            if sb == UNSIGNED_SCHEME {
                                Ok(m)
                            } else {
                                match scheme_of_byte(sb) {
                                    None => Err(TokenError::UnsupportedScheme),
                                    Some(s) => if scheme_allowed(v, s) {
                                        Ok(TokenModel {
                                            sig: Some(SigModel {
                                                scheme: s,
                                                bytes: b.subrange(p.1 + 1, p.1 + 1 + sw),
                                            }),
                                            ..m
                                        })
                                    } else {
                                        Err(TokenError::UnsupportedScheme)
                                    },
                                }
                            }
                        }
                    },
                }
            }
        }
    }
}

/// Prepending nothing leaves a topping parse unchanged.
proof fn lemma_dec_cont_empty(r: Result<(Seq<ToppingModel>, int), TokenError>)
    ensures
        dec_cont(Seq::empty(), r) == r,
{
    match r {
        Ok((s, e)) => {
            assert(Seq::<ToppingModel>::empty() + s =~= s);
        },
        Err(_) => {},
    }
}

/// Prepending entry by entry agrees with prepending a grown prefix.
proof fn lemma_dec_cont_push(
    acc: Seq<ToppingModel>,
    t: ToppingModel,
    r: Result<(Seq<ToppingModel>, int), TokenError>,
)
    ensures
        dec_cont(acc, dec_cont(seq![t], r)) == dec_cont(acc.push(t), r),
{
    match r {
        Ok((s, e)) => {
            assert(acc + (seq![t] + s) =~= acc.push(t) + s);
        },
        Err(_) => {},
    }
}

/// Unfold one successful entry of a topping parse: the entry at `i`
/// prepended to the parse of the remaining entries.
proof fn lemma_dec_toppings_step(b: Seq<u8>, i: int, n: nat)
    requires
        n > 0,
        0 <= i,
        i + 2 <= b.len(),
        i + 2 + read_u16(b, i) <= b.len(),
        i + 4 + read_u16(b, i) <= b.len(),
        i + 4 + read_u16(b, i) + read_u16(b, i + 2 + read_u16(b, i)) <= b.len(),
    ensures
        dec_toppings(b, i, n) == dec_cont(
            seq![
                ToppingModel {
                    name: b.subrange(i + 2, i + 2 + read_u16(b, i)),
                    value: b.subrange(
                        i + 4 + read_u16(b, i),
                        i + 4 + read_u16(b, i) + read_u16(b, i + 2 + read_u16(b, i)),
                    ),
                },
            ],
            dec_toppings(
                b,
                i + 4 + read_u16(b, i) + read_u16(b, i + 2 + read_u16(b, i)),
                (n - 1) as nat,
            ),
        ),
{
    let nl = read_u16(b, i) as int;
    let j = i + 2 + nl;
    let vl = read_u16(b, j) as int;
    let nxt = j + 2 + vl;
    let tm = ToppingModel {
        name: b.subrange(i + 2, i + 2 + nl),
        value: b.subrange(j + 2, j + 2 + vl),
    };
    match dec_toppings(b, nxt, (n - 1) as nat) {
        Ok((s, e)) => {
            assert(dec_toppings(b, i, n) == Ok::<(Seq<ToppingModel>, int), TokenError>(
                (seq![tm] + s, e),
            ));
        },
        Err(e) => {
            assert(dec_toppings(b, i, n) == Err::<(Seq<ToppingModel>, int), TokenError>(e));
        },
    }
}

/// Little-endian recomposition of a 16-bit integer from its two bytes.
proof fn lemma_u16_round(b: Seq<u8>, i: int, x: u16)
    requires
        0 <= i,
        i + 2 <= b.len(),
        b.subrange(i, i + 2) == enc_u16(x),
    ensures
        read_u16(b, i) == x,
{
    assert(b[i] == enc_u16(x)[0]);
    assert(b[i + 1] == enc_u16(x)[1]);
    vstd::arithmetic::div_mod::lemma_fundamental_div_mod(x as int, 256);
}

/// Little-endian recomposition of a 32-bit integer from its four bytes.
proof fn lemma_u32_round(b: Seq<u8>, i: int, x: u32)
    requires
        0 <= i,
        i + 4 <= b.len(),
        b.subrange(i, i + 4) == enc_u32(x),
    ensures
        read_u32(b, i) == x,
{
    assert(b[i] == enc_u32(x)[0]);
    assert(b[i + 1] == enc_u32(x)[1]);
    assert(b[i + 2] == enc_u32(x)[2]);
    assert(b[i + 3] == enc_u32(x)[3]);
    let xi = x as int;
    vstd::arithmetic::div_mod::lemma_fundamental_div_mod(xi, 256);
    vstd::arithmetic::div_mod::lemma_fundamental_div_mod(xi / 256, 256);
    vstd::arithmetic::div_mod::lemma_fundamental_div_mod(xi / 65536, 256);
    vstd::arithmetic::div_mod::lemma_div_denominator(xi, 256, 256);
    vstd::arithmetic::div_mod::lemma_div_denominator(xi, 65536, 256);
}

/// Encoding distributes over concatenation of topping lists.
proof fn lemma_enc_toppings_concat(a: Seq<ToppingModel>, c: Seq<ToppingModel>)
    ensures
        enc_toppings(a + c) == enc_toppings(a) + enc_toppings(c),
    decreases a.len(),
{
    if a.len() == 0 {
        assert(a + c =~= c);
        assert(enc_toppings(a) + enc_toppings(c) =~= enc_toppings(c));
    } else {
        assert((a + c).len() > 0);
        assert((a + c)[0] == a[0]);
        assert((a + c).drop_first() =~= a.drop_first() + c);
        lemma_enc_toppings_concat(a.drop_first(), c);
        assert(enc_topping(a[0]) + (enc_toppings(a.drop_first()) + enc_toppings(c)) =~= (
        enc_topping(a[0]) + enc_toppings(a.drop_first())) + enc_toppings(c));
    }
}

/// Appending one topping appends its encoding.
proof fn lemma_enc_toppings_snoc(ts: Seq<ToppingModel>, i: int)
    requires
        0 <= i < ts.len(),
    ensures
        enc_toppings(ts.take(i + 1)) == enc_toppings(ts.take(i)) + enc_topping(ts[i]),
{
    let one = seq![ts[i]];
    assert(ts.take(i + 1) =~= ts.take(i) + one);
    lemma_enc_toppings_concat(ts.take(i), one);
    assert(one.drop_first() =~= Seq::<ToppingModel>::empty());
    assert(enc_toppings(one.drop_first()) =~= Seq::<u8>::empty());
    assert(enc_toppings(one) =~= enc_topping(one[0]) + enc_toppings(one.drop_first()));
    assert(enc_toppings(one) =~= enc_topping(ts[i]));
}

/// Round trip for the topping section: parsing the encoding of a list of
/// well-formed toppings yields exactly that list and stops right after it.
proof fn lemma_toppings_round_trip(b: Seq<u8>, i: int, ts: Seq<ToppingModel>)
    requires
        0 <= i,
        i + enc_toppings(ts).len() <= b.len(),
        b.subrange(i, i + enc_toppings(ts).len()) == enc_toppings(ts),
        forall|j: int| 0 <= j < ts.len() ==> wf_topping(#[trigger] ts[j]),
    ensures
        dec_toppings(b, i, ts.len()) == Ok::<(Seq<ToppingModel>, int), TokenError>(
            (ts, i + enc_toppings(ts).len()),
        ),
    decreases ts.len(),
{
    if ts.len() == 0 {
        assert(ts =~= Seq::<ToppingModel>::empty());
    } else {
        let t0 = ts[0];
        let e0 = enc_topping(t0);
        let rest = ts.drop_first();
        let er = enc_toppings(rest);
        assert(wf_topping(t0));
        let nl = t0.name.len() as int;
        let vl = t0.value.len() as int;
        assert(e0.len() == 4 + nl + vl);
        let ebig = enc_toppings(ts);
        assert(ebig == e0 + er);
        assert forall|j: int| 0 <= j < ebig.len() implies b[i + j] == #[trigger] ebig[j] by {
            assert(b.subrange(i, i + ebig.len())[j] == ebig[j]);
            assert(b.subrange(i, i + ebig.len())[j] == b[i + j]);
        }
        assert forall|j: int| 0 <= j < e0.len() implies b[i + j] == #[trigger] e0[j] by {
            assert(ebig[j] == e0[j]);
            assert(b[i + j] == ebig[j]);
        }
        assert(b.subrange(i, i + 2) =~= enc_u16(t0.name.len() as u16)) by {
            assert(forall|k: int| 0 <= k < 2 ==> b[i + k] == #[trigger] e0[k]);
        }
        lemma_u16_round(b, i, t0.name.len() as u16);
        assert(read_u16(b, i) == nl);
        assert(b.subrange(i + 2, i + 2 + nl) =~= t0.name) by {
            assert(forall|k: int|
                0 <= k < nl ==> b[i + (2 + k)] == e0[2 + k] && e0[2 + k] == #[trigger] t0.name[k]);
        }
        assert(b.subrange(i + 2 + nl, i + 4 + nl) =~= enc_u16(t0.value.len() as u16)) by {
            assert(forall|k: int|
                0 <= k < 2 ==> b[i + (2 + nl + k)] == e0[2 + nl + k] && e0[2 + nl + k]
                    == #[trigger] enc_u16(t0.value.len() as u16)[k]);
        }
        lemma_u16_round(b, i + 2 + nl, t0.value.len() as u16);
        assert(read_u16(b, i + 2 + nl) == vl);
        assert(b.subrange(i + 4 + nl, i + 4 + nl + vl) =~= t0.value) by {
            assert(forall|k: int|
                0 <= k < vl ==> b[i + (4 + nl + k)] == e0[4 + nl + k] && e0[4 + nl + k]
                    == #[trigger] t0.value[k]);
        }
        let nxt = i + 4 + nl + vl;
        assert(b.subrange(nxt, nxt + er.len()) =~= er) by {
            assert(forall|k: int|
                0 <= k < er.len() ==> b[i + (e0.len() + k)] == ebig[e0.len() + k] && ebig[e0.len()
                    + k] == #[trigger] er[k]);
        }
        assert(forall|j: int| 0 <= j < rest.len() ==> wf_topping(#[trigger] rest[j]));
        lemma_toppings_round_trip(b, nxt, rest);
        lemma_dec_toppings_step(b, i, ts.len());
        let tm = ToppingModel {
            name: b.subrange(i + 2, i + 2 + nl),
            value: b.subrange(i + 4 + nl, i + 4 + nl + vl),
        };
        assert(tm =~~= t0);
        assert(seq![t0] + rest =~= ts);
        assert(dec_toppings(b, i, ts.len()) == dec_cont(
            seq![t0],
            Ok::<(Seq<ToppingModel>, int), TokenError>((rest, nxt + er.len())),
        ));
    }
}

/// The canonical payload ignores the signature fields: two models that
/// agree on everything but the signature have the same payload bytes.
pub proof fn lemma_payload_ignores_sig(a: TokenModel, b: TokenModel)
    requires
        a == (TokenModel { sig: a.sig, ..b }),
    ensures
        payload_spec(a) == payload_spec(b),
{
    assert(fee_seq(a) == fee_seq(b));
}

/// Round trip: decoding the encoding of any well-formed token model
/// yields exactly that model.
#[verifier::rlimit(100)]
pub proof fn lemma_round_trip(m: TokenModel)
    requires
        wf(m),
    ensures
        decode_spec(encode_spec(m)) == Ok::<TokenModel, TokenError>(m),
{
    let b = encode_spec(m);
    let tag = version_tag(m.version);
    let w = id_width(m.version) as int;
    let fl: int = if m.version is V0 {
        0
    } else {
        1
    };
    let p = payload_spec(m);
    let tail = sig_tail_spec(m);
    let sw = sig_width(m.version) as int;
    match m.fee_mode {
        None => {
            assert(fee_seq(m).len() == fl);
        },
        Some(f) => {
            assert(fee_seq(m).len() == fl);
        },
    }
    let et = enc_toppings(m.toppings);
    assert(p.len() == 12 + 2 * w + fl + et.len());
    match m.sig {
        None => {
            assert(tail.len() == 1 + sw);
        },
        Some(s) => {
            assert(tail.len() == 1 + sw);
        },
    }
    assert(b.len() == p.len() + 1 + sw);
    assert(b.subrange(0, 2) =~= enc_u16(tag));
    lemma_u16_round(b, 0, tag);
    assert(read_u16(b, 0) == tag && tag <= 1);
    assert(version_of_tag(tag) == m.version);
    assert(b.subrange(2, 2 + w) =~= m.issuer);
    assert(b.subrange(2 + w, 2 + 2 * w) =~= m.holder);
    match m.fee_mode {
        None => {},
        Some(f) => {
            assert(b[2 + 2 * w] == fee_byte(f));
            assert(fee_byte(f) <= 1);
            assert(fee_of_byte(fee_byte(f)) == f);
        },
    }
    assert(b.subrange(2 + 2 * w + fl, 6 + 2 * w + fl) =~= enc_u32(m.not_before));
    lemma_u32_round(b, 2 + 2 * w + fl, m.not_before);
    assert(b.subrange(6 + 2 * w + fl, 10 + 2 * w + fl) =~= enc_u32(m.expiry));
    lemma_u32_round(b, 6 + 2 * w + fl, m.expiry);
    assert(b.subrange(10 + 2 * w + fl, 12 + 2 * w + fl) =~= enc_u16(m.toppings.len() as u16));
    lemma_u16_round(b, 10 + 2 * w + fl, m.toppings.len() as u16);
    assert(read_u16(b, 10 + 2 * w + fl) as nat == m.toppings.len());
    let start = 12 + 2 * w + fl;
    assert(b.subrange(start, start + et.len()) =~= et);
    lemma_toppings_round_trip(b, start, m.toppings);
    let end = start + et.len();
    assert(end == p.len());
    match m.sig {
        None => {
            assert(b[end] == UNSIGNED_SCHEME);
        },
        Some(s) => {
            assert(b[end] == scheme_byte(s.scheme));
            assert(scheme_byte(s.scheme) != UNSIGNED_SCHEME);
            assert(scheme_of_byte(scheme_byte(s.scheme)) == Some(s.scheme));
            assert(scheme_allowed(m.version, s.scheme));
            assert(b.subrange(end + 1, end + 1 + sw) =~= s.bytes);
        },
    }
    assert(decode_spec(b) matches Ok(m2) && m2 =~~= m);
}

/// Append the little-endian bytes of a 16-bit integer.
fn push_u16(out: &mut Vec<u8>, x: u16)
    ensures
        final(out)@ == old(out)@ + enc_u16(x),
{
    out.push((x % 256) as u8);
    out.push((x / 256) as u8);
    proof {
        assert(out@ =~= old(out)@ + enc_u16(x));
    }
}

/// Append the little-endian bytes of a 32-bit integer.
fn push_u32(out: &mut Vec<u8>, x: u32)
    ensures
        final(out)@ == old(out)@ + enc_u32(x),
{
    out.push((x % 256) as u8);
    out.push(((x / 256) % 256) as u8);
    out.push(((x / 65536) % 256) as u8);
    out.push((x / 16777216) as u8);
    proof {
        assert(out@ =~= old(out)@ + enc_u32(x));
    }
}

/// Append a byte slice.
fn push_bytes(out: &mut Vec<u8>, b: &[u8])
    ensures
        final(out)@ == old(out)@ + b@,
{
    let mut i: usize = 0;
    proof {
        assert(out@ =~= old(out)@ + b@.take(0));
    }
    while i < b.len()
        invariant
            i <= b@.len(),
            out@ == old(out)@ + b@.take(i as int),
        decreases b@.len() - i,
    {
        out.push(b[i]);
        proof {
            assert(out@ =~= old(out)@ + b@.take(i + 1 as int));
        }
        i = i + 1;
    }
    proof {
        assert(b@.take(b@.len() as int) =~= b@);
    }
}

/// Append `n` zero bytes.
fn push_zeros(out: &mut Vec<u8>, n: usize)
    ensures
        final(out)@ == old(out)@ + zero_bytes(n as nat),
{
    let mut i: usize = 0;
    proof {
        assert(out@ =~= old(out)@ + zero_bytes(0));
    }
    while i < n
        invariant
            i <= n,
            out@ == old(out)@ + zero_bytes(i as nat),
        decreases n - i,
    {
        out.push(0);
        proof {
            assert(out@ =~= old(out)@ + zero_bytes((i + 1) as nat));
        }
        i = i + 1;
    }
}

/// Read the 16-bit little-endian integer at `i`.
fn read_u16_at(b: &[u8], i: usize) -> (r: u16)
    requires
        i + 2 <= b@.len(),
    ensures
        r == read_u16(b@, i as int),
{
    b[i] as u16 + (b[i + 1] as u16) * 256
}

/// Read the 32-bit little-endian integer at `i`.
fn read_u32_at(b: &[u8], i: usize) -> (r: u32)
    requires
        i + 4 <= b@.len(),
    ensures
        r == read_u32(b@, i as int),
{
    b[i] as u32 + (b[i + 1] as u32) * 256 + (b[i + 2] as u32) * 65536 + (b[i + 3] as u32)
        * 16777216
}

/// Copy the bytes of `b` between `i` and `j` into a fresh vector.
fn copy_range(b: &[u8], i: usize, j: usize) -> (r: Vec<u8>)
    requires
        i <= j,
        j <= b@.len(),
    ensures
        r@ == b@.subrange(i as int, j as int),
{
    let mut out: Vec<u8> = Vec::new();
    proof {
        assert(out@ =~= b@.subrange(i as int, i as int));
    }
    let mut k: usize = i;
    while k < j
        invariant
            i <= k <= j,
            j <= b@.len(),
            out@ == b@.subrange(i as int, k as int),
        decreases j - k,
    {
        out.push(b[k]);
        proof {
            assert(out@ =~= b@.subrange(i as int, (k + 1) as int));
        }
        k = k + 1;
    }
    out
}

/// The wire byte of a fee mode.
fn fee_byte_of(f: FeeMode) -> (r: u8)
    ensures
        r == fee_byte(f),
{
    match f {
        FeeMode::Issuer => 0,
        FeeMode::Holder => 1,
    }
}

/// The wire byte of a scheme.
pub(crate) fn scheme_byte_of(s: SignatureScheme) -> (r: u8)
    ensures
        r == scheme_byte(s),
{
    match s {
        SignatureScheme::Sr25519 => 0,
        SignatureScheme::Ed25519 => 1,
        SignatureScheme::Ecdsa => 2,
        SignatureScheme::Eip191 => 3,
    }
}

impl Token {
    /// The canonical payload bytes of this token: exactly the bytes that
    /// are signed and verified.
    #[verifier::loop_isolation(false)]
    #[verifier::rlimit(60)]
    pub fn payload(&self) -> (r: Vec<u8>)
        requires
            wf(self@),
        ensures
            r@ == payload_spec(self@),
    {
        let ghost m = self@;
        let mut out: Vec<u8> = Vec::new();
        push_u16(&mut out, self.payload_version());
        let ghost c1 = enc_u16(version_tag(m.version));
        proof {
            assert(out@ =~= c1);
        }
        push_bytes(&mut out, self.issuer().as_slice());
        let ghost c2 = c1 + m.issuer;
        push_bytes(&mut out, self.holder().as_slice());
        let ghost c3 = c2 + m.holder;
        match self.fee_mode() {
            None => {
                proof {
                    assert(c3 + fee_seq(m) =~= c3);
                }
            },
            Some(f) => {
                out.push(fee_byte_of(f));
                proof {
                    assert(c3 + seq![fee_byte(f)] =~= c3 + fee_seq(m));
                }
            },
        }
        let ghost c4 = c3 + fee_seq(m);
        proof {
            assert(out@ == c4);
        }
        push_u32(&mut out, self.not_before());
        let ghost c5 = c4 + enc_u32(m.not_before);
        push_u32(&mut out, self.expiry());
        let ghost c6 = c5 + enc_u32(m.expiry);
        let ts = self.toppings();
        proof {
            assert(ts@.map_values(|x: Topping| x@).len() == ts@.len());
        }
        push_u16(&mut out, ts.len() as u16);
        let ghost base = c6 + enc_u16(m.toppings.len() as u16);
        let ghost tsm = m.toppings;
        let mut i: usize = 0;
        proof {
            assert(enc_toppings(tsm.take(0)) =~= Seq::<u8>::empty());
            assert(out@ =~= base + enc_toppings(tsm.take(0)));
        }
        while i < ts.len()
            invariant
                i <= ts@.len(),
                out@ == base + enc_toppings(tsm.take(i as int)),
            decreases ts@.len() - i,
        {
            proof {
                assert(tsm[i as int] == ts@[i as int]@);
                assert(wf_topping(tsm[i as int]));
            }
            let t = &ts[i];
            push_u16(&mut out, t.name.len() as u16);
            push_bytes(&mut out, t.name.as_slice());
            push_u16(&mut out, t.value.len() as u16);
            push_bytes(&mut out, t.value.as_slice());
            proof {
                lemma_enc_toppings_snoc(tsm, i as int);
                assert(out@ =~= base + enc_toppings(tsm.take(i + 1 as int)));
            }
            i = i + 1;
        }
        proof {
            assert(tsm.take(tsm.len() as int) =~= tsm);
            assert(payload_spec(m) == base + enc_toppings(tsm));
        }
        out
    }

    /// The full wire form: canonical payload, scheme byte, signature bytes
    /// (an unsigned marker and zeros when the token carries no signature).
    /// Identical token state always yields identical bytes.
    pub fn encode(&self) -> (r: Vec<u8>)
        requires
            wf(self@),
        ensures
            r@ == encode_spec(self@),
    {
        let mut out = self.payload();
        let sig = match self {
            Token::V0(t) => &t.sig,
            Token::V1(t) => &t.sig,
        };
        match sig {
            None => {
                out.push(UNSIGNED_SCHEME);
                let sw: usize = match self {
                    Token::V0(_) => 64,
                    Token::V1(_) => 65,
                };
                push_zeros(&mut out, sw);
            },
            Some(srec) => {
                out.push(scheme_byte_of(srec.scheme));
                push_bytes(&mut out, srec.bytes.as_slice());
            },
        }
        proof {
            assert(out@ =~= encode_spec(self@));
        }
        out
    }

    /// Decode a token from bytes, strictly: the result is exactly what
    /// `decode_spec` says, so decoding either fully succeeds on a
    /// well-formed token or reports the first failing field.
    #[verifier::loop_isolation(false)]
    #[verifier::rlimit(60)]
    pub fn decode(input: &[u8]) -> (r: Result<Token, TokenError>)
        ensures
            r matches Ok(t) ==> decode_spec(input@) == Ok::<TokenModel, TokenError>(t@) && wf(
                t@,
            ),
            r matches Err(e) ==> decode_spec(input@) == Err::<TokenModel, TokenError>(e),
    {
        let n = input.len();
        if n < 2 {
            return Err(TokenError::TruncatedInput);
        }
        let tag = read_u16_at(input, 0);
        if tag > 1 {
            return Err(TokenError::UnknownVersion);
        }
        let w: usize = if tag == 0 {
            32
        } else {
            33
        };
        let fl: usize = if tag == 0 {
            0
        } else {
            1
        };
        if n < 12 + 2 * w + fl {
            return Err(TokenError::TruncatedInput);
        }
        if tag == 1 && input[2 + 2 * w] > 1 {
            return Err(TokenError::UnsupportedFeeMode);
        }
        let issuer = copy_range(input, 2, 2 + w);
        let holder = copy_range(input, 2 + w, 2 + 2 * w);
        let nb = read_u32_at(input, 2 + 2 * w + fl);
        let exp = read_u32_at(input, 6 + 2 * w + fl);
        let cnt = read_u16_at(input, 10 + 2 * w + fl);
        let start: usize = 12 + 2 * w + fl;
        let total = cnt as usize;
        let mut toppings: Vec<Topping> = Vec::new();
        let mut pos: usize = start;
        let mut k: usize = 0;
        proof {
            assert(toppings@.map_values(|x: Topping| x@) =~= Seq::<ToppingModel>::empty());
            lemma_dec_cont_empty(dec_toppings(input@, start as int, cnt as nat));
        }
        while k < total
            invariant
                k <= total,
                pos <= n,
                toppings@.len() == k,
                dec_toppings(input@, start as int, cnt as nat) == dec_cont(
                    toppings@.map_values(|x: Topping| x@),
                    dec_toppings(input@, pos as int, (total - k) as nat),
                ),
                forall|j: int|
                    0 <= j < toppings@.len() ==> (#[trigger] toppings@[j])@.name.len() <= 0xFFFF
                        && toppings@[j]@.value.len() <= 0xFFFF,
            decreases total - k,
        {
            let ghost rem = (total - k) as nat;
            let ghost acc0 = toppings@.map_values(|x: Topping| x@);
            let ghost pos0 = pos as int;
            if n - pos < 2 {
                proof {
                    assert(dec_toppings(input@, pos0, rem) == Err::<
                        (Seq<ToppingModel>, int),
                        TokenError,
                    >(TokenError::TruncatedInput));
                }
                return Err(TokenError::TruncatedInput);
            }
            let nl = read_u16_at(input, pos) as usize;
            if n - (pos + 2) < nl {
                proof {
                    assert(dec_toppings(input@, pos0, rem) == Err::<
                        (Seq<ToppingModel>, int),
                        TokenError,
                    >(TokenError::MalformedTopping));
                }
                return Err(TokenError::MalformedTopping);
            }
            let name = copy_range(input, pos + 2, pos + 2 + nl);
            let jpos = pos + 2 + nl;
            if n - jpos < 2 {
                proof {
                    assert(dec_toppings(input@, pos0, rem) == Err::<
                        (Seq<ToppingModel>, int),
                        TokenError,
                    >(TokenError::TruncatedInput));
                }
                return Err(TokenError::TruncatedInput);
            }
            let vl = read_u16_at(input, jpos) as usize;
            if n - (jpos + 2) < vl {
                proof {
                    assert(dec_toppings(input@, pos0, rem) == Err::<
                        (Seq<ToppingModel>, int),
                        TokenError,
                    >(TokenError::MalformedTopping));
                }
                return Err(TokenError::MalformedTopping);
            }
            let value = copy_range(input, jpos + 2, jpos + 2 + vl);
            toppings.push(Topping { name, value });
            pos = jpos + 2 + vl;
            k = k + 1;
            proof {
                let tm = ToppingModel {
                    name: input@.subrange(pos0 + 2, pos0 + 2 + nl as int),
                    value: input@.subrange(pos0 + 4 + nl as int, pos0 + 4 + nl as int + vl as int),
                };
                assert(toppings@.map_values(|x: Topping| x@) =~= acc0.push(tm));
                lemma_dec_toppings_step(input@, pos0, rem);
                lemma_dec_cont_push(acc0, tm, dec_toppings(input@, pos as int, (rem - 1) as nat));
            }
        }
        proof {
            let acc = toppings@.map_values(|x: Topping| x@);
            assert(dec_toppings(input@, pos as int, 0) == Ok::<(Seq<ToppingModel>, int), TokenError>(
                (Seq::empty(), pos as int),
            ));
            assert(acc + Seq::<ToppingModel>::empty() =~= acc);
            assert(dec_toppings(input@, start as int, cnt as nat) == Ok::<
                (Seq<ToppingModel>, int),
                TokenError,
            >((acc, pos as int)));
        }
        let sw: usize = if tag == 0 {
            64
        } else {
            65
        };
        if n - pos < 1 + sw {
            return Err(TokenError::TruncatedInput);
        }
        let sb = input[pos];
        let sig: Option<SignatureRecord> = if sb == UNSIGNED_SCHEME {
            None
        } else {
            let s = match crate::token::scheme_from_byte(sb) {
                None => {
                    return Err(TokenError::UnsupportedScheme);
                },
                Some(s) => s,
            };
            let ok = if tag == 0 {
                matches!(s, SignatureScheme::Sr25519 | SignatureScheme::Ed25519)
            } else {
                matches!(s, SignatureScheme::Ecdsa | SignatureScheme::Eip191)
            };
            if !ok {
                return Err(TokenError::UnsupportedScheme);
            }
            let bytes = copy_range(input, pos + 1, pos + 1 + sw);
            Some(SignatureRecord { scheme: s, bytes })
        };
        let tok = if tag == 0 {
            Token::V0(TokenV0 { issuer, holder, not_before: nb, expiry: exp, toppings, sig })
        } else {
            let fm = if input[2 + 2 * w] == 0 {
                FeeMode::Issuer
            } else {
                FeeMode::Holder
            };
            Token::V1(TokenV1 {
                issuer,
                holder,
                fee_mode: fm,
                not_before: nb,
                expiry: exp,
                toppings,
                sig,
            })
        };
        proof {
            assert(decode_spec(input@) matches Ok(m) && tok@ =~~= m);
            assert(wf(tok@));
        }
        Ok(tok)
    }
}

} // verus!
