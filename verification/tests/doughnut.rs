use doughnut_core::errors::TokenError;
use doughnut_core::token::{FeeMode, SignatureScheme, Token};

fn hex(s: &str) -> Vec<u8> {
    let b = s.as_bytes();
    assert!(b.len() % 2 == 0);
    let mut out = Vec::new();
    let digit = |c: u8| -> u8 {
        match c {
            b'0'..=b'9' => c - b'0',
            b'a'..=b'f' => c - b'a' + 10,
            b'A'..=b'F' => c - b'A' + 10,
            _ => panic!("not a hex digit"),
        }
    };
    let mut i = 0;
    while i < b.len() {
        out.push(digit(b[i]) * 16 + digit(b[i + 1]));
        i += 2;
    }
    out
}

// RFC 8032, Ed25519 test vector 1.
fn ed25519_secret() -> Vec<u8> {
    hex("9d61b19deffd5a60ba844af492ec2cc44449c5697b326919703bac031cae7f60")
}

fn ed25519_public() -> Vec<u8> {
    hex("d75a980182b10ab7d54bfed3c964073a0ee172f3daa62325af021a68f707511a")
}

// The sr25519 pair from schnorrkel's from_ed25519_bytes documentation.
fn sr25519_secret() -> Vec<u8> {
    hex("28b0ae221c6bb06856b287f60d7ea0d98552ea5a16db16956849aa371db3eb51fd190cce74df356432b410bd64682309d6dedb27c76845daf388557cbac3ca34")
}

fn sr25519_public() -> Vec<u8> {
    hex("46ebddef8cd9bb167dc30878d7113b7e168e6f0646beffd77d69d39bad76b47a")
}

// secp256k1: the secret scalar 1 and the compressed generator point.
fn secp_secret() -> Vec<u8> {
    let mut k = vec![0u8; 32];
    k[31] = 1;
    k
}

fn secp_public() -> Vec<u8> {
    hex("0279be667ef9dcbbac55a06295ce870b07029bfcdb2dce28d959f2815b16f81798")
}

fn holder32() -> Vec<u8> {
    let mut h = vec![0u8; 32];
    h[0] = 2;
    h
}

fn holder33() -> Vec<u8> {
    let mut h = vec![0u8; 33];
    h[0] = 2;
    h
}

fn v0_token() -> Token {
    Token::create(0, &ed25519_public(), &holder32(), 0, 2000, 1000).unwrap()
}

fn v1_token() -> Token {
    Token::create(1, &secp_public(), &holder33(), 1, 2000, 1000).unwrap()
}

#[test]
fn create_rejects_bad_version() {
    let r = Token::create(2, &[0u8; 32], &[0u8; 32], 0, 10, 0);
    assert_eq!(r.unwrap_err(), TokenError::UnsupportedVersion);
}

#[test]
fn create_rejects_bad_fee_mode() {
    let r = Token::create(1, &[0u8; 33], &[0u8; 33], 2, 10, 0);
    assert_eq!(r.unwrap_err(), TokenError::UnsupportedFeeMode);
    // fee mode is ignored on version 0
    assert!(Token::create(0, &[0u8; 32], &[0u8; 32], 9, 10, 0).is_ok());
}

#[test]
fn create_rejects_short_keys() {
    let r = Token::create(0, &[0u8; 31], &[0u8; 32], 0, 10, 0);
    assert_eq!(r.unwrap_err(), TokenError::InvalidKeyLength);
    let r = Token::create(1, &[0u8; 33], &[0u8; 32], 0, 10, 0);
    assert_eq!(r.unwrap_err(), TokenError::InvalidKeyLength);
}

#[test]
fn create_truncates_long_keys() {
    let mut long = vec![7u8; 40];
    long[0] = 1;
    let t = Token::create(0, &long, &holder32(), 0, 10, 0).unwrap();
    assert_eq!(t.issuer().len(), 32);
    assert_eq!(t.issuer()[0], 1);
    assert_eq!(t.holder().len(), 32);
}

#[test]
fn accessors_report_fields() {
    let t = v1_token();
    assert_eq!(t.payload_version(), 1);
    assert_eq!(t.fee_mode(), Some(FeeMode::Holder));
    assert_eq!(t.not_before(), 1000);
    assert_eq!(t.expiry(), 2000);
    assert_eq!(t.issuer().as_slice(), secp_public().as_slice());
    assert_eq!(t.holder().as_slice(), holder33().as_slice());
    assert_eq!(t.signature_version(), None);
    assert!(t.signature().is_none());
}

#[test]
fn round_trip_v0_unsigned_no_toppings() {
    let t = v0_token();
    let bytes = t.encode();
    let back = Token::decode(&bytes).unwrap();
    assert_eq!(back, t);
}

#[test]
fn round_trip_v0_with_toppings() {
    let t = v0_token().add_topping(b"scope", b"read").add_topping(b"api", b"v1");
    let bytes = t.encode();
    let back = Token::decode(&bytes).unwrap();
    assert_eq!(back, t);
    assert_eq!(back.get_topping(b"scope").unwrap().as_slice(), b"read");
    assert_eq!(back.get_topping(b"api").unwrap().as_slice(), b"v1");
}

#[test]
fn round_trip_v1_with_attached_signature() {
    let t = v1_token().add_topping(b"k", b"v").add_signature(&[9u8; 65], 2).unwrap();
    let bytes = t.encode();
    let back = Token::decode(&bytes).unwrap();
    assert_eq!(back, t);
    assert_eq!(back.signature_version(), Some(SignatureScheme::Ecdsa));
    assert_eq!(back.signature().unwrap().as_slice(), &[9u8; 65][..]);
}

#[test]
fn encode_exact_bytes() {
    let issuer = vec![1u8; 32];
    let holder = vec![2u8; 32];
    let t = Token::create(0, &issuer, &holder, 0, 0x01020304, 0x05060708)
        .unwrap()
        .add_topping(b"ab", b"z");
    let mut want: Vec<u8> = Vec::new();
    want.extend_from_slice(&[0, 0]); // version tag, little-endian
    want.extend_from_slice(&issuer);
    want.extend_from_slice(&holder);
    want.extend_from_slice(&[0x08, 0x07, 0x06, 0x05]); // not_before
    want.extend_from_slice(&[0x04, 0x03, 0x02, 0x01]); // expiry
    want.extend_from_slice(&[1, 0]); // one topping
    want.extend_from_slice(&[2, 0]); // name length
    want.extend_from_slice(b"ab");
    want.extend_from_slice(&[1, 0]); // value length
    want.extend_from_slice(b"z");
    want.push(255); // unsigned marker
    want.extend_from_slice(&[0u8; 64]);
    assert_eq!(t.encode(), want);
    // the canonical payload is everything before the signature trailer
    assert_eq!(t.payload(), want[..want.len() - 65].to_vec());
}

#[test]
fn decode_rejects_truncated_input() {
    assert_eq!(Token::decode(&[]).unwrap_err(), TokenError::TruncatedInput);
    assert_eq!(Token::decode(&[0]).unwrap_err(), TokenError::TruncatedInput);
    let head = v0_token().encode();
    assert_eq!(Token::decode(&head[..20]).unwrap_err(), TokenError::TruncatedInput);
    // drop one signature byte
    assert_eq!(
        Token::decode(&head[..head.len() - 1]).unwrap_err(),
        TokenError::TruncatedInput
    );
}

#[test]
fn decode_rejects_unknown_version() {
    let mut bytes = v0_token().encode();
    bytes[0] = 7;
    assert_eq!(Token::decode(&bytes).unwrap_err(), TokenError::UnknownVersion);
}

#[test]
fn decode_rejects_malformed_topping() {
    let t = v0_token().add_topping(b"scope", b"read");
    let mut bytes = t.encode();
    // inflate the declared name length past the remaining bytes
    bytes[2 + 64 + 8 + 2] = 0xFF;
    bytes[2 + 64 + 8 + 3] = 0xFF;
    assert_eq!(Token::decode(&bytes).unwrap_err(), TokenError::MalformedTopping);
}

#[test]
fn decode_rejects_unknown_scheme_byte() {
    let t = v0_token();
    let mut bytes = t.encode();
    let scheme_at = bytes.len() - 65;
    bytes[scheme_at] = 9;
    assert_eq!(Token::decode(&bytes).unwrap_err(), TokenError::UnsupportedScheme);
    // a version 1 scheme on a version 0 token is just as unusable
    bytes[scheme_at] = 2;
    assert_eq!(Token::decode(&bytes).unwrap_err(), TokenError::UnsupportedScheme);
}

#[test]
fn decode_rejects_bad_fee_mode_byte() {
    let t = v1_token();
    let mut bytes = t.encode();
    bytes[2 + 66] = 5;
    assert_eq!(Token::decode(&bytes).unwrap_err(), TokenError::UnsupportedFeeMode);
}

#[test]
fn signing_rejects_wrong_scheme_for_version() {
    assert_eq!(
        v0_token().sign_ecdsa(&secp_secret()).unwrap_err(),
        TokenError::SchemeVersionMismatch
    );
    assert_eq!(
        v0_token().sign_eip191(&secp_secret()).unwrap_err(),
        TokenError::SchemeVersionMismatch
    );
    assert_eq!(
        v1_token().sign_sr25519(&sr25519_secret()).unwrap_err(),
        TokenError::SchemeVersionMismatch
    );
    assert_eq!(
        v1_token().sign_ed25519(&ed25519_secret()).unwrap_err(),
        TokenError::SchemeVersionMismatch
    );
}

#[test]
fn signing_rejects_wrong_key_width() {
    assert_eq!(
        v0_token().sign_ed25519(&[0u8; 31]).unwrap_err(),
        TokenError::InvalidKeyLength
    );
    assert_eq!(
        v0_token().sign_sr25519(&[0u8; 32]).unwrap_err(),
        TokenError::InvalidKeyLength
    );
    assert_eq!(
        v1_token().sign_ecdsa(&[0u8; 33]).unwrap_err(),
        TokenError::InvalidKeyLength
    );
    assert_eq!(
        v1_token().sign_eip191(&[0u8; 31]).unwrap_err(),
        TokenError::InvalidKeyLength
    );
}

#[test]
fn attaching_checks_scheme_and_width() {
    // a 64-byte signature is too narrow for a version 1 token
    assert_eq!(
        v1_token().add_signature(&[0u8; 64], 2).unwrap_err(),
        TokenError::InvalidSignatureLength
    );
    assert_eq!(
        v0_token().add_signature(&[0u8; 65], 0).unwrap_err(),
        TokenError::InvalidSignatureLength
    );
    // scheme byte outside the version's set
    assert_eq!(
        v0_token().add_signature(&[0u8; 64], 2).unwrap_err(),
        TokenError::SchemeVersionMismatch
    );
    assert_eq!(
        v1_token().add_signature(&[0u8; 65], 1).unwrap_err(),
        TokenError::SchemeVersionMismatch
    );
    assert_eq!(
        v0_token().add_signature(&[0u8; 64], 9).unwrap_err(),
        TokenError::SchemeVersionMismatch
    );
    // matching scheme and width attach atomically
    let t = v0_token().add_signature(&[3u8; 64], 1).unwrap();
    assert_eq!(t.signature_version(), Some(SignatureScheme::Ed25519));
    assert_eq!(t.signature().unwrap().as_slice(), &[3u8; 64][..]);
}

#[test]
fn window_bounds_are_inclusive() {
    let t = Token::create(0, &[1u8; 32], &holder32(), 0, 200, 100).unwrap();
    let who = holder32();
    assert!(t.validate(&who, 100).is_ok());
    assert!(t.validate(&who, 200).is_ok());
    assert_eq!(t.validate(&who, 99).unwrap_err(), TokenError::NotYetValid);
    assert_eq!(t.validate(&who, 201).unwrap_err(), TokenError::Expired);
}

#[test]
fn validate_rejects_wrong_holder() {
    let t = Token::create(0, &[1u8; 32], &holder32(), 0, 200, 100).unwrap();
    let mut who = holder32();
    who[31] ^= 1;
    assert_eq!(t.validate(&who, 150).unwrap_err(), TokenError::WrongHolder);
    let short = &who[..31];
    assert_eq!(t.validate(short, 150).unwrap_err(), TokenError::WrongHolder);
}

#[test]
fn first_topping_match_wins() {
    let t = v0_token().add_topping(b"scope", b"read").add_topping(b"scope", b"write");
    assert_eq!(t.get_topping(b"scope").unwrap().as_slice(), b"read");
    assert_eq!(
        t.get_topping(b"missing").unwrap_err(),
        TokenError::ToppingNotFound
    );
}

#[test]
fn unsigned_token_has_no_usable_scheme() {
    let t = v0_token();
    assert_eq!(t.verify_signature().unwrap_err(), TokenError::UnsupportedScheme);
    assert!(!t.verify(&holder32(), 1500));
}

#[test]
fn end_to_end_ed25519() {
    let t = v0_token()
        .add_topping(b"api", b"v1")
        .sign_ed25519(&ed25519_secret())
        .unwrap();
    assert_eq!(t.signature_version(), Some(SignatureScheme::Ed25519));
    assert_eq!(t.signature().unwrap().len(), 64);
    let bytes = t.encode();
    let back = Token::decode(&bytes).unwrap();
    assert_eq!(back, t);
    assert!(back.verify(&holder32(), 1500));
    assert!(back.verify_checked(&holder32(), 1500).is_ok());
    // expired at 2500
    assert!(!back.verify(&holder32(), 2500));
    assert_eq!(
        back.verify_checked(&holder32(), 2500).unwrap_err(),
        TokenError::Expired
    );
    // wrong holder
    assert!(!back.verify(&[0u8; 32], 1500));
    // a corrupted signature no longer verifies
    let mut sig = back.signature().unwrap().clone();
    sig[0] ^= 1;
    let forged = v0_token()
        .add_topping(b"api", b"v1")
        .add_signature(&sig, 1)
        .unwrap();
    assert_eq!(
        forged.verify_signature().unwrap_err(),
        TokenError::InvalidSignature
    );
}

#[test]
fn end_to_end_sr25519() {
    let t = Token::create(0, &sr25519_public(), &holder32(), 0, 2000, 1000)
        .unwrap()
        .sign_sr25519(&sr25519_secret())
        .unwrap();
    assert_eq!(t.signature_version(), Some(SignatureScheme::Sr25519));
    assert_eq!(t.signature().unwrap().len(), 64);
    let back = Token::decode(&t.encode()).unwrap();
    assert!(back.verify(&holder32(), 1000));
}

#[test]
fn end_to_end_ecdsa() {
    let t = v1_token()
        .add_topping(b"scope", b"write")
        .sign_ecdsa(&secp_secret())
        .unwrap();
    assert_eq!(t.signature_version(), Some(SignatureScheme::Ecdsa));
    assert_eq!(t.signature().unwrap().len(), 65);
    let back = Token::decode(&t.encode()).unwrap();
    assert_eq!(back, t);
    assert!(back.verify(&holder33(), 1500));
    assert!(!back.verify(&holder33(), 999));
}

#[test]
fn end_to_end_eip191() {
    let t = v1_token().sign_eip191(&secp_secret()).unwrap();
    assert_eq!(t.signature_version(), Some(SignatureScheme::Eip191));
    assert_eq!(t.signature().unwrap().len(), 65);
    let back = Token::decode(&t.encode()).unwrap();
    assert!(back.verify(&holder33(), 2000));
    // the payload is bound to the signature: a different topping breaks it
    let other = v1_token().add_topping(b"x", b"y");
    let moved = other.add_signature(t.signature().unwrap(), 3).unwrap();
    assert_eq!(
        moved.verify_signature().unwrap_err(),
        TokenError::InvalidSignature
    );
}

#[test]
fn signing_failure_leaves_an_error() {
    // the zero scalar is not a valid secp256k1 secret key, so the engine
    // rejects it outright
    let r = v1_token().sign_ecdsa(&[0u8; 32]);
    assert_eq!(r.unwrap_err(), TokenError::SigningFailed);
}

#[test]
fn ed25519_signing_is_deterministic() {
    let a = v0_token().sign_ed25519(&ed25519_secret()).unwrap();
    let b = v0_token().sign_ed25519(&ed25519_secret()).unwrap();
    assert_eq!(a.signature().unwrap(), b.signature().unwrap());
}

#[test]
fn secp256k1_signing_is_deterministic() {
    let a = v1_token().sign_ecdsa(&secp_secret()).unwrap();
    let b = v1_token().sign_ecdsa(&secp_secret()).unwrap();
    assert_eq!(a.signature().unwrap(), b.signature().unwrap());
    let c = v1_token().sign_eip191(&secp_secret()).unwrap();
    let d = v1_token().sign_eip191(&secp_secret()).unwrap();
    assert_eq!(c.signature().unwrap(), d.signature().unwrap());
}

#[test]
fn decode_ignores_trailing_bytes() {
    let t = v0_token();
    let mut bytes = t.encode();
    bytes.push(42);
    let back = Token::decode(&bytes).unwrap();
    assert_eq!(back, t);
}
