use auth_core::token::{JwtClaims, TokenCodec, TOKEN_VALIDITY_SECS};
use auth_core::AuthError;

fn codec_with(secret: &[u8]) -> TokenCodec {
    TokenCodec::new(secret.to_vec()).expect("non-empty secret must be accepted")
}

#[test]
fn empty_secret_is_refused() {
    assert!(TokenCodec::new(Vec::new()).is_none());
}

#[test]
fn mint_decode_roundtrip() {
    let codec = codec_with(b"test-secret");
    let (token, claims) = codec.mint(7, "user@example.com");
    let decoded = codec.decode(&token).expect("a fresh token must decode");
    assert_eq!(decoded.sub, 7);
    assert_eq!(decoded.email, "user@example.com");
    assert_eq!(decoded.iat, claims.iat);
    assert_eq!(decoded.exp, claims.exp);
    assert_eq!(claims.exp - claims.iat, TOKEN_VALIDITY_SECS);
}

#[test]
fn roundtrip_keeps_unusual_emails() {
    let codec = codec_with(b"test-secret");
    let (token, _) = codec.mint(1, "Ünïcode+tag@ex.ample");
    let decoded = codec.decode(&token).expect("must decode");
    assert_eq!(decoded.email, "Ünïcode+tag@ex.ample");
    let (token2, _) = codec.mint(2, "");
    let decoded2 = codec.decode(&token2).expect("must decode");
    assert_eq!(decoded2.email, "");
}

#[test]
fn decode_with_other_secret_fails() {
    let minting = codec_with(b"secret-one");
    let decoding = codec_with(b"secret-two");
    let (token, _) = minting.mint(7, "user@example.com");
    match decoding.decode(&token) {
        Err(e) => assert_eq!(e, AuthError::InvalidToken),
        Ok(_) => panic!("a token signed under another secret must not decode"),
    }
    assert!(minting.decode(&token).is_ok());
}

#[test]
fn decode_rejects_garbage() {
    let codec = codec_with(b"test-secret");
    assert!(codec.decode("garbage").is_err());
    assert!(codec.decode("").is_err());
    assert!(codec.decode(".").is_err());
    assert!(codec.decode("deadbeef.").is_err());
}

#[test]
fn decode_rejects_tampered_payload() {
    let codec = codec_with(b"test-secret");
    let (token, _) = codec.mint(7, "user@example.com");
    let mut chars: Vec<char> = token.chars().collect();
    chars[0] = if chars[0] == '0' { '1' } else { '0' };
    let tampered: String = chars.into_iter().collect();
    assert!(codec.decode(&tampered).is_err());
}

#[test]
fn decode_rejects_tampered_signature() {
    let codec = codec_with(b"test-secret");
    let (token, _) = codec.mint(7, "user@example.com");
    let tampered = format!("{}x", token);
    assert!(codec.decode(&tampered).is_err());
}

#[test]
fn expiry_is_a_strict_comparison_after_decode() {
    let codec = codec_with(b"test-secret");
    let issued: u64 = 1000;
    let claims = JwtClaims::new_at(9, String::from("user@example.com"), issued);
    let token = claims.encode(&codec);
    let decoded = codec.decode(&token).expect("signature must still check");
    assert_eq!(decoded.exp, issued + TOKEN_VALIDITY_SECS);
    assert!(!decoded.is_expired_at(decoded.exp));
    assert!(decoded.is_expired_at(decoded.exp + 1));
}

#[test]
fn fresh_claims_are_not_expired() {
    let claims = JwtClaims::new(3, String::from("user@example.com"));
    assert!(!claims.is_expired());
    assert_eq!(claims.exp - claims.iat, TOKEN_VALIDITY_SECS);
}
