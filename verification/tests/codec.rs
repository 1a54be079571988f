use base64::Engine;
use hmac::{KeyInit, Mac};
use sharinflame::b64::{b64_decode, b64_encode};
use sharinflame::decimal::{parse_u64, u64_to_dec_string};
use sharinflame::security::{decode_token, decode_token_at, generate_token, generate_token_at, TokenError};

const KEY: &str = "test-signature-key";
const NOW: u64 = 1800000000;

fn mint_access(now: u64) -> String {
    generate_token_at("user-1", "access", false, "secret-1", "777", KEY, now)
}

#[test]
fn round_trip_access_token() {
    let token = mint_access(NOW);
    let d = decode_token_at(&token, Some("access"), KEY, NOW).unwrap();
    assert_eq!(d.user_id, "user-1");
    assert_eq!(d.secret, "secret-1");
    assert_eq!(d.session_id, "777");
    assert_eq!(d.key_type, "access");
    assert_eq!(d.expiration_timestamp, NOW + 3600);
    assert!(!d.is_expired);
}

#[test]
fn round_trip_refresh_token() {
    let token = generate_token_at("user-2", "refresh", true, "s3cr3t", "12345", KEY, NOW);
    let d = decode_token_at(&token, Some("refresh"), KEY, NOW).unwrap();
    assert_eq!(d.user_id, "user-2");
    assert_eq!(d.expiration_timestamp, NOW + 30 * 24 * 3600);
    assert!(!d.is_expired);
}

#[test]
fn round_trip_unicode_fields() {
    let token = generate_token_at("üser-ñ", "access", false, "sécret", "42", KEY, NOW);
    let d = decode_token_at(&token, None, KEY, NOW).unwrap();
    assert_eq!(d.user_id, "üser-ñ");
    assert_eq!(d.secret, "sécret");
}

#[test]
fn round_trip_with_clock() {
    let token = generate_token("user-3", "access", false, "sec", "9", KEY);
    let d = decode_token(&token, Some("access".to_string()), KEY).unwrap();
    assert_eq!(d.user_id, "user-3");
    assert!(!d.is_expired);
}

#[test]
fn expiry_boundary() {
    let token = mint_access(NOW);
    let exp = NOW + 3600;
    let before = decode_token_at(&token, Some("access"), KEY, exp - 1).unwrap();
    assert!(!before.is_expired);
    let at = decode_token_at(&token, Some("access"), KEY, exp).unwrap();
    assert!(!at.is_expired);
    let after = decode_token_at(&token, Some("access"), KEY, exp + 1).unwrap();
    assert!(after.is_expired);
}

#[test]
fn kind_enforcement() {
    let refresh = generate_token_at("user-1", "refresh", true, "sec", "1", KEY, NOW);
    let err = decode_token_at(&refresh, Some("access"), KEY, NOW).unwrap_err();
    assert_eq!(err, TokenError::WrongTokenKind);
    let access = mint_access(NOW);
    let err = decode_token_at(&access, Some("refresh"), KEY, NOW).unwrap_err();
    assert_eq!(err, TokenError::WrongTokenKind);
}

#[test]
fn tamper_detection() {
    let token = mint_access(NOW);
    let bytes = token.as_bytes().to_vec();
    for i in 0..bytes.len() {
        let mut tampered = bytes.clone();
        tampered[i] ^= 1;
        let tampered = String::from_utf8(tampered).unwrap();
        let r = decode_token_at(&tampered, Some("access"), KEY, NOW);
        match r {
            Err(TokenError::MalformedToken) | Err(TokenError::InvalidSignature) => {}
            other => panic!("byte {} flipped: token was accepted: {:?}", i, other),
        }
    }
}

#[test]
fn wrong_key_rejected() {
    let token = mint_access(NOW);
    let err = decode_token_at(&token, Some("access"), "another-key", NOW).unwrap_err();
    assert_eq!(err, TokenError::InvalidSignature);
}

#[test]
fn exact_wire_format() {
    let token = generate_token_at("u", "access", false, "s", "7", KEY, NOW);
    let exp = NOW + 3600;
    let payload = format!("u\0{}\0s\07\0access", exp);
    let p64 = base64::engine::general_purpose::STANDARD.encode(payload.as_bytes());
    let mut mac = <hmac::Hmac<sha2::Sha256> as KeyInit>::new_from_slice(KEY.as_bytes()).unwrap();
    mac.update(p64.as_bytes());
    let sig = base64::engine::general_purpose::STANDARD.encode(mac.finalize().into_bytes());
    assert_eq!(token, format!("LV {}.{}", p64, sig));
}

#[test]
fn malformed_tokens_rejected() {
    // no prefix at all
    assert_eq!(
        decode_token_at("xyz", None, KEY, NOW).unwrap_err(),
        TokenError::MalformedToken
    );
    // prefix but no dot
    assert_eq!(
        decode_token_at("LV abcdef", None, KEY, NOW).unwrap_err(),
        TokenError::MalformedToken
    );
    // unsigned garbage after the dot
    assert_eq!(
        decode_token_at("LV abc.def", None, KEY, NOW).unwrap_err(),
        TokenError::InvalidSignature
    );
}

fn sign(payload_b64: &str) -> String {
    let mut mac = <hmac::Hmac<sha2::Sha256> as KeyInit>::new_from_slice(KEY.as_bytes()).unwrap();
    mac.update(payload_b64.as_bytes());
    base64::engine::general_purpose::STANDARD.encode(mac.finalize().into_bytes())
}

#[test]
fn signed_but_undecodable_payloads_rejected() {
    // correctly signed, but the payload is not base64
    let t = format!("LV @@@@.{}", sign("@@@@"));
    assert_eq!(decode_token_at(&t, None, KEY, NOW).unwrap_err(), TokenError::MalformedToken);

    // correctly signed base64 of invalid UTF-8
    let p64 = base64::engine::general_purpose::STANDARD.encode([0xff, 0xfe, 0x01]);
    let t = format!("LV {}.{}", p64, sign(&p64));
    assert_eq!(decode_token_at(&t, None, KEY, NOW).unwrap_err(), TokenError::MalformedToken);

    // correctly signed payload with the wrong number of fields
    let p64 = base64::engine::general_purpose::STANDARD.encode("a\0b\0c".as_bytes());
    let t = format!("LV {}.{}", p64, sign(&p64));
    assert_eq!(decode_token_at(&t, None, KEY, NOW).unwrap_err(), TokenError::MalformedToken);

    // correctly signed five fields, but a non-numeric expiration
    let p64 = base64::engine::general_purpose::STANDARD.encode("u\0xyz\0s\01\0access".as_bytes());
    let t = format!("LV {}.{}", p64, sign(&p64));
    assert_eq!(decode_token_at(&t, None, KEY, NOW).unwrap_err(), TokenError::MalformedToken);
}

#[test]
fn b64_exact_values() {
    assert_eq!(b64_encode(b"hello"), "aGVsbG8=");
    assert_eq!(b64_encode(b""), "");
    assert_eq!(b64_decode("aGVsbG8=").unwrap(), b"hello");
    assert!(b64_decode("!!!").is_err());
    // non-canonical padding is rejected, as the decode contract relies on
    assert!(b64_decode("aGVsbG8").is_err());
}

#[test]
fn decimal_exact_values() {
    assert_eq!(u64_to_dec_string(0), "0");
    assert_eq!(u64_to_dec_string(12345), "12345");
    assert_eq!(u64_to_dec_string(u64::MAX), "18446744073709551615");
    assert_eq!(parse_u64("0"), Some(0));
    assert_eq!(parse_u64("+42"), Some(42));
    assert_eq!(parse_u64("18446744073709551615"), Some(u64::MAX));
    assert_eq!(parse_u64("18446744073709551616"), None);
    assert_eq!(parse_u64(""), None);
    assert_eq!(parse_u64("+"), None);
    assert_eq!(parse_u64("12a"), None);
    assert_eq!(parse_u64("-1"), None);
    assert_eq!(parse_u64(" 1"), None);
}
