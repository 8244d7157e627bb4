use hmac::Mac;
use quests_tracker::claims::{decode_claims_bytes, encode_claims_bytes, Claims, Roles};
use quests_tracker::jwt_authentication::{generate_token, verify_token, TokenError};

fn claims(sub: &str, role: Roles, iat: u64, exp: u64) -> Claims {
    Claims { sub: sub.to_string(), role, exp, iat }
}

fn hex(bytes: &[u8]) -> String {
    bytes.iter().map(|b| format!("{:02x}", b)).collect()
}

#[test]
fn token_round_trip_before_expiry() {
    let c = claims("42", Roles::Adventurer, 1_700_000_000, 1_700_086_400);
    let t = generate_token("adventurer-secret", &c);
    let back = verify_token("adventurer-secret", &t, 1_700_000_500).unwrap();
    assert_eq!(back.sub, "42");
    assert_eq!(back.role, Roles::Adventurer);
    assert_eq!(back.iat, 1_700_000_000);
    assert_eq!(back.exp, 1_700_086_400);
}

#[test]
fn token_valid_at_its_expiry_second() {
    let c = claims("7", Roles::GuildCommander, 100, 200);
    let t = generate_token("s", &c);
    assert!(verify_token("s", &t, 200).is_ok());
    assert_eq!(verify_token("s", &t, 201).unwrap_err(), TokenError::Expired);
}

#[test]
fn expired_token_is_expired_not_invalid() {
    let c = claims("1", Roles::Adventurer, 1_000, 2_000);
    let t = generate_token("k", &c);
    assert_eq!(verify_token("k", &t, 2_001).unwrap_err(), TokenError::Expired);
}

#[test]
fn tampered_signature_is_invalid() {
    let c = claims("1", Roles::Adventurer, 1_000, 2_000);
    let mut t = generate_token("k", &c);
    let last = t.pop().unwrap();
    t.push(if last == '0' { '1' } else { '0' });
    assert_eq!(verify_token("k", &t, 1_500).unwrap_err(), TokenError::Invalid);
    // Expired and altered: still reported as invalid, the signature comes first.
    assert_eq!(verify_token("k", &t, 9_999).unwrap_err(), TokenError::Invalid);
}

#[test]
fn tampered_payload_is_invalid() {
    let c = claims("1", Roles::Adventurer, 1_000, 2_000);
    let t = generate_token("k", &c);
    let forged = t.replacen('a', "g", 1);
    assert_eq!(verify_token("k", &forged, 1_500).unwrap_err(), TokenError::Invalid);
}

#[test]
fn token_of_one_secret_fails_under_another() {
    let c = claims("5", Roles::Adventurer, 10, 100_000);
    let adventurer = generate_token("adventurer-access", &c);
    assert_eq!(verify_token("commander-access", &adventurer, 20).unwrap_err(), TokenError::Invalid);
    let refresh = generate_token("adventurer-refresh", &c);
    assert_eq!(verify_token("commander-refresh", &refresh, 20).unwrap_err(), TokenError::Invalid);
    assert_eq!(verify_token("adventurer-access", &refresh, 20).unwrap_err(), TokenError::Invalid);
}

#[test]
fn garbage_tokens_are_invalid() {
    for t in ["", ".", "abc", "a.b", "no-dot-here", "\u{e9}.\u{e9}"] {
        assert_eq!(verify_token("k", t, 0).unwrap_err(), TokenError::Invalid);
    }
}

#[test]
fn token_is_cookie_safe_and_carries_the_hmac_tag() {
    let c = claims("123", Roles::GuildCommander, 1_700_000_000, 1_700_604_800);
    let t = generate_token("the-secret", &c);
    assert!(t.chars().all(|ch| ch.is_ascii_alphanumeric() || ch == '.'));
    let (payload, tag) = t.split_once('.').unwrap();
    let mut mac = hmac::Hmac::<sha2::Sha256>::new_from_slice(b"the-secret").unwrap();
    mac.update(payload.as_bytes());
    assert_eq!(tag, hex(&mac.finalize().into_bytes()));
    assert_eq!(tag.len(), 64);
}

#[test]
fn payload_layout_is_exact() {
    let c = claims("12", Roles::Adventurer, 1, 255);
    let p = encode_claims_bytes(&c);
    assert_eq!(
        String::from_utf8(p).unwrap(),
        "a000000000000000100000000000000ff3132"
    );
    let g = claims("", Roles::GuildCommander, 0, 0);
    assert_eq!(
        String::from_utf8(encode_claims_bytes(&g)).unwrap(),
        "g00000000000000000000000000000000"
    );
}

#[test]
fn payload_round_trip_with_unicode_subject() {
    let c = claims("h\u{e9}ros \u{1f5e1}", Roles::GuildCommander, 5, u64::MAX);
    let p = encode_claims_bytes(&c);
    let back = decode_claims_bytes(&p).unwrap();
    assert_eq!(back.sub, c.sub);
    assert_eq!(back.role, c.role);
    assert_eq!(back.iat, 5);
    assert_eq!(back.exp, u64::MAX);
}

#[test]
fn payload_rejects_bad_layouts() {
    // subject bytes that are no UTF-8
    assert!(decode_claims_bytes(b"a00000000000000010000000000000002ff").is_none());
    // odd subject hex
    assert!(decode_claims_bytes(b"a000000000000000100000000000000023").is_none());
    // unknown role letter
    assert!(decode_claims_bytes(b"x0000000000000001000000000000000231").is_none());
    // issued after expiry
    assert!(decode_claims_bytes(b"a0000000000000002000000000000000131").is_none());
    // upper-case hex is not accepted
    assert!(decode_claims_bytes(b"a0000000000000001000000000000000A").is_none());
    // too short
    assert!(decode_claims_bytes(b"a0000").is_none());
}
