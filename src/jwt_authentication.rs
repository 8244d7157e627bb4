//! The token codec: a claim set signed with HMAC-SHA-256 under one secret.
//! A token is the claim payload, a `.`, and the hex of the tag over the
//! payload; every character of it is printable ASCII and safe in a cookie.
use crate::claims::{
    claims_wf, decode_claims, decode_claims_bytes, encode_claims, encode_claims_bytes,
    is_plain_ascii, lemma_claims_round_trip, lemma_encode_claims_plain, string_from_utf8, Claims,
    ClaimsView,
};
use crate::hex::{hex_of_bytes, lemma_hex_of_bytes_digits, lemma_hex_round_trip, push_hex};
use vstd::prelude::*;
use vstd::utf8::{
    decode_utf8_encode_utf8, encode_utf8, is_leading_byte_width_1,
    partial_valid_utf8, partial_valid_utf8_extend_ascii_block, valid_utf8,
};

verus! {

/// Why a token was refused.
#[derive(Clone, Copy, Debug, PartialEq, Eq, Structural)]
pub enum TokenError {
    /// Malformed, or signed under another secret, or altered.
    Invalid,
    /// Signed under this secret, but its expiry has passed.
    Expired,
}

/// The HMAC-SHA-256 tag of `message` under `key`.
pub uninterp spec fn hmac_sha256_of(key: Seq<u8>, message: Seq<u8>) -> Seq<u8>;

/// Relies on the hmac crate's `Hmac<Sha256>` (`Mac::new_from_slice`,
/// `update`, `finalize`): the tag depends on key and message alone and is
/// 32 bytes long. HMAC takes a key of any length, so the key is never refused.
#[verifier::external_body]
fn hmac_sha256(key: &[u8], message: &[u8]) -> (r: Vec<u8>)
    ensures
        r@ == hmac_sha256_of(key@, message@),
        r@.len() == 32,
{
    let mut mac = <hmac::Hmac<sha2::Sha256> as hmac::Mac>::new_from_slice(key).expect(
        "HMAC accepts keys of any length",
    );
    hmac::Mac::update(&mut mac, message);
    hmac::Mac::finalize(mac).into_bytes().to_vec()
}

/// The first `.` at or after `i`, or `-1`.
pub open spec fn find_dot(t: Seq<u8>, i: int) -> int
    decreases t.len() - i,
{
    if i < 0 || i >= t.len() {
        -1
    } else if t[i] == 46 {
        i
    } else {
        find_dot(t, i + 1)
    }
}

/// The bytes of the token that `key` signs for `c`.
pub open spec fn signed_token(key: Seq<u8>, c: ClaimsView) -> Seq<u8> {
    let p = encode_claims(c);
    p + seq![46u8] + hex_of_bytes(hmac_sha256_of(key, p))
}

/// What verifying token bytes `t` under `key` at time `now` yields: the
/// signature is checked before anything in the payload is trusted.
#[verifier::opaque]
pub open spec fn check_token(key: Seq<u8>, t: Seq<u8>, now: u64) -> Result<ClaimsView, TokenError> {
    let d = find_dot(t, 0);
    if d < 0 {
        Err(TokenError::Invalid)
    } else {
        let p = t.take(d);
        if t.subrange(d + 1, t.len() as int) != hex_of_bytes(hmac_sha256_of(key, p)) {
            Err(TokenError::Invalid)
        } else {
            match decode_claims(p) {
                None => Err(TokenError::Invalid),
                Some(c) => if now > c.exp {
                    Err(TokenError::Expired)
                } else {
                    Ok(c)
                },
            }
        }
    }
}

proof fn lemma_find_dot_after_plain(p: Seq<u8>, t: Seq<u8>, i: int)
    requires
        is_plain_ascii(p),
        t.len() > p.len(),
        t.take(p.len() as int) == p,
        t[p.len() as int] == 46,
        0 <= i <= p.len(),
    ensures
        find_dot(t, i) == p.len(),
    decreases p.len() - i,
{
    if i < p.len() {
        assert(t[i] == p[i]);
        lemma_find_dot_after_plain(p, t, i + 1);
    }
}

proof fn lemma_signed_token_shape(key: Seq<u8>, c: ClaimsView)
    ensures
        ({
            let t = signed_token(key, c);
            let p = encode_claims(c);
            &&& find_dot(t, 0) == p.len()
            &&& t.take(p.len() as int) == p
            &&& t.subrange(p.len() as int + 1, t.len() as int) == hex_of_bytes(hmac_sha256_of(key, p))
        }),
{
    let t = signed_token(key, c);
    let p = encode_claims(c);
    lemma_encode_claims_plain(c);
    assert(t.take(p.len() as int) =~= p);
    assert(t.subrange(p.len() as int + 1, t.len() as int) =~= hex_of_bytes(hmac_sha256_of(key, p)));
    lemma_find_dot_after_plain(p, t, 0);
}

/// Every byte of a signed token is ASCII, so it is valid UTF-8.
proof fn lemma_signed_token_ascii(key: Seq<u8>, c: ClaimsView)
    ensures
        valid_utf8(signed_token(key, c)),
{
    let t = signed_token(key, c);
    let p = encode_claims(c);
    let h = hex_of_bytes(hmac_sha256_of(key, p));
    lemma_encode_claims_plain(c);
    lemma_hex_of_bytes_digits(hmac_sha256_of(key, p));
    assert forall|i: int| 0 <= i < t.len() implies #[trigger] is_leading_byte_width_1(
        t[i],
    ) by {
        if i < p.len() {
            assert(t[i] == p[i]);
        } else if i > p.len() {
            assert(t[i] == h[i - p.len() - 1]);
            assert(crate::hex::hex_value(h[i - p.len() - 1]).is_some());
        }
    }
    assert(partial_valid_utf8(t, 0)) by {
        assert(t.subrange(0, 0) =~= Seq::<u8>::empty());
    }
    partial_valid_utf8_extend_ascii_block(t, 0, t.len() as int);
    assert(t.subrange(0, t.len() as int) =~= t);
}

/// Verifying under the signing secret, no later than the expiry, gives the
/// claims back unchanged.
pub proof fn lemma_token_round_trip(key: Seq<u8>, c: ClaimsView, now: u64)
    requires
        claims_wf(c),
        now <= c.exp,
    ensures
        check_token(key, signed_token(key, c), now) == Ok::<ClaimsView, TokenError>(c),
{
    reveal(check_token);
    lemma_signed_token_shape(key, c);
    lemma_claims_round_trip(c);
}

/// Verifying after the expiry fails with the expiry error, whatever else
/// holds of the token.
pub proof fn lemma_expired_token(key: Seq<u8>, c: ClaimsView, now: u64)
    requires
        claims_wf(c),
        now > c.exp,
    ensures
        check_token(key, signed_token(key, c), now) == Err::<ClaimsView, TokenError>(
            TokenError::Expired,
        ),
{
    reveal(check_token);
    lemma_signed_token_shape(key, c);
    lemma_claims_round_trip(c);
}

/// A payload followed by any tag but its own is refused as invalid, at any
/// time, and never as expired.
pub proof fn lemma_tampered_tag(key: Seq<u8>, c: ClaimsView, tag: Seq<u8>, now: u64)
    requires
        tag != hex_of_bytes(hmac_sha256_of(key, encode_claims(c))),
    ensures
        check_token(key, encode_claims(c) + seq![46u8] + tag, now) == Err::<ClaimsView, TokenError>(
            TokenError::Invalid,
        ),
{
    reveal(check_token);
    let p = encode_claims(c);
    let t = p + seq![46u8] + tag;
    lemma_encode_claims_plain(c);
    assert(t.take(p.len() as int) =~= p);
    assert(t.subrange(p.len() as int + 1, t.len() as int) =~= tag);
    lemma_find_dot_after_plain(p, t, 0);
}

/// A token signed under one secret is refused under another whenever the
/// two secrets give the payload different tags.
pub proof fn lemma_foreign_secret(signer: Seq<u8>, checker: Seq<u8>, c: ClaimsView, now: u64)
    requires
        hmac_sha256_of(signer, encode_claims(c)) != hmac_sha256_of(checker, encode_claims(c)),
    ensures
        check_token(checker, signed_token(signer, c), now) == Err::<ClaimsView, TokenError>(
            TokenError::Invalid,
        ),
{
    reveal(check_token);
    let p = encode_claims(c);
    lemma_signed_token_shape(signer, c);
    lemma_hex_round_trip(hmac_sha256_of(signer, p));
    lemma_hex_round_trip(hmac_sha256_of(checker, p));
}

/// Whatever secret checks a signed token, the only claim set it can accept
/// is the one that was signed.
pub proof fn lemma_accepts_only_signed_claims(signer: Seq<char>, checker: Seq<char>, c: ClaimsView, now: u64)
    requires
        claims_wf(c),
    ensures
        check_token(encode_utf8(checker), signed_token(encode_utf8(signer), c), now) matches Ok(d) ==> d == c,
{
    reveal(check_token);
    lemma_signed_token_shape(encode_utf8(signer), c);
    lemma_claims_round_trip(c);
}

proof fn lemma_or_xor(d: u8, x: u8, y: u8)
    ensures
        ((d | (x ^ y)) == 0u8) == (d == 0u8 && x == y),
{
    assert(((d | (x ^ y)) == 0u8) == (d == 0u8 && x == y)) by (bit_vector);
}

/// Whether `t[from..]` equals `expected`, looking at every byte whatever the
/// outcome, so the time taken tells nothing of where they differ.
fn tag_matches(expected: &[u8], t: &[u8], from: usize) -> (r: bool)
    requires
        from <= t@.len(),
    ensures
        r == (t@.subrange(from as int, t@.len() as int) == expected@),
{
    let ghost rest = t@.subrange(from as int, t@.len() as int);
    if t.len() - from != expected.len() {
        assert(rest.len() != expected@.len());
        return false;
    }
    let mut diff: u8 = 0;
    let mut j: usize = 0;
    while j < expected.len()
        invariant
            j <= expected@.len(),
            expected@.len() == t@.len() - from,
            t@.len() <= usize::MAX,
            rest == t@.subrange(from as int, t@.len() as int),
            (diff == 0) == (forall|k: int| 0 <= k < j ==> #[trigger] rest[k] == expected@[k]),
        decreases expected@.len() - j,
    {
        let x = expected[j];
        let y = t[from + j];
        proof {
            lemma_or_xor(diff, x, y);
            assert(rest[j as int] == y);
            if diff == 0 && x == y {
                assert forall|k: int| 0 <= k < j + 1 implies #[trigger] rest[k] == expected@[k] by {
                }
            } else if diff != 0 {
                assert(!(forall|k: int| 0 <= k < j + 1 ==> #[trigger] rest[k] == expected@[k]));
            } else {
                assert(rest[j as int] != expected@[j as int]);
            }
        }
        diff = diff | (x ^ y);
        j = j + 1;
    }
    if diff == 0 {
        assert(rest =~= expected@);
        true
    } else {
        false
    }
}

/// Signs `claims` under `secret`.
pub fn generate_token(secret: &str, claims: &Claims) -> (r: String)
    ensures
        encode_utf8(r@) == signed_token(encode_utf8(secret@), claims@),
{
    let payload = encode_claims_bytes(claims);
    let tag = hmac_sha256(secret.as_bytes(), payload.as_slice());
    let mut out = payload;
    out.push(46);
    push_hex(&mut out, tag.as_slice());
    proof {
        assert(out@ =~= signed_token(encode_utf8(secret@), claims@));
        lemma_signed_token_ascii(encode_utf8(secret@), claims@);
        decode_utf8_encode_utf8(out@);
    }
    match string_from_utf8(out) {
        Some(s) => s,
        None => {
            proof {
                assert(false);
            }
            String::new()
        },
    }
}

/// Verifies `token` under `secret` at time `now` (Unix seconds).
pub fn verify_token(secret: &str, token: &str, now: u64) -> (r: Result<Claims, TokenError>)
    ensures
        r matches Ok(c) ==> check_token(encode_utf8(secret@), encode_utf8(token@), now) == Ok::<
            ClaimsView,
            TokenError,
        >(c@),
        r matches Err(e) ==> check_token(encode_utf8(secret@), encode_utf8(token@), now) == Err::<
            ClaimsView,
            TokenError,
        >(e),
{
    reveal(check_token);
    let t = token.as_bytes();
    let key = secret.as_bytes();
    let mut i: usize = 0;
    while i < t.len() && t[i] != 46
        invariant
            i <= t@.len(),
            find_dot(t@, 0) == find_dot(t@, i as int),
        decreases t@.len() - i,
    {
        i = i + 1;
    }
    if i == t.len() {
        return Err(TokenError::Invalid);
    }
    let payload = &t[0..i];
    let tag = hmac_sha256(key, payload);
    let mut expected: Vec<u8> = Vec::new();
    push_hex(&mut expected, tag.as_slice());
    assert(expected@ =~= hex_of_bytes(tag@));
    assert(payload@ =~= t@.take(i as int));
    if !tag_matches(expected.as_slice(), t, i + 1) {
        return Err(TokenError::Invalid);
    }
    match decode_claims_bytes(payload) {
        None => Err(TokenError::Invalid),
        Some(c) => {
            if now > c.exp {
                Err(TokenError::Expired)
            } else {
                Ok(c)
            }
        },
    }
}

} // verus!
