//! The signed payload of a token: who it stands for, for which role, and
//! when it was issued and expires. On the wire it is printable ASCII:
//! a role letter, then issue time, expiry and the subject's UTF-8 bytes,
//! each as lower-case hex.
use crate::hex::{
    be_u64, bytes_of_hex, decode_hex, hex_of_bytes, hex_of_u64, is_hex_text,
    lemma_hex_of_bytes_digits, lemma_hex_of_bytes_len, lemma_hex_round_trip,
    lemma_u64_hex_round_trip, push_be_bytes, push_hex, read_hex, u64_of_hex,
};
use vstd::prelude::*;
use vstd::utf8::{decode_utf8, encode_utf8, encode_utf8_decode_utf8, encode_utf8_valid_utf8, valid_utf8};

verus! {

/// The two identity classes that partition secrets and authorization scope.
#[derive(Clone, Copy, Debug, PartialEq, Eq, Structural)]
pub enum Roles {
    Adventurer,
    GuildCommander,
}

/// A claim set: `sub` is the stringified credential id.
#[derive(Clone, Debug)]
pub struct Claims {
    pub sub: String,
    pub role: Roles,
    pub exp: u64,
    pub iat: u64,
}

pub struct ClaimsView {
    pub sub: Seq<char>,
    pub role: Roles,
    pub iat: u64,
    pub exp: u64,
}

impl View for Claims {
    type V = ClaimsView;

    open spec fn view(&self) -> ClaimsView {
        ClaimsView { sub: self.sub@, role: self.role, iat: self.iat, exp: self.exp }
    }
}

/// A claim set is well formed when it is not issued after it expires.
pub open spec fn claims_wf(c: ClaimsView) -> bool {
    c.iat <= c.exp
}

pub open spec fn role_byte(r: Roles) -> u8 {
    match r {
        Roles::Adventurer => 97,
        Roles::GuildCommander => 103,
    }
}

pub open spec fn role_of_byte(b: u8) -> Option<Roles> {
    if b == 97 {
        Some(Roles::Adventurer)
    } else if b == 103 {
        Some(Roles::GuildCommander)
    } else {
        None
    }
}

pub open spec fn encode_claims(c: ClaimsView) -> Seq<u8> {
    seq![role_byte(c.role)] + hex_of_u64(c.iat) + hex_of_u64(c.exp) + hex_of_bytes(
        encode_utf8(c.sub),
    )
}

/// The claim set that payload bytes spell, if they spell a well-formed one.
pub open spec fn decode_claims(p: Seq<u8>) -> Option<ClaimsView> {
    if p.len() < 33 {
        None
    } else {
        match (
            role_of_byte(p[0]),
            u64_of_hex(p.subrange(1, 17)),
            u64_of_hex(p.subrange(17, 33)),
            decode_hex(p.subrange(33, p.len() as int)),
        ) {
            (Some(role), Some(iat), Some(exp), Some(sb)) => {
                if valid_utf8(sb) && iat <= exp {
                    Some(ClaimsView { sub: decode_utf8(sb), role, iat, exp })
                } else {
                    None
                }
            },
            _ => None,
        }
    }
}

/// Bytes that are all ASCII and hold no `.`.
pub open spec fn is_plain_ascii(s: Seq<u8>) -> bool {
    forall|i: int| 0 <= i < s.len() ==> #[trigger] s[i] < 128 && s[i] != 46
}

proof fn lemma_hex_plain(s: Seq<u8>)
    requires
        is_hex_text(s),
    ensures
        is_plain_ascii(s),
{
    assert forall|i: int| 0 <= i < s.len() implies #[trigger] s[i] < 128 && s[i] != 46 by {
        assert(crate::hex::hex_value(s[i]).is_some());
    }
}

/// The payload is printable ASCII without a `.`, so a `.` can close it.
pub proof fn lemma_encode_claims_plain(c: ClaimsView)
    ensures
        is_plain_ascii(encode_claims(c)),
        encode_claims(c).len() >= 33,
{
    lemma_u64_hex_round_trip(c.iat);
    lemma_u64_hex_round_trip(c.exp);
    lemma_hex_of_bytes_digits(encode_utf8(c.sub));
    lemma_hex_plain(hex_of_u64(c.iat));
    lemma_hex_plain(hex_of_u64(c.exp));
    lemma_hex_plain(hex_of_bytes(encode_utf8(c.sub)));
    let p = encode_claims(c);
    assert forall|i: int| 0 <= i < p.len() implies #[trigger] p[i] < 128 && p[i] != 46 by {
        if i == 0 {
        } else if i < 17 {
            assert(p[i] == hex_of_u64(c.iat)[i - 1]);
        } else if i < 33 {
            assert(p[i] == hex_of_u64(c.exp)[i - 17]);
        } else {
            assert(p[i] == hex_of_bytes(encode_utf8(c.sub))[i - 33]);
        }
    }
}

/// A well-formed claim set reads back from its payload unchanged.
pub proof fn lemma_claims_round_trip(c: ClaimsView)
    requires
        claims_wf(c),
    ensures
        decode_claims(encode_claims(c)) == Some(c),
{
    let p = encode_claims(c);
    let sb = encode_utf8(c.sub);
    lemma_u64_hex_round_trip(c.iat);
    lemma_u64_hex_round_trip(c.exp);
    lemma_hex_round_trip(sb);
    lemma_hex_of_bytes_len(sb);
    assert(p.subrange(1, 17) =~= hex_of_u64(c.iat));
    assert(p.subrange(17, 33) =~= hex_of_u64(c.exp));
    assert(p.subrange(33, p.len() as int) =~= hex_of_bytes(sb));
    encode_utf8_valid_utf8(c.sub);
    encode_utf8_decode_utf8(c.sub);
}

/// Relies on std's `String::from_utf8`: it succeeds exactly on valid UTF-8
/// and then holds the characters that the bytes encode.
#[verifier::external_body]
pub(crate) fn string_from_utf8(bytes: Vec<u8>) -> (r: Option<String>)
    ensures
        r is Some <==> valid_utf8(bytes@),
        r matches Some(s) ==> s@ == decode_utf8(bytes@),
{
    String::from_utf8(bytes).ok()
}

fn role_letter(r: Roles) -> (b: u8)
    ensures
        b == role_byte(r),
{
    match r {
        Roles::Adventurer => 97,
        Roles::GuildCommander => 103,
    }
}

fn role_from_letter(b: u8) -> (r: Option<Roles>)
    ensures
        r == role_of_byte(b),
{
    if b == 97 {
        Some(Roles::Adventurer)
    } else if b == 103 {
        Some(Roles::GuildCommander)
    } else {
        None
    }
}

fn push_hex_u64(out: &mut Vec<u8>, v: u64)
    ensures
        final(out)@ == old(out)@ + hex_of_u64(v),
{
    let mut b: Vec<u8> = Vec::new();
    push_be_bytes(&mut b, v, 8);
    assert(b@ =~= crate::hex::be_bytes(v as nat, 8));
    push_hex(out, b.as_slice());
}

/// Sixteen hex digits at `s[from..from + 16]` as a number.
fn read_hex_u64(s: &[u8], from: usize) -> (r: Option<u64>)
    requires
        from + 16 <= s@.len(),
    ensures
        r == u64_of_hex(s@.subrange(from as int, from + 16)),
{
    let n = s.len();
    assert(from + 16 <= n);
    match read_hex(s, from, from + 16) {
        Some(b) => {
            proof {
                lemma_bytes_of_hex_len(s@.subrange(from as int, from + 16));
            }
            Some(be_u64(b.as_slice()))
        },
        None => None,
    }
}

proof fn lemma_bytes_of_hex_len(s: Seq<u8>)
    requires
        s.len() % 2 == 0,
    ensures
        bytes_of_hex(s).len() == s.len() / 2,
    decreases s.len(),
{
    if s.len() >= 2 {
        lemma_bytes_of_hex_len(s.take(s.len() - 2));
    }
}

/// The payload bytes of a claim set.
pub fn encode_claims_bytes(c: &Claims) -> (r: Vec<u8>)
    ensures
        r@ == encode_claims(c@),
{
    let mut out: Vec<u8> = Vec::new();
    out.push(role_letter(c.role));
    push_hex_u64(&mut out, c.iat);
    push_hex_u64(&mut out, c.exp);
    push_hex(&mut out, c.sub.as_str().as_bytes());
    assert(out@ =~= encode_claims(c@));
    out
}

/// The claim set that payload bytes spell, if they spell a well-formed one.
pub fn decode_claims_bytes(p: &[u8]) -> (r: Option<Claims>)
    ensures
        r matches Some(c) ==> decode_claims(p@) == Some(c@),
        r is None ==> decode_claims(p@) is None,
{
    if p.len() < 33 {
        return None;
    }
    let role = role_from_letter(p[0]);
    let iat = read_hex_u64(p, 1);
    let exp = read_hex_u64(p, 17);
    let sb = read_hex(p, 33, p.len());
    match (role, iat, exp, sb) {
        (Some(role), Some(iat), Some(exp), Some(sb)) => {
            if iat > exp {
                return None;
            }
            match string_from_utf8(sb) {
                Some(sub) => Some(Claims { sub, role, exp, iat }),
                None => None,
            }
        },
        _ => None,
    }
}

} // verus!
