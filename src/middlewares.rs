//! Request-time authorization: the access token travels in the `act` cookie;
//! a request passes only with a token that this role's access secret
//! verifies, that carries this role, and whose subject is a credential id.
use crate::authentication::{
    access_claims, is_login_passport, is_token_for, subject_of, Passport, RoleSecret,
    ACCESS_TOKEN_LIFETIME, LATEST_ISSUE_TIME,
};
use crate::claims::Roles;
use crate::jwt_authentication::{
    check_token, lemma_accepts_only_signed_claims, lemma_token_round_trip, verify_token,
};
use crate::subject::{
    decimal_text, lemma_decimal_round_trip, lemma_decimal_text_ascii, parse_i32, parse_subject,
};
use vstd::prelude::*;
use vstd::utf8::{decode_utf8_encode_utf8, encode_utf8};

verus! {

/// `char::is_whitespace`: the Unicode `White_Space` characters.
pub open spec fn is_white(c: char) -> bool {
    ('\t' <= c <= '\r') || c == ' ' || c == '\u{85}' || c == '\u{A0}' || c == '\u{1680}' || (
    '\u{2000}' <= c <= '\u{200A}') || c == '\u{2028}' || c == '\u{2029}' || c == '\u{202F}' || c
        == '\u{205F}' || c == '\u{3000}'
}

/// Where the cookie that starts at `i` ends: at the next `"; "`, or at the
/// end of the header.
pub open spec fn part_end(h: Seq<char>, i: int) -> int
    decreases h.len() - i,
{
    if i < 0 || i + 1 >= h.len() {
        h.len() as int
    } else if h[i] == ';' && h[i + 1] == ' ' {
        i
    } else {
        part_end(h, i + 1)
    }
}

/// The first `=` in `h[i..end]`, or `-1`.
pub open spec fn eq_index(h: Seq<char>, i: int, end: int) -> int
    decreases end - i,
{
    if i < 0 || i >= end {
        -1
    } else if h[i] == '=' {
        i
    } else {
        eq_index(h, i + 1, end)
    }
}

/// The first index in `h[i..end]` past leading whitespace.
pub open spec fn trim_from(h: Seq<char>, i: int, end: int) -> int
    decreases end - i,
{
    if 0 <= i < end && is_white(h[i]) {
        trim_from(h, i + 1, end)
    } else {
        i
    }
}

/// The end of `h[i..end]` without trailing whitespace.
pub open spec fn trim_to(h: Seq<char>, i: int, end: int) -> int
    decreases end - i,
{
    if 0 <= i < end && is_white(h[end - 1]) {
        trim_to(h, i, end - 1)
    } else {
        end
    }
}

/// `h[i..end]` with whitespace trimmed from both ends.
pub open spec fn trimmed(h: Seq<char>, i: int, end: int) -> Seq<char> {
    let a = trim_from(h, i, end);
    h.subrange(a, trim_to(h, a, end))
}

/// The value of the first cookie named `key` at or after `start` in a
/// `Cookie` header: cookies are split at `"; "`, a cookie without `=` is
/// skipped, name and value are trimmed.
pub open spec fn cookie_lookup(h: Seq<char>, key: Seq<char>, start: int) -> Option<Seq<char>>
    decreases h.len() - start,
    via cookie_lookup_decreases
{
    if start < 0 || start > h.len() {
        None
    } else {
        let end = part_end(h, start);
        let e = eq_index(h, start, end);
        if e >= 0 && trimmed(h, start, e) == key {
            Some(trimmed(h, e + 1, end))
        } else if end >= h.len() {
            None
        } else {
            cookie_lookup(h, key, end + 2)
        }
    }
}

proof fn lemma_part_end(h: Seq<char>, i: int)
    requires
        0 <= i <= h.len(),
    ensures
        i <= part_end(h, i) <= h.len(),
        part_end(h, i) < h.len() ==> part_end(h, i) + 1 < h.len(),
    decreases h.len() - i,
{
    if i + 1 < h.len() && !(h[i] == ';' && h[i + 1] == ' ') {
        lemma_part_end(h, i + 1);
    }
}

#[via_fn]
proof fn cookie_lookup_decreases(h: Seq<char>, key: Seq<char>, start: int) {
    if 0 <= start <= h.len() {
        lemma_part_end(h, start);
    }
}

fn is_white_char(c: char) -> (r: bool)
    ensures
        r == is_white(c),
{
    ('\t' <= c && c <= '\r') || c == ' ' || c == '\u{85}' || c == '\u{A0}' || c == '\u{1680}' || (
    '\u{2000}' <= c && c <= '\u{200A}') || c == '\u{2028}' || c == '\u{2029}' || c == '\u{202F}'
        || c == '\u{205F}' || c == '\u{3000}'
}

fn find_part_end(h: &str, n: usize, start: usize) -> (r: usize)
    requires
        n == h@.len(),
        start <= n,
    ensures
        r == part_end(h@, start as int),
        start <= r <= n,
        r < n ==> r + 1 < n,
{
    proof {
        lemma_part_end(h@, start as int);
    }
    let mut i = start;
    while i < n && i + 1 < n
        invariant
            start <= i <= n,
            n == h@.len(),
            part_end(h@, start as int) == part_end(h@, i as int),
        decreases n - i,
    {
        if h.get_char(i) == ';' && h.get_char(i + 1) == ' ' {
            return i;
        }
        i = i + 1;
    }
    n
}

fn find_eq(h: &str, start: usize, end: usize) -> (r: Option<usize>)
    requires
        start <= end <= h@.len(),
    ensures
        r matches Some(e) ==> eq_index(h@, start as int, end as int) == e && start <= e < end,
        r is None ==> eq_index(h@, start as int, end as int) == -1,
{
    let mut i = start;
    while i < end
        invariant
            start <= i <= end <= h@.len(),
            eq_index(h@, start as int, end as int) == eq_index(h@, i as int, end as int),
        decreases end - i,
    {
        if h.get_char(i) == '=' {
            return Some(i);
        }
        i = i + 1;
    }
    None
}

fn skip_white(h: &str, start: usize, end: usize) -> (r: usize)
    requires
        start <= end <= h@.len(),
    ensures
        r == trim_from(h@, start as int, end as int),
        start <= r <= end,
{
    let mut i = start;
    while i < end && is_white_char(h.get_char(i))
        invariant
            start <= i <= end <= h@.len(),
            trim_from(h@, start as int, end as int) == trim_from(h@, i as int, end as int),
        decreases end - i,
    {
        i = i + 1;
    }
    i
}

fn drop_white(h: &str, start: usize, end: usize) -> (r: usize)
    requires
        start <= end <= h@.len(),
    ensures
        r == trim_to(h@, start as int, end as int),
        start <= r <= end,
{
    let mut j = end;
    while start < j && is_white_char(h.get_char(j - 1))
        invariant
            start <= j <= end <= h@.len(),
            trim_to(h@, start as int, end as int) == trim_to(h@, start as int, j as int),
        decreases j - start,
    {
        j = j - 1;
    }
    j
}

/// Whether `h[a..b]` is `key`.
fn span_equals(h: &str, a: usize, b: usize, key: &str) -> (r: bool)
    requires
        a <= b <= h@.len(),
    ensures
        r == (h@.subrange(a as int, b as int) == key@),
{
    let k = key.unicode_len();
    if b - a != k {
        return false;
    }
    let mut i: usize = 0;
    while i < k
        invariant
            i <= k,
            k == key@.len(),
            b - a == k,
            a <= b <= h@.len(),
            forall|j: int| 0 <= j < i ==> h@[a + j] == key@[j],
        decreases k - i,
    {
        if h.get_char(a + i) != key.get_char(i) {
            assert(h@.subrange(a as int, b as int)[i as int] != key@[i as int]);
            return false;
        }
        i = i + 1;
    }
    assert(h@.subrange(a as int, b as int) =~= key@);
    true
}

/// The trimmed value of the first cookie named `key` in a `Cookie` header.
pub fn get_cookie_value(cookie_header: &str, key: &str) -> (r: Option<String>)
    ensures
        r matches Some(v) ==> cookie_lookup(cookie_header@, key@, 0) == Some(v@),
        r is None ==> cookie_lookup(cookie_header@, key@, 0) is None,
{
    let h = cookie_header;
    let n = h.unicode_len();
    let mut start: usize = 0;
    loop
        invariant
            start <= n,
            n == h@.len(),
            h@ == cookie_header@,
            cookie_lookup(h@, key@, 0) == cookie_lookup(h@, key@, start as int),
        decreases n - start,
    {
        let end = find_part_end(h, n, start);
        if let Some(e) = find_eq(h, start, end) {
            let a = skip_white(h, start, e);
            let b = drop_white(h, a, e);
            if span_equals(h, a, b, key) {
                let va = skip_white(h, e + 1, end);
                let vb = drop_white(h, va, end);
                let v = h.substring_char(va, vb).to_owned();
                assert(trimmed(h@, start as int, e as int) == key@);
                return Some(v);
            }
        }
        if end >= n {
            return None;
        }
        start = end + 2;
    }
}

/// A request that may not pass.
#[derive(Clone, Copy, Debug, PartialEq, Eq, Structural)]
pub struct Unauthenticated;

/// The id that a request with Cookie header `header` is authorized as, for
/// `role` under that role's access secret at time `now`.
pub open spec fn authorize_outcome(
    secret: Seq<char>,
    role: Roles,
    header: Option<Seq<char>>,
    now: u64,
) -> Option<i32> {
    match header {
        None => None,
        Some(h) => match cookie_lookup(h, "act"@, 0) {
            None => None,
            Some(token) => match check_token(encode_utf8(secret), encode_utf8(token), now) {
                Err(_) => None,
                Ok(c) => if c.role != role {
                    None
                } else {
                    parse_i32(encode_utf8(c.sub))
                },
            },
        },
    }
}

/// Decides whether a request passes for `role`, given its Cookie header (if
/// any), the role's access secret and the time; on success, the credential
/// id to hand downstream. Refreshing is never attempted here.
pub fn authorize(secret: &str, role: Roles, cookie_header: Option<&str>, now: u64) -> (r: Result<
    i32,
    Unauthenticated,
>)
    ensures
        match authorize_outcome(secret@, role, match cookie_header {
            Some(h) => Some(h@),
            None => None,
        }, now) {
            Some(id) => r == Ok::<i32, Unauthenticated>(id),
            None => r == Err::<i32, Unauthenticated>(Unauthenticated),
        },
{
    let header = match cookie_header {
        Some(h) => h,
        None => return Err(Unauthenticated),
    };
    let token = match get_cookie_value(header, "act") {
        Some(t) => t,
        None => return Err(Unauthenticated),
    };
    let claims = match verify_token(secret, token.as_str(), now) {
        Ok(c) => c,
        Err(_) => return Err(Unauthenticated),
    };
    if claims.role != role {
        return Err(Unauthenticated);
    }
    match parse_subject(claims.sub.as_str()) {
        Some(id) => Ok(id),
        None => Err(Unauthenticated),
    }
}

/// A login's access token, sent as the `act` cookie to the authorizer of
/// its own role before it expires, lets the request through as the
/// credential's id.
pub proof fn lemma_login_token_authorizes(
    p: Passport,
    s: RoleSecret,
    role: Roles,
    id: i32,
    issued: u64,
    header: Seq<char>,
    now: u64,
)
    requires
        is_login_passport(p, s, role, subject_of(id), issued),
        issued <= LATEST_ISSUE_TIME,
        cookie_lookup(header, "act"@, 0) == Some(p.access_token@),
        now <= issued + ACCESS_TOKEN_LIFETIME,
    ensures
        authorize_outcome(s.secret@, role, Some(header), now) == Some(id),
{
    reveal(is_token_for);
    lemma_token_round_trip(encode_utf8(s.secret@), access_claims(subject_of(id), role, issued), now);
    lemma_decimal_text_ascii(id as int);
    decode_utf8_encode_utf8(decimal_text(id as int));
    lemma_decimal_round_trip(id);
}

/// A login's access token never passes the authorizer of the other role,
/// whatever that role's secret and whenever it is presented.
pub proof fn lemma_login_token_other_role(
    p: Passport,
    s: RoleSecret,
    role: Roles,
    sub: Seq<char>,
    issued: u64,
    other_secret: Seq<char>,
    other: Roles,
    header: Seq<char>,
    now: u64,
)
    requires
        is_login_passport(p, s, role, sub, issued),
        issued <= LATEST_ISSUE_TIME,
        cookie_lookup(header, "act"@, 0) == Some(p.access_token@),
        other != role,
    ensures
        authorize_outcome(other_secret, other, Some(header), now) is None,
{
    reveal(is_token_for);
    lemma_accepts_only_signed_claims(s.secret@, other_secret, access_claims(sub, role, issued), now);
}

} // verus!
