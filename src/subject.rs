//! The subject of a claim set is a credential id written in decimal, as
//! `i32`'s `to_string` writes it and its `parse` reads it.
use crate::claims::string_from_utf8;
use vstd::arithmetic::div_mod::lemma_fundamental_div_mod;
use vstd::prelude::*;
use vstd::utf8::{
    decode_utf8_encode_utf8, encode_utf8, is_leading_byte_width_1, partial_valid_utf8,
    partial_valid_utf8_extend_ascii_block, valid_utf8,
};

verus! {

pub open spec fn is_digit(b: u8) -> bool {
    48 <= b <= 57
}

pub open spec fn all_digits(s: Seq<u8>) -> bool {
    forall|i: int| 0 <= i < s.len() ==> is_digit(#[trigger] s[i])
}

/// The decimal digits of `n`, without leading zeros.
pub open spec fn decimal_digits(n: nat) -> Seq<u8>
    decreases n,
{
    if n < 10 {
        seq![(48 + n) as u8]
    } else {
        decimal_digits(n / 10).push((48 + n % 10) as u8)
    }
}

/// An integer in decimal, with a `-` before a negative one.
pub open spec fn decimal_text(id: int) -> Seq<u8> {
    if id < 0 {
        seq![45u8] + decimal_digits((-id) as nat)
    } else {
        decimal_digits(id as nat)
    }
}

pub open spec fn digits_value(s: Seq<u8>) -> nat
    decreases s.len(),
{
    if s.len() == 0 {
        0
    } else {
        (digits_value(s.drop_last()) * 10 + (s.last() - 48)) as nat
    }
}

/// The `i32` that text spells: an optional sign, then one digit or more,
/// within range; nothing else.
pub open spec fn parse_i32(s: Seq<u8>) -> Option<i32> {
    let signed = s.len() > 0 && (s[0] == 45 || s[0] == 43);
    let body = if signed {
        s.drop_first()
    } else {
        s
    };
    let v: int = if signed && s[0] == 45 {
        -digits_value(body)
    } else {
        digits_value(body) as int
    };
    if body.len() == 0 || !all_digits(body) || v < i32::MIN || v > i32::MAX {
        None
    } else {
        Some(v as i32)
    }
}

proof fn lemma_decimal_digits(n: nat)
    ensures
        decimal_digits(n).len() > 0,
        all_digits(decimal_digits(n)),
        digits_value(decimal_digits(n)) == n,
    decreases n,
{
    if n >= 10 {
        lemma_decimal_digits(n / 10);
        lemma_fundamental_div_mod(n as int, 10);
        let s = decimal_digits(n);
        assert(s.drop_last() =~= decimal_digits(n / 10));
        assert(s.last() - 48 == n % 10);
        assert forall|i: int| 0 <= i < s.len() implies is_digit(#[trigger] s[i]) by {
            if i < s.len() - 1 {
                assert(s[i] == decimal_digits(n / 10)[i]);
            }
        }
    } else {
        let s = decimal_digits(n);
        assert(s.drop_last() =~= Seq::<u8>::empty());
        assert(digits_value(s.drop_last()) == 0);
        assert(is_digit(s[0]));
    }
}

/// Reading back the decimal text of an `i32` gives the same `i32`.
pub proof fn lemma_decimal_round_trip(id: i32)
    ensures
        parse_i32(decimal_text(id as int)) == Some(id),
{
    if id < 0 {
        let d = decimal_digits((-id) as nat);
        lemma_decimal_digits((-id) as nat);
        assert((seq![45u8] + d).drop_first() =~= d);
    } else {
        let d = decimal_digits(id as nat);
        lemma_decimal_digits(id as nat);
        assert(is_digit(d[0]));
    }
}

proof fn lemma_digits_prefix(s: Seq<u8>, k: int)
    requires
        all_digits(s),
        0 <= k <= s.len(),
    ensures
        digits_value(s.take(k)) <= digits_value(s),
    decreases s.len(),
{
    if k < s.len() {
        let r = s.drop_last();
        assert(r.take(k) =~= s.take(k));
        assert(all_digits(r)) by {
            assert forall|i: int| 0 <= i < r.len() implies is_digit(#[trigger] r[i]) by {
                assert(r[i] == s[i]);
            }
        }
        lemma_digits_prefix(r, k);
        assert(is_digit(s[s.len() - 1]));
    } else {
        assert(s.take(k) =~= s);
    }
}

fn push_digits(out: &mut Vec<u8>, n: u32)
    ensures
        final(out)@ == old(out)@ + decimal_digits(n as nat),
    decreases n,
{
    if n < 10 {
        out.push(48 + n as u8);
        assert(final(out)@ =~= old(out)@ + decimal_digits(n as nat));
    } else {
        push_digits(out, n / 10);
        out.push(48 + (n % 10) as u8);
        assert(final(out)@ =~= old(out)@ + decimal_digits(n as nat));
    }
}

pub proof fn lemma_decimal_text_ascii(id: int)
    ensures
        valid_utf8(decimal_text(id)),
{
    let t = decimal_text(id);
    if id < 0 {
        lemma_decimal_digits((-id) as nat);
        assert forall|i: int| 0 <= i < t.len() implies #[trigger] is_leading_byte_width_1(t[i]) by {
            if i > 0 {
                assert(t[i] == decimal_digits((-id) as nat)[i - 1]);
            }
        }
    } else {
        lemma_decimal_digits(id as nat);
        assert forall|i: int| 0 <= i < t.len() implies #[trigger] is_leading_byte_width_1(t[i]) by {
            assert(is_digit(t[i]));
        }
    }
    assert(partial_valid_utf8(t, 0)) by {
        assert(t.subrange(0, 0) =~= Seq::<u8>::empty());
    }
    partial_valid_utf8_extend_ascii_block(t, 0, t.len() as int);
    assert(t.subrange(0, t.len() as int) =~= t);
}

/// `id` in decimal, as a subject.
pub fn format_subject(id: i32) -> (r: String)
    ensures
        encode_utf8(r@) == decimal_text(id as int),
{
    let mut out: Vec<u8> = Vec::new();
    if id < 0 {
        out.push(45);
        let m: u32 = if id == i32::MIN {
            2147483648u32
        } else {
            (-id) as u32
        };
        push_digits(&mut out, m);
    } else {
        push_digits(&mut out, id as u32);
    }
    assert(out@ =~= decimal_text(id as int));
    proof {
        lemma_decimal_text_ascii(id as int);
        decode_utf8_encode_utf8(out@);
    }
    match string_from_utf8(out) {
        Some(s) => s,
        None => {
            proof {
                assert(false);
            }
            String::new()
        },
    }
}

/// The credential id that a subject spells, if it spells one.
pub fn parse_subject(sub: &str) -> (r: Option<i32>)
    ensures
        r == parse_i32(encode_utf8(sub@)),
{
    let s = sub.as_bytes();
    let n = s.len();
    let signed = n > 0 && (s[0] == 45 || s[0] == 43);
    let negative = signed && s[0] == 45;
    let start: usize = if signed {
        1
    } else {
        0
    };
    let ghost body = if signed {
        s@.drop_first()
    } else {
        s@
    };
    assert(body =~= s@.subrange(start as int, n as int));
    if start == n {
        return None;
    }
    let mut acc: i64 = 0;
    let mut i: usize = start;
    while i < n
        invariant
            start <= i <= n,
            n == s@.len(),
            s@ == encode_utf8(sub@),
            signed == (s@.len() > 0 && (s@[0] == 45 || s@[0] == 43)),
            negative == (signed && s@[0] == 45),
            body == (if signed {
                s@.drop_first()
            } else {
                s@
            }),
            body == s@.subrange(start as int, n as int),
            all_digits(body.take(i - start)),
            0 <= acc,
            acc == digits_value(body.take(i - start)),
            acc <= 2147483648,
        decreases n - i,
    {
        let c = s[i];
        if c < 48 || c > 57 {
            assert(!is_digit(body[i - start]));
            return None;
        }
        proof {
            let p = body.take(i - start + 1);
            assert(p.drop_last() =~= body.take(i - start));
            assert(all_digits(p)) by {
                assert forall|k: int| 0 <= k < p.len() implies is_digit(#[trigger] p[k]) by {
                    if k < p.len() - 1 {
                        assert(p[k] == body.take(i - start)[k]);
                    }
                }
            }
        }
        acc = acc * 10 + (c - 48) as i64;
        if acc > 2147483648 {
            proof {
                if all_digits(body) {
                    lemma_digits_prefix(body, i - start + 1);
                }
            }
            return None;
        }
        i = i + 1;
    }
    assert(body.take(n - start) =~= body);
    if negative {
        Some((-acc) as i32)
    } else if acc > 2147483647 {
        None
    } else {
        Some(acc as i32)
    }
}

} // verus!
