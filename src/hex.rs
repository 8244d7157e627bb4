//! Lower-case hexadecimal text for byte strings and fixed-width big-endian
//! integers: the alphabet of every token field.
use vstd::arithmetic::div_mod::lemma_mod_breakdown;
use vstd::prelude::*;

verus! {

/// The ASCII character for a value below sixteen.
pub open spec fn hex_digit(n: u8) -> u8 {
    if n < 10 {
        (48 + n) as u8
    } else {
        (87 + n) as u8
    }
}

/// The value of an ASCII hex digit, lower case only.
pub open spec fn hex_value(c: u8) -> Option<u8> {
    if 48 <= c <= 57 {
        Some((c - 48) as u8)
    } else if 97 <= c <= 102 {
        Some((c - 87) as u8)
    } else {
        None
    }
}

/// Two digits per byte, high nibble first.
pub open spec fn hex_of_bytes(b: Seq<u8>) -> Seq<u8>
    decreases b.len(),
{
    if b.len() == 0 {
        seq![]
    } else {
        hex_of_bytes(b.drop_last()) + seq![hex_digit(b.last() / 16), hex_digit(b.last() % 16)]
    }
}

pub open spec fn is_hex_text(s: Seq<u8>) -> bool {
    s.len() % 2 == 0 && forall|i: int| 0 <= i < s.len() ==> (#[trigger] hex_value(s[i])).is_some()
}

/// The bytes that an even run of hex digits spells.
pub open spec fn bytes_of_hex(s: Seq<u8>) -> Seq<u8>
    decreases s.len(),
{
    if s.len() < 2 {
        seq![]
    } else {
        let n = s.len() - 2;
        bytes_of_hex(s.take(n)).push(
            (hex_value(s[n]).unwrap() * 16 + hex_value(s[n + 1]).unwrap()) as u8,
        )
    }
}

pub open spec fn decode_hex(s: Seq<u8>) -> Option<Seq<u8>> {
    if is_hex_text(s) {
        Some(bytes_of_hex(s))
    } else {
        None
    }
}

/// `256` to the `n`.
pub open spec fn byte_span(n: nat) -> nat
    decreases n,
{
    if n == 0 {
        1
    } else {
        256 * byte_span((n - 1) as nat)
    }
}

/// The low `n` bytes of `v`, most significant first.
pub open spec fn be_bytes(v: nat, n: nat) -> Seq<u8>
    decreases n,
{
    if n == 0 {
        seq![]
    } else {
        be_bytes(v / 256, (n - 1) as nat).push((v % 256) as u8)
    }
}

/// The number that big-endian bytes stand for.
pub open spec fn be_value(b: Seq<u8>) -> nat
    decreases b.len(),
{
    if b.len() == 0 {
        0
    } else {
        (be_value(b.drop_last()) * 256 + b.last()) as nat
    }
}

/// A `u64` as sixteen hex digits.
pub open spec fn hex_of_u64(v: u64) -> Seq<u8> {
    hex_of_bytes(be_bytes(v as nat, 8))
}

/// The `u64` that sixteen hex digits spell.
pub open spec fn u64_of_hex(s: Seq<u8>) -> Option<u64> {
    if s.len() == 16 && is_hex_text(s) {
        Some(be_value(bytes_of_hex(s)) as u64)
    } else {
        None
    }
}

pub proof fn lemma_hex_digit(n: u8)
    requires
        n < 16,
    ensures
        hex_value(hex_digit(n)) == Some(n),
{
}

pub proof fn lemma_hex_of_bytes_len(b: Seq<u8>)
    ensures
        hex_of_bytes(b).len() == 2 * b.len(),
    decreases b.len(),
{
    if b.len() > 0 {
        lemma_hex_of_bytes_len(b.drop_last());
    }
}

/// Every character of the text is a hex digit.
pub proof fn lemma_hex_of_bytes_digits(b: Seq<u8>)
    ensures
        is_hex_text(hex_of_bytes(b)),
    decreases b.len(),
{
    lemma_hex_of_bytes_len(b);
    if b.len() > 0 {
        lemma_hex_of_bytes_digits(b.drop_last());
        lemma_hex_of_bytes_len(b.drop_last());
        lemma_hex_digit(b.last() / 16);
        lemma_hex_digit(b.last() % 16);
        let s = hex_of_bytes(b);
        assert forall|i: int| 0 <= i < s.len() implies (#[trigger] hex_value(s[i])).is_some() by {
            if i < s.len() - 2 {
                assert(s[i] == hex_of_bytes(b.drop_last())[i]);
            }
        }
    }
}

/// Decoding the hex text of bytes gives the bytes back.
pub proof fn lemma_hex_round_trip(b: Seq<u8>)
    ensures
        decode_hex(hex_of_bytes(b)) == Some(b),
    decreases b.len(),
{
    lemma_hex_of_bytes_digits(b);
    lemma_bytes_of_hex_inverse(b);
}

proof fn lemma_bytes_of_hex_inverse(b: Seq<u8>)
    ensures
        bytes_of_hex(hex_of_bytes(b)) == b,
    decreases b.len(),
{
    if b.len() > 0 {
        let s = hex_of_bytes(b);
        let rest = b.drop_last();
        lemma_hex_of_bytes_len(b);
        lemma_hex_of_bytes_len(rest);
        lemma_bytes_of_hex_inverse(rest);
        assert(s.take(s.len() - 2) =~= hex_of_bytes(rest));
        lemma_hex_digit(b.last() / 16);
        lemma_hex_digit(b.last() % 16);
        assert(b =~= rest.push(b.last()));
    }
}

pub proof fn lemma_be_bytes_len(v: nat, n: nat)
    ensures
        be_bytes(v, n).len() == n,
    decreases n,
{
    if n > 0 {
        lemma_be_bytes_len(v / 256, (n - 1) as nat);
    }
}

/// Reading back the low `n` bytes gives `v` modulo `256^n`.
pub proof fn lemma_be_round_trip(v: nat, n: nat)
    ensures
        be_value(be_bytes(v, n)) == v % byte_span(n),
    decreases n,
{
    if n == 0 {
    } else {
        let m = (n - 1) as nat;
        lemma_be_round_trip(v / 256, m);
        let b = be_bytes(v, n);
        assert(b.drop_last() =~= be_bytes(v / 256, m));
        lemma_byte_span_positive(m);
        lemma_mod_breakdown(v as int, 256, byte_span(m) as int);
    }
}

proof fn lemma_byte_span_positive(n: nat)
    ensures
        byte_span(n) > 0,
    decreases n,
{
    if n > 0 {
        lemma_byte_span_positive((n - 1) as nat);
    }
}

pub proof fn lemma_be_value_bound(b: Seq<u8>)
    ensures
        be_value(b) < byte_span(b.len()),
    decreases b.len(),
{
    if b.len() > 0 {
        let r = b.drop_last();
        lemma_be_value_bound(r);
        let x = be_value(r);
        let y = byte_span(r.len());
        assert(x * 256 + b.last() < 256 * y) by (nonlinear_arith)
            requires
                x < y,
                b.last() < 256,
        ;
    }
}

pub proof fn lemma_byte_span_8()
    ensures
        byte_span(8) == 0x1_0000_0000_0000_0000,
{
    reveal_with_fuel(byte_span, 9);
}

/// Sixteen hex digits read back as the `u64` they were written from.
pub proof fn lemma_u64_hex_round_trip(v: u64)
    ensures
        hex_of_u64(v).len() == 16,
        u64_of_hex(hex_of_u64(v)) == Some(v),
{
    lemma_be_bytes_len(v as nat, 8);
    lemma_hex_of_bytes_len(be_bytes(v as nat, 8));
    lemma_hex_of_bytes_digits(be_bytes(v as nat, 8));
    lemma_bytes_of_hex_inverse(be_bytes(v as nat, 8));
    lemma_be_round_trip(v as nat, 8);
    lemma_byte_span_8();
}

fn hex_char(n: u8) -> (r: u8)
    requires
        n < 16,
    ensures
        r == hex_digit(n),
{
    if n < 10 {
        48 + n
    } else {
        87 + n
    }
}

fn hex_char_value(c: u8) -> (r: Option<u8>)
    ensures
        r == hex_value(c),
{
    if 48 <= c && c <= 57 {
        Some(c - 48)
    } else if 97 <= c && c <= 102 {
        Some(c - 87)
    } else {
        None
    }
}

/// Appends the hex text of `b` to `out`.
pub fn push_hex(out: &mut Vec<u8>, b: &[u8])
    ensures
        final(out)@ == old(out)@ + hex_of_bytes(b@),
{
    let mut i: usize = 0;
    while i < b.len()
        invariant
            i <= b@.len(),
            out@ == old(out)@ + hex_of_bytes(b@.take(i as int)),
        decreases b@.len() - i,
    {
        let x = b[i];
        out.push(hex_char(x / 16));
        out.push(hex_char(x % 16));
        proof {
            let t = b@.take(i as int + 1);
            assert(t.drop_last() =~= b@.take(i as int));
            assert(t.last() == x);
        }
        i = i + 1;
    }
    assert(b@.take(b@.len() as int) =~= b@);
}

/// The bytes spelt by `s[from..to]`, or `None` where that is no even run of
/// hex digits.
pub fn read_hex(s: &[u8], from: usize, to: usize) -> (r: Option<Vec<u8>>)
    requires
        from <= to <= s@.len(),
    ensures
        r matches Some(v) ==> decode_hex(s@.subrange(from as int, to as int)) == Some(v@),
        r is None ==> decode_hex(s@.subrange(from as int, to as int)) is None,
{
    let ghost t = s@.subrange(from as int, to as int);
    if (to - from) % 2 != 0 {
        return None;
    }
    let mut out: Vec<u8> = Vec::new();
    let mut i: usize = from;
    while i < to
        invariant
            from <= i <= to <= s@.len(),
            (i - from) % 2 == 0,
            (to - from) % 2 == 0,
            t == s@.subrange(from as int, to as int),
            forall|k: int| 0 <= k < i - from ==> (#[trigger] hex_value(t[k])).is_some(),
            out@ == bytes_of_hex(t.take(i - from)),
        decreases to - i,
    {
        let hi = hex_char_value(s[i]);
        let lo = hex_char_value(s[i + 1]);
        match (hi, lo) {
            (Some(h), Some(l)) => {
                out.push(h * 16 + l);
                proof {
                    let p = t.take(i - from + 2);
                    assert(p.take(i - from) =~= t.take(i - from));
                    assert(p[i - from] == s@[i as int]);
                    assert(p[i - from + 1] == s@[i + 1]);
                }
                i = i + 2;
            },
            _ => {
                proof {
                    if hi is None {
                        assert(hex_value(t[i - from]) is None);
                    } else {
                        assert(hex_value(t[i - from + 1]) is None);
                    }
                }
                return None;
            },
        }
    }
    assert(t.take(to - from) =~= t);
    Some(out)
}

/// Appends the low `n` bytes of `v`, most significant first.
pub fn push_be_bytes(out: &mut Vec<u8>, v: u64, n: usize)
    ensures
        final(out)@ == old(out)@ + be_bytes(v as nat, n as nat),
    decreases n,
{
    if n > 0 {
        push_be_bytes(out, v / 256, n - 1);
        out.push((v % 256) as u8);
        proof {
            assert(be_bytes(v as nat, n as nat) == be_bytes((v / 256) as nat, (n - 1) as nat).push(
                (v % 256) as u8,
            ));
        }
    } else {
        proof {
            assert(old(out)@ + be_bytes(v as nat, 0) =~= old(out)@);
        }
    }
}

/// The number that eight big-endian bytes stand for.
pub fn be_u64(b: &[u8]) -> (r: u64)
    requires
        b@.len() == 8,
    ensures
        r as nat == be_value(b@),
{
    let mut acc: u64 = 0;
    let mut i: usize = 0;
    while i < 8
        invariant
            i <= 8,
            b@.len() == 8,
            acc as nat == be_value(b@.take(i as int)),
        decreases 8 - i,
    {
        proof {
            let p = b@.take(i as int + 1);
            assert(p.drop_last() =~= b@.take(i as int));
            lemma_be_value_bound(b@.take(i as int + 1));
            lemma_byte_span_8();
            lemma_span_monotone((i + 1) as nat, 8);
        }
        acc = acc * 256 + b[i] as u64;
        i = i + 1;
    }
    assert(b@.take(8) =~= b@);
    acc
}

proof fn lemma_span_monotone(m: nat, n: nat)
    requires
        m <= n,
    ensures
        byte_span(m) <= byte_span(n),
    decreases n,
{
    if m < n {
        lemma_span_monotone(m, (n - 1) as nat);
    }
}

} // verus!
