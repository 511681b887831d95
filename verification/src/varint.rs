//! Variable-length unsigned integer encoding used as the length prefix of
//! both wire protocols in this crate.
//!
//! The encoding is the usual base-128 scheme, least significant group
//! first: each byte carries seven value bits, and a set high bit marks a
//! continuation. A prefix is at most five bytes long, so it can carry any
//! value below `PREFIX_VALUE_LIMIT` (2^35); both protocols' size ceilings
//! lie far below that, so every legal frame is expressible and a longer
//! prefix is treated as malformed.

use vstd::prelude::*;
use vstd::arithmetic::div_mod::lemma_fundamental_div_mod;

verus! {

/// A length prefix is at most five bytes, so its value is below 128^5.
pub const PREFIX_VALUE_LIMIT: u64 = 0x8_0000_0000;

/// Greatest number of bytes in a length prefix.
pub const PREFIX_MAX_BYTES: u8 = 5;

/// 128 raised to the power `b`: the number of values `b` prefix bytes span.
pub open spec fn pow128(b: nat) -> nat
    decreases b,
{
    if b == 0 {
        1
    } else {
        128 * pow128((b - 1) as nat)
    }
}

/// The base-128 encoding of `n`, least significant seven bits first.
pub open spec fn spec_encode_varint(n: nat) -> Seq<u8>
    decreases n,
{
    if n < 128 {
        seq![n as u8]
    } else {
        seq![(128 + n % 128) as u8] + spec_encode_varint(n / 128)
    }
}

/// Decode a base-128 prefix from the front of `s`, reading at most
/// `budget` bytes. Returns the value and the number of bytes consumed,
/// or `None` when the prefix is unterminated within the budget.
pub open spec fn spec_decode_varint(s: Seq<u8>, budget: nat) -> Option<(nat, nat)>
    decreases budget,
{
    if budget == 0 || s.len() == 0 {
        None
    } else if s[0] < 128 {
        Some((s[0] as nat, 1))
    } else {
        match spec_decode_varint(s.subrange(1, s.len() as int), (budget - 1) as nat) {
            None => None,
            Some((v, k)) => Some((((s[0] - 128) as nat) + 128 * v, k + 1)),
        }
    }
}

/// A payload preceded by the varint encoding of its own length.
pub open spec fn spec_length_prefixed(payload: Seq<u8>) -> Seq<u8> {
    spec_encode_varint(payload.len()) + payload
}

pub proof fn lemma_pow128_mono(a: nat, b: nat)
    requires
        a <= b,
    ensures
        pow128(a) <= pow128(b),
        1 <= pow128(a),
    decreases b,
{
    if b > 0 {
        if a == b {
            lemma_pow128_mono((b - 1) as nat, (b - 1) as nat);
        } else {
            lemma_pow128_mono(a, (b - 1) as nat);
        }
    }
}

pub proof fn lemma_pow128_values()
    ensures
        pow128(4) == 0x1000_0000,
        pow128(5) == 0x8_0000_0000,
{
    reveal_with_fuel(pow128, 6);
}

/// From `n < 128 * m` conclude `n / 128 < m`.
proof fn lemma_div_bound(n: nat, b: nat)
    requires
        n < pow128((b + 1) as nat),
    ensures
        n / 128 < pow128(b),
{
    assert(pow128((b + 1) as nat) == 128 * pow128(b));
    lemma_fundamental_div_mod(n as int, 128);
    if n / 128 >= pow128(b) {
        assert(128 * (n / 128) >= 128 * pow128(b)) by (nonlinear_arith)
            requires n / 128 >= pow128(b),
        ;
        assert(false);
    }
}

/// Decoding what was encoded recovers the value, and consumes exactly the
/// encoding, whatever bytes follow it.
pub proof fn lemma_varint_round_trip(n: nat, rest: Seq<u8>, b: nat)
    requires
        1 <= b,
        n < pow128(b),
    ensures
        spec_decode_varint(spec_encode_varint(n) + rest, b)
            == Some((n, spec_encode_varint(n).len())),
    decreases n,
{
    let e = spec_encode_varint(n);
    let s = e + rest;
    if n < 128 {
        assert(s[0] == n as u8);
    } else {
        if b == 1 {
            assert(pow128(1) == 128 * pow128(0));
            assert(false);
        }
        lemma_div_bound(n, (b - 1) as nat);
        lemma_varint_round_trip(n / 128, rest, (b - 1) as nat);
        let e2 = spec_encode_varint(n / 128);
        assert(s.subrange(1, s.len() as int) =~= e2 + rest);
        assert(s[0] == (128 + n % 128) as u8);
        lemma_fundamental_div_mod(n as int, 128);
        assert(((s[0] - 128) as nat) + 128 * (n / 128) == n);
    }
}

/// Every successful decode consumes between one byte and the budget, never
/// more than the input, and yields a value below `pow128(budget)`.
pub proof fn lemma_decode_varint_props(s: Seq<u8>, b: nat)
    ensures
        match spec_decode_varint(s, b) {
            None => true,
            Some(p) => 1 <= p.1 <= b && p.1 <= s.len() && p.0 < pow128(b),
        },
    decreases b,
{
    if b > 0 && s.len() > 0 && s[0] < 128 {
        lemma_pow128_mono(1, b);
        assert(pow128(1) == 128 * pow128(0));
    } else if b > 0 && s.len() > 0 && s[0] >= 128 {
        lemma_decode_varint_props(s.subrange(1, s.len() as int), (b - 1) as nat);
        match spec_decode_varint(s.subrange(1, s.len() as int), (b - 1) as nat) {
            None => {}
            Some((v, k)) => {
                let x = (s[0] - 128) as nat;
                let p = pow128((b - 1) as nat);
                assert(x + 128 * v < 128 * p) by (nonlinear_arith)
                    requires
                        x < 128,
                        v < p,
                ;
            }
        }
    }
}

/// The varint encoding of `n`, as bytes.
pub fn encode_varint(n: u64) -> (out: Vec<u8>)
    ensures
        out@ == spec_encode_varint(n as nat),
    decreases n,
{
    let mut out: Vec<u8> = Vec::new();
    if n < 128 {
        out.push(n as u8);
        assert(out@ =~= spec_encode_varint(n as nat));
    } else {
        out.push((128 + n % 128) as u8);
        let mut tail = encode_varint(n / 128);
        out.append(&mut tail);
        assert(out@ =~= spec_encode_varint(n as nat));
    }
    out
}

/// Decode a varint that starts at `start` in `s`, reading at most `budget`
/// bytes; mirrors `spec_decode_varint` on the corresponding suffix.
pub fn decode_varint_at(s: &Vec<u8>, start: usize, budget: u8) -> (r: Option<(u64, usize)>)
    requires
        start <= s@.len(),
        budget <= 5,
    ensures
        ({
            let sub = s@.subrange(start as int, s@.len() as int);
            match r {
                None => spec_decode_varint(sub, budget as nat) is None,
                Some(p) => spec_decode_varint(sub, budget as nat)
                    == Some((p.0 as nat, p.1 as nat)),
            }
        }),
    decreases budget,
{
    let ghost sub = s@.subrange(start as int, s@.len() as int);
    if budget == 0 || start == s.len() {
        return None;
    }
    let b0: u8 = s[start];
    assert(sub[0] == b0);
    if b0 < 128 {
        return Some((b0 as u64, 1));
    }
    assert(sub.subrange(1, sub.len() as int) =~= s@.subrange(start + 1, s@.len() as int));
    match decode_varint_at(s, start + 1, budget - 1) {
        None => None,
        Some((v, k)) => {
            proof {
                lemma_decode_varint_props(sub.subrange(1, sub.len() as int), (budget - 1) as nat);
                lemma_pow128_mono((budget - 1) as nat, 4);
                lemma_pow128_values();
            }
            Some((((b0 - 128) as u64) + 128u64 * v, k + 1))
        }
    }
}

/// Appends the varint encoding of `payload`'s length, then the payload.
pub fn encode_length_prefixed(payload: &Vec<u8>) -> (out: Vec<u8>)
    ensures
        out@ == spec_length_prefixed(payload@),
{
    let mut out = encode_varint(payload.len() as u64);
    let mut body = clone_bytes(payload);
    out.append(&mut body);
    out
}

/// A copy of the given bytes; the view is unchanged.
pub fn clone_bytes(v: &Vec<u8>) -> (out: Vec<u8>)
    ensures
        out@ == v@,
{
    let out = copy_range(v, 0, v.len());
    assert(out@ =~= v@);
    out
}

/// The bytes of `s` from `from` (inclusive) to `to` (exclusive).
pub fn copy_range(s: &Vec<u8>, from: usize, to: usize) -> (out: Vec<u8>)
    requires
        from <= to <= s@.len(),
    ensures
        out@ == s@.subrange(from as int, to as int),
{
    let mut out: Vec<u8> = Vec::new();
    let mut i: usize = from;
    while i < to
        invariant
            from <= i <= to <= s@.len(),
            out@ == s@.subrange(from as int, i as int),
        decreases to - i,
    {
        out.push(s[i]);
        assert(out@ =~= s@.subrange(from as int, i + 1 as int));
        i = i + 1;
    }
    out
}

/// Whether two byte strings hold the same bytes.
pub fn bytes_eq(a: &Vec<u8>, b: &Vec<u8>) -> (r: bool)
    ensures
        r <==> a@ == b@,
{
    if a.len() != b.len() {
        assert(a@ != b@);
        return false;
    }
    let mut i: usize = 0;
    while i < a.len()
        invariant
            i <= a@.len(),
            a@.len() == b@.len(),
            forall|j: int| 0 <= j < i ==> a@[j] == b@[j],
        decreases a@.len() - i,
    {
        if a[i] != b[i] {
            return false;
        }
        i = i + 1;
    }
    proof {
        assert(a@ =~= b@);
    }
    true
}

} // verus!
