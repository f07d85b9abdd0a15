//! HPACK integer representation (RFC 7541, section 5.1).

use vstd::prelude::*;

verus! {

/// An integer encoded with an N-bit prefix: the value stored in the prefix
/// bits and, when the value does not fit there, the continuation octets.
#[derive(Debug)]
pub struct EncodedNumber {
    pub prefix: u8,
    pub rest: Option<Vec<u8>>,
}

/// The result of decoding an integer representation.
#[derive(Debug)]
pub struct DecodedNumber {
    pub num: u32,
    pub octets_read: usize,
}

/// The largest value that fits in an `n`-bit prefix, `2^n - 1`.
pub open spec fn prefix_max(n: u8) -> u8 {
    0xffu8 >> ((8 - n) as u8)
}

/// Continuation octets for a value `x` (least significant group of 7 bits
/// first, high bit set on every octet but the last).
pub open spec fn spec_rest(x: nat) -> Seq<u8>
    decreases x,
{
    if x < 128 {
        seq![x as u8]
    } else {
        seq![((x % 128) + 128) as u8] + spec_rest(x / 128)
    }
}

/// The encoding of `num` with an `n`-bit prefix.
pub open spec fn spec_encode(num: u32, n: u8) -> (u8, Option<Seq<u8>>) {
    if num < prefix_max(n) {
        (num as u8, None)
    } else {
        (prefix_max(n), Some(spec_rest((num - prefix_max(n)) as nat)))
    }
}

/// The number of continuation octets a decoder consumes from `s`: up to and
/// including the first octet with the high bit clear, or all of `s`.
pub open spec fn rest_len(s: Seq<u8>) -> nat
    decreases s.len(),
{
    if s.len() == 0 {
        0
    } else if s[0] < 128 {
        1
    } else {
        1 + rest_len(s.drop_first())
    }
}

/// The value carried by the first `k` continuation octets of `s`.
pub open spec fn rest_value(s: Seq<u8>, k: nat) -> nat
    decreases k,
{
    if k == 0 {
        0
    } else {
        rest_value(s, (k - 1) as nat) + ((s[k - 1] % 128) as nat) * pow2_7(
            (k - 1) as nat,
        )
    }
}

/// `128^k`.
pub open spec fn pow2_7(k: nat) -> nat
    decreases k,
{
    if k == 0 {
        1
    } else {
        128 * pow2_7((k - 1) as nat)
    }
}

/// The value a decoder reads: the prefix and, when the prefix is saturated,
/// the continuation octets that follow it.
pub open spec fn spec_decoded_value(octets: Seq<u8>, n: u8) -> nat {
    let p = octets[0] & prefix_max(n);
    if p < prefix_max(n) {
        p as nat
    } else {
        p as nat + rest_value(octets.drop_first(), rest_len(octets.drop_first()))
    }
}

/// The number of octets a decoder reads.
pub open spec fn spec_decoded_len(octets: Seq<u8>, n: u8) -> nat {
    let p = octets[0] & prefix_max(n);
    if p < prefix_max(n) {
        1
    } else {
        1 + rest_len(octets.drop_first())
    }
}

/// Decoding fails exactly when the value does not fit in 32 bits or when more
/// than five continuation octets would have to be read.
pub open spec fn spec_decode_ok(octets: Seq<u8>, n: u8) -> bool {
    let p = octets[0] & prefix_max(n);
    p < prefix_max(n) || (rest_len(octets.drop_first()) <= 5 && spec_decoded_value(octets, n)
        <= u32::MAX)
}

proof fn lemma_prefix_max(n: u8)
    requires
        1 <= n <= 8,
    ensures
        1 <= prefix_max(n) <= 255,
        forall|x: u8| #[trigger] (x & prefix_max(n)) <= prefix_max(n),
{
    assert(1 <= n <= 8 ==> 1 <= (0xffu8 >> ((8 - n) as u8)) <= 255) by (bit_vector);
    assert forall|x: u8| #[trigger] (x & prefix_max(n)) <= prefix_max(n) by {
        let m = prefix_max(n);
        assert(x & m <= m) by (bit_vector);
    }
}

/// Encodes `num` as an HPACK integer with an `n`-bit prefix.
pub fn encode(num: u32, n: u8) -> (res: EncodedNumber)
    requires
        1 <= n <= 8,
    ensures
        res.prefix == spec_encode(num, n).0,
        res.rest matches Some(r) ==> spec_encode(num, n).1 == Some(r@),
        res.rest is None ==> spec_encode(num, n).1 is None,
{
    let m: u8 = 0xffu8 >> (8 - n);
    proof {
        lemma_prefix_max(n);
    }
    if num < m as u32 {
        return EncodedNumber { prefix: num as u8, rest: None };
    }
    let mut rest: Vec<u8> = Vec::new();
    let mut x: u32 = num - m as u32;
    let ghost x0 = x as nat;
    while x >= 128
        invariant
            spec_rest(x0) == rest@ + spec_rest(x as nat),
        decreases x,
    {
        let b: u8 = ((x % 128) + 128) as u8;
        proof {
            assert(spec_rest(x as nat) == seq![b] + spec_rest((x / 128) as nat));
            assert(rest@.push(b) + spec_rest((x / 128) as nat) =~= rest@ + (seq![b] + spec_rest(
                (x / 128) as nat,
            )));
        }
        rest.push(b);
        x = x / 128;
    }
    proof {
        assert(spec_rest(x as nat) == seq![x as u8]);
        assert(rest@.push(x as u8) =~= rest@ + seq![x as u8]);
    }
    rest.push(x as u8);
    EncodedNumber { prefix: m, rest: Some(rest) }
}

/// Decodes an HPACK integer with an `n`-bit prefix from the start of
/// `octets`. Bits of the first octet above the prefix are ignored.
/// Returns `None` when the value does not fit in 32 bits.
pub fn decode(octets: &[u8], n: u8) -> (res: Option<DecodedNumber>)
    requires
        octets@.len() >= 1,
        1 <= n <= 8,
    ensures
        res is Some <==> spec_decode_ok(octets@, n),
        res matches Some(d) ==> d.num == spec_decoded_value(octets@, n) && d.octets_read
            == spec_decoded_len(octets@, n),
{
    let m: u8 = 0xffu8 >> (8 - n);
    proof {
        lemma_prefix_max(n);
    }
    let p: u8 = octets[0] & m;
    if p < m {
        return Some(DecodedNumber { num: p as u32, octets_read: 1 });
    }
    let ghost s = octets@.drop_first();
    let mut num: u64 = p as u64;
    let mut i: usize = 0;
    let mut weight: u64 = 1;
    proof {
        lemma_rest_len_bound(s);
        assert(s.len() == octets@.len() - 1);
    }
    loop
        invariant
            octets@.len() >= 1,
            1 <= n <= 8,
            s == octets@.drop_first(),
            p == m,
            p == octets@[0] & m,
            m == prefix_max(n),
            i <= s.len(),
            i <= 5,
            i <= rest_len(s),
            rest_len(s) <= s.len(),
            forall|j: int| 0 <= j < i ==> #[trigger] s[j] >= 128,
            weight == pow2_7(i as nat),
            num == p + rest_value(s, i as nat),
            num <= u32::MAX,
        decreases s.len() - i,
    {
        proof {
            lemma_rest_len_bound(s);
        }
        if 1 + i == octets.len() {
            proof {
                lemma_rest_len_all_high(s, i as nat);
            }
            assert(rest_len(s) == i);
            return Some(DecodedNumber { num: num as u32, octets_read: 1 + i });
        }
        if i == 5 {
            proof {
                lemma_rest_len_all_high(s, i as nat);
            }
            return None;
        }
        assert(s.len() == octets@.len() - 1);
        proof {
            lemma_rest_len_all_high(s, i as nat);
        }
        let b: u8 = octets[1 + i];
        assert(b == s[i as int]);
        let v: u8 = b & 127;
        assert(b & 127 == b % 128 && b & 127 <= 127) by (bit_vector);
        proof {
            lemma_pow2_7_small(i as nat);
        }
        assert((v as u64) * weight <= 127 * 0x1000_0000) by (nonlinear_arith)
            requires
                v <= 127,
                weight <= 0x1000_0000,
        ;
        num = num + (v as u64) * weight;
        proof {
            assert(rest_value(s, (i + 1) as nat) == rest_value(s, i as nat) + ((s[i as int]
                % 128) as nat) * pow2_7(i as nat));
        }
        if num > u32::MAX as u64 {
            proof {
                lemma_rest_value_mono(s, (i + 1) as nat, rest_len(s));
            }
            return None;
        }
        weight = weight * 128;
        i = i + 1;
        if b < 128 {
            proof {
                lemma_rest_len_stop(s, (i - 1) as nat);
            }
            return Some(DecodedNumber { num: num as u32, octets_read: 1 + i });
        }
    }
}

proof fn lemma_pow2_7_small(i: nat)
    requires
        i <= 4,
    ensures
        pow2_7(i) <= 0x1000_0000,
{
    reveal_with_fuel(pow2_7, 5);
}

proof fn lemma_rest_len_bound(s: Seq<u8>)
    ensures
        rest_len(s) <= s.len(),
    decreases s.len(),
{
    if s.len() > 0 && s[0] >= 128 {
        lemma_rest_len_bound(s.drop_first());
    }
}

/// If the first `i` octets all have the high bit set, the decoder reads more
/// than `i` octets, unless `s` ends there.
proof fn lemma_rest_len_all_high(s: Seq<u8>, i: nat)
    requires
        i <= s.len(),
        forall|j: int| 0 <= j < i ==> #[trigger] s[j] >= 128,
    ensures
        i == s.len() ==> rest_len(s) == i,
        i < s.len() ==> rest_len(s) > i,
    decreases i,
{
    if i > 0 {
        let t = s.drop_first();
        assert forall|j: int| 0 <= j < i - 1 implies #[trigger] t[j] >= 128 by {
            assert(t[j] == s[j + 1]);
        }
        lemma_rest_len_all_high(t, (i - 1) as nat);
    } else if s.len() > 0 {
    }
}

/// If the first `i` octets have the high bit set and octet `i` does not,
/// the decoder reads exactly `i + 1` octets.
proof fn lemma_rest_len_stop(s: Seq<u8>, i: nat)
    requires
        i < s.len(),
        forall|j: int| 0 <= j < i ==> #[trigger] s[j] >= 128,
        s[i as int] < 128,
    ensures
        rest_len(s) == i + 1,
    decreases i,
{
    if i > 0 {
        let t = s.drop_first();
        assert forall|j: int| 0 <= j < i - 1 implies #[trigger] t[j] >= 128 by {
            assert(t[j] == s[j + 1]);
        }
        assert(t[(i - 1) as int] == s[i as int]);
        lemma_rest_len_stop(t, (i - 1) as nat);
    }
}

proof fn lemma_rest_value_mono(s: Seq<u8>, a: nat, b: nat)
    requires
        a <= b,
    ensures
        rest_value(s, a) <= rest_value(s, b),
    decreases b - a,
{
    if a < b {
        lemma_rest_value_mono(s, a, (b - 1) as nat);
    }
}

proof fn lemma_rest_value_cons(b: u8, t: Seq<u8>, k: nat)
    requires
        k <= t.len(),
    ensures
        rest_value(seq![b] + t, k + 1) == (b % 128) as nat + 128 * rest_value(t, k),
    decreases k,
{
    let s = seq![b] + t;
    if k == 0 {
        assert(s[0] == b);
        assert(pow2_7(0) == 1);
        assert(rest_value(s, 1) == rest_value(s, 0) + ((s[0] % 128) as nat) * pow2_7(0));
        assert(rest_value(s, 0) == 0);
        assert(rest_value(t, 0) == 0);
    } else {
        lemma_rest_value_cons(b, t, (k - 1) as nat);
        assert(s[k as int] == t[(k - 1) as int]);
        let d = (t[k - 1] % 128) as nat;
        let a = rest_value(t, (k - 1) as nat);
        let w = pow2_7((k - 1) as nat);
        assert(rest_value(t, k) == a + d * w);
        assert(pow2_7(k) == 128 * w);
        assert(rest_value(s, k + 1) == rest_value(s, k) + d * pow2_7(k));
        assert(d * (128 * w) == 128 * (d * w)) by (nonlinear_arith);
        assert(128 * (a + d * w) == 128 * a + 128 * (d * w)) by (nonlinear_arith);
    }
}

/// The continuation octets of `x` decode to `x`, whatever follows them.
proof fn lemma_rest_round_trip(x: nat, tail: Seq<u8>)
    ensures
        rest_len(spec_rest(x) + tail) == spec_rest(x).len(),
        rest_value(spec_rest(x) + tail, spec_rest(x).len()) == x,
    decreases x,
{
    let r = spec_rest(x);
    let s = r + tail;
    if x < 128 {
        assert(s[0] == x as u8);
        assert(pow2_7(0) == 1);
        assert(rest_value(s, 0) == 0);
        assert(rest_value(s, 1) == rest_value(s, 0) + ((s[0] % 128) as nat) * pow2_7(0));
        assert((x as u8) % 128 == x);
        assert(r.len() == 1);
    } else {
        let b = ((x % 128) + 128) as u8;
        let r2 = spec_rest(x / 128);
        lemma_rest_round_trip(x / 128, tail);
        assert(s =~= seq![b] + (r2 + tail));
        assert(s.drop_first() =~= r2 + tail);
        assert(s[0] == b);
        lemma_rest_value_cons(b, r2 + tail, r2.len());
        assert(r.len() == r2.len() + 1);
        assert(b % 128 == x % 128);
    }
}

proof fn lemma_rest_short(x: nat, k: nat)
    requires
        x < pow2_7(k),
        k >= 1,
    ensures
        spec_rest(x).len() <= k,
    decreases x,
{
    if x >= 128 {
        if k == 1 {
            assert(pow2_7(1) == 128 * pow2_7(0));
        }
        assert(x / 128 < pow2_7((k - 1) as nat)) by (nonlinear_arith)
            requires
                x < 128 * pow2_7((k - 1) as nat),
        ;
        lemma_rest_short(x / 128, (k - 1) as nat);
    }
}

/// Round trip of the integer representation: the encoding of `num`, with any
/// flag bits above the prefix and any octets after it, decodes to `num` and
/// reads exactly the encoded octets.
pub proof fn lemma_number_round_trip(num: u32, n: u8, flags: u8, tail: Seq<u8>)
    requires
        1 <= n <= 8,
        flags & prefix_max(n) == 0,
    ensures
        ({
            let (p, r) = spec_encode(num, n);
            let rest = match r {
                Some(r) => r,
                None => Seq::<u8>::empty(),
            };
            let octets = seq![flags | p] + rest + tail;
            &&& spec_decode_ok(octets, n)
            &&& spec_decoded_value(octets, n) == num
            &&& spec_decoded_len(octets, n) == 1 + rest.len()
        }),
{
    lemma_prefix_max(n);
    let m = prefix_max(n);
    let (p, r) = spec_encode(num, n);
    let rest = match r {
        Some(r) => r,
        None => Seq::<u8>::empty(),
    };
    let octets = seq![flags | p] + rest + tail;
    assert(octets[0] == flags | p);
    assert(flags & m == 0 && p <= m ==> (flags | p) & m == p) by (bit_vector)
        requires
            m == 0xffu8 >> ((8 - n) as u8),
            1 <= n <= 8,
    ;
    if num < m {
        assert(p <= m);
    } else {
        let x = (num - m) as nat;
        assert(octets.drop_first() =~= spec_rest(x) + tail);
        lemma_rest_round_trip(x, tail);
        reveal_with_fuel(pow2_7, 6);
        lemma_rest_short(x, 5);
    }
}

pub proof fn lemma_decoded_len_bound(octets: Seq<u8>, n: u8)
    requires
        octets.len() >= 1,
    ensures
        spec_decoded_len(octets, n) <= octets.len(),
{
    lemma_rest_len_bound(octets.drop_first());
}

/// The prefix of an encoded integer fits in its prefix bits.
pub proof fn lemma_prefix_max_bound(num: u32, n: u8)
    requires
        1 <= n <= 8,
    ensures
        spec_encode(num, n).0 <= prefix_max(n),
        n == 4 ==> prefix_max(n) == 15,
{
    lemma_prefix_max(n);
    assert(prefix_max(4) == 15) by (bit_vector);
}

/// The high bit of the first octet of an integer with a 7-bit prefix is the
/// flag it was encoded with.
pub proof fn lemma_prefix_byte_flag(num: u32, n: u8, flags: u8)
    requires
        n == 7,
        flags == 0x80u8 || flags == 0u8,
    ensures
        (flags | spec_encode(num, n).0) >= 128 <==> flags == 0x80u8,
{
    lemma_prefix_max(n);
    let p = spec_encode(num, n).0;
    assert(p <= prefix_max(n));
    assert(prefix_max(7) == 127) by (bit_vector);
    assert(p <= 127 ==> ((0x80u8 | p) >= 128 && (0u8 | p) < 128)) by (bit_vector);
}

} // verus!
