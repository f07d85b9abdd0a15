//! Bit sequences (most significant bit first) and their relation to numbers
//! and octets, as used by the Huffman coding of HPACK.

use vstd::prelude::*;
use vstd::arithmetic::power2::{pow2, lemma_pow2_unfold, lemma_pow2_pos, lemma2_to64};
use vstd::arithmetic::div_mod::{
    lemma_div_denominator,
    lemma_breakdown,
};

verus! {

/// The number a bit sequence denotes, most significant bit first.
pub open spec fn bits_value(b: Seq<bool>) -> nat
    decreases b.len(),
{
    if b.len() == 0 {
        0
    } else {
        2 * bits_value(b.drop_last()) + (if b.last() {
            1nat
        } else {
            0nat
        })
    }
}

/// The lowest `len` bits of `v`, most significant first.
pub open spec fn nat_bits(v: nat, len: nat) -> Seq<bool>
    decreases len,
{
    if len == 0 {
        Seq::empty()
    } else {
        nat_bits(v / 2, (len - 1) as nat).push(v % 2 == 1)
    }
}

/// `k` one bits.
pub open spec fn ones(k: nat) -> Seq<bool> {
    Seq::new(k, |i: int| true)
}

/// Bit `j` (0 is the most significant) of octet `x`.
pub open spec fn byte_bit(x: u8, j: int) -> bool {
    ((x as nat) / pow2((7 - j) as nat)) % 2 == 1
}

/// The bits of a sequence of octets, each octet most significant bit first.
pub open spec fn bytes_to_bits(x: Seq<u8>) -> Seq<bool> {
    Seq::new((8 * x.len()) as nat, |p: int| byte_bit(x[p / 8], p % 8))
}

/// The octets formed by each complete group of eight bits.
pub open spec fn bits_to_bytes(b: Seq<bool>) -> Seq<u8> {
    Seq::new(b.len() / 8, |i: int| bits_value(b.subrange(8 * i, 8 * i + 8)) as u8)
}

pub proof fn lemma_bits_value_bound(b: Seq<bool>)
    ensures
        bits_value(b) < pow2(b.len()),
    decreases b.len(),
{
    if b.len() > 0 {
        lemma_bits_value_bound(b.drop_last());
        lemma_pow2_unfold(b.len());
    } else {
        lemma2_to64();
    }
}

#[verifier::spinoff_prover]
pub proof fn lemma_bits_value_concat(a: Seq<bool>, b: Seq<bool>)
    ensures
        bits_value(a + b) == bits_value(a) * pow2(b.len()) + bits_value(b),
    decreases b.len(),
{
    if b.len() == 0 {
        assert(a + b =~= a);
        lemma2_to64();
    } else {
        let b2 = b.drop_last();
        lemma_bits_value_concat(a, b2);
        assert((a + b).drop_last() =~= a + b2);
        assert((a + b).last() == b.last());
        lemma_pow2_unfold(b.len());
        let x = bits_value(a);
        let p = pow2(b2.len());
        assert(2 * (x * p + bits_value(b2)) == x * (2 * p) + 2 * bits_value(b2))
            by (nonlinear_arith);
    }
}

pub proof fn lemma_nat_bits_len(v: nat, len: nat)
    ensures
        nat_bits(v, len).len() == len,
    decreases len,
{
    if len > 0 {
        lemma_nat_bits_len(v / 2, (len - 1) as nat);
    }
}

pub proof fn lemma_nat_bits_value(v: nat, len: nat)
    ensures
        bits_value(nat_bits(v, len)) == v % pow2(len),
    decreases len,
{
    lemma_nat_bits_len(v, len);
    if len == 0 {
        lemma2_to64();
    } else {
        lemma_nat_bits_value(v / 2, (len - 1) as nat);
        let b = nat_bits(v, len);
        assert(b.drop_last() =~= nat_bits(v / 2, (len - 1) as nat));
        lemma_pow2_unfold(len);
        lemma_pow2_pos((len - 1) as nat);
        lemma_breakdown(v as int, 2, pow2((len - 1) as nat) as int);
    }
}

pub proof fn lemma_nat_bits_of_value(b: Seq<bool>)
    ensures
        nat_bits(bits_value(b), b.len()) =~= b,
    decreases b.len(),
{
    if b.len() > 0 {
        let b2 = b.drop_last();
        lemma_nat_bits_of_value(b2);
        let x: nat = if b.last() {
            1
        } else {
            0
        };
        let v = bits_value(b);
        assert(v == 2 * bits_value(b2) + x);
        assert(v / 2 == bits_value(b2));
        assert(v % 2 == x);
        assert(b =~= b2.push(b.last()));
    }
}

pub proof fn lemma_nat_bits_take(v: nat, len: nat, k: nat)
    requires
        k <= len,
    ensures
        nat_bits(v, len).take(k as int) =~= nat_bits(v / pow2((len - k) as nat), k),
    decreases len,
{
    lemma_nat_bits_len(v, len);
    if k == len {
        lemma2_to64();
        assert(pow2(0) == 1);
        assert(v / 1 == v);
        assert((len - k) as nat == 0);
        assert(nat_bits(v, len).take(k as int) =~= nat_bits(v, len));
    } else {
        lemma_nat_bits_len(v / 2, (len - 1) as nat);
        lemma_nat_bits_take(v / 2, (len - 1) as nat, k);
        assert(nat_bits(v, len).take(k as int) =~= nat_bits(v / 2, (len - 1) as nat).take(
            k as int,
        ));
        lemma_pow2_pos((len - 1 - k) as nat);
        lemma_div_denominator(v as int, 2, pow2((len - 1 - k) as nat) as int);
        lemma_pow2_unfold((len - k) as nat);
    }
}

pub proof fn lemma_nat_bits_index(v: nat, len: nat, j: int)
    requires
        0 <= j < len,
    ensures
        nat_bits(v, len)[j] == ((v / pow2((len - 1 - j) as nat)) % 2 == 1),
    decreases len,
{
    lemma_nat_bits_len(v, len);
    if j == len - 1 {
        lemma2_to64();
        lemma_nat_bits_len(v / 2, (len - 1) as nat);
        assert(v / pow2(0) == v);
    } else {
        lemma_nat_bits_len(v / 2, (len - 1) as nat);
        lemma_nat_bits_index(v / 2, (len - 1) as nat, j);
        assert(nat_bits(v, len)[j] == nat_bits(v / 2, (len - 1) as nat)[j]);
        lemma_pow2_pos((len - 2 - j) as nat);
        lemma_div_denominator(v as int, 2, pow2((len - 2 - j) as nat) as int);
        lemma_pow2_unfold((len - 1 - j) as nat);
        assert(((len - 1 - j) - 1) as nat == (len - 2 - j) as nat);
        assert(v / 2 / pow2((len - 2 - j) as nat) == v / pow2((len - 1 - j) as nat));
    }
}

pub proof fn lemma_ones_value(k: nat)
    ensures
        bits_value(ones(k)) + 1 == pow2(k),
    decreases k,
{
    if k == 0 {
        lemma2_to64();
    } else {
        lemma_ones_value((k - 1) as nat);
        assert(ones(k).drop_last() =~= ones((k - 1) as nat));
        lemma_pow2_unfold(k);
    }
}

/// The octets of a whole number of bit groups give back those bits.
pub proof fn lemma_bytes_bits_round_trip(b: Seq<bool>)
    requires
        b.len() % 8 == 0,
    ensures
        bytes_to_bits(bits_to_bytes(b)) =~= b,
{
    let x = bits_to_bytes(b);
    assert(bytes_to_bits(x).len() == b.len());
    assert forall|p: int| 0 <= p < b.len() implies #[trigger] bytes_to_bits(x)[p] == b[p] by {
        let k = p / 8;
        let j = p % 8;
        let c = b.subrange(8 * k, 8 * k + 8);
        lemma_bits_value_bound(c);
        lemma2_to64();
        let v = bits_value(c);
        assert(x[k] == v as u8);
        assert((v as u8) as nat == v);
        lemma_nat_bits_of_value(c);
        lemma_nat_bits_index(v, 8, j);
        assert(c[j] == b[p]);
    }
}

/// Appending eight bits appends one octet.
pub proof fn lemma_bits_to_bytes_push(e: Seq<bool>, c: Seq<bool>)
    requires
        e.len() % 8 == 0,
        c.len() == 8,
    ensures
        bits_to_bytes(e + c) =~= bits_to_bytes(e).push(bits_value(c) as u8),
{
    let r = e + c;
    assert forall|i: int| 0 <= i < e.len() / 8 implies #[trigger] r.subrange(8 * i, 8 * i + 8)
        =~= e.subrange(8 * i, 8 * i + 8) by {}
    assert(r.subrange(8 * (e.len() / 8) as int, 8 * (e.len() / 8) as int + 8) =~= c);
}

} // verus!
