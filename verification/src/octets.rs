//! Octet-sequence helpers shared by the encoders and decoders.

use vstd::prelude::*;
use vstd::utf8::{encode_utf8, valid_utf8};

verus! {

/// The big-endian value of two octets.
pub open spec fn be16(a: u8, b: u8) -> u16 {
    (a as int * 0x100 + b as int) as u16
}

/// The big-endian value of three octets.
pub open spec fn be24(a: u8, b: u8, c: u8) -> u32 {
    (a as int * 0x10000 + b as int * 0x100 + c as int) as u32
}

/// The big-endian value of four octets.
pub open spec fn be32(a: u8, b: u8, c: u8, d: u8) -> u32 {
    (a as int * 0x1000000 + b as int * 0x10000 + c as int * 0x100 + d as int) as u32
}

/// The four octets of `x`, most significant first.
pub open spec fn u32_octets(x: u32) -> Seq<u8> {
    seq![(x / 0x1000000) as u8, ((x / 0x10000) % 0x100) as u8, ((x / 0x100) % 0x100) as u8, (x % 0x100) as u8]
}

/// The two octets of `x`, most significant first.
pub open spec fn u16_octets(x: u16) -> Seq<u8> {
    seq![(x / 0x100) as u8, (x % 0x100) as u8]
}

/// Reading back the octets of a 32-bit number gives the number.
pub proof fn lemma_be32_u32_octets(x: u32)
    ensures
        be32(u32_octets(x)[0], u32_octets(x)[1], u32_octets(x)[2], u32_octets(x)[3]) == x,
{
}

/// Reading back the octets of a 16-bit number gives the number.
pub proof fn lemma_be16_u16_octets(x: u16)
    ensures
        be16(u16_octets(x)[0], u16_octets(x)[1]) == x,
{
}

/// Reading back the three low octets of a 24-bit number gives the number.
pub proof fn lemma_be24_split(x: u32)
    requires
        x < 0x1000000,
    ensures
        be24(((x / 0x10000) % 0x100) as u8, ((x / 0x100) % 0x100) as u8, (x % 0x100) as u8) == x,
{
    assert(((x / 0x10000) % 0x100) * 0x10000 + ((x / 0x100) % 0x100) * 0x100 + x % 0x100 == x)
        by (bit_vector)
        requires
            x < 0x1000000,
    ;
}

/// Reading back the octets of a 32-bit number with its high bit cleared
/// gives the number modulo `2^31`.
pub proof fn lemma_be32_split_31(x: u32)
    ensures
        be32(
            ((x / 0x1000000) % 0x80) as u8,
            ((x / 0x10000) % 0x100) as u8,
            ((x / 0x100) % 0x100) as u8,
            (x % 0x100) as u8,
        ) == x % 0x8000_0000,
{
    assert(((x / 0x1000000) % 0x80) * 0x1000000 + ((x / 0x10000) % 0x100) * 0x10000 + ((x / 0x100)
        % 0x100) * 0x100 + x % 0x100 == x % 0x8000_0000) by (bit_vector);
}

/// Splits `x` into four octets, most significant first.
pub fn u32_to_octets(x: u32) -> (r: [u8; 4])
    ensures
        r@ == u32_octets(x),
{
    let a: u8 = (x / 0x1000000) as u8;
    let b: u8 = ((x / 0x10000) % 0x100) as u8;
    let c: u8 = ((x / 0x100) % 0x100) as u8;
    let d: u8 = (x % 0x100) as u8;
    let r = [a, b, c, d];
    assert(r@ =~= u32_octets(x));
    r
}

/// Joins four octets, most significant first.
pub fn octets_to_u32(a: u8, b: u8, c: u8, d: u8) -> (r: u32)
    ensures
        r == be32(a, b, c, d),
{
    (a as u32) * 0x1000000 + (b as u32) * 0x10000 + (c as u32) * 0x100 + (d as u32)
}

/// Appends the octets of `s` to `v`.
pub fn extend_from(v: &mut Vec<u8>, s: &[u8])
    ensures
        final(v)@ == old(v)@ + s@,
{
    let ghost v0 = v@;
    let mut k: usize = 0;
    while k < s.len()
        invariant
            k <= s.len(),
            v@ == v0 + s@.take(k as int),
        decreases s.len() - k,
    {
        v.push(s[k]);
        k = k + 1;
        proof {
            assert(s@.take(k as int) =~= s@.take(k - 1).push(s@[k - 1]));
        }
    }
    assert(s@.take(s.len() as int) =~= s@);
}

/// Copies the octets of a slice into a new vector.
pub fn slice_to_vec(s: &[u8]) -> (v: Vec<u8>)
    ensures
        v@ == s@,
{
    let mut v: Vec<u8> = Vec::new();
    extend_from(&mut v, s);
    assert(Seq::<u8>::empty() + s@ =~= s@);
    v
}

/// Copies `s[start..end]` into a new vector.
pub fn copy_range(s: &[u8], start: usize, end: usize) -> (v: Vec<u8>)
    requires
        start <= end <= s.len(),
    ensures
        v@ == s@.subrange(start as int, end as int),
{
    let mut v: Vec<u8> = Vec::new();
    let mut k: usize = start;
    while k < end
        invariant
            start <= k <= end,
            end <= s.len(),
            v@ == s@.subrange(start as int, k as int),
        decreases end - k,
    {
        v.push(s[k]);
        k = k + 1;
        proof {
            assert(s@.subrange(start as int, k as int) =~= s@.subrange(start as int, k - 1).push(
                s@[k - 1],
            ));
        }
    }
    v
}

/// The UTF-8 octets of a string.
pub open spec fn utf8_bytes(s: &String) -> Seq<u8> {
    encode_utf8(s@)
}

/// Builds a string from octets with `String::from_utf8`, which succeeds
/// exactly when the octets are valid UTF-8; the string then holds those
/// octets.
#[verifier::external_body]
pub(crate) fn string_from_utf8(bytes: Vec<u8>) -> (r: Option<String>)
    ensures
        r is Some <==> valid_utf8(bytes@),
        r matches Some(s) ==> encode_utf8(s@) == bytes@,
{
    String::from_utf8(bytes).ok()
}

/// Appends `n` zero octets to `v`.
pub fn push_zeros(v: &mut Vec<u8>, n: u8)
    ensures
        final(v)@ == old(v)@ + Seq::new(n as nat, |i: int| 0u8),
{
    let ghost v0 = v@;
    let mut k: u8 = 0;
    while k < n
        invariant
            k <= n,
            v@ == v0 + Seq::new(k as nat, |i: int| 0u8),
        decreases n - k,
    {
        v.push(0u8);
        k = k + 1;
        proof {
            assert(Seq::new(k as nat, |i: int| 0u8) =~= Seq::new((k - 1) as nat, |i: int| 0u8).push(
                0u8,
            ));
        }
    }
}

} // verus!
