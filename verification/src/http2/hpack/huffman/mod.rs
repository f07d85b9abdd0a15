//! Huffman coding of HPACK string literals (RFC 7541, section 5.2 and
//! Appendix B).

pub mod table;

use vstd::prelude::*;
use vstd::arithmetic::power2::{
    pow2,
    lemma_pow2_pos,
    lemma_pow2_adds,
    lemma2_to64,
    lemma_pow2_strictly_increases,
};
use vstd::arithmetic::div_mod::{
    lemma_div_by_multiple,
    lemma_div_is_ordered,
    lemma_fundamental_div_mod_converse,
    lemma_small_mod,
};
use vstd::bits::{lemma_u64_shl_is_mul, lemma_u8_shr_is_div};
use super::bits::{
    bits_value,
    nat_bits,
    ones,
    bytes_to_bits,
    bits_to_bytes,
    byte_bit,
    lemma_bits_value_bound,
    lemma_bits_value_concat,
    lemma_nat_bits_len,
    lemma_nat_bits_value,
    lemma_nat_bits_take,
    lemma_ones_value,
    lemma_bytes_bits_round_trip,
    lemma_bits_to_bytes_push,
};
use self::table::{
    HUFFMAN_CODES,
    HUFFMAN_BASE,
    HUFFMAN_COUNT,
    HUFFMAN_OFFSET,
    HUFFMAN_SYMBOLS,
    code,
    code_len,
    base,
    count,
    offset,
    symbol_at,
    lemma_symbol_canonical,
    lemma_length_facts,
    lemma_short_lengths,
};

verus! {

/// The bits of the code of symbol `sym`.
pub open spec fn code_bits(sym: int) -> Seq<bool> {
    nat_bits(code(sym) as nat, code_len(sym) as nat)
}

/// The concatenated codes of the octets of `s`.
pub open spec fn encoded_bits(s: Seq<u8>) -> Seq<bool>
    decreases s.len(),
{
    if s.len() == 0 {
        Seq::empty()
    } else {
        code_bits(s[0] as int) + encoded_bits(s.drop_first())
    }
}

/// The number of padding bits that completes `n` bits to whole octets.
pub open spec fn padding_len(n: nat) -> nat {
    ((8 - n % 8) % 8) as nat
}

/// The Huffman encoding of `s`: the codes of its octets, padded with one
/// bits (a prefix of the end-of-string code) to a whole number of octets.
pub open spec fn spec_encode(s: Seq<u8>) -> Seq<u8> {
    let b = encoded_bits(s);
    bits_to_bytes(b + ones(padding_len(b.len())))
}

/// Whether `v` is a code of length `l`.
pub open spec fn matches_length(v: nat, l: int) -> bool {
    base(l) <= v < base(l) + count(l)
}

/// The first symbol whose code is a prefix of `bits`, trying lengths from `l`
/// upwards, with the length of its code.
pub open spec fn decode_from(bits: Seq<bool>, l: int) -> Option<(int, int)>
    decreases 31 - l,
{
    if l > 30 || bits.len() < l {
        None
    } else if matches_length(bits_value(bits.take(l)), l) {
        Some((symbol_at(offset(l) + bits_value(bits.take(l)) - base(l)) as int, l))
    } else {
        decode_from(bits, l + 1)
    }
}

/// Decoding of a bit sequence: symbol after symbol, stopping at the
/// end-of-string symbol or where no code matches (such as in the padding).
pub open spec fn decode_bits(bits: Seq<bool>) -> Seq<u8>
    decreases bits.len(),
{
    match decode_from(bits, 1) {
        Some((sym, used)) => if 0 <= sym < 256 && 0 < used <= bits.len() {
            seq![sym as u8] + decode_bits(bits.skip(used))
        } else {
            Seq::empty()
        },
        None => Seq::empty(),
    }
}

/// The Huffman decoding of the octets `x`.
pub open spec fn spec_decode(x: Seq<u8>) -> Seq<u8> {
    decode_bits(bytes_to_bits(x))
}

proof fn lemma_code_facts(sym: int)
    requires
        0 <= sym < 257,
    ensures
        5 <= code_len(sym) <= 30,
        code_bits(sym).len() == code_len(sym),
        (code(sym) as nat) < pow2(code_len(sym) as nat),
        bits_value(code_bits(sym)) == code(sym),
        matches_length(code(sym) as nat, code_len(sym) as int),
        symbol_at(offset(code_len(sym) as int) + code(sym) - base(code_len(sym) as int)) == sym,
{
    lemma_symbol_canonical(sym);
    let l = code_len(sym) as int;
    lemma_length_facts(l);
    lemma_nat_bits_len(code(sym) as nat, l as nat);
    lemma_nat_bits_value(code(sym) as nat, l as nat);
    lemma_pow2_pos(l as nat);
    lemma_small_mod(code(sym) as nat, pow2(l as nat));
}

proof fn lemma_encoded_bits_concat(a: Seq<u8>, b: Seq<u8>)
    ensures
        encoded_bits(a + b) =~= encoded_bits(a) + encoded_bits(b),
    decreases a.len(),
{
    if a.len() == 0 {
        assert(a + b =~= b);
    } else {
        lemma_encoded_bits_concat(a.drop_first(), b);
        assert((a + b).drop_first() =~= a.drop_first() + b);
        assert((a + b)[0] == a[0]);
    }
}

proof fn lemma_encoded_bits_push(s: Seq<u8>, i: int)
    requires
        0 <= i < s.len(),
    ensures
        encoded_bits(s.take(i + 1)) =~= encoded_bits(s.take(i)) + code_bits(s[i] as int),
{
    assert(s.take(i + 1) =~= s.take(i) + seq![s[i]]);
    lemma_encoded_bits_concat(s.take(i), seq![s[i]]);
    let one = seq![s[i]];
    assert(one.drop_first() =~= Seq::<u8>::empty());
    assert(one[0] == s[i]);
    assert(encoded_bits(Seq::<u8>::empty()) =~= Seq::<bool>::empty());
    assert(encoded_bits(one) == code_bits(one[0] as int) + encoded_bits(one.drop_first()));
    assert(encoded_bits(one) =~= code_bits(s[i] as int));
}

/// The canonical construction: the codes of length `big` start above every
/// extension of a code of length `l`.
proof fn lemma_base_chain(l: int, big: int)
    requires
        5 <= l < big <= 30,
    ensures
        base(big) >= (base(l) + count(l)) * pow2((big - l) as nat),
    decreases big - l,
{
    lemma_length_facts(l);
    lemma2_to64();
    if big == l + 1 {
        assert((big - l) as nat == 1);
        assert(pow2(1) == 2);
        assert(base(big) == 2 * (base(l) + count(l)));
    } else {
        lemma_base_chain(l + 1, big);
        lemma_length_facts(l + 1);
        let a = base(l) + count(l);
        let q = pow2((big - l - 1) as nat);
        lemma_pow2_adds(1, (big - l - 1) as nat);
        assert((1 + (big - l - 1)) as nat == (big - l) as nat);
        assert(pow2((big - l) as nat) == 2 * q);
        assert(base(big) >= (base(l + 1) + count(l + 1)) * q);
        assert((base(l + 1) + count(l + 1)) * q >= base(l + 1) * q) by (nonlinear_arith)
            requires
                count(l + 1) >= 0,
                q >= 0,
        ;
        assert(base(l + 1) * q == a * (2 * q)) by (nonlinear_arith)
            requires
                base(l + 1) == 2 * a,
        ;
        assert(a * (2 * q) == a * pow2((big - l) as nat));
        assert(base(big) >= a * pow2((big - l) as nat));
    }
}

/// Decoding the code of `sym`, whatever follows it, yields `sym`.
proof fn lemma_decode_code(sym: int, rest: Seq<bool>, l: int)
    requires
        0 <= sym < 257,
        1 <= l <= code_len(sym),
    ensures
        decode_from(code_bits(sym) + rest, l) == Some((sym, code_len(sym) as int)),
    decreases code_len(sym) - l,
{
    lemma_code_facts(sym);
    let big = code_len(sym) as int;
    let c = code(sym) as nat;
    let bits = code_bits(sym) + rest;
    assert(bits.take(l) =~= code_bits(sym).take(l));
    lemma_nat_bits_take(c, big as nat, l as nat);
    let d = pow2((big - l) as nat);
    lemma_pow2_pos((big - l) as nat);
    let v = c / d;
    lemma_nat_bits_value(v, l as nat);
    if l == big {
        lemma2_to64();
        assert(d == 1);
        assert(c / d == c) by (nonlinear_arith)
            requires
                d == 1,
        ;
        assert(v == c);
        lemma_small_mod(c, pow2(l as nat));
    } else {
        if l < 5 {
            lemma_short_lengths(l);
        } else {
            lemma_base_chain(l, big);
            lemma_pow2_adds((big - l) as nat, l as nat);
            assert(((big - l) + l) as nat == big as nat);
            // v < pow2(l) because c < pow2(big) == d * pow2(l)
            lemma_pow2_pos(l as nat);
            assert(v < pow2(l as nat)) by {
                lemma_div_is_ordered(c as int, (pow2(big as nat) - 1) as int, d as int);
                assert((pow2(big as nat) - 1) / (d as int) < pow2(l as nat)) by (nonlinear_arith)
                    requires
                        pow2(big as nat) == d * pow2(l as nat),
                        d > 0,
                ;
            }
            lemma_small_mod(v, pow2(l as nat));
            // v >= base(l) + count(l)
            let a = (base(l) + count(l)) as int;
            lemma_div_by_multiple(a, d as int);
            lemma_div_is_ordered(a * d, c as int, d as int);
        }
        lemma_decode_code(sym, rest, l + 1);
    }
}

/// The padding never decodes to a symbol.
proof fn lemma_decode_padding(k: nat, l: int)
    requires
        k < 8,
        1 <= l,
    ensures
        decode_from(ones(k), l) is None,
    decreases 31 - l,
{
    if l <= 30 && k >= l {
        let t = ones(k).take(l);
        assert(t =~= ones(l as nat));
        lemma_ones_value(l as nat);
        lemma2_to64();
        if l < 5 {
            lemma_short_lengths(l);
        }
        lemma_decode_padding(k, l + 1);
    }
}

/// Decoding the codes of `s` followed by fewer than eight one bits yields
/// `s`.
proof fn lemma_decode_encoded(s: Seq<u8>, k: nat)
    requires
        k < 8,
    ensures
        decode_bits(encoded_bits(s) + ones(k)) == s,
    decreases s.len(),
{
    let bits = encoded_bits(s) + ones(k);
    if s.len() == 0 {
        assert(bits =~= ones(k));
        lemma_decode_padding(k, 1);
    } else {
        let sym = s[0] as int;
        let tail = encoded_bits(s.drop_first()) + ones(k);
        assert(bits =~= code_bits(sym) + tail);
        lemma_code_facts(sym);
        lemma_decode_code(sym, tail, 1);
        assert(bits.skip(code_len(sym) as int) =~= tail);
        lemma_decode_encoded(s.drop_first(), k);
        assert(s =~= seq![s[0]] + s.drop_first());
    }
}

pub proof fn lemma_code_len_bound(sym: int)
    requires
        0 <= sym < 257,
    ensures
        code_bits(sym).len() <= 30,
{
    lemma_code_facts(sym);
}

/// Round trip of the Huffman coding: decoding the encoding of any octet
/// string gives the string back.
pub proof fn lemma_huffman_round_trip(s: Seq<u8>)
    ensures
        spec_decode(spec_encode(s)) == s,
{
    let b = encoded_bits(s);
    let k = padding_len(b.len());
    let padded = b + ones(k);
    assert(padded.len() % 8 == 0);
    lemma_bytes_bits_round_trip(padded);
    lemma_decode_encoded(s, k);
}

/// Huffman-encodes the octets of `string`.
pub fn encode(string: &[u8]) -> (encoded: Vec<u8>)
    ensures
        encoded@ == spec_encode(string@),
{
    let mut encoded: Vec<u8> = Vec::new();
    let mut acc: u64 = 0;
    let mut nbits: u64 = 0;
    let ghost mut emitted: Seq<bool> = Seq::empty();
    let ghost mut pending: Seq<bool> = Seq::empty();
    let mut i: usize = 0;
    proof {
        lemma2_to64();
        assert(string@.take(0) =~= Seq::<u8>::empty());
    }
    while i < string.len()
        invariant
            i <= string.len(),
            emitted + pending == encoded_bits(string@.take(i as int)),
            emitted.len() % 8 == 0,
            encoded@ == bits_to_bytes(emitted),
            pending.len() == nbits,
            nbits < 8,
            acc == bits_value(pending),
            acc < pow2(nbits as nat),
        decreases string.len() - i,
    {
        let sym = string[i] as usize;
        let entry = HUFFMAN_CODES[sym];
        let c: u32 = entry.0;
        let l: u8 = entry.1;
        proof {
            lemma_code_facts(sym as int);
            lemma_bits_value_bound(pending);
            lemma_encoded_bits_push(string@, i as int);
            lemma_bits_value_concat(pending, code_bits(sym as int));
            lemma_pow2_strictly_increases(nbits as nat, 8);
            lemma2_to64();
            lemma_u64_shl_is_mul(1, l as u64);
        }
        let p: u64 = 1u64 << (l as u64);
        assert(p == pow2(l as nat));
        assert(acc * p + c <= 0x20_0000_0000) by (nonlinear_arith)
            requires
                acc < 128,
                p <= 0x4000_0000,
                c < p,
        ;
        acc = acc * p + c as u64;
        nbits = nbits + l as u64;
        proof {
            assert((emitted + pending) + code_bits(sym as int) =~= emitted + (pending + code_bits(
                sym as int,
            )));
            pending = pending + code_bits(sym as int);
            lemma_bits_value_bound(pending);
        }
        while nbits >= 8
            invariant
                i < string.len(),
                emitted + pending == encoded_bits(string@.take(i + 1)),
                emitted.len() % 8 == 0,
                encoded@ == bits_to_bytes(emitted),
                pending.len() == nbits,
                nbits < 38,
                acc == bits_value(pending),
                acc < pow2(nbits as nat),
            decreases nbits,
        {
            let sh: u64 = nbits - 8;
            proof {
                lemma_pow2_strictly_increases(sh as nat, 64);
                lemma2_to64();
                lemma_u64_shl_is_mul(1, sh);
            }
            let d: u64 = 1u64 << sh;
            let ghost head = pending.take(8);
            let ghost tail = pending.skip(8);
            proof {
                assert(pending =~= head + tail);
                lemma_bits_value_concat(head, tail);
                lemma_bits_value_bound(head);
                lemma_bits_value_bound(tail);
                lemma_pow2_pos(sh as nat);
                lemma_fundamental_div_mod_converse(
                    acc as int,
                    d as int,
                    bits_value(head) as int,
                    bits_value(tail) as int,
                );
                lemma_bits_to_bytes_push(emitted, head);
                assert(emitted + pending =~= (emitted + head) + tail);
            }
            let byte: u8 = (acc / d) as u8;
            encoded.push(byte);
            acc = acc % d;
            nbits = sh;
            proof {
                emitted = emitted + head;
                pending = tail;
            }
        }
        i = i + 1;
    }
    proof {
        assert(string@.take(string.len() as int) =~= string@);
    }
    if nbits > 0 {
        let padn: u64 = 8 - nbits;
        proof {
            lemma_u64_shl_is_mul(1, padn);
            lemma2_to64();
            lemma_ones_value(padn as nat);
            lemma_bits_value_concat(pending, ones(padn as nat));
            lemma_bits_value_bound(pending + ones(padn as nat));
            lemma_pow2_adds(nbits as nat, padn as nat);
            lemma_bits_to_bytes_push(emitted, pending + ones(padn as nat));
            assert((emitted + pending) + ones(padn as nat) =~= emitted + (pending + ones(
                padn as nat,
            )));
        }
        let d: u64 = 1u64 << padn;
        assert(acc * d + (d - 1) < 256) by (nonlinear_arith)
            requires
                acc < pow2(nbits as nat),
                d == pow2(padn as nat),
                pow2(nbits as nat) * pow2(padn as nat) == 256,
        ;
        let byte: u8 = (acc * d + (d - 1)) as u8;
        encoded.push(byte);
    } else {
        proof {
            assert(pending =~= Seq::<bool>::empty());
            assert(emitted + ones(0) =~= emitted);
            assert(emitted + pending =~= emitted);
        }
    }
    encoded
}

/// Decodes Huffman-coded octets. Decoding stops at the end of the input, at
/// the end-of-string symbol, or at bits that do not form a code (such as
/// the padding).
#[verifier::rlimit(50)]
pub fn decode(huffman_string: &[u8]) -> (output: Vec<u8>)
    ensures
        output@ == spec_decode(huffman_string@),
{
    let ghost bits = bytes_to_bits(huffman_string@);
    let mut output: Vec<u8> = Vec::new();
    let mut v: u64 = 0;
    let mut l: usize = 0;
    let mut i: usize = 0;
    let ghost mut start: int = 0;
    proof {
        assert(bits.skip(0) =~= bits);
        assert(bits.subrange(0, 0) =~= Seq::<bool>::empty());
    }
    while i < huffman_string.len()
        invariant
            bits == bytes_to_bits(huffman_string@),
            bits.len() == 8 * huffman_string@.len(),
            i <= huffman_string.len(),
            0 <= start <= 8 * i,
            l == 8 * i - start,
            l <= 29,
            v == bits_value(bits.subrange(start, 8 * i)),
            output@ + decode_bits(bits.skip(start)) == decode_bits(bits),
            decode_from(bits.skip(start), 1) == decode_from(bits.skip(start), l + 1),
        decreases huffman_string.len() - i,
    {
        let byte: u8 = huffman_string[i];
        let mut j: u8 = 0;
        while j < 8
            invariant
                bits == bytes_to_bits(huffman_string@),
                bits.len() == 8 * huffman_string@.len(),
                i < huffman_string.len(),
                byte == huffman_string@[i as int],
                j <= 8,
                0 <= start <= 8 * i + j,
                l == 8 * i + j - start,
                l <= 29,
                v == bits_value(bits.subrange(start, 8 * i + j)),
                output@ + decode_bits(bits.skip(start)) == decode_bits(bits),
                decode_from(bits.skip(start), 1) == decode_from(bits.skip(start), l + 1),
            decreases 8 - j,
        {
            let ghost pos = 8 * i + j;
            proof {
                lemma_u8_shr_is_div(byte, (7 - j) as u8);
            }
            let shifted: u8 = byte >> (7 - j);
            let bit: u8 = shifted & 1;
            assert(bit == shifted % 2 && bit <= 1) by (bit_vector)
                requires
                    bit == shifted & 1,
            ;
            assert(bits[pos as int] == byte_bit(byte, j as int)) by {
                assert((pos as int) / 8 == i as int);
                assert((pos as int) % 8 == j as int);
            }
            let ghost rest = bits.skip(start);
            proof {
                lemma_bits_value_bound(bits.subrange(start, pos as int));
                lemma_pow2_strictly_increases(l as nat, 30);
                lemma2_to64();
                assert(bits.subrange(start, pos as int + 1).drop_last() =~= bits.subrange(
                    start,
                    pos as int,
                ));
                assert(rest.take(l + 1) =~= bits.subrange(start, pos as int + 1));
            }
            v = 2 * v + bit as u64;
            l = l + 1;
            j = j + 1;
            let lb: u32 = HUFFMAN_BASE[l];
            let lc: u32 = HUFFMAN_COUNT[l];
            if lb as u64 <= v && v < lb as u64 + lc as u64 {
                proof {
                    if l >= 5 {
                        lemma_length_facts(l as int);
                    } else {
                        lemma_short_lengths(l as int);
                    }
                }
                let idx = HUFFMAN_OFFSET[l] as usize + (v - lb as u64) as usize;
                let sym: u16 = HUFFMAN_SYMBOLS[idx];
                assert(decode_from(rest, l as int) == Some((sym as int, l as int)));
                if sym >= 256 {
                    return output;
                }
                proof {
                    assert(rest.skip(l as int) =~= bits.skip(8 * i + j));
                    assert(output@.push(sym as u8) + decode_bits(bits.skip(8 * i + j)) =~= output@
                        + (seq![sym as u8] + decode_bits(bits.skip(8 * i + j))));
                    start = 8 * i + j;
                    assert(bits.skip(start).skip(0) =~= bits.skip(start));
                    assert(bits.subrange(start, start) =~= Seq::<bool>::empty());
                }
                output.push(sym as u8);
                v = 0;
                l = 0;
            } else if l == 30 {
                assert(decode_from(rest, 31) is None);
                return output;
            }
        }
        i = i + 1;
    }
    proof {
        let rest = bits.skip(start);
        assert(rest.len() == l);
        assert(decode_from(rest, l + 1) is None);
    }
    output
}

} // verus!
