//! HPACK string literal representation (RFC 7541, section 5.2).

use vstd::prelude::*;
use super::number;
use super::huffman;

verus! {

/// A decoded string literal and the number of octets its representation
/// occupies.
#[derive(Debug)]
pub struct DecodedString {
    pub string: Vec<u8>,
    pub octets_read: usize,
}

/// The octets that carry a string: Huffman-coded or as they are.
pub open spec fn spec_string_data(string: Seq<u8>, use_huffman_coding: bool) -> Seq<u8> {
    if use_huffman_coding {
        huffman::spec_encode(string)
    } else {
        string
    }
}

/// An encoded integer as a sequence of octets, with `flags` set in the
/// first octet.
pub open spec fn spec_number_octets(num: u32, n: u8, flags: u8) -> Seq<u8> {
    let (p, r) = number::spec_encode(num, n);
    seq![flags | p] + match r {
        Some(r) => r,
        None => Seq::<u8>::empty(),
    }
}

/// The representation of a string literal: the Huffman flag and the length
/// of the string data in a 7-bit prefix integer, then the string data.
pub open spec fn spec_encode(string: Seq<u8>, use_huffman_coding: bool) -> Seq<u8> {
    let data = spec_string_data(string, use_huffman_coding);
    spec_number_octets(data.len() as u32, 7, if use_huffman_coding { 0x80u8 } else { 0u8 }) + data
}

/// The number of octets the Huffman coding of `n` octets takes at most.
pub proof fn lemma_huffman_encoded_len(s: Seq<u8>)
    ensures
        huffman::spec_encode(s).len() <= 4 * s.len(),
{
    lemma_encoded_bits_len(s);
    let b = huffman::encoded_bits(s);
    let k = huffman::padding_len(b.len());
    assert(huffman::spec_encode(s).len() == (b.len() + k) / 8);
}

proof fn lemma_encoded_bits_len(s: Seq<u8>)
    ensures
        huffman::encoded_bits(s).len() <= 30 * s.len(),
    decreases s.len(),
{
    if s.len() > 0 {
        lemma_encoded_bits_len(s.drop_first());
        huffman::lemma_code_len_bound(s[0] as int);
    }
}

/// Encodes a string literal, Huffman-coded or not.
pub fn encode(string: &[u8], use_huffman_coding: bool) -> (result: Vec<u8>)
    requires
        string.len() <= 0x3fff_ffff,
    ensures
        result@ == spec_encode(string@, use_huffman_coding),
{
    let data: Vec<u8> = if use_huffman_coding {
        huffman::encode(string)
    } else {
        crate::octets::slice_to_vec(string)
    };
    proof {
        lemma_huffman_encoded_len(string@);
    }
    let length = number::encode(data.len() as u32, 7);
    let flags: u8 = if use_huffman_coding { 0x80u8 } else { 0u8 };
    let prefix: u8 = flags | length.prefix;
    let mut result: Vec<u8> = Vec::new();
    result.push(prefix);
    match length.rest {
        Some(rest) => {
            let mut k: usize = 0;
            while k < rest.len()
                invariant
                    k <= rest.len(),
                    result@ == seq![prefix] + rest@.take(k as int),
                decreases rest.len() - k,
            {
                result.push(rest[k]);
                k = k + 1;
                proof {
                    assert(rest@.take(k as int) =~= rest@.take(k - 1).push(rest@[k - 1]));
                }
            }
            assert(rest@.take(rest.len() as int) =~= rest@);
        },
        None => {
            assert(seq![prefix] + Seq::<u8>::empty() =~= seq![prefix]);
        },
    }
    let ghost head = result@;
    let mut k: usize = 0;
    while k < data.len()
        invariant
            k <= data.len(),
            result@ == head + data@.take(k as int),
        decreases data.len() - k,
    {
        result.push(data[k]);
        k = k + 1;
        proof {
            assert(data@.take(k as int) =~= data@.take(k - 1).push(data@[k - 1]));
        }
    }
    assert(data@.take(data.len() as int) =~= data@);
    result
}

/// The length a string literal representation declares.
pub open spec fn spec_declared_len(octets: Seq<u8>) -> nat {
    number::spec_decoded_value(octets, 7)
}

/// The octets of the string data that are present in `octets`: the declared
/// number of octets after the length, or as many as there are.
pub open spec fn spec_available_data(octets: Seq<u8>) -> Seq<u8> {
    let start = number::spec_decoded_len(octets, 7) as int;
    let end = start + spec_declared_len(octets);
    octets.subrange(start, if end <= octets.len() { end } else { octets.len() as int })
}

/// Decoding a string literal fails exactly when its length does not decode
/// to a 32-bit number, or the representation's length overflows `usize`.
pub open spec fn spec_decode_ok(octets: Seq<u8>) -> bool {
    &&& number::spec_decode_ok(octets, 7)
    &&& number::spec_decoded_len(octets, 7) + spec_declared_len(octets) <= usize::MAX
}

/// The decoded string: the data, Huffman-decoded when the first octet's high
/// bit is set.
pub open spec fn spec_decoded_string(octets: Seq<u8>) -> Seq<u8> {
    if octets[0] >= 128 {
        huffman::spec_decode(spec_available_data(octets))
    } else {
        spec_available_data(octets)
    }
}

/// Decodes a string literal from the start of `octets`. The number of
/// octets read is the length of the representation as declared; when the
/// input ends before the declared length, the string holds what is present.
pub fn decode(octets: &[u8]) -> (res: Option<DecodedString>)
    requires
        octets@.len() >= 1,
    ensures
        res is Some <==> spec_decode_ok(octets@),
        res matches Some(d) ==> d.string@ == spec_decoded_string(octets@) && d.octets_read
            == number::spec_decoded_len(octets@, 7) + spec_declared_len(octets@),
{
    let use_huffman_coding = octets[0] >= 128;
    let dn = match number::decode(octets, 7) {
        Some(dn) => dn,
        None => {
            return None;
        },
    };
    let start = dn.octets_read;
    let total = match start.checked_add(dn.num as usize) {
        Some(t) => t,
        None => {
            return None;
        },
    };
    proof {
        number::lemma_decoded_len_bound(octets@, 7);
    }
    let end = if total <= octets.len() {
        total
    } else {
        octets.len()
    };
    let mut data: Vec<u8> = Vec::new();
    let mut k: usize = start;
    while k < end
        invariant
            start <= k <= end,
            end <= octets.len(),
            data@ == octets@.subrange(start as int, k as int),
        decreases end - k,
    {
        data.push(octets[k]);
        k = k + 1;
        proof {
            assert(octets@.subrange(start as int, k as int) =~= octets@.subrange(
                start as int,
                k - 1,
            ).push(octets@[k - 1]));
        }
    }
    let string = if use_huffman_coding {
        huffman::decode(data.as_slice())
    } else {
        data
    };
    Some(DecodedString { string, octets_read: total })
}

/// Round trip of the string literal representation: the representation of
/// any string, followed by any octets, decodes to that string and reads
/// exactly its octets (for representations whose length fits in `usize`).
pub proof fn lemma_string_round_trip(string: Seq<u8>, use_huffman_coding: bool, tail: Seq<u8>)
    requires
        string.len() <= 0x3fff_ffff,
        spec_encode(string, use_huffman_coding).len() <= usize::MAX,
    ensures
        ({
            let enc = spec_encode(string, use_huffman_coding);
            let octets = enc + tail;
            &&& spec_decode_ok(octets)
            &&& spec_decoded_string(octets) == string
            &&& number::spec_decoded_len(octets, 7) + spec_declared_len(octets) == enc.len()
        }),
{
    let data = spec_string_data(string, use_huffman_coding);
    lemma_huffman_encoded_len(string);
    let flags: u8 = if use_huffman_coding { 0x80u8 } else { 0u8 };
    let (p, r) = number::spec_encode(data.len() as u32, 7);
    let rest = match r {
        Some(r) => r,
        None => Seq::<u8>::empty(),
    };
    let num_octets = spec_number_octets(data.len() as u32, 7, flags);
    assert(flags & number::prefix_max(7) == 0) by (bit_vector)
        requires
            flags == 0x80u8 || flags == 0u8,
    ;
    let octets = spec_encode(string, use_huffman_coding) + tail;
    assert(octets =~= seq![flags | p] + rest + (data + tail));
    number::lemma_number_round_trip(data.len() as u32, 7, flags, data + tail);
    assert(num_octets.len() == 1 + rest.len());
    let start: int = 1 + rest.len() as int;
    assert(octets.subrange(start as int, start as int + data.len() as int) =~= data);
    number::lemma_prefix_byte_flag(data.len() as u32, 7, flags);
    assert(octets[0] == flags | p);
    assert(number::spec_decode_ok(octets, 7));
    assert(number::spec_decoded_value(octets, 7) == data.len());
    assert(spec_declared_len(octets) == data.len());
    assert(number::spec_decoded_len(octets, 7) == start);
    assert(spec_available_data(octets) =~= data);
    if use_huffman_coding {
        huffman::lemma_huffman_round_trip(string);
    }
}

} // verus!
