//! What the decoder gives back of what the encoder wrote.

use vstd::prelude::*;
use vstd::utf8::{encode_utf8, encode_utf8_decode_utf8, encode_utf8_valid_utf8};
use super::context::{address_get, context_find, lemma_fields_len_bound};
use super::pack::{
    number_octets,
    pack_all,
    pack_one,
    spec_pack,
    string_octets,
    text_bytes,
    headers_encodable,
};
use super::table::{
    self,
    ascii_lower,
    evict,
    field_size,
    fields_size,
    first_match,
    full_match,
    name_matches,
    DEFAULT_MAX_SIZE_SETTING,
};
use super::unpack::{
    literal_step,
    number_at,
    text_at,
    unpack_from,
    unpack_step,
};
use super::{flags, number, string, STATIC_TABLE_LENGTH};

verus! {

/// A name without ASCII capital letters.
pub open spec fn lowercase_name(name: Seq<char>) -> bool {
    forall|i: int| 0 <= i < text_bytes(name).len() ==> !(65 <= #[trigger] text_bytes(name)[i] <= 90)
}

/// Every entry of a table has a name without ASCII capital letters.
pub open spec fn lowercase_names(fields: Seq<(Seq<char>, Seq<char>)>) -> bool {
    forall|i: int| 0 <= i < fields.len() ==> lowercase_name(#[trigger] fields[i].0)
}

/// Two names without capital letters that match ignoring ASCII case are equal.
proof fn lemma_lowercase_match(a: Seq<char>, b: Seq<char>)
    requires
        lowercase_name(a),
        lowercase_name(b),
        table::eq_ignore_ascii_case(encode_utf8(a), encode_utf8(b)),
    ensures
        a == b,
{
    let x = text_bytes(a);
    let y = text_bytes(b);
    assert forall|i: int| 0 <= i < x.len() implies x[i] == y[i] by {
        assert(ascii_lower(x[i]) == ascii_lower(y[i]));
        assert(!(65 <= x[i] <= 90));
        assert(!(65 <= y[i] <= 90));
    }
    assert(x =~= y);
    encode_utf8_decode_utf8(a);
    encode_utf8_decode_utf8(b);
}

/// The first match found is a matching entry.
proof fn lemma_first_match_sound(
    fields: Seq<(Seq<char>, Seq<char>)>,
    field: (Seq<char>, Seq<char>),
    full: bool,
)
    ensures
        first_match(fields, field, full) matches Some(i) ==> {
            &&& 0 <= i < fields.len()
            &&& name_matches(fields[i], field)
            &&& full ==> full_match(fields[i], field)
        },
    decreases fields.len(),
{
    if fields.len() > 0 {
        lemma_first_match_sound(fields.drop_last(), field, full);
    }
}

/// An index that a context lookup gives names an entry with the field's
/// name, and its value too when the flag says so.
proof fn lemma_context_find_sound(
    static_fields: Seq<(Seq<char>, Seq<char>)>,
    dynamic: Seq<(Seq<char>, Seq<char>)>,
    field: (Seq<char>, Seq<char>),
)
    requires
        static_fields.len() == STATIC_TABLE_LENGTH,
    ensures
        context_find(static_fields, dynamic, field) matches Some((i, w)) ==> {
            &&& 1 <= i <= STATIC_TABLE_LENGTH + dynamic.len()
            &&& address_get(static_fields, dynamic, i) matches Some(e) && name_matches(e, field)
                && (w ==> full_match(e, field))
        },
{
    lemma_first_match_sound(static_fields, field, true);
    lemma_first_match_sound(static_fields, field, false);
    lemma_first_match_sound(dynamic, field, true);
    lemma_first_match_sound(dynamic, field, false);
}

/// An integer representation at `pos` reads back as its value and length.
proof fn lemma_number_at(data: Seq<u8>, pos: int, num: int, n: u8, flag: u8, rest: Seq<u8>)
    requires
        0 <= pos,
        0 <= num <= u32::MAX,
        1 <= n <= 8,
        flag & number::prefix_max(n) == 0,
        pos <= data.len(),
        data.skip(pos) == number_octets(num, n, flag) + rest,
    ensures
        number_at(data, pos, n) == Some((num, number_octets(num, n, flag).len() as int)),
        data[pos] == flag | number::spec_encode(num as u32, n).0,
        number::spec_encode(num as u32, n).0 <= number::prefix_max(n),
{
    let (p, r) = number::spec_encode(num as u32, n);
    let ro = match r {
        Some(r) => r,
        None => Seq::<u8>::empty(),
    };
    assert(data.skip(pos) =~= seq![flag | p] + ro + rest);
    number::lemma_number_round_trip(num as u32, n, flag, rest);
    number::lemma_prefix_max_bound(num as u32, n);
    assert(data[pos] == data.skip(pos)[0]);
}

/// A string literal at `pos` reads back as its text and length.
proof fn lemma_text_at(data: Seq<u8>, pos: int, t: Seq<char>, huff: bool, rest: Seq<u8>)
    requires
        0 <= pos <= data.len(),
        text_bytes(t).len() <= 0x3fff_ffff,
        string_octets(t, huff).len() <= usize::MAX,
        data.skip(pos) == string_octets(t, huff) + rest,
    ensures
        text_at(data, pos) == Some((t, string_octets(t, huff).len() as int)),
        string_octets(t, huff).len() >= 1,
{
    string::lemma_string_round_trip(text_bytes(t), huff, rest);
    encode_utf8_valid_utf8(t);
    encode_utf8_decode_utf8(t);
    assert(data.skip(pos).len() >= 1);
}

proof fn lemma_skip_skip(data: Seq<u8>, a: int, b: int)
    requires
        0 <= a,
        0 <= b,
        a + b <= data.len(),
    ensures
        data.skip(a + b) == data.skip(a).skip(b),
{
    assert(data.skip(a + b) =~= data.skip(a).skip(b));
}

/// The decoder's state after a literal: the dynamic table, with the field
/// inserted when `insert`, and the header appended.
pub open spec fn after_literal(
    st: (Seq<(Seq<char>, Seq<char>)>, int, Seq<(Seq<char>, Seq<char>, bool)>, int),
    field: (Seq<char>, Seq<char>),
    insert: bool,
    allow: bool,
    read: int,
) -> (Seq<(Seq<char>, Seq<char>)>, int, Seq<(Seq<char>, Seq<char>, bool)>, int) {
    (
        if insert {
            seq![field] + evict(st.0, st.1 - field_size(field))
        } else {
            st.0
        },
        st.1,
        st.2.push((field.0, field.1, allow)),
        read,
    )
}

/// A literal whose name is an index into the tables reads back as the
/// entry's name and the literal value.
#[verifier::spinoff_prover]
#[verifier::rlimit(40)]
proof fn lemma_literal_indexed_name(
    static_fields: Seq<(Seq<char>, Seq<char>)>,
    data: Seq<u8>,
    pos: int,
    st: (Seq<(Seq<char>, Seq<char>)>, int, Seq<(Seq<char>, Seq<char>, bool)>, int),
    n: u8,
    flag: u8,
    insert: bool,
    allow: bool,
    extra: int,
    index: int,
    e: (Seq<char>, Seq<char>),
    value: Seq<char>,
    huff: bool,
    rest: Seq<u8>,
)
    requires
        0 <= pos <= data.len(),
        1 <= n <= 8,
        flag & number::prefix_max(n) == 0,
        1 <= index <= u32::MAX,
        0 <= extra <= 2,
        data.skip(pos) == number_octets(index, n, flag) + string_octets(value, huff) + rest,
        address_get(static_fields, st.0, index) == Some(e),
        text_bytes(value).len() <= 0x3fff_ffff,
        0 <= st.3,
        st.3 + 3 * (number_octets(index, n, flag) + string_octets(value, huff)).len() <= usize::MAX,
        insert ==> field_size((e.0, value)) <= st.1,
    ensures
        ({
            let c = number_octets(index, n, flag) + string_octets(value, huff);
            literal_step(static_fields, data, pos, st, n, insert, allow, extra) == Some(
                (after_literal(st, (e.0, value), insert, allow, st.3 + extra + c.len()), pos + c.len()),
            )
        }),
        data[pos] == flag | number::spec_encode(index as u32, n).0,
        number::spec_encode(index as u32, n).0 <= number::prefix_max(n),
{
    let num = number_octets(index, n, flag);
    let sv = string_octets(value, huff);
    let p1 = pos + num.len();
    assert(number_at(data, pos, n) == Some((index, num.len() as int)) && data[pos] == flag
        | number::spec_encode(index as u32, n).0 && number::spec_encode(index as u32, n).0
        <= number::prefix_max(n)) by {
        assert(data.skip(pos) =~= num + (sv + rest));
        lemma_number_at(data, pos, index, n, flag, sv + rest);
    }
    assert(text_at(data, p1) == Some((value, sv.len() as int))) by {
        assert(data.skip(pos) =~= num + (sv + rest));
        lemma_skip_skip(data, pos, num.len() as int);
        assert((num + (sv + rest)).skip(num.len() as int) =~= sv + rest);
        lemma_text_at(data, p1, value, huff, rest);
    }
}

/// A literal with a literal name reads back as that name and value.
#[verifier::rlimit(80)]
proof fn lemma_literal_new_name(
    static_fields: Seq<(Seq<char>, Seq<char>)>,
    data: Seq<u8>,
    pos: int,
    st: (Seq<(Seq<char>, Seq<char>)>, int, Seq<(Seq<char>, Seq<char>, bool)>, int),
    n: u8,
    flag: u8,
    insert: bool,
    allow: bool,
    extra: int,
    name: Seq<char>,
    value: Seq<char>,
    huff_name: bool,
    huff_value: bool,
    rest: Seq<u8>,
)
    requires
        0 <= pos <= data.len(),
        1 <= n <= 8,
        flag & number::prefix_max(n) == 0,
        0 <= extra <= 2,
        data.skip(pos) == number_octets(0, n, flag) + string_octets(name, huff_name) + string_octets(
            value,
            huff_value,
        ) + rest,
        text_bytes(name).len() <= 0x3fff_ffff,
        text_bytes(value).len() <= 0x3fff_ffff,
        0 <= st.3,
        st.3 + 3 * (number_octets(0, n, flag) + string_octets(name, huff_name) + string_octets(
            value,
            huff_value,
        )).len() <= usize::MAX,
        insert ==> field_size((name, value)) <= st.1,
    ensures
        ({
            let c = number_octets(0, n, flag) + string_octets(name, huff_name) + string_octets(
                value,
                huff_value,
            );
            literal_step(static_fields, data, pos, st, n, insert, allow, extra) == Some(
                (after_literal(st, (name, value), insert, allow, st.3 + extra + c.len()), pos + c.len()),
            )
        }),
        data[pos] == flag | number::spec_encode(0u32, n).0,
{
    let num = number_octets(0, n, flag);
    let sn = string_octets(name, huff_name);
    let sv = string_octets(value, huff_value);
    let p1 = pos + num.len();
    let p2 = p1 + sn.len();
    assert(data.skip(pos) =~= num + (sn + (sv + rest)));
    assert(number_at(data, pos, n) == Some((0int, num.len() as int)) && data[pos] == flag
        | number::spec_encode(0u32, n).0) by {
        lemma_number_at(data, pos, 0, n, flag, sn + (sv + rest));
    }
    assert(text_at(data, p1) == Some((name, sn.len() as int))) by {
        lemma_skip_skip(data, pos, num.len() as int);
        assert((num + (sn + (sv + rest))).skip(num.len() as int) =~= sn + (sv + rest));
        lemma_text_at(data, p1, name, huff_name, sv + rest);
    }
    assert(text_at(data, p2) == Some((value, sv.len() as int))) by {
        lemma_skip_skip(data, pos, num.len() as int);
        assert((num + (sn + (sv + rest))).skip(num.len() as int) =~= sn + (sv + rest));
        lemma_skip_skip(data, p1, sn.len() as int);
        assert((sn + (sv + rest)).skip(sn.len() as int) =~= sv + rest);
        lemma_text_at(data, p2, value, huff_value, rest);
    }
}

/// The prefix limits of the representations.
proof fn lemma_prefix_limits()
    ensures
        number::prefix_max(7) == 127,
        number::prefix_max(6) == 63,
        number::prefix_max(5) == 31,
        number::prefix_max(4) == 15,
        0x80u8 & number::prefix_max(7) == 0,
        0x40u8 & number::prefix_max(6) == 0,
        0x20u8 & number::prefix_max(5) == 0,
        0x10u8 & number::prefix_max(4) == 0,
        0u8 & number::prefix_max(4) == 0,
        0u8 & number::prefix_max(6) == 0,
{
    assert(number::prefix_max(7) == 127) by (bit_vector);
    assert(number::prefix_max(6) == 63) by (bit_vector);
    assert(number::prefix_max(5) == 31) by (bit_vector);
    assert(number::prefix_max(4) == 15) by (bit_vector);
    assert(0x80u8 & 127u8 == 0 && 0x40u8 & 63u8 == 0 && 0x20u8 & 31u8 == 0 && 0x10u8 & 15u8 == 0
        && 0u8 & 15u8 == 0 && 0u8 & 63u8 == 0) by (bit_vector);
}

/// The entry an index names in lowercase tables has a lowercase name; when
/// it matches a lowercase field's name, it has that name.
proof fn lemma_entry_name(
    static_fields: Seq<(Seq<char>, Seq<char>)>,
    dynamic: Seq<(Seq<char>, Seq<char>)>,
    index: int,
    e: (Seq<char>, Seq<char>),
    field: (Seq<char>, Seq<char>),
)
    requires
        lowercase_names(static_fields),
        lowercase_names(dynamic),
        lowercase_name(field.0),
        address_get(static_fields, dynamic, index) == Some(e),
        name_matches(e, field),
    ensures
        e.0 == field.0,
{
    let t = index - 1;
    if 0 <= t < static_fields.len() {
        assert(lowercase_name(static_fields[t].0));
    } else {
        assert(lowercase_name(dynamic[t - static_fields.len()].0));
    }
    lemma_lowercase_match(e.0, field.0);
}

/// Decoding the representation the encoder wrote for one header gives the
/// header back, and the same dynamic table as the encoder's.
#[verifier::rlimit(60)]
proof fn lemma_pack_one_step(
    static_fields: Seq<(Seq<char>, Seq<char>)>,
    data: Seq<u8>,
    pos: int,
    st: (Seq<(Seq<char>, Seq<char>)>, int, Seq<(Seq<char>, Seq<char>, bool)>, int),
    h: (Seq<char>, Seq<char>, bool),
    huff: bool,
    rest: Seq<u8>,
)
    requires
        static_fields.len() == STATIC_TABLE_LENGTH,
        lowercase_names(static_fields),
        lowercase_names(st.0),
        lowercase_name(h.0),
        fields_size(st.0) <= st.1 <= DEFAULT_MAX_SIZE_SETTING,
        text_bytes(h.0).len() <= 0x3fff_ffff,
        text_bytes(h.1).len() <= 0x3fff_ffff,
        0 <= pos <= data.len(),
        0 <= st.3,
        pack_one(static_fields, st.0, st.1, h, huff) is Some,
        data.skip(pos) == pack_one(static_fields, st.0, st.1, h, huff)->Some_0.0 + rest,
        st.3 + 3 * pack_one(static_fields, st.0, st.1, h, huff)->Some_0.0.len() <= usize::MAX,
    ensures
        ({
            let (c, d2) = pack_one(static_fields, st.0, st.1, h, huff)->Some_0;
            &&& c.len() >= 1
            &&& unpack_step(static_fields, data, pos, st) matches Some((st2, p2)) && p2 == pos
                + c.len() && st2.0 == d2 && st2.1 == st.1 && st2.2 == st.2.push(h) && st.3 <= st2.3
                <= st.3 + 2 + c.len()
        }),
{
    reveal(pack_one);
    reveal(unpack_step);
    let field = (h.0, h.1);
    let (c, d2) = pack_one(static_fields, st.0, st.1, h, huff)->Some_0;
    lemma_prefix_limits();
    lemma_fields_len_bound(st.0);
    lemma_context_find_sound(static_fields, st.0, field);
    let found = context_find(static_fields, st.0, field);
    assert(data.skip(pos).len() >= 1) by {
        if pos >= data.len() {
        }
    }
    if !h.2 {
        match found {
            Some((index, w)) => {
                let e = address_get(static_fields, st.0, index)->Some_0;
                lemma_entry_name(static_fields, st.0, index, e, field);
                assert(c =~= number_octets(index, 4, flags::LITERAL_NEVER_INDEX_FLAG) + string_octets(h.1, false));
                assert(data.skip(pos) =~= number_octets(index, 4, flags::LITERAL_NEVER_INDEX_FLAG)
                    + string_octets(h.1, false) + rest);
                lemma_literal_indexed_name(static_fields, data, pos, st, 4, flags::LITERAL_NEVER_INDEX_FLAG, false, false, 2, index, e, h.1, false, rest);
                let p = number::spec_encode(index as u32, 4).0;
                assert(p <= 15 ==> (0x10u8 | p) & 0x80 != 0x80 && (0x10u8 | p) & 0x40 != 0x40 && (0x10u8 | p) & 0x20 != 0x20 && (0x10u8 | p) & 0xf0 != 0) by (bit_vector);
            },
            None => {
                assert(number_octets(0, 4, flags::LITERAL_NEVER_INDEX_FLAG) =~= seq![flags::LITERAL_NEVER_INDEX_FLAG]) by {
                    assert(0x10u8 | 0u8 == 0x10u8) by (bit_vector);
                }
                assert(data.skip(pos) =~= number_octets(0, 4, flags::LITERAL_NEVER_INDEX_FLAG)
                    + string_octets(h.0, huff) + string_octets(h.1, false) + rest);
                lemma_literal_new_name(static_fields, data, pos, st, 4, flags::LITERAL_NEVER_INDEX_FLAG, false, false, 2, h.0, h.1, huff, false, rest);
                assert(data[pos] == 0x10u8);
                assert((0x10u8) & 0x80 != 0x80 && (0x10u8) & 0x40 != 0x40 && (0x10u8) & 0x20 != 0x20 && (0x10u8) & 0xf0 != 0) by (bit_vector);
            },
        }
    } else {
        let fs = field_size(field);
        match found {
            Some((index, true)) => {
                let e = address_get(static_fields, st.0, index)->Some_0;
                lemma_entry_name(static_fields, st.0, index, e, field);
                assert(data.skip(pos) =~= number_octets(index, 7, flags::INDEXED_HEADER_FLAG) + rest);
                lemma_number_at(data, pos, index, 7, flags::INDEXED_HEADER_FLAG, rest);
                let p = number::spec_encode(index as u32, 7).0;
                assert(p <= 127 ==> (0x80u8 | p) & 0x80 == 0x80) by (bit_vector);
            },
            Some((index, false)) => {
                let e = address_get(static_fields, st.0, index)->Some_0;
                lemma_entry_name(static_fields, st.0, index, e, field);
                if super::pack::is_literal_without_indexing_name(h.0) {
                    assert(data.skip(pos) =~= number_octets(index, 4, 0) + string_octets(h.1, huff) + rest);
                    assert(0u8 & number::prefix_max(4) == 0) by (bit_vector);
                    lemma_literal_indexed_name(static_fields, data, pos, st, 4, 0, false, true, 0, index, e, h.1, huff, rest);
                    let p = number::spec_encode(index as u32, 4).0;
                    assert(p <= 15 ==> (0u8 | p) & 0x80 != 0x80 && (0u8 | p) & 0x40 != 0x40 && (0u8 | p) & 0x20 != 0x20 && (0u8 | p) & 0xf0 == 0) by (bit_vector);
                } else {
                    assert(data.skip(pos) =~= number_octets(index, 6, flags::LITERAL_WITH_INDEXING_FLAG) + string_octets(h.1, huff) + rest);
                    lemma_literal_indexed_name(static_fields, data, pos, st, 6, flags::LITERAL_WITH_INDEXING_FLAG, true, true, 0, index, e, h.1, huff, rest);
                    let p = number::spec_encode(index as u32, 6).0;
                    assert(p <= 63 ==> (0x40u8 | p) & 0x80 != 0x80 && (0x40u8 | p) & 0x40 == 0x40) by (bit_vector);
                }
            },
            None => {
                if super::pack::is_literal_without_indexing_name(h.0) {
                    assert(number_octets(0, 4, 0) =~= seq![0u8]) by {
                        assert(0u8 | 0u8 == 0u8) by (bit_vector);
                    }
                    assert(0u8 & number::prefix_max(4) == 0) by (bit_vector);
                    assert(data.skip(pos) =~= number_octets(0, 4, 0) + string_octets(h.0, huff) + string_octets(h.1, huff) + rest);
                    lemma_literal_new_name(static_fields, data, pos, st, 4, 0, false, true, 0, h.0, h.1, huff, huff, rest);
                    assert(data[pos] == 0u8);
                    assert((0u8) & 0x80 != 0x80 && (0u8) & 0x40 != 0x40 && (0u8) & 0x20 != 0x20 && (0u8) & 0xf0 == 0) by (bit_vector);
                } else {
                    assert(number_octets(0, 6, flags::LITERAL_WITH_INDEXING_FLAG) =~= seq![flags::LITERAL_WITH_INDEXING_FLAG]) by {
                        assert(0x40u8 | 0u8 == 0x40u8) by (bit_vector);
                    }
                    assert(data.skip(pos) =~= number_octets(0, 6, flags::LITERAL_WITH_INDEXING_FLAG) + string_octets(h.0, huff) + string_octets(h.1, huff) + rest);
                    lemma_literal_new_name(static_fields, data, pos, st, 6, flags::LITERAL_WITH_INDEXING_FLAG, true, true, 0, h.0, h.1, huff, huff, rest);
                    assert(data[pos] == 0x40u8);
                    assert((0x40u8) & 0x80 != 0x80 && (0x40u8) & 0x40 == 0x40) by (bit_vector);
                }
            },
        }
    }
}

/// Every header has a name without ASCII capital letters.
pub open spec fn lowercase_headers(hs: Seq<(Seq<char>, Seq<char>, bool)>) -> bool {
    forall|i: int| 0 <= i < hs.len() ==> lowercase_name(#[trigger] hs[i].0)
}

/// The encoder's table after a header keeps lowercase names and stays within
/// its maximum size.
proof fn lemma_pack_one_table(
    static_fields: Seq<(Seq<char>, Seq<char>)>,
    dynamic: Seq<(Seq<char>, Seq<char>)>,
    max_size: int,
    h: (Seq<char>, Seq<char>, bool),
    huff: bool,
)
    requires
        lowercase_names(dynamic),
        lowercase_name(h.0),
        0 <= fields_size(dynamic) <= max_size,
        pack_one(static_fields, dynamic, max_size, h, huff) is Some,
    ensures
        lowercase_names(pack_one(static_fields, dynamic, max_size, h, huff)->Some_0.1),
        fields_size(pack_one(static_fields, dynamic, max_size, h, huff)->Some_0.1) <= max_size,
{
    reveal(pack_one);
    let d2 = pack_one(static_fields, dynamic, max_size, h, huff)->Some_0.1;
    if d2 != dynamic {
        let field = (h.0, h.1);
        let fs = field_size(field);
        assert(fs <= max_size);
        let ev = evict(dynamic, max_size - fs);
        table::lemma_evict(dynamic, max_size - fs);
        table::lemma_fields_size_prepend(field, ev);
        assert(d2 == seq![field] + ev);
        assert forall|i: int| 0 <= i < d2.len() implies lowercase_name(#[trigger] d2[i].0) by {
            if i > 0 {
                assert(d2[i] == ev[i - 1]);
                assert(ev[i - 1] == dynamic[i - 1]);
            }
        }
    }
}

/// The representations of fewer headers are a prefix of those of more; the
/// encoder's tables keep lowercase names within the maximum size.
proof fn lemma_pack_all_take(
    static_fields: Seq<(Seq<char>, Seq<char>)>,
    dynamic: Seq<(Seq<char>, Seq<char>)>,
    max_size: int,
    hs: Seq<(Seq<char>, Seq<char>, bool)>,
    huff: bool,
    k: int,
)
    requires
        0 <= k <= hs.len(),
        lowercase_names(dynamic),
        lowercase_headers(hs),
        0 <= fields_size(dynamic) <= max_size,
        pack_all(static_fields, dynamic, max_size, hs, huff) is Some,
    ensures
        pack_all(static_fields, dynamic, max_size, hs.take(k), huff) is Some,
        ({
            let (bk, dk) = pack_all(static_fields, dynamic, max_size, hs.take(k), huff)->Some_0;
            let (bn, dn) = pack_all(static_fields, dynamic, max_size, hs, huff)->Some_0;
            &&& bk.len() <= bn.len()
            &&& bn.take(bk.len() as int) == bk
            &&& lowercase_names(dk)
            &&& 0 <= fields_size(dk) <= max_size
        }),
    decreases k,
{
    let (bn, dn) = pack_all(static_fields, dynamic, max_size, hs, huff)->Some_0;
    if k == 0 {
        assert(hs.take(0) =~= Seq::<(Seq<char>, Seq<char>, bool)>::empty());
        assert(bn.take(0) =~= Seq::<u8>::empty());
    } else {
        lemma_pack_all_take(static_fields, dynamic, max_size, hs, huff, k - 1);
        super::pack::lemma_pack_all_prefix(static_fields, dynamic, max_size, hs, huff, k);
        let t = hs.take(k);
        assert(t.drop_last() =~= hs.take(k - 1));
        assert(t.last() == hs[k - 1]);
        let (bp, dp) = pack_all(static_fields, dynamic, max_size, hs.take(k - 1), huff)->Some_0;
        lemma_pack_one_table(static_fields, dp, max_size, hs[k - 1], huff);
        table::lemma_fields_size_nonneg(pack_one(static_fields, dp, max_size, hs[k - 1], huff)->Some_0.1);
        lemma_pack_all_prefix_of_whole(static_fields, dynamic, max_size, hs, huff, k);
    }
}

/// The representations of the first `k` headers are a prefix of those of all.
proof fn lemma_pack_all_prefix_of_whole(
    static_fields: Seq<(Seq<char>, Seq<char>)>,
    dynamic: Seq<(Seq<char>, Seq<char>)>,
    max_size: int,
    hs: Seq<(Seq<char>, Seq<char>, bool)>,
    huff: bool,
    k: int,
)
    requires
        0 <= k <= hs.len(),
        pack_all(static_fields, dynamic, max_size, hs, huff) is Some,
    ensures
        pack_all(static_fields, dynamic, max_size, hs.take(k), huff) is Some,
        ({
            let bk = pack_all(static_fields, dynamic, max_size, hs.take(k), huff)->Some_0.0;
            let bn = pack_all(static_fields, dynamic, max_size, hs, huff)->Some_0.0;
            &&& bk.len() <= bn.len()
            &&& bn.take(bk.len() as int) == bk
        }),
    decreases hs.len() - k,
{
    super::pack::lemma_pack_all_prefix(static_fields, dynamic, max_size, hs, huff, k);
    if k == hs.len() {
        assert(hs.take(k) =~= hs);
        let bn = pack_all(static_fields, dynamic, max_size, hs, huff)->Some_0.0;
        assert(bn.take(bn.len() as int) =~= bn);
    } else {
        lemma_pack_all_prefix_of_whole(static_fields, dynamic, max_size, hs, huff, k + 1);
        super::pack::lemma_pack_all_prefix(static_fields, dynamic, max_size, hs, huff, k + 1);
        let t = hs.take(k + 1);
        assert(t.drop_last() =~= hs.take(k));
        let bk = pack_all(static_fields, dynamic, max_size, hs.take(k), huff)->Some_0.0;
        let bk1 = pack_all(static_fields, dynamic, max_size, hs.take(k + 1), huff)->Some_0.0;
        let bn = pack_all(static_fields, dynamic, max_size, hs, huff)->Some_0.0;
        assert(bk1.take(bk.len() as int) =~= bk);
        assert(bn.take(bk.len() as int) =~= bn.take(bk1.len() as int).take(bk.len() as int));
    }
}

/// One step of the decoder moves it to the next representation.
proof fn lemma_unpack_from_step(
    static_fields: Seq<(Seq<char>, Seq<char>)>,
    data: Seq<u8>,
    pos: int,
    st: (Seq<(Seq<char>, Seq<char>)>, int, Seq<(Seq<char>, Seq<char>, bool)>, int),
    st2: (Seq<(Seq<char>, Seq<char>)>, int, Seq<(Seq<char>, Seq<char>, bool)>, int),
    p2: int,
)
    requires
        0 <= pos < data.len(),
        pos < p2,
        unpack_step(static_fields, data, pos, st) == Some((st2, p2)),
    ensures
        unpack_from(static_fields, data, pos, st) == unpack_from(static_fields, data, p2, st2),
{
}

/// The decoder reads the representation of header `k` at the position
/// after those of the first `k` headers, and moves on to the next one.
#[verifier::rlimit(100)]
proof fn lemma_unpack_next(
    static_fields: Seq<(Seq<char>, Seq<char>)>,
    data: Seq<u8>,
    prefix_len: int,
    dynamic: Seq<(Seq<char>, Seq<char>)>,
    max_size: int,
    hs: Seq<(Seq<char>, Seq<char>, bool)>,
    huff: bool,
    k: int,
    headers: Seq<(Seq<char>, Seq<char>, bool)>,
    read: int,
) -> (read2: int)
    requires
        static_fields.len() == STATIC_TABLE_LENGTH,
        lowercase_names(static_fields),
        lowercase_names(dynamic),
        lowercase_headers(hs),
        headers_encodable(hs),
        0 <= fields_size(dynamic) <= max_size <= DEFAULT_MAX_SIZE_SETTING,
        pack_all(static_fields, dynamic, max_size, hs, huff) is Some,
        0 <= prefix_len <= data.len(),
        data.skip(prefix_len) == pack_all(static_fields, dynamic, max_size, hs, huff)->Some_0.0,
        0 <= k < hs.len(),
        0 <= read,
        pack_all(static_fields, dynamic, max_size, hs.take(k), huff) is Some,
        read + 3 * (data.len() - prefix_len - pack_all(static_fields, dynamic, max_size, hs.take(k), huff)->Some_0.0.len()) <= usize::MAX,
    ensures
        pack_all(static_fields, dynamic, max_size, hs.take(k + 1), huff) is Some,
        ({
            let (bk, dk) = pack_all(static_fields, dynamic, max_size, hs.take(k), huff)->Some_0;
            let (bk1, dk1) = pack_all(static_fields, dynamic, max_size, hs.take(k + 1), huff)->Some_0;
            &&& unpack_from(static_fields, data, prefix_len + bk.len(), (dk, max_size, headers, read))
                == unpack_from(static_fields, data, prefix_len + bk1.len(), (dk1, max_size, headers.push(hs[k]), read2))
            &&& 0 <= read2
            &&& read2 + 3 * (data.len() - prefix_len - bk1.len()) <= usize::MAX
        }),
{
    lemma_pack_all_take(static_fields, dynamic, max_size, hs, huff, k);
    lemma_pack_all_take(static_fields, dynamic, max_size, hs, huff, k + 1);
    let (bk, dk) = pack_all(static_fields, dynamic, max_size, hs.take(k), huff)->Some_0;
    let (bn, dn) = pack_all(static_fields, dynamic, max_size, hs, huff)->Some_0;
    let pos = prefix_len + bk.len();
    let h = hs[k];
    let (c, d2) = pack_one(static_fields, dk, max_size, h, huff)->Some_0;
    let (bk1, dk1) = pack_all(static_fields, dynamic, max_size, hs.take(k + 1), huff)->Some_0;
    assert(pack_one(static_fields, dk, max_size, h, huff) is Some && bk1 == bk + c && dk1 == d2) by {
        let t = hs.take(k + 1);
        assert(t.drop_last() =~= hs.take(k));
        assert(t.last() == hs[k]);
    }
    let rest = bn.skip(bk1.len() as int);
    assert(data.skip(pos) =~= c + rest) by {
        assert(bn.take(bk1.len() as int) == bk1);
        assert(bn =~= bk1 + rest);
        assert(data.skip(pos) =~= bn.skip(bk.len() as int));
    }
    let st = (dk, max_size, headers, read);
    assert(unpack_step(static_fields, data, pos, st) matches Some((st2, p2)) && p2 == pos + c.len()
        && st2.0 == d2 && st2.1 == max_size && st2.2 == headers.push(h) && read <= st2.3 <= read + 2
        + c.len() && c.len() >= 1) by {
        assert(lowercase_name(h.0));
        assert(text_bytes(h.0).len() <= 0x3fff_ffff && text_bytes(h.1).len() <= 0x3fff_ffff);
        lemma_pack_one_step(static_fields, data, pos, st, h, huff, rest);
    }
    let (st2, p2) = unpack_step(static_fields, data, pos, st)->Some_0;
    lemma_unpack_from_step(static_fields, data, pos, st, st2, p2);
    st2.3
}

/// From the position after the representations of the first `k` headers,
/// the decoder reads the remaining headers and ends with the encoder's
/// final table.
proof fn lemma_unpack_rest(
    static_fields: Seq<(Seq<char>, Seq<char>)>,
    data: Seq<u8>,
    prefix_len: int,
    dynamic: Seq<(Seq<char>, Seq<char>)>,
    max_size: int,
    hs: Seq<(Seq<char>, Seq<char>, bool)>,
    huff: bool,
    k: int,
    headers: Seq<(Seq<char>, Seq<char>, bool)>,
    read: int,
)
    requires
        static_fields.len() == STATIC_TABLE_LENGTH,
        lowercase_names(static_fields),
        lowercase_names(dynamic),
        lowercase_headers(hs),
        headers_encodable(hs),
        0 <= fields_size(dynamic) <= max_size <= DEFAULT_MAX_SIZE_SETTING,
        pack_all(static_fields, dynamic, max_size, hs, huff) is Some,
        0 <= prefix_len <= data.len(),
        data.skip(prefix_len) == pack_all(static_fields, dynamic, max_size, hs, huff)->Some_0.0,
        0 <= k <= hs.len(),
        0 <= read,
        pack_all(static_fields, dynamic, max_size, hs.take(k), huff) is Some,
        read + 3 * (data.len() - prefix_len - pack_all(static_fields, dynamic, max_size, hs.take(k), huff)->Some_0.0.len()) <= usize::MAX,
    ensures
        ({
            let (bk, dk) = pack_all(static_fields, dynamic, max_size, hs.take(k), huff)->Some_0;
            let dn = pack_all(static_fields, dynamic, max_size, hs, huff)->Some_0.1;
            unpack_from(static_fields, data, prefix_len + bk.len(), (dk, max_size, headers, read)) matches Some(st)
                && st.0 == dn && st.1 == max_size && st.2 == headers + hs.skip(k)
        }),
    decreases hs.len() - k,
{
    if k == hs.len() {
        assert(hs.take(k) =~= hs);
        assert(hs.skip(k) =~= Seq::<(Seq<char>, Seq<char>, bool)>::empty());
        assert(headers + hs.skip(k) =~= headers);
        let bn = pack_all(static_fields, dynamic, max_size, hs, huff)->Some_0.0;
        assert(data.len() == prefix_len + bn.len());
    } else {
        let read2 = lemma_unpack_next(static_fields, data, prefix_len, dynamic, max_size, hs, huff, k, headers, read);
        lemma_unpack_rest(static_fields, data, prefix_len, dynamic, max_size, hs, huff, k + 1, headers.push(hs[k]), read2);
        assert(headers.push(hs[k]) + hs.skip(k + 1) =~= headers + hs.skip(k));
    }
}

/// A dynamic table size update reads back as the new size, and the table
/// is cut to it.
proof fn lemma_size_update_step(
    static_fields: Seq<(Seq<char>, Seq<char>)>,
    data: Seq<u8>,
    u: u32,
    body: Seq<u8>,
    st: (Seq<(Seq<char>, Seq<char>)>, int, Seq<(Seq<char>, Seq<char>, bool)>, int),
)
    requires
        u <= DEFAULT_MAX_SIZE_SETTING,
        data == number_octets(u as int, 5, flags::SIZE_UPDATE_FLAG) + body,
        0 <= st.3,
        st.3 + number_octets(u as int, 5, flags::SIZE_UPDATE_FLAG).len() <= usize::MAX,
    ensures
        ({
            let len = number_octets(u as int, 5, flags::SIZE_UPDATE_FLAG).len() as int;
            &&& len >= 1
            &&& unpack_step(static_fields, data, 0, st) == Some(
                ((evict(st.0, u as int), u as int, st.2, st.3 + len), len),
            )
        }),
{
    reveal(unpack_step);
    lemma_prefix_limits();
    assert(data.skip(0) =~= data);
    lemma_number_at(data, 0, u as int, 5, flags::SIZE_UPDATE_FLAG, body);
    let p = number::spec_encode(u, 5).0;
    assert(p <= 31 ==> (0x20u8 | p) & 0x80 != 0x80 && (0x20u8 | p) & 0x40 != 0x40 && (0x20u8 | p)
        & 0x20 == 0x20) by (bit_vector);
}

/// HPACK round trip: the header block the encoder writes for a list of
/// headers (with a pending table size update, if any) decodes, from a
/// decoder whose dynamic table and maximum size are the encoder's, to the
/// same headers (names, values, and whether they may be indexed), and leaves
/// the decoder's dynamic table and maximum size equal to the encoder's.
/// Header and table names are lowercase, as HTTP/2 requires; the octet
/// count fits in `usize`.
pub proof fn lemma_pack_unpack_round_trip(
    static_fields: Seq<(Seq<char>, Seq<char>)>,
    dynamic: Seq<(Seq<char>, Seq<char>)>,
    max_size: int,
    pending: Option<u32>,
    hs: Seq<(Seq<char>, Seq<char>, bool)>,
    huff: bool,
    headers: Seq<(Seq<char>, Seq<char>, bool)>,
    read: int,
)
    requires
        static_fields.len() == STATIC_TABLE_LENGTH,
        lowercase_names(static_fields),
        lowercase_names(dynamic),
        lowercase_headers(hs),
        headers_encodable(hs),
        fields_size(dynamic) <= max_size <= DEFAULT_MAX_SIZE_SETTING,
        spec_pack(static_fields, dynamic, max_size, pending, hs, huff) is Some,
        0 <= read,
        read + 3 * spec_pack(static_fields, dynamic, max_size, pending, hs, huff)->Some_0.0.len() <= usize::MAX,
    ensures
        ({
            let (bytes, d, m) = spec_pack(static_fields, dynamic, max_size, pending, hs, huff)->Some_0;
            unpack_from(static_fields, bytes, 0, (dynamic, max_size, headers, read)) matches Some(st)
                && st.0 == d && st.1 == m && st.2 == headers + hs
        }),
{
    let (bytes, d, m) = spec_pack(static_fields, dynamic, max_size, pending, hs, huff)->Some_0;
    table::lemma_fields_size_nonneg(dynamic);
    assert(hs.skip(0) =~= hs);
    assert(hs.take(0) =~= Seq::<(Seq<char>, Seq<char>, bool)>::empty());
    match pending {
        None => {
            assert(bytes.skip(0) =~= bytes);
            lemma_pack_all_take(static_fields, dynamic, max_size, hs, huff, 0);
            lemma_unpack_rest(static_fields, bytes, 0, dynamic, max_size, hs, huff, 0, headers, read);
        },
        Some(u) => {
            let d0 = evict(dynamic, u as int);
            table::lemma_evict(dynamic, u as int);
            table::lemma_fields_size_nonneg(d0);
            assert(lowercase_names(d0)) by {
                assert forall|i: int| 0 <= i < d0.len() implies lowercase_name(#[trigger] d0[i].0) by {
                    assert(d0[i] == dynamic[i]);
                }
            }
            let up = number_octets(u as int, 5, flags::SIZE_UPDATE_FLAG);
            let body = pack_all(static_fields, d0, u as int, hs, huff)->Some_0.0;
            assert(bytes == up + body);
            let st = (dynamic, max_size, headers, read);
            lemma_size_update_step(static_fields, bytes, u, body, st);
            let st1 = (d0, u as int, headers, read + up.len());
            assert(bytes.skip(up.len() as int) =~= body);
            lemma_pack_all_take(static_fields, d0, u as int, hs, huff, 0);
            lemma_unpack_rest(static_fields, bytes, up.len() as int, d0, u as int, hs, huff, 0, headers, read + up.len());
            if up.len() < bytes.len() {
                lemma_unpack_from_step(static_fields, bytes, 0, st, st1, up.len() as int);
            } else {
                assert(body.len() == 0);
            }
        },
    }
}

} // verus!
