//! The HPACK decoder (RFC 7541, section 6).

use vstd::prelude::*;
use vstd::utf8::{decode_utf8, valid_utf8, encode_utf8_decode_utf8};
use super::context::{ContextTrait, RecvContext, address_get};
use super::header_trait::{HpackHeaderTrait};
use super::pack::headers_view;
use super::table::{Field, evict, field_size, fview, DEFAULT_MAX_SIZE_SETTING};
use super::{flags, number, string};
use crate::octets;

verus! {

/// Decoded headers and the number of octets the decoder counted.
#[derive(Debug)]
pub struct UnpackedHeaders<T: HpackHeaderTrait> {
    pub headers: Vec<T>,
    pub octets_read: usize,
}

impl<T: HpackHeaderTrait> UnpackedHeaders<T> {
    pub fn new() -> (r: Self)
        ensures
            r.headers@ == Seq::<T>::empty(),
            r.octets_read == 0,
    {
        UnpackedHeaders { headers: Vec::new(), octets_read: 0 }
    }
}

/// The integer representation with an `n`-bit prefix at `pos`: its value
/// and length; `None` when there is none or it does not fit in 32 bits.
pub open spec fn number_at(data: Seq<u8>, pos: int, n: u8) -> Option<(int, int)> {
    if 0 <= pos < data.len() && number::spec_decode_ok(data.skip(pos), n) {
        Some(
            (
                number::spec_decoded_value(data.skip(pos), n) as int,
                number::spec_decoded_len(data.skip(pos), n) as int,
            ),
        )
    } else {
        None
    }
}

/// The string literal at `pos` as text, and the length it declares;
/// `None` when there is none, its length does not decode, or its octets
/// are not UTF-8.
pub open spec fn text_at(data: Seq<u8>, pos: int) -> Option<(Seq<char>, int)> {
    if 0 <= pos < data.len() && string::spec_decode_ok(data.skip(pos)) {
        let bytes = string::spec_decoded_string(data.skip(pos));
        if valid_utf8(bytes) {
            Some(
                (
                    decode_utf8(bytes),
                    (number::spec_decoded_len(data.skip(pos), 7) + string::spec_declared_len(
                        data.skip(pos),
                    )) as int,
                ),
            )
        } else {
            None
        }
    } else {
        None
    }
}

/// A decoder's state: its dynamic table, the table's maximum size, the
/// headers decoded so far (name, value, whether they may be indexed) and
/// the octets counted.
pub open spec fn decode_state(
    dynamic: Seq<(Seq<char>, Seq<char>)>,
    max_size: int,
    headers: Seq<(Seq<char>, Seq<char>, bool)>,
    octets_read: int,
) -> (Seq<(Seq<char>, Seq<char>)>, int, Seq<(Seq<char>, Seq<char>, bool)>, int) {
    (dynamic, max_size, headers, octets_read)
}

/// An indexed header field representation at `pos`.
pub open spec fn indexed_step(
    static_fields: Seq<(Seq<char>, Seq<char>)>,
    data: Seq<u8>,
    pos: int,
    st: (Seq<(Seq<char>, Seq<char>)>, int, Seq<(Seq<char>, Seq<char>, bool)>, int),
) -> Option<((Seq<(Seq<char>, Seq<char>)>, int, Seq<(Seq<char>, Seq<char>, bool)>, int), int)> {
    match number_at(data, pos, 7) {
        None => None,
        Some((index, len)) => match address_get(static_fields, st.0, index) {
            None => None,
            Some(f) => if st.3 + len > usize::MAX {
                None
            } else {
                Some(((st.0, st.1, st.2.push((f.0, f.1, true)), st.3 + len), pos + len))
            },
        },
    }
}

/// A literal header field representation at `pos` with an `n`-bit index
/// prefix: a name from the tables or a literal name, then a literal value.
/// The field is added to the dynamic table when `insert`.
pub open spec fn literal_step(
    static_fields: Seq<(Seq<char>, Seq<char>)>,
    data: Seq<u8>,
    pos: int,
    st: (Seq<(Seq<char>, Seq<char>)>, int, Seq<(Seq<char>, Seq<char>, bool)>, int),
    n: u8,
    insert: bool,
    allow: bool,
    extra: int,
) -> Option<((Seq<(Seq<char>, Seq<char>)>, int, Seq<(Seq<char>, Seq<char>, bool)>, int), int)> {
    match number_at(data, pos, n) {
        None => None,
        Some((index, len1)) => {
            let p1 = pos + len1;
            let name_res: Option<(Seq<char>, int)> = if index != 0 {
                match address_get(static_fields, st.0, index) {
                    Some(f) => Some((f.0, 0)),
                    None => None,
                }
            } else {
                text_at(data, p1)
            };
            match name_res {
                None => None,
                Some((name, nlen)) => {
                    let p2 = p1 + nlen;
                    match text_at(data, p2) {
                        None => None,
                        Some((value, vlen)) => {
                            let field = (name, value);
                            let read = st.3 + extra + len1 + nlen + vlen;
                            if read > usize::MAX {
                                None
                            } else if insert && field_size(field) > st.1 {
                                None
                            } else {
                                Some(
                                    (
                                        (
                                            if insert {
                                                seq![field] + evict(st.0, st.1 - field_size(field))
                                            } else {
                                                st.0
                                            },
                                            st.1,
                                            st.2.push((name, value, allow)),
                                            read,
                                        ),
                                        p2 + vlen,
                                    ),
                                )
                            }
                        },
                    }
                },
            }
        },
    }
}

/// A dynamic table size update at `pos`.
pub open spec fn size_update_step(
    data: Seq<u8>,
    pos: int,
    st: (Seq<(Seq<char>, Seq<char>)>, int, Seq<(Seq<char>, Seq<char>, bool)>, int),
) -> Option<((Seq<(Seq<char>, Seq<char>)>, int, Seq<(Seq<char>, Seq<char>, bool)>, int), int)> {
    match number_at(data, pos, 5) {
        None => None,
        Some((size, len)) => if size > DEFAULT_MAX_SIZE_SETTING || st.3 + len > usize::MAX {
            None
        } else {
            Some(((evict(st.0, size), size, st.2, st.3 + len), pos + len))
        },
    }
}

/// The representation at `pos`, chosen by the pattern of its first octet.
#[verifier::opaque]
pub open spec fn unpack_step(
    static_fields: Seq<(Seq<char>, Seq<char>)>,
    data: Seq<u8>,
    pos: int,
    st: (Seq<(Seq<char>, Seq<char>)>, int, Seq<(Seq<char>, Seq<char>, bool)>, int),
) -> Option<((Seq<(Seq<char>, Seq<char>)>, int, Seq<(Seq<char>, Seq<char>, bool)>, int), int)> {
    let b = data[pos];
    if b & flags::INDEXED_HEADER_FLAG == flags::INDEXED_HEADER_FLAG {
        indexed_step(static_fields, data, pos, st)
    } else if b & flags::LITERAL_WITH_INDEXING_FLAG == flags::LITERAL_WITH_INDEXING_FLAG {
        literal_step(static_fields, data, pos, st, 6, true, true, 0)
    } else if b & flags::SIZE_UPDATE_FLAG == flags::SIZE_UPDATE_FLAG {
        size_update_step(data, pos, st)
    } else if b & flags::LITERAL_WITHOUT_INDEXING_FLAG == 0 {
        literal_step(static_fields, data, pos, st, 4, false, true, 0)
    } else {
        literal_step(static_fields, data, pos, st, 4, false, false, 2)
    }
}

/// Decoding the representations from `pos` to the end of the block; `None`
/// when one of them is malformed.
pub open spec fn unpack_from(
    static_fields: Seq<(Seq<char>, Seq<char>)>,
    data: Seq<u8>,
    pos: int,
    st: (Seq<(Seq<char>, Seq<char>)>, int, Seq<(Seq<char>, Seq<char>, bool)>, int),
) -> Option<(Seq<(Seq<char>, Seq<char>)>, int, Seq<(Seq<char>, Seq<char>, bool)>, int)>
    decreases data.len() - pos,
{
    if pos < 0 || pos >= data.len() {
        Some(st)
    } else {
        match unpack_step(static_fields, data, pos, st) {
            None => None,
            Some((st2, p2)) => if p2 <= pos {
                None
            } else if p2 >= data.len() {
                Some(st2)
            } else {
                unpack_from(static_fields, data, p2, st2)
            },
        }
    }
}

/// The state of a decoder as text.
pub open spec fn recv_state<T: HpackHeaderTrait>(
    context: RecvContext,
    unpacked: UnpackedHeaders<T>,
) -> (Seq<(Seq<char>, Seq<char>)>, int, Seq<(Seq<char>, Seq<char>, bool)>, int) {
    (
        context.dynamic_fields(),
        context.dynamic_max_size() as int,
        headers_view(unpacked.headers@),
        unpacked.octets_read as int,
    )
}

/// Decodes the integer representation at `pos`.
fn number_at_exec(data: &[u8], pos: usize, n: u8) -> (r: Option<(u32, usize)>)
    requires
        pos < data@.len(),
        1 <= n <= 8,
    ensures
        r is Some <==> number_at(data@, pos as int, n) is Some,
        r matches Some(x) ==> number_at(data@, pos as int, n) == Some((x.0 as int, x.1 as int)),
        r matches Some(x) ==> pos + x.1 <= data@.len(),
{
    let tail = &data[pos..data.len()];
    assert(tail@ =~= data@.skip(pos as int));
    proof {
        number::lemma_decoded_len_bound(tail@, n);
    }
    match number::decode(tail, n) {
        Some(d) => Some((d.num, d.octets_read)),
        None => None,
    }
}

/// Decodes the string literal at `pos` as text.
fn text_at_exec(data: &[u8], pos: usize) -> (r: Option<(String, usize)>)
    ensures
        r is Some <==> text_at(data@, pos as int) is Some,
        r matches Some(x) ==> text_at(data@, pos as int) == Some((x.0@, x.1 as int)),
{
    if pos >= data.len() {
        return None;
    }
    let tail = &data[pos..data.len()];
    assert(tail@ =~= data@.skip(pos as int));
    match string::decode(tail) {
        None => None,
        Some(d) => {
            let len = d.octets_read;
            match octets::string_from_utf8(d.string) {
                Some(s) => {
                    proof {
                        encode_utf8_decode_utf8(s@);
                    }
                    Some((s, len))
                },
                None => None,
            }
        },
    }
}

/// A copy of a field.
fn copy_field(field: &Field) -> (r: Field)
    ensures
        fview(r) == fview(*field),
{
    Field { name: field.name.clone(), value: field.value.clone() }
}

/// The size of a field's table entry, if it fits in `usize`.
fn entry_size(field: &Field) -> (r: Option<usize>)
    ensures
        r is Some <==> field_size(fview(*field)) <= usize::MAX,
        r matches Some(x) ==> x == field_size(fview(*field)),
{
    let a = field.name.as_str().len();
    let b = field.value.as_str().len();
    match a.checked_add(b) {
        Some(ab) => ab.checked_add(32),
        None => None,
    }
}

/// The position after a representation, capped at the end of the block.
pub open spec fn capped(p: int, len: int) -> int {
    if p < len {
        p
    } else {
        len
    }
}

/// What a step of the decoder does: on success the state becomes the one
/// `unpack_step` gives, and the position moves past the representation.
pub open spec fn step_done<T: HpackHeaderTrait>(
    step: Option<((Seq<(Seq<char>, Seq<char>)>, int, Seq<(Seq<char>, Seq<char>, bool)>, int), int)>,
    r: Option<usize>,
    len: int,
    context: RecvContext,
    unpacked: UnpackedHeaders<T>,
) -> bool {
    &&& r is Some <==> step is Some
    &&& r matches Some(p) ==> {
        &&& p == capped(step->Some_0.1, len)
        &&& recv_state(context, unpacked) == step->Some_0.0
    }
}

/// Decodes an indexed header field representation.
fn indexed_exec<T: HpackHeaderTrait>(
    data: &[u8],
    pos: usize,
    context: &mut RecvContext,
    unpacked: &mut UnpackedHeaders<T>,
) -> (r: Option<usize>)
    requires
        pos < data@.len(),
        old(context).wf(),
    ensures
        step_done(
            indexed_step(old(context).static_fields(), data@, pos as int, recv_state(*old(context), *old(unpacked))),
            r,
            data@.len() as int,
            *final(context),
            *final(unpacked),
        ),
        final(context).wf(),
        final(context).static_fields() == old(context).static_fields(),
        final(context).dynamic_max_size_setting() == old(context).dynamic_max_size_setting(),
{
    let (index, len) = match number_at_exec(data, pos, 7) {
        Some(x) => x,
        None => {
            return None;
        },
    };
    if index == 0 {
        return None;
    }
    let field = match context.get(index as usize) {
        Some(f) => copy_field(f),
        None => {
            return None;
        },
    };
    let read = match unpacked.octets_read.checked_add(len) {
        Some(x) => x,
        None => {
            return None;
        },
    };
    unpacked.octets_read = read;
    let ghost fv = fview(field);
    unpacked.headers.push(T::from_field(field));
    proof {
        assert(headers_view(unpacked.headers@) =~= headers_view(old(unpacked).headers@).push(
            (fv.0, fv.1, true),
        ));
    }
    let data_len = data.len();
    Some(pos + len)
}

/// Decodes a dynamic table size update.
fn size_update_exec<T: HpackHeaderTrait>(
    data: &[u8],
    pos: usize,
    context: &mut RecvContext,
    unpacked: &mut UnpackedHeaders<T>,
) -> (r: Option<usize>)
    requires
        pos < data@.len(),
        old(context).wf(),
    ensures
        step_done(
            size_update_step(data@, pos as int, recv_state(*old(context), *old(unpacked))),
            r,
            data@.len() as int,
            *final(context),
            *final(unpacked),
        ),
        final(context).wf(),
        final(context).static_fields() == old(context).static_fields(),
        final(context).dynamic_max_size_setting() == old(context).dynamic_max_size_setting(),
{
    proof {
        context.lemma_wf();
    }
    let (size, len) = match number_at_exec(data, pos, 5) {
        Some(x) => x,
        None => {
            return None;
        },
    };
    if size as usize > DEFAULT_MAX_SIZE_SETTING {
        return None;
    }
    let read = match unpacked.octets_read.checked_add(len) {
        Some(x) => x,
        None => {
            return None;
        },
    };
    context.set_max_size(size as usize);
    unpacked.octets_read = read;
    let data_len = data.len();
    Some(pos + len)
}

/// Decodes a literal header field representation with an `n`-bit index
/// prefix, inserting the field into the dynamic table when `insert`.
#[verifier::rlimit(30)]
fn literal_exec<T: HpackHeaderTrait>(
    data: &[u8],
    pos: usize,
    context: &mut RecvContext,
    unpacked: &mut UnpackedHeaders<T>,
    n: u8,
    insert: bool,
    allow: bool,
    extra: usize,
) -> (r: Option<usize>)
    requires
        pos < data@.len(),
        old(context).wf(),
        1 <= n <= 8,
        extra <= 2,
    ensures
        step_done(
            literal_step(
                old(context).static_fields(),
                data@,
                pos as int,
                recv_state(*old(context), *old(unpacked)),
                n,
                insert,
                allow,
                extra as int,
            ),
            r,
            data@.len() as int,
            *final(context),
            *final(unpacked),
        ),
        final(context).wf(),
        final(context).static_fields() == old(context).static_fields(),
        final(context).dynamic_max_size_setting() == old(context).dynamic_max_size_setting(),
{
    let data_len = data.len();
    let (index, len1) = match number_at_exec(data, pos, n) {
        Some(x) => x,
        None => {
            return None;
        },
    };
    let p1 = pos + len1;
    let (name, nlen): (String, usize) = if index != 0 {
        match context.get(index as usize) {
            Some(f) => (f.name.clone(), 0),
            None => {
                return None;
            },
        }
    } else {
        match text_at_exec(data, p1) {
            Some(x) => x,
            None => {
                return None;
            },
        }
    };
    let p2 = match p1.checked_add(nlen) {
        Some(p) => p,
        None => {
            return None;
        },
    };
    let (value, vlen) = match text_at_exec(data, p2) {
        Some(x) => x,
        None => {
            return None;
        },
    };
    let read = match unpacked.octets_read.checked_add(extra) {
        Some(a) => match a.checked_add(len1) {
            Some(b) => match b.checked_add(nlen) {
                Some(c) => match c.checked_add(vlen) {
                    Some(d) => d,
                    None => {
                        return None;
                    },
                },
                None => {
                    return None;
                },
            },
            None => {
                return None;
            },
        },
        None => {
            return None;
        },
    };
    let field = Field { name, value };
    let ghost fv = fview(field);
    if insert {
        proof {
            context.lemma_wf();
        }
        match entry_size(&field) {
            Some(size) => {
                if size > context.dynamic_max_size_exec() {
                    return None;
                }
            },
            None => {
                return None;
            },
        }
        let copy = copy_field(&field);
        context.insert(copy);
    }
    unpacked.octets_read = read;
    if allow {
        unpacked.headers.push(T::from_field(field));
    } else {
        unpacked.headers.push(T::from_field_with_compression_flag(field, false));
    }
    proof {
        assert(headers_view(unpacked.headers@) =~= headers_view(old(unpacked).headers@).push(
            (fv.0, fv.1, allow),
        ));
    }
    match p2.checked_add(vlen) {
        Some(p) => if p < data_len {
            Some(p)
        } else {
            Some(data_len)
        },
        None => Some(data_len),
    }
}

/// Decodes the representation at `pos`.
fn unpack_one<T: HpackHeaderTrait>(
    data: &[u8],
    pos: usize,
    context: &mut RecvContext,
    unpacked: &mut UnpackedHeaders<T>,
) -> (r: Option<usize>)
    requires
        pos < data@.len(),
        old(context).wf(),
    ensures
        step_done(
            unpack_step(old(context).static_fields(), data@, pos as int, recv_state(*old(context), *old(unpacked))),
            r,
            data@.len() as int,
            *final(context),
            *final(unpacked),
        ),
        r is Some ==> unpack_step(
            old(context).static_fields(),
            data@,
            pos as int,
            recv_state(*old(context), *old(unpacked)),
        )->Some_0.1 > pos,
        final(context).wf(),
        final(context).static_fields() == old(context).static_fields(),
        final(context).dynamic_max_size_setting() == old(context).dynamic_max_size_setting(),
{
    proof {
        reveal(unpack_step);
    }
    let b = data[pos];
    if b & flags::INDEXED_HEADER_FLAG == flags::INDEXED_HEADER_FLAG {
        indexed_exec(data, pos, context, unpacked)
    } else if b & flags::LITERAL_WITH_INDEXING_FLAG == flags::LITERAL_WITH_INDEXING_FLAG {
        literal_exec(data, pos, context, unpacked, 6, true, true, 0)
    } else if b & flags::SIZE_UPDATE_FLAG == flags::SIZE_UPDATE_FLAG {
        size_update_exec(data, pos, context, unpacked)
    } else if b & flags::LITERAL_WITHOUT_INDEXING_FLAG == 0 {
        literal_exec(data, pos, context, unpacked, 4, false, true, 0)
    } else {
        literal_exec(data, pos, context, unpacked, 4, false, false, 2)
    }
}

/// Decodes a header block, appending the headers to `unpacked_headers` and
/// updating the decoder's dynamic table. Indexed fields and names are read
/// from the context; literals with incremental indexing are added to the
/// dynamic table; never-indexed literals become headers that may not be
/// compressed. Returns `false`, and stops, at the first malformed
/// representation: an integer that does not fit in 32 bits, an index
/// outside the tables, a string that is not UTF-8 or is missing, a field
/// too large for the dynamic table, or a size update above the limit.
pub fn unpack<T: HpackHeaderTrait>(
    data: &[u8],
    context: &mut RecvContext,
    unpacked_headers: &mut UnpackedHeaders<T>,
) -> (ok: bool)
    requires
        old(context).wf(),
    ensures
        ok <==> unpack_from(
            old(context).static_fields(),
            data@,
            0,
            recv_state(*old(context), *old(unpacked_headers)),
        ) is Some,
        ok ==> recv_state(*final(context), *final(unpacked_headers)) == unpack_from(
            old(context).static_fields(),
            data@,
            0,
            recv_state(*old(context), *old(unpacked_headers)),
        )->Some_0,
        final(context).wf(),
        final(context).static_fields() == old(context).static_fields(),
{
    let ghost static_f = context.static_fields();
    let ghost result = unpack_from(static_f, data@, 0, recv_state(*context, *unpacked_headers));
    let mut pos: usize = 0;
    while pos < data.len()
        invariant
            pos <= data@.len(),
            context.wf(),
            context.static_fields() == static_f,
            static_f == old(context).static_fields(),
            result == unpack_from(static_f, data@, 0, recv_state(*old(context), *old(unpacked_headers))),
            unpack_from(static_f, data@, pos as int, recv_state(*context, *unpacked_headers)) == result,
        decreases data@.len() - pos,
    {
        match unpack_one(data, pos, context, unpacked_headers) {
            Some(next) => {
                pos = next;
            },
            None => {
                return false;
            },
        }
    }
    true
}

} // verus!
