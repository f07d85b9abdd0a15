//! The HPACK encoder (RFC 7541, section 6).

use vstd::prelude::*;
use vstd::utf8::encode_utf8;
use vstd::string::StringSliceAdditionalSpecFns;
use super::context::{ContextTrait, SendContext, context_find};
use super::header_trait::{HpackHeaderTrait, hview};
use super::table::{Field, evict, field_size, fview, DEFAULT_MAX_SIZE_SETTING};
use super::{flags, number, string};
use crate::octets;

verus! {

/// The octets of a text.
pub open spec fn text_bytes(t: Seq<char>) -> Seq<u8> {
    encode_utf8(t)
}

/// The octets of a string literal representation of a text.
pub open spec fn string_octets(t: Seq<char>, use_huffman_coding: bool) -> Seq<u8> {
    string::spec_encode(text_bytes(t), use_huffman_coding)
}

/// The octets of an integer representation with `flags` in the first octet.
pub open spec fn number_octets(num: int, n: u8, flags: u8) -> Seq<u8> {
    string::spec_number_octets(num as u32, n, flags)
}

/// Names that are sent without indexing: their values vary too much to be
/// worth a table entry, though the name may be looked up.
pub open spec fn is_literal_without_indexing_name(name: Seq<char>) -> bool {
    text_bytes(name) == ":path".spec_bytes()
}

/// The representation of a header that may not be compressed: a
/// never-indexed literal, with an indexed name when the table holds the
/// name, and the value never Huffman-coded.
pub open spec fn pack_never_indexed(
    static_fields: Seq<(Seq<char>, Seq<char>)>,
    dynamic: Seq<(Seq<char>, Seq<char>)>,
    field: (Seq<char>, Seq<char>),
    huff: bool,
) -> Seq<u8> {
    match context_find(static_fields, dynamic, field) {
        Some((index, _)) => number_octets(index, 4, flags::LITERAL_NEVER_INDEX_FLAG)
            + string_octets(field.1, false),
        None => seq![flags::LITERAL_NEVER_INDEX_FLAG] + string_octets(field.0, huff)
            + string_octets(field.1, false),
    }
}

/// The representation of a header that may be compressed, and the dynamic
/// table after it; `None` when it would have to be inserted but does not
/// fit.
pub open spec fn pack_indexable(
    static_fields: Seq<(Seq<char>, Seq<char>)>,
    dynamic: Seq<(Seq<char>, Seq<char>)>,
    max_size: int,
    field: (Seq<char>, Seq<char>),
    huff: bool,
) -> Option<(Seq<u8>, Seq<(Seq<char>, Seq<char>)>)> {
    let inserted = seq![field] + evict(dynamic, max_size - field_size(field));
    match context_find(static_fields, dynamic, field) {
        Some((index, true)) => Some((number_octets(index, 7, flags::INDEXED_HEADER_FLAG), dynamic)),
        Some((index, false)) => if is_literal_without_indexing_name(field.0) {
            Some((number_octets(index, 4, 0) + string_octets(field.1, huff), dynamic))
        } else if field_size(field) <= max_size {
            Some(
                (
                    number_octets(index, 6, flags::LITERAL_WITH_INDEXING_FLAG) + string_octets(
                        field.1,
                        huff,
                    ),
                    inserted,
                ),
            )
        } else {
            None
        },
        None => if is_literal_without_indexing_name(field.0) {
            Some((seq![0u8] + string_octets(field.0, huff) + string_octets(field.1, huff), dynamic))
        } else if field_size(field) <= max_size {
            Some(
                (
                    seq![flags::LITERAL_WITH_INDEXING_FLAG] + string_octets(field.0, huff)
                        + string_octets(field.1, huff),
                    inserted,
                ),
            )
        } else {
            None
        },
    }
}

/// The representation of one header and the encoder's dynamic table after
/// it; `None` when the header would have to be inserted but does not fit.
#[verifier::opaque]
pub open spec fn pack_one(
    static_fields: Seq<(Seq<char>, Seq<char>)>,
    dynamic: Seq<(Seq<char>, Seq<char>)>,
    max_size: int,
    h: (Seq<char>, Seq<char>, bool),
    huff: bool,
) -> Option<(Seq<u8>, Seq<(Seq<char>, Seq<char>)>)> {
    if !h.2 {
        Some((pack_never_indexed(static_fields, dynamic, (h.0, h.1), huff), dynamic))
    } else {
        pack_indexable(static_fields, dynamic, max_size, (h.0, h.1), huff)
    }
}

/// The representations of a list of headers, encoded in order, and the
/// dynamic table after them.
pub open spec fn pack_all(
    static_fields: Seq<(Seq<char>, Seq<char>)>,
    dynamic: Seq<(Seq<char>, Seq<char>)>,
    max_size: int,
    hs: Seq<(Seq<char>, Seq<char>, bool)>,
    huff: bool,
) -> Option<(Seq<u8>, Seq<(Seq<char>, Seq<char>)>)>
    decreases hs.len(),
{
    if hs.len() == 0 {
        Some((Seq::<u8>::empty(), dynamic))
    } else {
        match pack_all(static_fields, dynamic, max_size, hs.drop_last(), huff) {
            None => None,
            Some((bytes, d)) => match pack_one(static_fields, d, max_size, hs.last(), huff) {
                None => None,
                Some((more, d2)) => Some((bytes + more, d2)),
            },
        }
    }
}

/// A header block: a pending dynamic table size update first, then the
/// headers. The result holds the octets, the dynamic table and its maximum
/// size after the block; `None` when a size update exceeds the limit or a
/// header to be inserted does not fit.
pub open spec fn spec_pack(
    static_fields: Seq<(Seq<char>, Seq<char>)>,
    dynamic: Seq<(Seq<char>, Seq<char>)>,
    max_size: int,
    pending: Option<u32>,
    hs: Seq<(Seq<char>, Seq<char>, bool)>,
    huff: bool,
) -> Option<(Seq<u8>, Seq<(Seq<char>, Seq<char>)>, int)> {
    match pending {
        Some(u) => if u <= DEFAULT_MAX_SIZE_SETTING {
            match pack_all(static_fields, evict(dynamic, u as int), u as int, hs, huff) {
                Some((bytes, d)) => Some(
                    (number_octets(u as int, 5, flags::SIZE_UPDATE_FLAG) + bytes, d, u as int),
                ),
                None => None,
            }
        } else {
            None
        },
        None => match pack_all(static_fields, dynamic, max_size, hs, huff) {
            Some((bytes, d)) => Some((bytes, d, max_size)),
            None => None,
        },
    }
}

/// Every header of a list fits in a table of the given size.
pub open spec fn fields_fit(hs: Seq<(Seq<char>, Seq<char>, bool)>, max_size: int) -> bool {
    forall|i: int| 0 <= i < hs.len() ==> field_size(((#[trigger] hs[i]).0, hs[i].1)) <= max_size
}

/// The maximum table size a header block is encoded under: the pending size
/// update, if any, else the current maximum.
pub open spec fn effective_max_size(max_size: int, pending: Option<u32>) -> int {
    match pending {
        Some(u) => u as int,
        None => max_size,
    }
}

/// Whether a header list can be encoded: its names and values are short
/// enough, a pending size update is within the setting's limit, and every
/// header fits in the table the block is encoded under.
pub open spec fn packable(max_size: int, pending: Option<u32>, hs: Seq<(Seq<char>, Seq<char>, bool)>) -> bool {
    &&& headers_encodable(hs)
    &&& (pending matches Some(u) ==> u <= DEFAULT_MAX_SIZE_SETTING)
    &&& fields_fit(hs, effective_max_size(max_size, pending))
}

proof fn lemma_pack_all_some(
    static_fields: Seq<(Seq<char>, Seq<char>)>,
    dynamic: Seq<(Seq<char>, Seq<char>)>,
    max_size: int,
    hs: Seq<(Seq<char>, Seq<char>, bool)>,
    huff: bool,
)
    requires
        fields_fit(hs, max_size),
    ensures
        pack_all(static_fields, dynamic, max_size, hs, huff) is Some,
        hs.len() > 0 ==> pack_all(static_fields, dynamic, max_size, hs, huff)->Some_0.0.len() > 0,
    decreases hs.len(),
{
    reveal(pack_one);
    if hs.len() > 0 {
        let init = hs.drop_last();
        assert(fields_fit(init, max_size)) by {
            assert forall|i: int| 0 <= i < init.len() implies field_size(
                ((#[trigger] init[i]).0, init[i].1),
            ) <= max_size by {
                assert(init[i] == hs[i]);
            }
        }
        lemma_pack_all_some(static_fields, dynamic, max_size, init, huff);
        let last = hs.last();
        assert(field_size((last.0, last.1)) <= max_size) by {
            assert(hs[hs.len() - 1] == last);
        }
    }
}

/// A list that can be encoded is encoded: the block holds at least one
/// octet when the list is not empty, and the table's maximum size after it
/// is the one the block was encoded under.
pub proof fn lemma_packable(
    static_fields: Seq<(Seq<char>, Seq<char>)>,
    dynamic: Seq<(Seq<char>, Seq<char>)>,
    max_size: int,
    pending: Option<u32>,
    hs: Seq<(Seq<char>, Seq<char>, bool)>,
    huff: bool,
)
    requires
        packable(max_size, pending, hs),
    ensures
        spec_pack(static_fields, dynamic, max_size, pending, hs, huff) is Some,
        spec_pack(static_fields, dynamic, max_size, pending, hs, huff)->Some_0.2 == effective_max_size(
            max_size,
            pending,
        ),
        hs.len() > 0 ==> spec_pack(static_fields, dynamic, max_size, pending, hs, huff)->Some_0.0.len()
            > 0,
{
    match pending {
        Some(u) => {
            lemma_pack_all_some(static_fields, evict(dynamic, u as int), u as int, hs, huff);
        },
        None => {
            lemma_pack_all_some(static_fields, dynamic, max_size, hs, huff);
        },
    }
}

/// Every name and value is short enough for a string literal's length.
pub open spec fn headers_encodable(hs: Seq<(Seq<char>, Seq<char>, bool)>) -> bool {
    forall|i: int|
        0 <= i < hs.len() ==> text_bytes((#[trigger] hs[i]).0).len() <= 0x3fff_ffff
            && text_bytes(hs[i].1).len() <= 0x3fff_ffff
}

/// Appends an integer representation with `flags` in its first octet.
fn push_number(target: &mut Vec<u8>, num: u32, n: u8, flags: u8)
    requires
        1 <= n <= 8,
    ensures
        final(target)@ == old(target)@ + string::spec_number_octets(num, n, flags),
{
    let encoded = number::encode(num, n);
    let ghost t0 = target@;
    target.push(flags | encoded.prefix);
    match encoded.rest {
        Some(rest) => {
            octets::extend_from(target, rest.as_slice());
            assert(target@ =~= t0 + string::spec_number_octets(num, n, flags));
        },
        None => {
            assert(target@ =~= t0 + string::spec_number_octets(num, n, flags));
        },
    }
}

/// Appends a string literal representation of a text.
fn push_string(target: &mut Vec<u8>, s: &String, use_huffman_coding: bool)
    requires
        text_bytes(s@).len() <= 0x3fff_ffff,
    ensures
        final(target)@ == old(target)@ + string_octets(s@, use_huffman_coding),
{
    let encoded = string::encode(s.as_str().as_bytes(), use_huffman_coding);
    octets::extend_from(target, encoded.as_slice());
}

/// Whether headers with a name are never to be indexed. The list of such
/// names is empty: whether a header is indexed is left to the header itself
/// (`is_allow_compression`).
fn is_never_index_header(header_name: &String) -> (r: bool)
    ensures
        !r,
{
    false
}

/// Whether a name is to be sent without indexing.
fn is_literal_without_indexing_header(header_name: &String) -> (r: bool)
    ensures
        r == is_literal_without_indexing_name(header_name@),
{
    crate::http2::header::bytes_eq(header_name.as_str().as_bytes(), ":path".as_bytes())
}

/// Appends the never-indexed representation of a field.
fn pack_field_never_indexed(
    target: &mut Vec<u8>,
    context: &SendContext,
    field: &Field,
    use_huffman_coding: bool,
)
    requires
        context.wf(),
        text_bytes(field.name@).len() <= 0x3fff_ffff,
        text_bytes(field.value@).len() <= 0x3fff_ffff,
    ensures
        final(target)@ == old(target)@ + pack_never_indexed(
            context.static_fields(),
            context.dynamic_fields(),
            fview(*field),
            use_huffman_coding,
        ),
{
    let ghost t0 = target@;
    if let Some((index, _)) = context.find_field(field) {
        push_number(target, index as u32, 4, flags::LITERAL_NEVER_INDEX_FLAG);
        push_string(target, &field.value, false);
    } else {
        target.push(flags::LITERAL_NEVER_INDEX_FLAG);
        push_string(target, &field.name, use_huffman_coding);
        push_string(target, &field.value, false);
    }
    assert(target@ =~= t0 + pack_never_indexed(
        context.static_fields(),
        context.dynamic_fields(),
        fview(*field),
        use_huffman_coding,
    ));
}

/// Appends an integer with a 4-bit prefix and no flags.
fn push_number_no_flags(target: &mut Vec<u8>, num: u32)
    ensures
        final(target)@ == old(target)@ + string::spec_number_octets(num, 4, 0),
{
    let encoded = number::encode(num, 4);
    let first: u8 = (!flags::LITERAL_WITH_INDEXING_FLAG) & encoded.prefix;
    proof {
        number::lemma_prefix_max_bound(num, 4);
        let p = encoded.prefix;
        assert(p <= 15 ==> (!0x40u8) & p == 0u8 | p) by (bit_vector);
    }
    let ghost t0 = target@;
    target.push(first);
    match encoded.rest {
        Some(rest) => {
            octets::extend_from(target, rest.as_slice());
        },
        None => {},
    }
    assert(target@ =~= t0 + string::spec_number_octets(num, 4, 0));
}

/// Appends the representation of a field that may be compressed and
/// inserts it into the dynamic table when the representation says so.
#[verifier::rlimit(30)]
fn pack_field_indexable(
    target: &mut Vec<u8>,
    context: &mut SendContext,
    field: Field,
    use_huffman_coding: bool,
)
    requires
        old(context).wf(),
        text_bytes(field.name@).len() <= 0x3fff_ffff,
        text_bytes(field.value@).len() <= 0x3fff_ffff,
        pack_indexable(
            old(context).static_fields(),
            old(context).dynamic_fields(),
            old(context).dynamic_max_size() as int,
            fview(field),
            use_huffman_coding,
        ) is Some,
    ensures
        ({
            let res = pack_indexable(
                old(context).static_fields(),
                old(context).dynamic_fields(),
                old(context).dynamic_max_size() as int,
                fview(field),
                use_huffman_coding,
            )->Some_0;
            &&& final(target)@ == old(target)@ + res.0
            &&& final(context).dynamic_fields() == res.1
        }),
        final(context).wf(),
        final(context).static_fields() == old(context).static_fields(),
        final(context).dynamic_max_size() == old(context).dynamic_max_size(),
        final(context).dynamic_max_size_setting() == old(context).dynamic_max_size_setting(),
        final(context).pending_size_update() == old(context).pending_size_update(),
{
    let ghost t0 = target@;
    match context.find_field(&field) {
        Some((index, true)) => {
            push_number(target, index as u32, 7, flags::INDEXED_HEADER_FLAG);
        },
        Some((index, false)) => {
            if is_literal_without_indexing_header(&field.name) {
                push_number_no_flags(target, index as u32);
                push_string(target, &field.value, use_huffman_coding);
            } else {
                push_number(target, index as u32, 6, flags::LITERAL_WITH_INDEXING_FLAG);
                push_string(target, &field.value, use_huffman_coding);
                context.insert(field);
            }
        },
        None => {
            if is_literal_without_indexing_header(&field.name) {
                target.push(0u8);
                push_string(target, &field.name, use_huffman_coding);
                push_string(target, &field.value, use_huffman_coding);
            } else {
                target.push(flags::LITERAL_WITH_INDEXING_FLAG);
                push_string(target, &field.name, use_huffman_coding);
                push_string(target, &field.value, use_huffman_coding);
                context.insert(field);
            }
        },
    }
}

/// The headers of a slice as text.
pub open spec fn headers_view<T: HpackHeaderTrait>(headers: Seq<T>) -> Seq<(Seq<char>, Seq<char>, bool)> {
    headers.map_values(|h: T| hview(h))
}

/// Encoding a list that encodes without failure encodes each prefix of it
/// without failure.
pub proof fn lemma_pack_all_prefix(
    static_fields: Seq<(Seq<char>, Seq<char>)>,
    dynamic: Seq<(Seq<char>, Seq<char>)>,
    max_size: int,
    hs: Seq<(Seq<char>, Seq<char>, bool)>,
    huff: bool,
    k: int,
)
    requires
        0 <= k <= hs.len(),
        pack_all(static_fields, dynamic, max_size, hs, huff) is Some,
    ensures
        pack_all(static_fields, dynamic, max_size, hs.take(k), huff) is Some,
    decreases hs.len() - k,
{
    if k < hs.len() {
        lemma_pack_all_prefix(static_fields, dynamic, max_size, hs, huff, k + 1);
        let t = hs.take(k + 1);
        assert(t.drop_last() =~= hs.take(k));
    } else {
        assert(hs.take(k) =~= hs);
    }
}

/// Encodes a list of headers as a header block, updating the encoder's
/// dynamic table: a pending size update is signalled first; then each
/// header is sent as an index when the table holds it whole, as a literal
/// with an indexed name when the table holds its name, or as a literal.
/// Headers that may not be compressed are sent as never-indexed literals
/// with a plain value; `:path` headers are sent without indexing; other
/// literals are added to the dynamic table.
pub fn pack<T: HpackHeaderTrait>(
    headers: &[T],
    context: &mut SendContext,
    use_huffman_coding: bool,
) -> (r: Vec<u8>)
    requires
        old(context).wf(),
        headers_encodable(headers_view(headers@)),
        spec_pack(
            old(context).static_fields(),
            old(context).dynamic_fields(),
            old(context).dynamic_max_size() as int,
            old(context).pending_size_update(),
            headers_view(headers@),
            use_huffman_coding,
        ) is Some,
    ensures
        ({
            let res = spec_pack(
                old(context).static_fields(),
                old(context).dynamic_fields(),
                old(context).dynamic_max_size() as int,
                old(context).pending_size_update(),
                headers_view(headers@),
                use_huffman_coding,
            )->Some_0;
            &&& r@ == res.0
            &&& final(context).dynamic_fields() == res.1
            &&& final(context).dynamic_max_size() == res.2
        }),
        final(context).wf(),
        final(context).static_fields() == old(context).static_fields(),
        final(context).dynamic_max_size_setting() == old(context).dynamic_max_size_setting(),
        final(context).pending_size_update() is None,
{
    let ghost hs = headers_view(headers@);
    let ghost static_f = context.static_fields();
    let mut target: Vec<u8> = Vec::new();
    proof {
        context.lemma_wf();
    }
    if let Some(size_update) = context.get_size_update() {
        context.set_max_size(size_update as usize);
        push_number(&mut target, size_update, 5, flags::SIZE_UPDATE_FLAG);
    }
    let ghost prefix = target@;
    let ghost d0 = context.dynamic_fields();
    let ghost m = context.dynamic_max_size() as int;
    proof {
        assert(pack_all(static_f, d0, m, hs, use_huffman_coding) is Some);
        assert(hs.take(0) =~= Seq::<(Seq<char>, Seq<char>, bool)>::empty());
    }
    let mut i: usize = 0;
    while i < headers.len()
        invariant
            i <= headers.len(),
            hs == headers_view(headers@),
            headers_encodable(hs),
            context.wf(),
            context.static_fields() == static_f,
            context.dynamic_max_size() == m,
            context.dynamic_max_size_setting() == old(context).dynamic_max_size_setting(),
            context.pending_size_update() is None,
            pack_all(static_f, d0, m, hs, use_huffman_coding) is Some,
            pack_all(static_f, d0, m, hs.take(i as int), use_huffman_coding) == Some(
                (target@.skip(prefix.len() as int), context.dynamic_fields()),
            ),
            target@.take(prefix.len() as int) == prefix,
            prefix.len() <= target@.len(),
        decreases headers.len() - i,
    {
        let header = &headers[i];
        let name = header.get_name();
        let value = header.get_value();
        let allow = header.is_allow_compression();
        let field = Field { name, value };
        let ghost h = hs[i as int];
        let ghost before = target@;
        let ghost dyn_before = context.dynamic_fields();
        proof {
            assert(h == hview(headers@[i as int]));
            assert(fview(field) == (h.0, h.1));
            lemma_pack_all_prefix(static_f, d0, m, hs, use_huffman_coding, i + 1);
            let t = hs.take(i + 1);
            assert(t.drop_last() =~= hs.take(i as int));
            assert(t.last() == h);
            assert(text_bytes(h.0).len() <= 0x3fff_ffff && text_bytes(h.1).len() <= 0x3fff_ffff);
        }
        proof {
            reveal(pack_one);
        }
        if !allow || is_never_index_header(&field.name) {
            pack_field_never_indexed(&mut target, context, &field, use_huffman_coding);
        } else {
            pack_field_indexable(&mut target, context, field, use_huffman_coding);
        }
        proof {
            let more = target@.skip(before.len() as int);
            assert(target@ =~= before + more);
            assert(target@.skip(prefix.len() as int) =~= before.skip(prefix.len() as int) + more);
            assert(target@.take(prefix.len() as int) =~= before.take(prefix.len() as int));
            assert(pack_one(static_f, dyn_before, m, h, use_huffman_coding) == Some(
                (more, context.dynamic_fields()),
            ));
        }
        i = i + 1;
    }
    proof {
        assert(hs.take(i as int) =~= hs);
        assert(target@ =~= prefix + target@.skip(prefix.len() as int));
    }
    target
}

} // verus!
