//! HPACK indexing tables (RFC 7541, section 2.3): an ordered list of header
//! fields with a size limit, entries evicted from the end.

use vstd::prelude::*;
use std::collections::VecDeque;
use vstd::utf8::encode_utf8;

verus! {

/// A header field: a name and a value.
#[derive(Clone, Debug)]
pub struct Field {
    pub name: String,
    pub value: String,
}

/// A field as text: its name and its value.
pub open spec fn fview(field: Field) -> (Seq<char>, Seq<char>) {
    (field.name@, field.value@)
}

/// The length in octets of a text.
pub open spec fn text_octets(s: Seq<char>) -> usize {
    encode_utf8(s).len() as usize
}

/// The size an entry takes in the table: its name and value and 32 octets of
/// overhead (RFC 7541, section 4.1).
pub open spec fn field_size(field: (Seq<char>, Seq<char>)) -> int {
    text_octets(field.0) + text_octets(field.1) + 32
}

/// The size of a list of entries.
pub open spec fn fields_size(fields: Seq<(Seq<char>, Seq<char>)>) -> int
    decreases fields.len(),
{
    if fields.len() == 0 {
        0
    } else {
        fields_size(fields.drop_last()) + field_size(fields.last())
    }
}

/// The entries that remain when entries are evicted from the end until the
/// size is at most `limit`.
pub open spec fn evict(fields: Seq<(Seq<char>, Seq<char>)>, limit: int) -> Seq<(Seq<char>, Seq<char>)>
    decreases fields.len(),
{
    if fields.len() == 0 || fields_size(fields) <= limit {
        fields
    } else {
        evict(fields.drop_last(), limit)
    }
}

/// An indexing table.
pub struct Table {
    fields: VecDeque<Field>,
    /// Number of octets in `fields`
    size: usize,
    /// Maximum number of octets to store in `fields`
    max_size: usize,
    /// The maximum size that `max_size` may be set to
    max_size_setting: usize,
}

pub const DEFAULT_MAX_SIZE: usize = 51200;
pub const DEFAULT_MAX_SIZE_SETTING: usize = 512000;

impl View for Table {
    type V = Seq<(Seq<char>, Seq<char>)>;

    /// The entries as text, in table order.
    closed spec fn view(&self) -> Seq<(Seq<char>, Seq<char>)> {
        self.fields@.map_values(|f: Field| fview(f))
    }
}

pub proof fn lemma_fields_size_nonneg(fields: Seq<(Seq<char>, Seq<char>)>)
    ensures
        fields_size(fields) >= 0,
    decreases fields.len(),
{
    if fields.len() > 0 {
        lemma_fields_size_nonneg(fields.drop_last());
    }
}

/// The size of a list with an entry put in front is that entry's size more.
pub proof fn lemma_fields_size_prepend(field: (Seq<char>, Seq<char>), fields: Seq<(Seq<char>, Seq<char>)>)
    ensures
        fields_size(seq![field] + fields) == field_size(field) + fields_size(fields),
    decreases fields.len(),
{
    let all = seq![field] + fields;
    if fields.len() > 0 {
        lemma_fields_size_prepend(field, fields.drop_last());
        assert(all.drop_last() =~= seq![field] + fields.drop_last());
        assert(all.last() == fields.last());
        assert(fields_size(all) == fields_size(all.drop_last()) + field_size(all.last()));
        assert(fields_size(fields) == fields_size(fields.drop_last()) + field_size(fields.last()));
    } else {
        assert(all.drop_last() =~= Seq::<(Seq<char>, Seq<char>)>::empty());
        assert(all.last() == field);
        assert(fields_size(all) == fields_size(all.drop_last()) + field_size(all.last()));
        assert(fields_size(Seq::<(Seq<char>, Seq<char>)>::empty()) == 0);
    }
}

/// Eviction leaves a prefix of the entries whose size is within the limit.
pub proof fn lemma_evict(fields: Seq<(Seq<char>, Seq<char>)>, limit: int)
    requires
        limit >= 0,
    ensures
        fields_size(evict(fields, limit)) <= limit,
        evict(fields, limit).len() <= fields.len(),
        evict(fields, limit) == fields.take(evict(fields, limit).len() as int),
    decreases fields.len(),
{
    if fields.len() == 0 {
        assert(fields.take(0) =~= fields);
    } else if fields_size(fields) <= limit {
        assert(fields.take(fields.len() as int) =~= fields);
    } else {
        lemma_evict(fields.drop_last(), limit);
        let e = evict(fields, limit);
        assert(fields.drop_last().take(e.len() as int) =~= fields.take(e.len() as int));
    }
}

/// Eviction keeps exactly the longest run of newest entries whose size is
/// within the limit: the entries kept fit, and keeping one more would not.
pub proof fn lemma_evict_keeps_longest(fields: Seq<(Seq<char>, Seq<char>)>, limit: int)
    requires
        limit >= 0,
    ensures
        ({
            let k = evict(fields, limit).len() as int;
            &&& evict(fields, limit) == fields.take(k)
            &&& fields_size(fields.take(k)) <= limit
            &&& forall|j: int| k < j <= fields.len() ==> fields_size(#[trigger] fields.take(j)) > limit
        }),
    decreases fields.len(),
{
    lemma_evict(fields, limit);
    if fields.len() > 0 && fields_size(fields) > limit {
        let init = fields.drop_last();
        lemma_evict_keeps_longest(init, limit);
        let k = evict(fields, limit).len() as int;
        assert forall|j: int| k < j <= fields.len() implies fields_size(#[trigger] fields.take(j)) > limit by {
            if j < fields.len() {
                assert(init.take(j) =~= fields.take(j));
            } else {
                assert(fields.take(j) =~= fields);
            }
        }
    }
}

/// An octet with ASCII letters lowercased.
pub open spec fn ascii_lower(b: u8) -> u8 {
    if 65 <= b <= 90 {
        (b + 32) as u8
    } else {
        b
    }
}

/// Equality of octet strings ignoring ASCII case (as `eq_ignore_ascii_case`).
pub open spec fn eq_ignore_ascii_case(a: Seq<u8>, b: Seq<u8>) -> bool {
    &&& a.len() == b.len()
    &&& forall|i: int| 0 <= i < a.len() ==> #[trigger] ascii_lower(a[i]) == ascii_lower(b[i])
}

/// Whether an entry has the field's name, ignoring ASCII case.
pub open spec fn name_matches(entry: (Seq<char>, Seq<char>), field: (Seq<char>, Seq<char>)) -> bool {
    eq_ignore_ascii_case(encode_utf8(entry.0), encode_utf8(field.0))
}

/// Whether an entry has the field's name (ignoring ASCII case) and value.
pub open spec fn full_match(entry: (Seq<char>, Seq<char>), field: (Seq<char>, Seq<char>)) -> bool {
    name_matches(entry, field) && entry.1 == field.1
}

/// The index of the first entry that matches the field: by name and value
/// when `full`, by name otherwise.
pub open spec fn first_match(fields: Seq<(Seq<char>, Seq<char>)>, field: (Seq<char>, Seq<char>), full: bool) -> Option<int>
    decreases fields.len(),
{
    if fields.len() == 0 {
        None
    } else {
        match first_match(fields.drop_last(), field, full) {
            Some(i) => Some(i),
            None => if (if full {
                full_match(fields.last(), field)
            } else {
                name_matches(fields.last(), field)
            }) {
                Some(fields.len() - 1)
            } else {
                None
            },
        }
    }
}

/// The best match for a field in a list of entries, numbered from 1: the
/// first entry with its name and value, else the first with its name; the
/// flag says whether the value matches too.
pub open spec fn spec_find_field(fields: Seq<(Seq<char>, Seq<char>)>, field: (Seq<char>, Seq<char>)) -> Option<(int, bool)> {
    match first_match(fields, field, true) {
        Some(i) => Some((i + 1, true)),
        None => match first_match(fields, field, false) {
            Some(i) => Some((i + 1, false)),
            None => None,
        },
    }
}

pub proof fn lemma_first_match_bound(fields: Seq<(Seq<char>, Seq<char>)>, field: (Seq<char>, Seq<char>), full: bool)
    ensures
        first_match(fields, field, full) matches Some(i) ==> 0 <= i < fields.len(),
    decreases fields.len(),
{
    if fields.len() > 0 {
        lemma_first_match_bound(fields.drop_last(), field, full);
    }
}

/// Equality of octet strings ignoring ASCII case.
pub fn bytes_eq_ignore_ascii_case(a: &[u8], b: &[u8]) -> (r: bool)
    ensures
        r == eq_ignore_ascii_case(a@, b@),
{
    if a.len() != b.len() {
        return false;
    }
    let mut k: usize = 0;
    while k < a.len()
        invariant
            a.len() == b.len(),
            k <= a.len(),
            forall|i: int| 0 <= i < k ==> #[trigger] ascii_lower(a@[i]) == ascii_lower(b@[i]),
        decreases a.len() - k,
    {
        let x = a[k];
        let y = b[k];
        let lx: u8 = if 65 <= x && x <= 90 { x + 32 } else { x };
        let ly: u8 = if 65 <= y && y <= 90 { y + 32 } else { y };
        if lx != ly {
            assert(ascii_lower(a@[k as int]) != ascii_lower(b@[k as int]));
            return false;
        }
        k = k + 1;
    }
    true
}

/// A full match at position `i`, after none before it, is the first full
/// match of the whole list.
proof fn lemma_take_first_match(fields: Seq<(Seq<char>, Seq<char>)>, field: (Seq<char>, Seq<char>), i: int)
    requires
        0 <= i < fields.len(),
        first_match(fields.take(i), field, true) is None,
        full_match(fields[i], field),
    ensures
        first_match(fields, field, true) == Some(i),
    decreases fields.len(),
{
    let t = fields.take(i + 1);
    assert(t.drop_last() =~= fields.take(i));
    if i + 1 < fields.len() {
        lemma_first_match_prefix(fields, field, true, i + 1);
    } else {
        assert(t =~= fields);
    }
}

/// A match within a prefix is the first match of the whole list.
pub proof fn lemma_first_match_prefix(fields: Seq<(Seq<char>, Seq<char>)>, field: (Seq<char>, Seq<char>), full: bool, k: int)
    requires
        0 <= k <= fields.len(),
        first_match(fields.take(k), field, full) is Some,
    ensures
        first_match(fields, field, full) == first_match(fields.take(k), field, full),
    decreases fields.len() - k,
{
    if k < fields.len() {
        let t = fields.take(k + 1);
        assert(t.drop_last() =~= fields.take(k));
        lemma_first_match_prefix(fields, field, full, k + 1);
    } else {
        assert(fields.take(k) =~= fields);
    }
}

impl Table {
    pub closed spec fn spec_size(&self) -> nat {
        self.size as nat
    }

    pub closed spec fn spec_max_size(&self) -> nat {
        self.max_size as nat
    }

    pub closed spec fn spec_max_size_setting(&self) -> nat {
        self.max_size_setting as nat
    }

    /// The table's bookkeeping is consistent: its size is the size of its
    /// entries, within the maximum, which is within the maximum setting.
    pub open spec fn wf(&self) -> bool {
        &&& self.spec_size() == fields_size(self@)
        &&& self.spec_size() <= self.spec_max_size()
        &&& self.spec_max_size() <= self.spec_max_size_setting()
        &&& self.spec_max_size_setting() == DEFAULT_MAX_SIZE_SETTING
    }

    pub fn new() -> (r: Self)
        ensures
            r@ == Seq::<(Seq<char>, Seq<char>)>::empty(),
            r.spec_size() == 0,
            r.spec_max_size() == DEFAULT_MAX_SIZE,
            r.spec_max_size_setting() == DEFAULT_MAX_SIZE_SETTING,
            r.wf(),
    {
        Table {
            fields: VecDeque::new(),
            size: 0,
            max_size: DEFAULT_MAX_SIZE,
            max_size_setting: DEFAULT_MAX_SIZE_SETTING,
        }
    }

    /// The size of a field's entry, computed from the strings' lengths.
    fn entry_size(field: &Field) -> (r: usize)
        requires
            field_size(fview(*field)) <= usize::MAX,
        ensures
            r == field_size(fview(*field)),
    {
        field.name.as_str().len() + field.value.as_str().len() + 32
    }

    /// Adds a field at the front of the table, first evicting entries from
    /// the end until it fits. A field larger than the maximum size cannot be
    /// stored.
    pub fn push_front(&mut self, field: Field)
        requires
            old(self).wf(),
            field_size(fview(field)) <= old(self).spec_max_size(),
        ensures
            final(self).wf(),
            final(self).spec_size() <= final(self).spec_max_size(),
            final(self)@ == seq![fview(field)] + evict(
                old(self)@,
                old(self).spec_max_size() - field_size(fview(field)),
            ),
            final(self).spec_max_size() == old(self).spec_max_size(),
            final(self).spec_max_size_setting() == old(self).spec_max_size_setting(),
    {
        let storage_size_required = Self::entry_size(&field);
        let max_actual_size = self.max_size - storage_size_required;
        self.ensure_max_size(max_actual_size);
        let ghost before = self@;
        let ghost fv = fview(field);
        self.fields.push_front(field);
        proof {
            lemma_fields_size_prepend(fv, before);
            assert(self@ =~= seq![fv] + before);
        }
        self.size = self.size + storage_size_required;
    }

    /// Appends a field at the end of the table without any size accounting.
    /// This is only for building the static table, in order.
    pub fn push_back(&mut self, field: Field)
        ensures
            final(self)@ == old(self)@.push(fview(field)),
            final(self).spec_size() == old(self).spec_size(),
            final(self).spec_max_size() == old(self).spec_max_size(),
            final(self).spec_max_size_setting() == old(self).spec_max_size_setting(),
    {
        let ghost fv = fview(field);
        self.fields.push_back(field);
        assert(self@ =~= old(self)@.push(fv));
    }

    /// The entry at a 0-based index.
    pub fn get(&self, index: usize) -> (r: Option<&Field>)
        ensures
            r is Some <==> index < self@.len(),
            r matches Some(f) ==> fview(*f) == self@[index as int],
    {
        if index < self.fields.len() {
            Some(&self.fields[index])
        } else {
            None
        }
    }

    pub fn len(&self) -> (r: usize)
        ensures
            r == self@.len(),
    {
        self.fields.len()
    }

    /// The maximum size.
    pub fn max_size_exec(&self) -> (r: usize)
        ensures
            r == self.spec_max_size(),
    {
        self.max_size
    }

    pub fn get_size(&self) -> (r: usize)
        ensures
            r == self.spec_size(),
    {
        self.size
    }

    /// Finds the best match for a field: the lowest-numbered entry (from 1)
    /// with the field's name (ignoring ASCII case) and value, else the
    /// lowest-numbered entry with its name. The flag says whether the value
    /// matches too.
    pub fn find_field(&self, field: &Field) -> (r: Option<(usize, bool)>)
        ensures
            r matches Some(x) ==> spec_find_field(self@, fview(*field)) == Some((x.0 as int, x.1)),
            r is None ==> spec_find_field(self@, fview(*field)) is None,
    {
        let ghost fv = fview(*field);
        let name = field.name.as_str().as_bytes();
        let mut name_only: Option<usize> = None;
        let mut i: usize = 0;
        while i < self.fields.len()
            invariant
                i <= self@.len(),
                fv == fview(*field),
                name@ == encode_utf8(field.name@),
                first_match(self@.take(i as int), fv, true) is None,
                name_only matches Some(j) ==> first_match(self@.take(i as int), fv, false)
                    == Some(j as int),
                name_only is None ==> first_match(self@.take(i as int), fv, false) is None,
            decreases self@.len() - i,
        {
            let entry = &self.fields[i];
            let names_equal = bytes_eq_ignore_ascii_case(entry.name.as_str().as_bytes(), name);
            proof {
                let t = self@.take(i + 1);
                assert(t.drop_last() =~= self@.take(i as int));
                assert(t.last() == self@[i as int]);
                assert(self@[i as int] == fview(*entry));
                lemma_first_match_bound(self@.take(i as int), fv, false);
            }
            if names_equal {
                if entry.value == field.value {
                    proof {
                        lemma_take_first_match(self@, fv, i as int);
                    }
                    return Some((i + 1, true));
                }
                if name_only.is_none() {
                    name_only = Some(i);
                }
            }
            i = i + 1;
        }
        proof {
            assert(self@.take(i as int) =~= self@);
            lemma_first_match_bound(self@, fv, false);
        }
        match name_only {
            Some(j) => Some((j + 1, false)),
            None => None,
        }
    }

    /// Sets the maximum size, evicting entries from the end until the table
    /// fits.
    pub fn set_max_size(&mut self, max_size: usize)
        requires
            old(self).wf(),
            max_size <= old(self).spec_max_size_setting(),
        ensures
            final(self).wf(),
            final(self)@ == evict(old(self)@, max_size as int),
            final(self).spec_size() <= max_size,
            final(self).spec_max_size() == max_size,
            final(self).spec_max_size_setting() == old(self).spec_max_size_setting(),
    {
        self.max_size = max_size;
        self.ensure_max_size(max_size);
    }

    fn ensure_max_size(&mut self, max_size: usize)
        requires
            old(self).spec_size() == fields_size(old(self)@),
        ensures
            final(self)@ == evict(old(self)@, max_size as int),
            final(self).spec_size() == fields_size(final(self)@),
            final(self).spec_size() <= max_size,
            final(self).spec_max_size() == old(self).spec_max_size(),
            final(self).spec_max_size_setting() == old(self).spec_max_size_setting(),
    {
        let ghost start = self@;
        while self.size > max_size
            invariant
                self.size == fields_size(self@),
                evict(start, max_size as int) == evict(self@, max_size as int),
                self.max_size == old(self).max_size,
                self.max_size_setting == old(self).max_size_setting,
            decreases self@.len(),
        {
            let ghost before = self@;
            proof {
                if before.len() == 0 {
                    assert(fields_size(before) == 0);
                }
                lemma_fields_size_nonneg(before.drop_last());
            }
            let popped = self.fields.pop_back().unwrap();
            proof {
                assert(self@ =~= before.drop_last());
                assert(fview(popped) == before.last());
            }
            let s = Self::entry_size(&popped);
            self.size = self.size - s;
        }
    }
}

} // verus!
