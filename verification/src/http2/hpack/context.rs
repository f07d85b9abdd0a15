//! HPACK contexts (RFC 7541, section 2.2): the static table and a dynamic
//! table, addressed as one index space (section 2.3.3).

use vstd::prelude::*;
use super::table::{self, Field, Table, field_size, fields_size, spec_find_field, evict, fview};
use super::STATIC_TABLE_LENGTH;

verus! {

/// The entry at a 1-based index of the single address space: the static
/// table's entries, then the dynamic table's.
pub open spec fn address_get(static_fields: Seq<(Seq<char>, Seq<char>)>, dynamic_fields: Seq<(Seq<char>, Seq<char>)>, index: int) -> Option<(Seq<char>, Seq<char>)> {
    let t = index - 1;
    if 0 <= t < static_fields.len() {
        Some(static_fields[t])
    } else if 0 <= t - static_fields.len() < dynamic_fields.len() {
        Some(dynamic_fields[t - static_fields.len()])
    } else {
        None
    }
}

/// The best match for a field in a context: a full match in the static
/// table, else a full match in the dynamic table, else a name match in the
/// static table, else a name match in the dynamic table. Dynamic entries are
/// numbered after the static table's length.
pub open spec fn context_find(static_fields: Seq<(Seq<char>, Seq<char>)>, dynamic_fields: Seq<(Seq<char>, Seq<char>)>, field: (Seq<char>, Seq<char>)) -> Option<(int, bool)> {
    let s = spec_find_field(static_fields, field);
    let d = spec_find_field(dynamic_fields, field);
    match s {
        Some((_, true)) => s,
        _ => match d {
            Some((i, true)) => Some((i + STATIC_TABLE_LENGTH, true)),
            _ => if s is Some {
                s
            } else {
                match d {
                    Some((i, w)) => Some((i + STATIC_TABLE_LENGTH, w)),
                    None => None,
                }
            },
        },
    }
}

/// An entry takes at least 32 octets, so a table within a size holds at
/// most that size over 32 entries.
pub proof fn lemma_fields_len_bound(fields: Seq<(Seq<char>, Seq<char>)>)
    ensures
        32 * fields.len() <= fields_size(fields),
    decreases fields.len(),
{
    if fields.len() > 0 {
        lemma_fields_len_bound(fields.drop_last());
    }
}

/// Operations on the single address space of a context.
pub trait ContextTrait<'a>: Sized {
    /// The static table's entries.
    spec fn static_fields(&self) -> Seq<(Seq<char>, Seq<char>)>;

    /// The dynamic table's entries.
    spec fn dynamic_fields(&self) -> Seq<(Seq<char>, Seq<char>)>;

    /// The dynamic table's size.
    spec fn dynamic_size(&self) -> nat;

    /// The dynamic table's maximum size.
    spec fn dynamic_max_size(&self) -> nat;

    /// The limit on the dynamic table's maximum size.
    spec fn dynamic_max_size_setting(&self) -> nat;

    /// The dynamic table's bookkeeping is consistent.
    spec fn wf(&self) -> bool;

    /// A consistent context's dynamic table is within its maximum size,
    /// whose limit is the default setting.
    proof fn lemma_wf(&self)
        requires
            self.wf(),
        ensures
            self.dynamic_size() == fields_size(self.dynamic_fields()),
            self.dynamic_size() <= self.dynamic_max_size(),
            self.dynamic_max_size() <= self.dynamic_max_size_setting(),
            self.dynamic_max_size_setting() == table::DEFAULT_MAX_SIZE_SETTING,
    ;

    /// A context with the given static table and an empty dynamic table.
    fn new(static_table: &'a Table) -> (r: Self)
        ensures
            r.static_fields() == static_table@,
            r.dynamic_fields() == Seq::<(Seq<char>, Seq<char>)>::empty(),
            r.dynamic_size() == 0,
            r.dynamic_max_size() == table::DEFAULT_MAX_SIZE,
            r.dynamic_max_size_setting() == table::DEFAULT_MAX_SIZE_SETTING,
            r.wf(),
    ;

    /// Inserts a field at the front of the dynamic table, evicting entries
    /// from its end to make room.
    fn insert(&mut self, field: Field)
        requires
            old(self).wf(),
            field_size(fview(field)) <= old(self).dynamic_max_size(),
        ensures
            final(self).wf(),
            final(self).static_fields() == old(self).static_fields(),
            final(self).dynamic_fields() == seq![fview(field)] + evict(
                old(self).dynamic_fields(),
                old(self).dynamic_max_size() - field_size(fview(field)),
            ),
            final(self).dynamic_max_size() == old(self).dynamic_max_size(),
            final(self).dynamic_max_size_setting() == old(self).dynamic_max_size_setting(),
    ;

    /// The entry at an index of the single address space, from 1.
    fn get(&self, index: usize) -> (r: Option<&Field>)
        requires
            1 <= index,
        ensures
            r matches Some(f) ==> address_get(self.static_fields(), self.dynamic_fields(), index as int) == Some(fview(*f)),
            r is None ==> address_get(self.static_fields(), self.dynamic_fields(), index as int) is None,
    ;

    /// The best match for a field, numbered in the single address space.
    fn find_field(&self, field: &Field) -> (r: Option<(usize, bool)>)
        requires
            self.wf(),
        ensures
            r matches Some(x) ==> context_find(self.static_fields(), self.dynamic_fields(), fview(*field)) == Some((x.0 as int, x.1)),
            r is None ==> context_find(self.static_fields(), self.dynamic_fields(), fview(*field)) is None,
    ;

    /// The size of the dynamic table.
    fn size(&self) -> (r: usize)
        ensures
            r == self.dynamic_size(),
    ;

    /// Sets the dynamic table's maximum size, evicting entries from its end.
    fn set_max_size(&mut self, max_size: usize)
        requires
            old(self).wf(),
            max_size <= old(self).dynamic_max_size_setting(),
        ensures
            final(self).wf(),
            final(self).static_fields() == old(self).static_fields(),
            final(self).dynamic_fields() == evict(old(self).dynamic_fields(), max_size as int),
            final(self).dynamic_max_size() == max_size,
            final(self).dynamic_max_size_setting() == old(self).dynamic_max_size_setting(),
    ;
}

/// A context: a shared static table and a dynamic table of its own.
pub struct Context<'a> {
    static_table: &'a Table,
    dynamic_table: Table,
}

impl<'a> ContextTrait<'a> for Context<'a> {
    closed spec fn static_fields(&self) -> Seq<(Seq<char>, Seq<char>)> {
        self.static_table@
    }

    closed spec fn dynamic_fields(&self) -> Seq<(Seq<char>, Seq<char>)> {
        self.dynamic_table@
    }

    closed spec fn dynamic_size(&self) -> nat {
        self.dynamic_table.spec_size()
    }

    closed spec fn dynamic_max_size(&self) -> nat {
        self.dynamic_table.spec_max_size()
    }

    closed spec fn dynamic_max_size_setting(&self) -> nat {
        self.dynamic_table.spec_max_size_setting()
    }

    closed spec fn wf(&self) -> bool {
        self.dynamic_table.wf()
    }

    proof fn lemma_wf(&self) {
    }

    fn new(static_table: &'a Table) -> (r: Self) {
        Context { static_table, dynamic_table: Table::new() }
    }

    fn insert(&mut self, field: Field) {
        self.dynamic_table.push_front(field);
    }

    fn get(&self, index: usize) -> (r: Option<&Field>) {
        let table_index = index - 1;
        if table_index < self.static_table.len() {
            self.static_table.get(table_index)
        } else {
            self.dynamic_table.get(table_index - self.static_table.len())
        }
    }

    fn find_field(&self, field: &Field) -> (r: Option<(usize, bool)>) {
        proof {
            lemma_fields_len_bound(self.dynamic_table@);
        }
        let opt_static_index = self.static_table.find_field(field);
        if let Some((_, true)) = opt_static_index {
            return opt_static_index;
        }
        let opt_dynamic_index = self.dynamic_table.find_field(field);
        proof {
            lemma_find_field_bound(self.dynamic_table@, fview(*field));
            assert(self.dynamic_table@.len() <= 16000);
        }
        if let Some((index, true)) = opt_dynamic_index {
            Some((index + STATIC_TABLE_LENGTH, true))
        } else if opt_static_index.is_some() {
            opt_static_index
        } else if let Some((index, with_value)) = opt_dynamic_index {
            Some((index + STATIC_TABLE_LENGTH, with_value))
        } else {
            None
        }
    }

    fn size(&self) -> (r: usize) {
        self.dynamic_table.get_size()
    }

    fn set_max_size(&mut self, max_size: usize) {
        self.dynamic_table.set_max_size(max_size);
    }
}

/// A match found in a list is numbered within its length.
proof fn lemma_find_field_bound(fields: Seq<(Seq<char>, Seq<char>)>, field: (Seq<char>, Seq<char>))
    ensures
        spec_find_field(fields, field) matches Some((i, _)) ==> 1 <= i <= fields.len(),
{
    table::lemma_first_match_bound(fields, field, true);
    table::lemma_first_match_bound(fields, field, false);
}

/// The context of an encoder, which also tracks a pending change of the
/// dynamic table size to signal to the decoder.
pub struct SendContext<'a> {
    inner: Context<'a>,
    send_size_update: bool,
    size_update: u32,
}

impl<'a> SendContext<'a> {
    /// Whether a size update is waiting to be signalled, and its value.
    pub closed spec fn pending_size_update(&self) -> Option<u32> {
        if self.send_size_update {
            Some(self.size_update)
        } else {
            None
        }
    }

    /// Informs the context of a change to SETTINGS_HEADER_TABLE_SIZE
    /// (RFC 7540, section 6.5.2): the new size is to be signalled.
    pub fn inform_max_size_setting_changed(&mut self, max_size_setting: u32)
        ensures
            final(self).pending_size_update() == Some(max_size_setting),
            final(self).static_fields() == old(self).static_fields(),
            final(self).dynamic_fields() == old(self).dynamic_fields(),
            final(self).dynamic_size() == old(self).dynamic_size(),
            final(self).dynamic_max_size() == old(self).dynamic_max_size(),
            final(self).dynamic_max_size_setting() == old(self).dynamic_max_size_setting(),
            final(self).wf() == old(self).wf(),
    {
        self.size_update = max_size_setting;
        self.send_size_update = true;
    }

    /// Takes the pending size update, if any; it is then no longer pending.
    /// The table size the next header block is encoded under: a pending
    /// size update, else the dynamic table's maximum size.
    pub fn next_block_max_size(&self) -> (r: usize)
        ensures
            r == match self.pending_size_update() {
                Some(u) => u as int,
                None => self.dynamic_max_size() as int,
            },
    {
        if self.send_size_update {
            self.size_update as usize
        } else {
            self.inner.dynamic_table.max_size_exec()
        }
    }

    /// Whether a pending size update is within the limit the setting allows.
    pub fn size_update_in_limit(&self) -> (r: bool)
        ensures
            r == (self.pending_size_update() matches Some(u) ==> u <= super::table::DEFAULT_MAX_SIZE_SETTING),
    {
        !self.send_size_update || self.size_update as usize <= super::table::DEFAULT_MAX_SIZE_SETTING
    }

    pub fn get_size_update(&mut self) -> (r: Option<u32>)
        ensures
            r == old(self).pending_size_update(),
            final(self).pending_size_update() is None,
            final(self).static_fields() == old(self).static_fields(),
            final(self).dynamic_fields() == old(self).dynamic_fields(),
            final(self).dynamic_size() == old(self).dynamic_size(),
            final(self).dynamic_max_size() == old(self).dynamic_max_size(),
            final(self).dynamic_max_size_setting() == old(self).dynamic_max_size_setting(),
            final(self).wf() == old(self).wf(),
    {
        if self.send_size_update {
            self.send_size_update = false;
            return Some(self.size_update);
        }
        None
    }
}

impl<'a> ContextTrait<'a> for SendContext<'a> {
    closed spec fn static_fields(&self) -> Seq<(Seq<char>, Seq<char>)> {
        self.inner.static_fields()
    }

    closed spec fn dynamic_fields(&self) -> Seq<(Seq<char>, Seq<char>)> {
        self.inner.dynamic_fields()
    }

    closed spec fn dynamic_size(&self) -> nat {
        self.inner.dynamic_size()
    }

    closed spec fn dynamic_max_size(&self) -> nat {
        self.inner.dynamic_max_size()
    }

    closed spec fn dynamic_max_size_setting(&self) -> nat {
        self.inner.dynamic_max_size_setting()
    }

    closed spec fn wf(&self) -> bool {
        self.inner.wf()
    }

    proof fn lemma_wf(&self) {
        self.inner.lemma_wf();
    }

    fn new(static_table: &'a Table) -> (r: Self)
        ensures
            r.pending_size_update() is None,
    {
        SendContext { inner: Context::new(static_table), send_size_update: false, size_update: 0 }
    }

    fn insert(&mut self, field: Field)
        ensures
            final(self).pending_size_update() == old(self).pending_size_update(),
    {
        self.inner.insert(field)
    }

    fn get(&self, index: usize) -> (r: Option<&Field>) {
        self.inner.get(index)
    }

    fn find_field(&self, field: &Field) -> (r: Option<(usize, bool)>) {
        self.inner.find_field(field)
    }

    fn size(&self) -> (r: usize) {
        self.inner.size()
    }

    fn set_max_size(&mut self, max_size: usize)
        ensures
            final(self).pending_size_update() == old(self).pending_size_update(),
    {
        self.inner.set_max_size(max_size);
    }
}

/// The context of a decoder.
pub struct RecvContext<'a> {
    inner: Context<'a>,
}

impl<'a> RecvContext<'a> {
    /// The dynamic table's maximum size.
    pub fn dynamic_max_size_exec(&self) -> (r: usize)
        ensures
            r == self.dynamic_max_size(),
    {
        self.inner.dynamic_table.max_size_exec()
    }
}

impl<'a> ContextTrait<'a> for RecvContext<'a> {
    closed spec fn static_fields(&self) -> Seq<(Seq<char>, Seq<char>)> {
        self.inner.static_fields()
    }

    closed spec fn dynamic_fields(&self) -> Seq<(Seq<char>, Seq<char>)> {
        self.inner.dynamic_fields()
    }

    closed spec fn dynamic_size(&self) -> nat {
        self.inner.dynamic_size()
    }

    closed spec fn dynamic_max_size(&self) -> nat {
        self.inner.dynamic_max_size()
    }

    closed spec fn dynamic_max_size_setting(&self) -> nat {
        self.inner.dynamic_max_size_setting()
    }

    closed spec fn wf(&self) -> bool {
        self.inner.wf()
    }

    proof fn lemma_wf(&self) {
        self.inner.lemma_wf();
    }

    fn new(static_table: &'a Table) -> (r: Self) {
        RecvContext { inner: Context::new(static_table) }
    }

    fn insert(&mut self, field: Field) {
        self.inner.insert(field)
    }

    fn get(&self, index: usize) -> (r: Option<&Field>) {
        self.inner.get(index)
    }

    fn find_field(&self, field: &Field) -> (r: Option<(usize, bool)>) {
        self.inner.find_field(field)
    }

    fn size(&self) -> (r: usize) {
        self.inner.size()
    }

    fn set_max_size(&mut self, max_size: usize) {
        self.inner.set_max_size(max_size);
    }
}

} // verus!
