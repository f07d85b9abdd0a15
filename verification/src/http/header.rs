//! HTTP/1 header fields.

use vstd::prelude::*;
use vstd::string::StringExecFns;

verus! {

/// Header names: the one the HTTP/1 server knows, or any other by its text.
#[derive(Debug, Clone)]
pub enum HeaderName {
    ContentLength,
    CustomHeader(String),
}

/// A header value: text or a number.
#[derive(Debug)]
pub enum HeaderValue {
    Str(String),
    Num(i32),
}

/// Header fields keyed by name; adding a name that is present replaces its
/// value.
#[derive(Debug)]
pub struct Headers {
    headers: Vec<(String, HeaderValue)>,
}

/// The map of the entries: a later entry for a name overrides an earlier one.
pub open spec fn entries_map(entries: Seq<(String, HeaderValue)>) -> Map<Seq<char>, HeaderValue>
    decreases entries.len(),
{
    if entries.len() == 0 {
        Map::empty()
    } else {
        entries_map(entries.drop_last()).insert(entries.last().0@, entries.last().1)
    }
}

/// The entries without those for `key`.
pub open spec fn without_key(entries: Seq<(String, HeaderValue)>, key: Seq<char>) -> Seq<
    (String, HeaderValue),
> {
    entries.filter(not_key(key))
}

/// Whether an entry is for another name than `key`.
pub open spec fn not_key(key: Seq<char>) -> spec_fn((String, HeaderValue)) -> bool {
    |e: (String, HeaderValue)| e.0@ != key
}

proof fn lemma_filter_push(
    s: Seq<(String, HeaderValue)>,
    p: spec_fn((String, HeaderValue)) -> bool,
    x: (String, HeaderValue),
)
    ensures
        s.push(x).filter(p) == if p(x) {
            s.filter(p).push(x)
        } else {
            s.filter(p)
        },
{
    reveal(Seq::filter);
    assert(s.push(x).drop_last() =~= s);
}

proof fn lemma_without_key(entries: Seq<(String, HeaderValue)>, key: Seq<char>)
    ensures
        entries_map(without_key(entries, key)) == entries_map(entries).remove(key),
    decreases entries.len(),
{
    let f = not_key(key);
    if entries.len() == 0 {
        assert(entries_map(entries).remove(key) =~= Map::empty());
        assert(without_key(entries, key) =~= Seq::<(String, HeaderValue)>::empty());
    } else {
        let init = entries.drop_last();
        let last = entries.last();
        lemma_without_key(init, key);
        assert(entries =~= init.push(last));
        lemma_filter_push(init, f, last);
        if last.0@ == key {
            assert(without_key(entries, key) == without_key(init, key));
            assert(entries_map(entries).remove(key) =~= entries_map(init).remove(key));
        } else {
            assert(without_key(entries, key) == without_key(init, key).push(last));
            assert(without_key(init, key).push(last).drop_last() =~= without_key(init, key));
            assert(entries_map(entries).remove(key) =~= entries_map(init).remove(key).insert(
                last.0@,
                last.1,
            ));
        }
    }
}

impl View for Headers {
    type V = Map<Seq<char>, HeaderValue>;

    closed spec fn view(&self) -> Map<Seq<char>, HeaderValue> {
        entries_map(self.headers@)
    }
}

/// The text of a header name.
pub open spec fn header_name_text(name: HeaderName) -> Seq<char> {
    match name {
        HeaderName::ContentLength => "Content-Length"@,
        HeaderName::CustomHeader(name) => name@,
    }
}

/// What a header value holds: text or a number.
pub enum HeaderValueView {
    Str(Seq<char>),
    Num(i32),
}

/// The view of a header value.
pub open spec fn value_view(value: HeaderValue) -> HeaderValueView {
    match value {
        HeaderValue::Str(s) => HeaderValueView::Str(s@),
        HeaderValue::Num(n) => HeaderValueView::Num(n),
    }
}

/// The view of header fields: each name with the view of its value.
pub open spec fn header_views(headers: Map<Seq<char>, HeaderValue>) -> Map<Seq<char>, HeaderValueView> {
    headers.map_values(|v: HeaderValue| value_view(v))
}

/// Whether no two entries have the same name.
pub open spec fn distinct_names(entries: Seq<(String, HeaderValue)>) -> bool {
    forall|i: int, j: int| 0 <= i < j < entries.len() ==> (#[trigger] entries[i]).0@ != (#[trigger] entries[j]).0@
}

/// Entries with distinct names are exactly their fields: each entry's name
/// has that entry's value, and every name with a value is an entry's. So
/// writing the entries writes one line per field, none twice.
pub proof fn lemma_distinct_entries_are_the_fields(entries: Seq<(String, HeaderValue)>)
    requires
        distinct_names(entries),
    ensures
        forall|i: int|
            0 <= i < entries.len() ==> entries_map(entries).contains_key((#[trigger] entries[i]).0@)
                && entries_map(entries)[entries[i].0@] == entries[i].1,
        forall|key: Seq<char>|
            #[trigger] entries_map(entries).contains_key(key) ==> exists|i: int|
                0 <= i < entries.len() && (#[trigger] entries[i]).0@ == key,
    decreases entries.len(),
{
    if entries.len() > 0 {
        let init = entries.drop_last();
        assert(distinct_names(init)) by {
            assert forall|i: int, j: int| 0 <= i < j < init.len() implies (#[trigger] init[i]).0@
                != (#[trigger] init[j]).0@ by {
                assert(init[i] == entries[i] && init[j] == entries[j]);
            }
        }
        lemma_distinct_entries_are_the_fields(init);
        let last = entries.last();
        assert forall|i: int| 0 <= i < entries.len() implies entries_map(entries).contains_key(
            (#[trigger] entries[i]).0@,
        ) && entries_map(entries)[entries[i].0@] == entries[i].1 by {
            if i < entries.len() - 1 {
                assert(entries[i] == init[i]);
                assert(entries[i].0@ != last.0@);
            }
        }
        assert forall|key: Seq<char>| #[trigger] entries_map(entries).contains_key(key) implies exists|i: int|
            0 <= i < entries.len() && (#[trigger] entries[i]).0@ == key by {
            if key == last.0@ {
                assert(entries[entries.len() - 1].0@ == key);
            } else {
                assert(entries_map(init).contains_key(key));
                let i = choose|i: int| 0 <= i < init.len() && (#[trigger] init[i]).0@ == key;
                assert(entries[i] == init[i]);
            }
        }
    }
}

impl Headers {
    /// No name has two entries.
    #[verifier::type_invariant]
    closed spec fn one_entry_per_name(&self) -> bool {
        distinct_names(self.headers@)
    }

    /// The entries, in the order their names were last set.
    pub closed spec fn entries(&self) -> Seq<(String, HeaderValue)> {
        self.headers@
    }

    /// The fields are those of the entries, a later entry for a name
    /// overriding an earlier one; no name has two entries.
    pub proof fn lemma_entries(&self)
        ensures
            self@ == entries_map(self.entries()),
    {
    }

    /// The entries, in the order their names were last set.
    pub fn entries_slice(&self) -> (r: &[(String, HeaderValue)])
        ensures
            r@ == self.entries(),
            distinct_names(r@),
    {
        proof {
            use_type_invariant(self);
        }
        self.headers.as_slice()
    }

    pub fn new() -> (r: Self)
        ensures
            r@ == Map::<Seq<char>, HeaderValue>::empty(),
    {
        Headers { headers: Vec::new() }
    }

    /// Sets the value of a header, replacing any value it had.
    pub fn add(&mut self, name: HeaderName, value: HeaderValue)
        ensures
            final(self)@ == old(self)@.insert(header_name_text(name), value),
            distinct_names(final(self).entries()),
            final(self).entries().last() == (final(self).entries().last().0, value),
            final(self).entries().last().0@ == header_name_text(name),
    {
        proof {
            use_type_invariant(&*self);
        }
        let mut entries: Vec<(String, HeaderValue)> = Vec::new();
        std::mem::swap(&mut entries, &mut self.headers);
        let key = String::from(name);
        let ghost k = key@;
        let ghost orig = entries@;
        let ghost f = not_key(k);
        let mut i: usize = 0;
        let ghost mut j: int = 0;
        assert(orig.take(0) =~= Seq::<(String, HeaderValue)>::empty());
        assert(without_key(orig.take(0), k) =~= Seq::<(String, HeaderValue)>::empty());
        while i < entries.len()
            invariant
                0 <= j <= orig.len(),
                i <= entries.len(),
                k == key@,
                f == not_key(k),
                entries@.take(i as int) == without_key(orig.take(j), k),
                entries@.skip(i as int) == orig.skip(j),
                distinct_names(entries@),
                forall|t: int| 0 <= t < i ==> (#[trigger] entries@[t]).0@ != k,
            decreases entries.len() - i,
        {
            proof {
                assert(entries@.skip(i as int).len() == orig.skip(j).len());
                assert(j < orig.len());
                assert(entries@[i as int] == orig[j]) by {
                    assert(entries@.skip(i as int)[0] == orig.skip(j)[0]);
                }
                assert(orig.take(j + 1) =~= orig.take(j).push(orig[j]));
                lemma_filter_push(orig.take(j), f, orig[j]);
            }
            if entries[i].0 == key {
                let ghost before = entries@;
                let _removed = entries.remove(i);
                proof {
                    assert forall|a: int, b: int| 0 <= a < b < entries@.len() implies (
                    #[trigger] entries@[a]).0@ != (#[trigger] entries@[b]).0@ by {
                        let a2 = if a < i { a } else { a + 1 };
                        let b2 = if b < i { b } else { b + 1 };
                        assert(entries@[a] == before[a2]);
                        assert(entries@[b] == before[b2]);
                    }
                    assert forall|t: int| 0 <= t < i implies (#[trigger] entries@[t]).0@ != k by {
                        assert(entries@[t] == before[t]);
                    }
                    assert(entries@.take(i as int) =~= before.take(i as int));
                    assert(entries@.skip(i as int) =~= before.skip(i as int).drop_first());
                    assert(orig.skip(j + 1) =~= orig.skip(j).drop_first());
                    j = j + 1;
                }
            } else {
                proof {
                    assert(entries@.take(i + 1) =~= entries@.take(i as int).push(
                        entries@[i as int],
                    ));
                    assert(entries@.skip(i + 1) =~= entries@.skip(i as int).drop_first());
                    assert(orig.skip(j + 1) =~= orig.skip(j).drop_first());
                    j = j + 1;
                }
                i = i + 1;
            }
        }
        proof {
            assert(entries@.skip(i as int).len() == 0);
            assert(j == orig.len());
            assert(orig.take(j) =~= orig);
            assert(entries@.take(i as int) =~= entries@);
            lemma_without_key(orig, k);
        }
        let ghost filtered = entries@;
        proof {
            assert forall|t: int| 0 <= t < filtered.len() implies (#[trigger] filtered[t]).0@ != k by {}
        }
        entries.push((key, value));
        proof {
            assert forall|a: int, b: int| 0 <= a < b < entries@.len() implies (
            #[trigger] entries@[a]).0@ != (#[trigger] entries@[b]).0@ by {
                assert(entries@[a] == filtered[a]);
                if b < filtered.len() {
                    assert(entries@[b] == filtered[b]);
                }
            }
        }
        proof {
            assert(entries@.drop_last() =~= filtered);
            assert(entries_map(entries@) =~= entries_map(orig).remove(k).insert(k, value));
            assert(entries_map(orig).remove(k).insert(k, value) =~= entries_map(orig).insert(
                k,
                value,
            ));
        }
        self.headers = entries;
    }
}

impl From<HeaderName> for String {
    fn from(name: HeaderName) -> (r: String)
        ensures
            r@ == header_name_text(name),
    {
        match name {
            HeaderName::ContentLength => String::from_str("Content-Length"),
            HeaderName::CustomHeader(name) => name,
        }
    }
}

impl<'a> From<&'a str> for HeaderName {
    /// The header name a text stands for: `Content-Length`, or a custom
    /// name with the text.
    fn from(name: &'a str) -> (r: HeaderName)
        ensures
            header_name_text(r) == name@,
            (r is ContentLength) <==> name@ == "Content-Length"@,
    {
        let content_length = "Content-Length";
        if crate::http2::header::bytes_eq(name.as_bytes(), content_length.as_bytes()) {
            proof {
                vstd::utf8::encode_utf8_decode_utf8(name@);
                vstd::utf8::encode_utf8_decode_utf8(content_length@);
            }
            HeaderName::ContentLength
        } else {
            HeaderName::CustomHeader(String::from_str(name))
        }
    }
}

impl<'a> vstd::std_specs::convert::FromSpecImpl<&'a str> for HeaderName {
    open spec fn obeys_from_spec() -> bool {
        false
    }

    open spec fn from_spec(v: &'a str) -> HeaderName {
        arbitrary()
    }
}

impl vstd::std_specs::convert::FromSpecImpl<HeaderName> for String {
    open spec fn obeys_from_spec() -> bool {
        false
    }

    open spec fn from_spec(v: HeaderName) -> String {
        arbitrary()
    }
}

} // verus!
