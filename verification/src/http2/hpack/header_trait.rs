//! The header type that the HPACK encoder reads and the decoder builds.

use vstd::prelude::*;
use super::table::Field;

verus! {

/// A header as HPACK sees it: a name, a value, and whether it may be added
/// to the compression tables. Users of the codec implement this for their
/// own header type.
pub trait HpackHeaderTrait: Sized {
    /// The header's name.
    spec fn spec_name(&self) -> Seq<char>;

    /// The header's value.
    spec fn spec_value(&self) -> Seq<char>;

    /// Whether the header may be indexed.
    spec fn spec_allow_compression(&self) -> bool;

    fn from_field_with_compression_flag(field: Field, allow_compression: bool) -> (r: Self)
        ensures
            r.spec_name() == field.name@,
            r.spec_value() == field.value@,
            r.spec_allow_compression() == allow_compression,
    ;

    fn from_field(field: Field) -> (r: Self)
        ensures
            r.spec_name() == field.name@,
            r.spec_value() == field.value@,
            r.spec_allow_compression(),
    ;

    fn get_name(&self) -> (r: String)
        ensures
            r@ == self.spec_name(),
    ;

    fn get_value(&self) -> (r: String)
        ensures
            r@ == self.spec_value(),
    ;

    fn is_allow_compression(&self) -> (r: bool)
        ensures
            r == self.spec_allow_compression(),
    ;
}

/// A header as text: its name, its value, and whether it may be indexed.
pub open spec fn hview<T: HpackHeaderTrait>(h: T) -> (Seq<char>, Seq<char>, bool) {
    (h.spec_name(), h.spec_value(), h.spec_allow_compression())
}

} // verus!
