//! The bit patterns that mark the HPACK representations (RFC 7541,
//! section 6).

use vstd::prelude::*;

verus! {

/// The bit pattern `10000000`, used to match the prefix `1`
pub const INDEXED_HEADER_FLAG: u8 = 0x80;

/// The bit pattern `01000000` used to match the prefix `01`
pub const LITERAL_WITH_INDEXING_FLAG: u8 = 0x40;

/// The bit pattern `11110000`, used to match the prefix `0000`
pub const LITERAL_WITHOUT_INDEXING_FLAG: u8 = 0xf0;

/// The bit pattern `00010000`, used to match the prefix `0001`
pub const LITERAL_NEVER_INDEX_FLAG: u8 = 0x10;

/// The bit pattern `00100000`, used to match the prefix `001`
pub const SIZE_UPDATE_FLAG: u8 = 0x20;

} // verus!
