//! HTTP protocol versions.

use vstd::prelude::*;
use vstd::string::StringExecFns;

verus! {

/// The HTTP versions the server speaks.
#[derive(Debug, Clone, Copy, PartialEq, Eq, Structural)]
pub enum HttpVersion {
    Http10,
    Http11,
    Http2,
}

/// The version an HTTP/1 minor version number stands for.
pub open spec fn spec_from_minor_version(version: u8) -> HttpVersion {
    if version == 0 {
        HttpVersion::Http10
    } else {
        HttpVersion::Http11
    }
}

/// The text of a version as written after `HTTP/`.
pub open spec fn version_text(version: HttpVersion) -> Seq<char> {
    match version {
        HttpVersion::Http10 => "1.0"@,
        HttpVersion::Http11 => "1.1"@,
        HttpVersion::Http2 => "2"@,
    }
}

impl HttpVersion {
    /// The version of an HTTP/1 request from its minor version number, 0 or 1.
    pub fn from_minor_version(version: u8) -> (r: HttpVersion)
        requires
            version <= 1,
        ensures
            r == spec_from_minor_version(version),
    {
        if version == 0 {
            HttpVersion::Http10
        } else {
            HttpVersion::Http11
        }
    }

    /// The version as written after `HTTP/`.
    pub fn to_string(&self) -> (r: String)
        ensures
            r@ == version_text(*self),
    {
        match self {
            HttpVersion::Http10 => String::from_str("1.0"),
            HttpVersion::Http11 => String::from_str("1.1"),
            HttpVersion::Http2 => String::from_str("2"),
        }
    }
}

} // verus!
