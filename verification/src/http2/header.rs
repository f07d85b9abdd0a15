//! HTTP/2 header fields as the server handles them.

use vstd::prelude::*;
use vstd::string::{StringExecFns, StringSliceAdditionalSpecFns};
use vstd::std_specs::iter::IteratorSpec;
use vstd::std_specs::slice::axiom_spec_slice_iter;
use crate::http2::hpack::header_trait::HpackHeaderTrait;
use crate::http2::hpack::table::Field;

verus! {

/// Header names the server knows, and any other name as a custom header.
#[derive(Clone, Debug)]
pub enum HeaderName {
    PseudoPath,
    PseudoMethod,
    PseudoScheme,
    PseudoAuthority,
    PseudoStatus,
    ContentLength,
    CacheControl,
    ContentEncoding,
    Host,
    Accept,
    Date,
    Location,
    SetCookie,
    CustomHeader(String),
}

/// A header value: text, or a number written in decimal.
#[derive(Clone, Debug)]
pub enum HeaderValue {
    Str(String),
    Num(i32),
}

/// A header field, and whether it may be added to the compression tables.
#[derive(Debug)]
pub struct Header {
    pub name: HeaderName,
    pub value: HeaderValue,
    allow_compression: bool,
}

impl Header {
    pub closed spec fn spec_header_name(&self) -> HeaderName {
        self.name
    }

    pub closed spec fn spec_header_value(&self) -> HeaderValue {
        self.value
    }

    pub closed spec fn spec_allow_compression(&self) -> bool {
        self.allow_compression
    }

    pub fn new(name: HeaderName, value: HeaderValue) -> (r: Self)
        ensures
            r.spec_header_name() == name,
            r.spec_header_value() == value,
            r.spec_allow_compression(),
    {
        Header { name, value, allow_compression: true }
    }

    pub fn set_allow_compression(&mut self, allow_compression: bool)
        ensures
            final(self).spec_header_name() == old(self).spec_header_name(),
            final(self).spec_header_value() == old(self).spec_header_value(),
            final(self).spec_allow_compression() == allow_compression,
    {
        self.allow_compression = allow_compression;
    }

    pub fn is_allow_compression(&self) -> (r: bool)
        ensures
            r == self.spec_allow_compression(),
    {
        self.allow_compression
    }

    /// Renames the header, keeping its value and compression flag.
    pub fn set_name(&mut self, name: HeaderName)
        ensures
            final(self).spec_header_name() == name,
            final(self).spec_header_value() == old(self).spec_header_value(),
            final(self).spec_allow_compression() == old(self).spec_allow_compression(),
    {
        self.name = name;
    }
}

/// An ordered list of header fields.
#[derive(Debug)]
pub struct Headers {
    headers: Vec<Header>,
}

impl View for Headers {
    type V = Seq<Header>;

    closed spec fn view(&self) -> Seq<Header> {
        self.headers@
    }
}

impl Headers {
    pub fn new() -> (r: Self)
        ensures
            r@ == Seq::<Header>::empty(),
    {
        Headers { headers: Vec::new() }
    }

    pub fn push_header(&mut self, header: Header)
        ensures
            final(self)@ == old(self)@.push(header),
    {
        self.headers.push(header);
    }

    pub fn push(&mut self, name: HeaderName, value: HeaderValue)
        ensures
            final(self)@.len() == old(self)@.len() + 1,
            final(self)@.take(old(self)@.len() as int) == old(self)@,
            final(self)@.last().spec_header_name() == name,
            final(self)@.last().spec_header_value() == value,
            final(self)@.last().spec_allow_compression(),
    {
        self.headers.push(Header::new(name, value));
        assert(self.headers@.take(old(self)@.len() as int) =~= old(self)@);
    }

    /// The headers in order.
    pub fn iter(&self) -> (r: std::slice::Iter<'_, Header>)
        ensures
            r.remaining() == self@.map_values(|h: Header| &h),
    {
        broadcast use axiom_spec_slice_iter;
        let r = self.headers.as_slice().iter();
        assert(r.remaining() =~= self@.map_values(|h: Header| &h));
        r
    }

    pub fn len(&self) -> (r: usize)
        ensures
            r == self@.len(),
    {
        self.headers.len()
    }

    /// The headers in order, as a slice.
    pub fn as_slice(&self) -> (r: &[Header])
        ensures
            r@ == self@,
    {
        self.headers.as_slice()
    }

    pub fn is_empty(&self) -> (r: bool)
        ensures
            r == (self@.len() == 0),
    {
        self.headers.len() == 0
    }
}

/// The text of a known header name; a custom header keeps its own text.
pub open spec fn header_name_text(name: HeaderName) -> Seq<char> {
    match name {
        HeaderName::PseudoPath => ":path"@,
        HeaderName::PseudoMethod => ":method"@,
        HeaderName::PseudoScheme => ":scheme"@,
        HeaderName::PseudoAuthority => ":authority"@,
        HeaderName::PseudoStatus => ":status"@,
        HeaderName::ContentLength => "Content-Length"@,
        HeaderName::CacheControl => "Cache-Control"@,
        HeaderName::ContentEncoding => "Content-Encoding"@,
        HeaderName::Host => "Host"@,
        HeaderName::Accept => "Accept"@,
        HeaderName::Date => "Date"@,
        HeaderName::Location => "Location"@,
        HeaderName::SetCookie => "Set-Cookie"@,
        HeaderName::CustomHeader(v) => v@,
    }
}

impl From<HeaderName> for String {
    fn from(name: HeaderName) -> (r: String)
        ensures
            r@ == header_name_text(name),
    {
        match name {
            HeaderName::PseudoPath => String::from_str(":path"),
            HeaderName::PseudoMethod => String::from_str(":method"),
            HeaderName::PseudoScheme => String::from_str(":scheme"),
            HeaderName::PseudoAuthority => String::from_str(":authority"),
            HeaderName::PseudoStatus => String::from_str(":status"),
            HeaderName::ContentLength => String::from_str("Content-Length"),
            HeaderName::CacheControl => String::from_str("Cache-Control"),
            HeaderName::ContentEncoding => String::from_str("Content-Encoding"),
            HeaderName::Host => String::from_str("Host"),
            HeaderName::Accept => String::from_str("Accept"),
            HeaderName::Date => String::from_str("Date"),
            HeaderName::Location => String::from_str("Location"),
            HeaderName::SetCookie => String::from_str("Set-Cookie"),
            HeaderName::CustomHeader(v) => v,
        }
    }
}

impl vstd::std_specs::convert::FromSpecImpl<HeaderName> for String {
    open spec fn obeys_from_spec() -> bool {
        false
    }

    open spec fn from_spec(v: HeaderName) -> String {
        arbitrary()
    }
}

/// The result of `str::to_lowercase` on a string: each character replaced
/// by its Unicode lowercase mapping (`ascii_lowercase_chars` on ASCII text).
pub uninterp spec fn lowercase(s: Seq<char>) -> Seq<char>;

/// ASCII text with its capital letters made small, other characters kept.
pub open spec fn ascii_lowercase_chars(s: Seq<char>) -> Seq<char> {
    s.map_values(|c: char| if 'A' <= c <= 'Z' { ((c as u32) + 32) as char } else { c })
}

/// Lowercases a string with `str::to_lowercase`; the result depends on the
/// string alone, and on ASCII text it makes each capital letter small and
/// keeps every other character (the Unicode mapping of ASCII).
#[verifier::external_body]
fn to_lowercase(s: &str) -> (r: String)
    ensures
        r@ == lowercase(s@),
        vstd::utf8::is_ascii_chars(s@) ==> r@ == ascii_lowercase_chars(s@),
{
    s.to_lowercase()
}

/// Whether two octet sequences are equal.
pub fn bytes_eq(a: &[u8], b: &[u8]) -> (r: bool)
    ensures
        r == (a@ == b@),
{
    if a.len() != b.len() {
        return false;
    }
    let mut k: usize = 0;
    while k < a.len()
        invariant
            a.len() == b.len(),
            k <= a.len(),
            forall|j: int| 0 <= j < k ==> a@[j] == b@[j],
        decreases a.len() - k,
    {
        if a[k] != b[k] {
            return false;
        }
        k = k + 1;
    }
    assert(a@ =~= b@);
    true
}

/// The known header named by lowercase text, if any.
pub open spec fn known_header_name(lower: Seq<u8>) -> Option<HeaderName> {
    if lower == ":path".spec_bytes() {
        Some(HeaderName::PseudoPath)
    } else if lower == ":method".spec_bytes() {
        Some(HeaderName::PseudoMethod)
    } else if lower == ":scheme".spec_bytes() {
        Some(HeaderName::PseudoScheme)
    } else if lower == ":authority".spec_bytes() {
        Some(HeaderName::PseudoAuthority)
    } else if lower == ":status".spec_bytes() {
        Some(HeaderName::PseudoStatus)
    } else if lower == "content-length".spec_bytes() {
        Some(HeaderName::ContentLength)
    } else if lower == "cache-control".spec_bytes() {
        Some(HeaderName::CacheControl)
    } else if lower == "content-encoding".spec_bytes() {
        Some(HeaderName::ContentEncoding)
    } else if lower == "host".spec_bytes() {
        Some(HeaderName::Host)
    } else if lower == "accept".spec_bytes() {
        Some(HeaderName::Accept)
    } else if lower == "date".spec_bytes() {
        Some(HeaderName::Date)
    } else if lower == "location".spec_bytes() {
        Some(HeaderName::Location)
    } else if lower == "set-cookie".spec_bytes() {
        Some(HeaderName::SetCookie)
    } else {
        None
    }
}

/// The known names stand for their own text: the name a lowercase text is
/// read as has that text, lowercased (so `host` reads as `Host` and `accept`
/// as `Accept`), and the lowercased text of each known name is read as that
/// name.
pub proof fn lemma_known_names_match_their_text(lower: Seq<u8>, k: HeaderName)
    ensures
        known_header_name(lower) == Some(k) ==> vstd::utf8::encode_utf8(
            ascii_lowercase_chars(header_name_text(k)),
        ) == lower,
        !(k is CustomHeader) ==> known_header_name(
            vstd::utf8::encode_utf8(ascii_lowercase_chars(header_name_text(k))),
        ) == Some(k),
{
    reveal_strlit(":path");
    reveal_strlit(":path");
    reveal_strlit(":method");
    reveal_strlit(":method");
    reveal_strlit(":scheme");
    reveal_strlit(":scheme");
    reveal_strlit(":authority");
    reveal_strlit(":authority");
    reveal_strlit(":status");
    reveal_strlit(":status");
    reveal_strlit("Content-Length");
    reveal_strlit("content-length");
    reveal_strlit("Cache-Control");
    reveal_strlit("cache-control");
    reveal_strlit("Content-Encoding");
    reveal_strlit("content-encoding");
    reveal_strlit("Host");
    reveal_strlit("host");
    reveal_strlit("Accept");
    reveal_strlit("accept");
    reveal_strlit("Date");
    reveal_strlit("date");
    reveal_strlit("Location");
    reveal_strlit("location");
    reveal_strlit("Set-Cookie");
    reveal_strlit("set-cookie");
    assert(ascii_lowercase_chars(":path"@) =~= ":path"@);
    vstd::string::is_ascii_spec_bytes(":path");
    assert(ascii_lowercase_chars(":method"@) =~= ":method"@);
    vstd::string::is_ascii_spec_bytes(":method");
    assert(ascii_lowercase_chars(":scheme"@) =~= ":scheme"@);
    vstd::string::is_ascii_spec_bytes(":scheme");
    assert(ascii_lowercase_chars(":authority"@) =~= ":authority"@);
    vstd::string::is_ascii_spec_bytes(":authority");
    assert(ascii_lowercase_chars(":status"@) =~= ":status"@);
    vstd::string::is_ascii_spec_bytes(":status");
    assert(ascii_lowercase_chars("Content-Length"@) =~= "content-length"@);
    vstd::string::is_ascii_spec_bytes("content-length");
    assert(ascii_lowercase_chars("Cache-Control"@) =~= "cache-control"@);
    vstd::string::is_ascii_spec_bytes("cache-control");
    assert(ascii_lowercase_chars("Content-Encoding"@) =~= "content-encoding"@);
    vstd::string::is_ascii_spec_bytes("content-encoding");
    assert(ascii_lowercase_chars("Host"@) =~= "host"@);
    vstd::string::is_ascii_spec_bytes("host");
    assert(ascii_lowercase_chars("Accept"@) =~= "accept"@);
    vstd::string::is_ascii_spec_bytes("accept");
    assert(ascii_lowercase_chars("Date"@) =~= "date"@);
    vstd::string::is_ascii_spec_bytes("date");
    assert(ascii_lowercase_chars("Location"@) =~= "location"@);
    vstd::string::is_ascii_spec_bytes("location");
    assert(ascii_lowercase_chars("Set-Cookie"@) =~= "set-cookie"@);
    vstd::string::is_ascii_spec_bytes("set-cookie");
    assert(":method".spec_bytes().len() != ":path".spec_bytes().len());
    assert(":scheme".spec_bytes().len() != ":path".spec_bytes().len());
    assert(":scheme".spec_bytes()[1] != ":method".spec_bytes()[1]);
    assert(":authority".spec_bytes().len() != ":path".spec_bytes().len());
    assert(":authority".spec_bytes().len() != ":method".spec_bytes().len());
    assert(":authority".spec_bytes().len() != ":scheme".spec_bytes().len());
    assert(":status".spec_bytes().len() != ":path".spec_bytes().len());
    assert(":status".spec_bytes()[1] != ":method".spec_bytes()[1]);
    assert(":status".spec_bytes()[2] != ":scheme".spec_bytes()[2]);
    assert(":status".spec_bytes().len() != ":authority".spec_bytes().len());
    assert("content-length".spec_bytes().len() != ":path".spec_bytes().len());
    assert("content-length".spec_bytes().len() != ":method".spec_bytes().len());
    assert("content-length".spec_bytes().len() != ":scheme".spec_bytes().len());
    assert("content-length".spec_bytes().len() != ":authority".spec_bytes().len());
    assert("content-length".spec_bytes().len() != ":status".spec_bytes().len());
    assert("cache-control".spec_bytes().len() != ":path".spec_bytes().len());
    assert("cache-control".spec_bytes().len() != ":method".spec_bytes().len());
    assert("cache-control".spec_bytes().len() != ":scheme".spec_bytes().len());
    assert("cache-control".spec_bytes().len() != ":authority".spec_bytes().len());
    assert("cache-control".spec_bytes().len() != ":status".spec_bytes().len());
    assert("cache-control".spec_bytes().len() != "content-length".spec_bytes().len());
    assert("content-encoding".spec_bytes().len() != ":path".spec_bytes().len());
    assert("content-encoding".spec_bytes().len() != ":method".spec_bytes().len());
    assert("content-encoding".spec_bytes().len() != ":scheme".spec_bytes().len());
    assert("content-encoding".spec_bytes().len() != ":authority".spec_bytes().len());
    assert("content-encoding".spec_bytes().len() != ":status".spec_bytes().len());
    assert("content-encoding".spec_bytes().len() != "content-length".spec_bytes().len());
    assert("content-encoding".spec_bytes().len() != "cache-control".spec_bytes().len());
    assert("host".spec_bytes().len() != ":path".spec_bytes().len());
    assert("host".spec_bytes().len() != ":method".spec_bytes().len());
    assert("host".spec_bytes().len() != ":scheme".spec_bytes().len());
    assert("host".spec_bytes().len() != ":authority".spec_bytes().len());
    assert("host".spec_bytes().len() != ":status".spec_bytes().len());
    assert("host".spec_bytes().len() != "content-length".spec_bytes().len());
    assert("host".spec_bytes().len() != "cache-control".spec_bytes().len());
    assert("host".spec_bytes().len() != "content-encoding".spec_bytes().len());
    assert("accept".spec_bytes().len() != ":path".spec_bytes().len());
    assert("accept".spec_bytes().len() != ":method".spec_bytes().len());
    assert("accept".spec_bytes().len() != ":scheme".spec_bytes().len());
    assert("accept".spec_bytes().len() != ":authority".spec_bytes().len());
    assert("accept".spec_bytes().len() != ":status".spec_bytes().len());
    assert("accept".spec_bytes().len() != "content-length".spec_bytes().len());
    assert("accept".spec_bytes().len() != "cache-control".spec_bytes().len());
    assert("accept".spec_bytes().len() != "content-encoding".spec_bytes().len());
    assert("accept".spec_bytes().len() != "host".spec_bytes().len());
    assert("date".spec_bytes().len() != ":path".spec_bytes().len());
    assert("date".spec_bytes().len() != ":method".spec_bytes().len());
    assert("date".spec_bytes().len() != ":scheme".spec_bytes().len());
    assert("date".spec_bytes().len() != ":authority".spec_bytes().len());
    assert("date".spec_bytes().len() != ":status".spec_bytes().len());
    assert("date".spec_bytes().len() != "content-length".spec_bytes().len());
    assert("date".spec_bytes().len() != "cache-control".spec_bytes().len());
    assert("date".spec_bytes().len() != "content-encoding".spec_bytes().len());
    assert("date".spec_bytes()[0] != "host".spec_bytes()[0]);
    assert("date".spec_bytes().len() != "accept".spec_bytes().len());
    assert("location".spec_bytes().len() != ":path".spec_bytes().len());
    assert("location".spec_bytes().len() != ":method".spec_bytes().len());
    assert("location".spec_bytes().len() != ":scheme".spec_bytes().len());
    assert("location".spec_bytes().len() != ":authority".spec_bytes().len());
    assert("location".spec_bytes().len() != ":status".spec_bytes().len());
    assert("location".spec_bytes().len() != "content-length".spec_bytes().len());
    assert("location".spec_bytes().len() != "cache-control".spec_bytes().len());
    assert("location".spec_bytes().len() != "content-encoding".spec_bytes().len());
    assert("location".spec_bytes().len() != "host".spec_bytes().len());
    assert("location".spec_bytes().len() != "accept".spec_bytes().len());
    assert("location".spec_bytes().len() != "date".spec_bytes().len());
    assert("set-cookie".spec_bytes().len() != ":path".spec_bytes().len());
    assert("set-cookie".spec_bytes().len() != ":method".spec_bytes().len());
    assert("set-cookie".spec_bytes().len() != ":scheme".spec_bytes().len());
    assert("set-cookie".spec_bytes()[0] != ":authority".spec_bytes()[0]);
    assert("set-cookie".spec_bytes().len() != ":status".spec_bytes().len());
    assert("set-cookie".spec_bytes().len() != "content-length".spec_bytes().len());
    assert("set-cookie".spec_bytes().len() != "cache-control".spec_bytes().len());
    assert("set-cookie".spec_bytes().len() != "content-encoding".spec_bytes().len());
    assert("set-cookie".spec_bytes().len() != "host".spec_bytes().len());
    assert("set-cookie".spec_bytes().len() != "accept".spec_bytes().len());
    assert("set-cookie".spec_bytes().len() != "date".spec_bytes().len());
    assert("set-cookie".spec_bytes().len() != "location".spec_bytes().len());
}

fn known_header_name_exec(lower: &[u8]) -> (r: Option<HeaderName>)
    ensures
        r == known_header_name(lower@),
{
    if bytes_eq(lower, ":path".as_bytes()) {
        Some(HeaderName::PseudoPath)
    } else if bytes_eq(lower, ":method".as_bytes()) {
        Some(HeaderName::PseudoMethod)
    } else if bytes_eq(lower, ":scheme".as_bytes()) {
        Some(HeaderName::PseudoScheme)
    } else if bytes_eq(lower, ":authority".as_bytes()) {
        Some(HeaderName::PseudoAuthority)
    } else if bytes_eq(lower, ":status".as_bytes()) {
        Some(HeaderName::PseudoStatus)
    } else if bytes_eq(lower, "content-length".as_bytes()) {
        Some(HeaderName::ContentLength)
    } else if bytes_eq(lower, "cache-control".as_bytes()) {
        Some(HeaderName::CacheControl)
    } else if bytes_eq(lower, "content-encoding".as_bytes()) {
        Some(HeaderName::ContentEncoding)
    } else if bytes_eq(lower, "host".as_bytes()) {
        Some(HeaderName::Host)
    } else if bytes_eq(lower, "accept".as_bytes()) {
        Some(HeaderName::Accept)
    } else if bytes_eq(lower, "date".as_bytes()) {
        Some(HeaderName::Date)
    } else if bytes_eq(lower, "location".as_bytes()) {
        Some(HeaderName::Location)
    } else if bytes_eq(lower, "set-cookie".as_bytes()) {
        Some(HeaderName::SetCookie)
    } else {
        None
    }
}

impl<'a> From<&'a str> for HeaderName {
    /// Header names are case insensitive: the name is lowercased before it
    /// is matched against the known names.
    fn from(name: &'a str) -> (r: HeaderName)
        ensures
            known_header_name(vstd::utf8::encode_utf8(lowercase(name@))) matches Some(k) ==> r == k,
            known_header_name(vstd::utf8::encode_utf8(lowercase(name@))) is None ==> (r matches HeaderName::CustomHeader(s) && s@ == name@),
            vstd::utf8::is_ascii_chars(name@) ==> lowercase(name@) == ascii_lowercase_chars(name@),
    {
        let lower = to_lowercase(name);
        match known_header_name_exec(lower.as_str().as_bytes()) {
            Some(k) => k,
            None => HeaderName::CustomHeader(String::from_str(name)),
        }
    }
}

impl<'a> vstd::std_specs::convert::FromSpecImpl<&'a str> for HeaderName {
    open spec fn obeys_from_spec() -> bool {
        false
    }

    open spec fn from_spec(v: &'a str) -> HeaderName {
        arbitrary()
    }
}

/// A header list is empty exactly when nothing was pushed onto it since it
/// was made: given its views after `Headers::new` and after each of `k`
/// pushes (`push` or `push_header`, each adding one header), it holds `k`
/// headers, so `is_empty` is true exactly when `k` is 0.
pub proof fn lemma_pushes_counted(views: Seq<Seq<Header>>)
    requires
        views.len() > 0,
        views[0].len() == 0,
        forall|i: int| 0 <= i < views.len() - 1 ==> #[trigger] views[i + 1].len() == views[i].len() + 1,
    ensures
        views.last().len() == views.len() - 1,
        (views.last().len() == 0) <==> views.len() == 1,
    decreases views.len(),
{
    if views.len() > 1 {
        let init = views.drop_last();
        assert forall|i: int| 0 <= i < init.len() - 1 implies #[trigger] init[i + 1].len() == init[i].len() + 1 by {
            assert(init[i + 1] == views[i + 1]);
            assert(init[i] == views[i]);
        }
        lemma_pushes_counted(init);
        assert(views[views.len() - 1].len() == views[views.len() - 2].len() + 1);
    }
}

/// The decimal digits of a natural number.
pub open spec fn decimal_digits(n: nat) -> Seq<char>
    decreases n,
{
    if n < 10 {
        seq![(n + 48) as char]
    } else {
        decimal_digits(n / 10).push((n % 10 + 48) as char)
    }
}

/// The decimal text of an integer, with a leading '-' when negative.
pub open spec fn decimal_text(v: int) -> Seq<char> {
    if v < 0 {
        seq!['-'] + decimal_digits((-v) as nat)
    } else {
        decimal_digits(v as nat)
    }
}

/// The text of a decimal digit.
fn digit_text(d: u32) -> (r: &'static str)
    requires
        d < 10,
    ensures
        r@ == seq![(d + 48) as char],
{
    match d {
        0 => {
            proof {
                reveal_strlit("0");
            }
            "0"
        },
        1 => {
            proof {
                reveal_strlit("1");
            }
            "1"
        },
        2 => {
            proof {
                reveal_strlit("2");
            }
            "2"
        },
        3 => {
            proof {
                reveal_strlit("3");
            }
            "3"
        },
        4 => {
            proof {
                reveal_strlit("4");
            }
            "4"
        },
        5 => {
            proof {
                reveal_strlit("5");
            }
            "5"
        },
        6 => {
            proof {
                reveal_strlit("6");
            }
            "6"
        },
        7 => {
            proof {
                reveal_strlit("7");
            }
            "7"
        },
        8 => {
            proof {
                reveal_strlit("8");
            }
            "8"
        },
        _ => {
            proof {
                reveal_strlit("9");
            }
            "9"
        },
    }
}

/// Appends the decimal digits of a number.
fn push_digits(s: &mut String, n: u32)
    ensures
        final(s)@ == old(s)@ + decimal_digits(n as nat),
    decreases n,
{
    if n >= 10 {
        push_digits(s, n / 10);
    }
    s.append(digit_text(n % 10));
    proof {
        if n < 10 {
            assert(n % 10 == n);
        }
    }
}

/// Writes an integer in decimal, as its `Display` does: the digits, after
/// a '-' when the integer is negative.
pub(crate) fn i32_to_decimal(v: i32) -> (r: String)
    ensures
        r@ == decimal_text(v as int),
{
    let mut s = String::new();
    if v < 0 {
        s.append("-");
        let magnitude = (0 - (v as i64)) as u32;
        push_digits(&mut s, magnitude);
        proof {
            reveal_strlit("-");
        }
    } else {
        push_digits(&mut s, v as u32);
    }
    s
}

/// The text of a header value.
pub open spec fn header_value_text(value: HeaderValue) -> Seq<char> {
    match value {
        HeaderValue::Str(s) => s@,
        HeaderValue::Num(n) => decimal_text(n as int),
    }
}

impl From<HeaderValue> for String {
    fn from(value: HeaderValue) -> (r: String)
        ensures
            r@ == header_value_text(value),
    {
        match value {
            HeaderValue::Str(v) => v,
            HeaderValue::Num(v) => i32_to_decimal(v),
        }
    }
}

/// The text of a header name, as written.
fn header_name_string(name: &HeaderName) -> (r: String)
    ensures
        r@ == header_name_text(*name),
{
    match name {
        HeaderName::PseudoPath => String::from_str(":path"),
        HeaderName::PseudoMethod => String::from_str(":method"),
        HeaderName::PseudoScheme => String::from_str(":scheme"),
        HeaderName::PseudoAuthority => String::from_str(":authority"),
        HeaderName::PseudoStatus => String::from_str(":status"),
        HeaderName::ContentLength => String::from_str("Content-Length"),
        HeaderName::CacheControl => String::from_str("Cache-Control"),
        HeaderName::ContentEncoding => String::from_str("Content-Encoding"),
        HeaderName::Host => String::from_str("Host"),
        HeaderName::Accept => String::from_str("Accept"),
        HeaderName::Date => String::from_str("Date"),
        HeaderName::Location => String::from_str("Location"),
        HeaderName::SetCookie => String::from_str("Set-Cookie"),
        HeaderName::CustomHeader(v) => v.clone(),
    }
}

/// HPACK decodes into headers with custom names and text values; headers
/// are encoded by the text of their name and value.
impl HpackHeaderTrait for Header {
    closed spec fn spec_name(&self) -> Seq<char> {
        header_name_text(self.name)
    }

    closed spec fn spec_value(&self) -> Seq<char> {
        header_value_text(self.value)
    }

    closed spec fn spec_allow_compression(&self) -> bool {
        self.allow_compression
    }

    fn from_field_with_compression_flag(field: Field, allow_compression: bool) -> (r: Self) {
        Header {
            name: HeaderName::CustomHeader(field.name),
            value: HeaderValue::Str(field.value),
            allow_compression,
        }
    }

    fn from_field(field: Field) -> (r: Self) {
        Header {
            name: HeaderName::CustomHeader(field.name),
            value: HeaderValue::Str(field.value),
            allow_compression: true,
        }
    }

    fn get_name(&self) -> (r: String) {
        header_name_string(&self.name)
    }

    fn get_value(&self) -> (r: String) {
        match &self.value {
            HeaderValue::Str(v) => v.clone(),
            HeaderValue::Num(v) => i32_to_decimal(*v),
        }
    }

    fn is_allow_compression(&self) -> (r: bool) {
        self.allow_compression
    }
}

/// What HPACK sees of a header: the text of its name and value, and its
/// compression flag.
pub proof fn lemma_header_hpack_view(h: Header)
    ensures
        <Header as HpackHeaderTrait>::spec_name(&h) == header_name_text(h.spec_header_name()),
        <Header as HpackHeaderTrait>::spec_value(&h) == header_value_text(h.spec_header_value()),
        <Header as HpackHeaderTrait>::spec_allow_compression(&h) == h.spec_allow_compression(),
{
}

impl vstd::std_specs::convert::FromSpecImpl<HeaderValue> for String {
    open spec fn obeys_from_spec() -> bool {
        false
    }

    open spec fn from_spec(v: HeaderValue) -> String {
        arbitrary()
    }
}

} // verus!
