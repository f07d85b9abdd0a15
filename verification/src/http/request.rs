//! HTTP/1 requests, and reading one off the octets received.

use vstd::prelude::*;
use vstd::string::StringExecFns;
use vstd::utf8::{decode_utf8, valid_utf8};
use crate::http_version::{HttpVersion, spec_from_minor_version};
use crate::octets;
use super::header::{HeaderName, HeaderValue, HeaderValueView, Headers, header_views};

verus! {

/// A request: its version, its target, its header fields and its body.
pub struct Request {
    pub version: HttpVersion,
    pub uri: String,
    pub headers: Headers,
    pub body: Option<String>,
}

/// What the `httparse` crate reads off a request head: the minor version,
/// the path, the header fields (names and raw values) and, once the head
/// is complete, the number of octets it takes.
pub struct ParsedRequest {
    pub version: Option<u8>,
    pub path: Option<String>,
    pub headers: Vec<(String, Vec<u8>)>,
    pub bytes_read: Option<usize>,
}

/// The plain values of a parsed request head.
pub open spec fn parsed_view(p: ParsedRequest) -> (
    Option<u8>,
    Option<Seq<char>>,
    Seq<(Seq<char>, Seq<u8>)>,
    Option<nat>,
) {
    (
        p.version,
        match p.path {
            Some(s) => Some(s@),
            None => None,
        },
        p.headers@.map_values(|h: (String, Vec<u8>)| (h.0@, h.1@)),
        match p.bytes_read {
            Some(n) => Some(n as nat),
            None => None,
        },
    )
}

/// What `httparse::Request::parse` makes of a buffer: `None` when it
/// refuses the octets, else the request head read so far.
pub uninterp spec fn httparse_request(buf: Seq<u8>) -> Option<
    (Option<u8>, Option<Seq<char>>, Seq<(Seq<char>, Seq<u8>)>, Option<nat>),
>;

/// Reads a request head with `httparse::Request::parse`, into room for 16
/// header fields. The result is a function of the octets (`httparse_request`);
/// `httparse` reads only the versions 1.0 and 1.1 (minor version 0 or 1),
/// and a complete head takes at most the octets there are.
#[verifier::external_body]
fn parse_with_httparse(buf: &[u8]) -> (r: Option<ParsedRequest>)
    ensures
        match r {
            Some(p) => {
                &&& httparse_request(buf@) == Some(parsed_view(p))
                &&& p.version matches Some(v) ==> v <= 1
                &&& p.bytes_read matches Some(n) ==> n <= buf@.len()
            },
            None => httparse_request(buf@) is None,
        },
{
    let mut headers = [httparse::EMPTY_HEADER; 16];
    let mut req = httparse::Request::new(&mut headers);
    let read = match req.parse(buf) {
        Ok(httparse::Status::Complete(n)) => Some(n),
        Ok(httparse::Status::Partial) => None,
        Err(_) => return None,
    };
    let fields = req.headers.iter().map(|h| (h.name.to_string(), h.value.to_vec())).collect();
    Some(ParsedRequest { version: req.version, path: req.path.map(|p| p.to_string()), headers: fields, bytes_read: read })
}

/// The value of the decimal digits `d`.
pub open spec fn digits_value(d: Seq<u8>) -> int
    decreases d.len(),
{
    if d.len() == 0 {
        0
    } else {
        digits_value(d.drop_last()) * 10 + (d.last() - 48)
    }
}

/// Whether all octets are ASCII digits.
pub open spec fn all_digits(d: Seq<u8>) -> bool {
    forall|i: int| 0 <= i < d.len() ==> 48 <= #[trigger] d[i] <= 57
}

/// The `i32` a text is, as `str::parse::<i32>` reads it: an optional `+` or
/// `-`, then one or more decimal digits, the value within `i32`'s range.
pub open spec fn spec_parse_i32(s: Seq<u8>) -> Option<i32> {
    let negative = s.len() > 0 && s[0] == 45;
    let signed = s.len() > 0 && (s[0] == 45 || s[0] == 43);
    let d = if signed { s.skip(1) } else { s };
    let v = if negative { -digits_value(d) } else { digits_value(d) };
    if d.len() > 0 && all_digits(d) && i32::MIN <= v <= i32::MAX {
        Some(v as i32)
    } else {
        None
    }
}

/// Reads an `i32` written in decimal (`spec_parse_i32`).
pub fn parse_i32(s: &[u8]) -> (r: Option<i32>)
    ensures
        r == spec_parse_i32(s@),
{
    let n = s.len();
    let negative = n > 0 && s[0] == 45;
    let signed = n > 0 && (s[0] == 45 || s[0] == 43);
    let start: usize = if signed { 1 } else { 0 };
    let ghost d = if signed { s@.skip(1) } else { s@ };
    if start == n {
        return None;
    }
    let mut acc: u64 = 0;
    let mut k: usize = start;
    while k < n
        invariant
            start <= k <= n,
            n == s@.len(),
            start == if signed { 1usize } else { 0usize },
            signed == (s@.len() > 0 && (s@[0] == 45 || s@[0] == 43)),
            negative == (s@.len() > 0 && s@[0] == 45),
            d == (if signed { s@.skip(1) } else { s@ }),
            d == s@.skip(start as int),
            acc <= 0x8000_0000,
            acc == digits_value(d.take(k - start)),
            all_digits(d.take(k - start)),
        decreases n - k,
    {
        let c = s[k];
        if c < 48 || c > 57 {
            proof {
                assert(d[k - start] == c);
                assert(!all_digits(d));
                assert(spec_parse_i32(s@) is None);
            }
            return None;
        }
        proof {
            assert(d.take(k - start + 1).drop_last() =~= d.take(k - start));
        }
        let next = acc * 10 + (c - 48) as u64;
        if next > 0x8000_0000 {
            proof {
                assert(d[k - start] == c);
                assert(digits_value(d.take(k - start + 1)) == next);
                if all_digits(d) {
                    lemma_digits_value_grows(d, k - start + 1);
                }
                assert(spec_parse_i32(s@) is None);
            }
            return None;
        }
        acc = next;
        k = k + 1;
    }
    assert(d.take(n - start) =~= d);
    if negative {
        Some((0 - acc as i64) as i32)
    } else if acc > 0x7fff_ffff {
        None
    } else {
        Some(acc as i32)
    }
}

/// A longer run of digits has at least the value of its prefix.
proof fn lemma_digits_value_grows(d: Seq<u8>, k: int)
    requires
        0 <= k <= d.len(),
        all_digits(d),
    ensures
        digits_value(d) >= digits_value(d.take(k)),
        digits_value(d.take(k)) >= 0,
    decreases d.len(),
{
    if d.len() > 0 {
        let init = d.drop_last();
        assert(all_digits(init)) by {
            assert forall|i: int| 0 <= i < init.len() implies 48 <= #[trigger] init[i] <= 57 by {
                assert(init[i] == d[i]);
            }
        }
        if k < d.len() {
            lemma_digits_value_grows(init, k);
            assert(init.take(k) =~= d.take(k));
        } else {
            assert(d.take(k) =~= d);
            lemma_digits_value_grows(init, 0);
        }
        assert(48 <= d[d.len() - 1] <= 57);
    } else {
        assert(d.take(k) =~= d);
    }
}

/// The view of a header field's value: the value must be UTF-8 text; a
/// `Content-Length` value is read as a number, which it must be.
pub open spec fn field_value(name: Seq<char>, value: Seq<u8>) -> Option<HeaderValueView> {
    if !valid_utf8(value) {
        None
    } else if name == "Content-Length"@ {
        match spec_parse_i32(value) {
            Some(n) => Some(HeaderValueView::Num(n)),
            None => None,
        }
    } else {
        Some(HeaderValueView::Str(decode_utf8(value)))
    }
}

/// The header fields of a request head, each field added in turn (a later
/// field with a name replaces an earlier one); `None` when a value cannot
/// be read.
pub open spec fn request_fields(fields: Seq<(Seq<char>, Seq<u8>)>) -> Option<
    Map<Seq<char>, HeaderValueView>,
>
    decreases fields.len(),
{
    if fields.len() == 0 {
        Some(Map::empty())
    } else {
        match request_fields(fields.drop_last()) {
            Some(m) => match field_value(fields.last().0, fields.last().1) {
                Some(v) => Some(m.insert(fields.last().0, v)),
                None => None,
            },
            None => None,
        }
    }
}

/// What a request head gives, as the server reads it: its version (1.1
/// when none was read), its path (`/` when none was read), its header
/// fields, and the octets it takes. `None` unless the head is complete and
/// every field's value can be read.
pub open spec fn request_head(
    parsed: (Option<u8>, Option<Seq<char>>, Seq<(Seq<char>, Seq<u8>)>, Option<nat>),
) -> Option<(HttpVersion, Seq<char>, Map<Seq<char>, HeaderValueView>, nat)> {
    let (version, path, fields, read) = parsed;
    match read {
        Some(n) => if n > 0 {
            match request_fields(fields) {
                Some(m) => Some(
                    (
                        match version {
                            Some(v) => spec_from_minor_version(v),
                            None => HttpVersion::Http11,
                        },
                        match path {
                            Some(p) => p,
                            None => "/"@,
                        },
                        m,
                        n,
                    ),
                ),
                None => None,
            }
        } else {
            None
        },
        None => None,
    }
}

/// Whether a result is the request head `head`.
pub open spec fn is_head(
    r: Option<(HttpVersion, String, Headers, usize)>,
    head: Option<(HttpVersion, Seq<char>, Map<Seq<char>, HeaderValueView>, nat)>,
) -> bool {
    match (r, head) {
        (Some(x), Some(h)) => x.0 == h.0 && x.1@ == h.1 && header_views(x.2@) == h.2 && x.3 == h.3,
        (None, None) => true,
        _ => false,
    }
}

/// Builds the request head from what `httparse` read (`request_head`).
pub fn request_from_parsed(p: ParsedRequest) -> (r: Option<(HttpVersion, String, Headers, usize)>)
    requires
        p.version matches Some(v) ==> v <= 1,
    ensures
        is_head(r, request_head(parsed_view(p))),
{
    let ghost view = parsed_view(p);
    let n = match p.bytes_read {
        Some(n) => n,
        None => {
            return None;
        },
    };
    if n == 0 {
        return None;
    }
    let version = match p.version {
        Some(v) => HttpVersion::from_minor_version(v),
        None => HttpVersion::Http11,
    };
    let uri = match p.path {
        Some(path) => path,
        None => String::from_str("/"),
    };
    let ghost fields = view.2;
    let mut headers = Headers::new();
    let mut k: usize = 0;
    let total = p.headers.len();
    proof {
        assert(fields.take(0) =~= Seq::<(Seq<char>, Seq<u8>)>::empty());
        assert(header_views(headers@) =~= Map::<Seq<char>, HeaderValueView>::empty());
    }
    while k < total
        invariant
            total == p.headers@.len(),
            fields == p.headers@.map_values(|h: (String, Vec<u8>)| (h.0@, h.1@)),
            k <= total,
            request_fields(fields.take(k as int)) == Some(header_views(headers@)),
        decreases total - k,
    {
        let name = p.headers[k].0.as_str();
        let raw = &p.headers[k].1;
        let ghost field = fields[k as int];
        proof {
            assert(fields.take(k + 1).drop_last() =~= fields.take(k as int));
            assert(fields.take(k + 1).last() == field);
            assert(field == (name@, raw@));
        }
        let header_name = HeaderName::from(name);
        let text = match octets::string_from_utf8(octets::slice_to_vec(raw.as_slice())) {
            Some(t) => t,
            None => {
                assert(request_fields(fields.take(k + 1)) is None);
                assert(request_fields(fields.take(total as int)) is None) by {
                    lemma_fields_fail(fields, k + 1, total as int);
                }
                assert(fields.take(total as int) =~= fields);
                return None;
            },
        };
        proof {
            vstd::utf8::encode_utf8_decode_utf8(text@);
        }
        let value = match header_name {
            HeaderName::ContentLength => match parse_i32(raw.as_slice()) {
                Some(number) => HeaderValue::Num(number),
                None => {
                    assert(request_fields(fields.take(k + 1)) is None);
                    assert(request_fields(fields.take(total as int)) is None) by {
                        lemma_fields_fail(fields, k + 1, total as int);
                    }
                    assert(fields.take(total as int) =~= fields);
                    return None;
                },
            },
            _ => HeaderValue::Str(text),
        };
        let ghost v = value;
        let ghost before = headers@;
        headers.add(header_name, value);
        proof {
            assert(header_views(headers@) =~= header_views(before).insert(name@, crate::http::header::value_view(v)));
        }
        k = k + 1;
    }
    proof {
        assert(fields.take(total as int) =~= fields);
    }
    Some((version, uri, headers, n))
}

/// Once a field's value cannot be read, no longer run of the fields can be.
proof fn lemma_fields_fail(fields: Seq<(Seq<char>, Seq<u8>)>, k: int, j: int)
    requires
        0 <= k <= j <= fields.len(),
        request_fields(fields.take(k)) is None,
    ensures
        request_fields(fields.take(j)) is None,
    decreases j - k,
{
    if j > k {
        lemma_fields_fail(fields, k, j - 1);
        assert(fields.take(j).drop_last() =~= fields.take(j - 1));
    }
}

/// Reads a request head from the octets received (`httparse_request`, then
/// `request_head`).
pub fn parse_http(buf: &[u8]) -> (r: Option<(HttpVersion, String, Headers, usize)>)
    ensures
        is_head(
            r,
            match httparse_request(buf@) {
                Some(parsed) => request_head(parsed),
                None => None,
            },
        ),
        r matches Some(x) ==> x.3 <= buf@.len(),
{
    match parse_with_httparse(buf) {
        Some(p) => {
            let ghost bytes_read = p.bytes_read;
            let r = request_from_parsed(p);
            r
        },
        None => None,
    }
}

/// What decoding does with the octets received: nothing when there are
/// none; else a request when its head can be read (`parse_http`) and the
/// octets after the head (the body, when there are any) are UTF-8 text, the
/// head's octets being consumed; otherwise no request, and all the octets
/// are consumed.
pub open spec fn decoded(r: (Option<Request>, usize), buf: Seq<u8>) -> bool {
    let head = match httparse_request(buf) {
        Some(parsed) => request_head(parsed),
        None => None,
    };
    if buf.len() == 0 {
        r.0 is None && r.1 == 0
    } else {
        match head {
            Some((version, uri, fields, n)) => {
                let rest = buf.skip(n as int);
                if rest.len() > 0 && !valid_utf8(rest) {
                    r.0 is None && r.1 == buf.len()
                } else {
                    &&& r.1 == n
                    &&& r.0 matches Some(req) && {
                        &&& req.version == version
                        &&& req.uri@ == uri
                        &&& header_views(req.headers@) == fields
                        &&& req.body == None::<String> <==> rest.len() == 0
                        &&& req.body matches Some(b) ==> b@ == decode_utf8(rest)
                    }
                }
            },
            None => r.0 is None && r.1 == buf.len(),
        }
    }
}

/// Decodes a request from the octets received; the result also says how
/// many octets were consumed.
pub fn decode(buf: &[u8]) -> (r: (Option<Request>, usize))
    ensures
        decoded(r, buf@),
{
    if buf.len() == 0 {
        return (None, 0);
    }
    match parse_http(buf) {
        Some((version, uri, headers, n)) => {
            let rest = octets::copy_range(buf, n, buf.len());
            let body = if rest.len() == 0 {
                None
            } else {
                match octets::string_from_utf8(rest) {
                    Some(text) => {
                        proof {
                            vstd::utf8::encode_utf8_decode_utf8(text@);
                        }
                        Some(text)
                    },
                    None => {
                        return (None, buf.len());
                    },
                }
            };
            (Some(Request { version, uri, headers, body }), n)
        },
        None => (None, buf.len()),
    }
}

} // verus!
