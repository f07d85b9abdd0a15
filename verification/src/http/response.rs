//! HTTP/1 responses, and writing one for sending.

use vstd::prelude::*;
use vstd::string::StringExecFns;
use vstd::string::StringSliceAdditionalSpecFns;
use vstd::utf8::encode_utf8;
use crate::http_version::{HttpVersion, version_text};
use crate::http2::header::{decimal_text, i32_to_decimal};
use crate::octets;
use super::header::{HeaderValue, Headers};
use super::status::{HttpStatus, status_text};

verus! {

/// A response: its version, its status, its header fields and its body.
pub struct Response {
    pub version: HttpVersion,
    pub status: HttpStatus,
    pub headers: Headers,
    pub body: Option<String>,
}

/// The text of a header value: the text itself, or the number in decimal.
pub open spec fn value_text(value: HeaderValue) -> Seq<char> {
    match value {
        HeaderValue::Str(s) => s@,
        HeaderValue::Num(n) => decimal_text(n as int),
    }
}

/// The header lines of entries, in order, each after a line break:
/// `\r\n`, the name, `: ` and the value.
pub open spec fn fields_text(entries: Seq<(String, HeaderValue)>) -> Seq<char>
    decreases entries.len(),
{
    if entries.len() == 0 {
        Seq::empty()
    } else {
        fields_text(entries.drop_last()) + "\r\n"@ + entries.last().0@ + ": "@ + value_text(
            entries.last().1,
        )
    }
}

/// The text of a response: the status line `HTTP/<version> <status>`, the
/// header lines, an empty line, and the body.
pub open spec fn response_text(res: Response) -> Seq<char> {
    "HTTP/"@ + version_text(res.version) + " "@ + status_text(res.status) + fields_text(
        res.headers.entries(),
    ) + "\r\n\r\n"@ + match res.body {
        Some(b) => b@,
        None => Seq::<char>::empty(),
    }
}

/// Writes a response for sending: the UTF-8 octets of its text.
pub fn encode(res: &Response) -> (r: Vec<u8>)
    ensures
        r@ == encode_utf8(response_text(*res)),
{
    let mut text = String::from_str("HTTP/");
    let version = res.version.to_string();
    text.append(version.as_str());
    text.append(" ");
    let status = res.status.to_string();
    text.append(status.as_str());
    let entries = res.headers.entries_slice();
    let ghost head = text@;
    let mut k: usize = 0;
    proof {
        assert(entries@.take(0) =~= Seq::<(String, HeaderValue)>::empty());
        assert(head + fields_text(entries@.take(0)) =~= head);
    }
    while k < entries.len()
        invariant
            k <= entries@.len(),
            text@ == head + fields_text(entries@.take(k as int)),
        decreases entries@.len() - k,
    {
        let ghost before = text@;
        text.append("\r\n");
        text.append(entries[k].0.as_str());
        text.append(": ");
        match &entries[k].1 {
            HeaderValue::Str(s) => {
                text.append(s.as_str());
            },
            HeaderValue::Num(n) => {
                let digits = i32_to_decimal(*n);
                text.append(digits.as_str());
            },
        }
        proof {
            assert(entries@.take(k + 1).drop_last() =~= entries@.take(k as int));
            assert(entries@.take(k + 1).last() == entries@[k as int]);
            assert(text@ =~= head + fields_text(entries@.take(k + 1)));
        }
        k = k + 1;
    }
    proof {
        assert(entries@.take(k as int) =~= entries@);
    }
    text.append("\r\n\r\n");
    match &res.body {
        Some(b) => {
            text.append(b.as_str());
        },
        None => {},
    }
    proof {
        assert(text@ =~= response_text(*res));
    }
    octets::slice_to_vec(text.as_str().as_bytes())
}

} // verus!
