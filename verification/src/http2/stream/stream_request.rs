//! The request a stream receives, and the checks on its header blocks
//! (RFC 7540, section 8.1.2).

use vstd::prelude::*;
use vstd::utf8::encode_utf8;
use crate::http2::error::{ErrorCode, ErrorName, HttpError};
use crate::http2::header::{
    Header,
    HeaderName,
    Headers,
    known_header_name,
    lowercase,
    lemma_header_hpack_view,
};
use crate::http2::hpack::context::{ContextTrait, RecvContext};
use crate::http2::hpack::header_trait::HpackHeaderTrait;
use crate::http2::hpack::pack::headers_view;
use crate::http2::hpack::unpack::{self, UnpackedHeaders, unpack_from};

verus! {

/// The pattern header names must have: lowercase token characters, after
/// an optional `:` that marks a pseudo-header.
pub const HEADER_NAME_PATTERN: &'static str = r"^(:)?([!#$%&'*+\-.^_`|~0-9a-z]+)$";

/// A character allowed in a lowercase header name (a token character other
/// than an upper case letter).
pub open spec fn tchar_lower(c: char) -> bool {
    ||| c == '!' || c == '#' || c == '$' || c == '%' || c == '&' || c == '\'' || c == '*'
    ||| c == '+' || c == '-' || c == '.' || c == '^' || c == '_' || c == '`' || c == '|'
    ||| c == '~'
    ||| '0' <= c <= '9'
    ||| 'a' <= c <= 'z'
}

/// Whether a name matches the header name pattern, and if so whether it is
/// a pseudo-header.
pub open spec fn header_name_shape(name: Seq<char>) -> Option<bool> {
    let pseudo = name.len() > 0 && name[0] == ':';
    let rest = if pseudo { name.skip(1) } else { name };
    if rest.len() > 0 && forall|i: int| 0 <= i < rest.len() ==> tchar_lower(#[trigger] rest[i]) {
        Some(pseudo)
    } else {
        None
    }
}

/// Matches a header name with the `regex` crate against
/// `HEADER_NAME_PATTERN`; the capture of the optional `:` says whether the
/// name is a pseudo-header. The pattern is anchored at both ends, so it
/// matches exactly the names of `header_name_shape`.
#[verifier::external_body]
fn match_header_name(name: &str) -> (r: Option<bool>)
    ensures
        r == header_name_shape(name@),
{
    match regex::Regex::new(HEADER_NAME_PATTERN) {
        Ok(re) => match re.captures(name) {
            Some(captures) => Some(captures.get(1).is_some()),
            None => None,
        },
        Err(_) => None,
    }
}

/// The known header a name stands for, once lowercased.
pub open spec fn known_name(name: Seq<char>) -> Option<HeaderName> {
    known_header_name(encode_utf8(lowercase(name)))
}

/// The outcome of checking the header names of a block from the `k`-th on:
/// every name must match the pattern; in a request block the `:method`,
/// `:scheme` and `:path` pseudo-headers must each occur exactly once.
pub open spec fn check_names(
    names: Seq<Seq<char>>,
    assert_request: bool,
    has_method: bool,
    has_scheme: bool,
    has_path: bool,
) -> Option<HttpError>
    decreases names.len(),
{
    if names.len() == 0 {
        if assert_request && (!has_method || !has_scheme || !has_path) {
            Some(
                HttpError::StreamError(
                    ErrorCode::ProtocolError,
                    ErrorName::MalformedRequestHasMissingRequiredPseudoHeader,
                ),
            )
        } else {
            None
        }
    } else {
        let n = names[0];
        let rest = names.drop_first();
        if header_name_shape(n) is None {
            Some(
                HttpError::StreamError(
                    ErrorCode::ProtocolError,
                    ErrorName::NonLowerCaseHeaderNameIsRejectedAsMalformed,
                ),
            )
        } else if !assert_request {
            check_names(rest, assert_request, has_method, has_scheme, has_path)
        } else if known_name(n) == Some(HeaderName::PseudoMethod) {
            if has_method {
                Some(
                    HttpError::StreamError(
                        ErrorCode::ProtocolError,
                        ErrorName::MalformedRequestHasDuplicatePseudoHeaderMethod,
                    ),
                )
            } else {
                check_names(rest, assert_request, true, has_scheme, has_path)
            }
        } else if known_name(n) == Some(HeaderName::PseudoScheme) {
            if has_scheme {
                Some(
                    HttpError::StreamError(
                        ErrorCode::ProtocolError,
                        ErrorName::MalformedRequestHasDuplicatePseudoHeaderScheme,
                    ),
                )
            } else {
                check_names(rest, assert_request, has_method, true, has_path)
            }
        } else if known_name(n) == Some(HeaderName::PseudoPath) {
            if has_path {
                Some(
                    HttpError::StreamError(
                        ErrorCode::ProtocolError,
                        ErrorName::MalformedRequestHasDuplicatePseudoHeaderPath,
                    ),
                )
            } else {
                check_names(rest, assert_request, has_method, has_scheme, true)
            }
        } else {
            check_names(rest, assert_request, has_method, has_scheme, has_path)
        }
    }
}

/// The names of decoded headers.
pub open spec fn hpack_names(hs: Seq<(Seq<char>, Seq<char>, bool)>) -> Seq<Seq<char>> {
    hs.map_values(|h: (Seq<char>, Seq<char>, bool)| h.0)
}

/// A converted header: the name as the known header it stands for, or a
/// custom header with the name as given; the value and flag kept.
pub open spec fn converted(out: Header, name: Seq<char>) -> bool {
    match known_name(name) {
        Some(k) => out.spec_header_name() == k,
        None => out.spec_header_name() matches HeaderName::CustomHeader(s) && s@ == name,
    }
}

/// Converts decoded headers to HTTP/2 headers, checking their names; a
/// request block must have its pseudo-headers.
fn hpack_to_http2_headers(hpack_headers: Vec<Header>, assert_request: bool) -> (r: Result<
    Headers,
    HttpError,
>)
    ensures
        ({
            let hv = headers_view(hpack_headers@);
            match check_names(hpack_names(hv), assert_request, false, false, false) {
                Some(e) => r == Err::<Headers, HttpError>(e),
                None => r matches Ok(hs) && hs@.len() == hpack_headers@.len() && forall|i: int|
                    0 <= i < hs@.len() ==> {
                        &&& converted(#[trigger] hs@[i], hv[i].0)
                        &&& hs@[i].spec_header_value() == hpack_headers@[i].spec_header_value()
                        &&& hs@[i].spec_allow_compression()
                            == hpack_headers@[i].spec_allow_compression()
                    },
            }
        }),
{
    let ghost input = hpack_headers@;
    let ghost names = hpack_names(headers_view(input));
    let mut headers = Headers::new();
    let mut has_method = false;
    let mut has_scheme = false;
    let mut has_path = false;
    let mut rest = hpack_headers;
    let ghost mut k: int = 0;
    assert(names.skip(0) =~= names);
    while rest.len() > 0
        invariant
            0 <= k <= input.len(),
            input == hpack_headers@,
            rest@ == input.skip(k),
            names == hpack_names(headers_view(input)),
            names.len() == input.len(),
            check_names(names, assert_request, false, false, false) == check_names(
                names.skip(k),
                assert_request,
                has_method,
                has_scheme,
                has_path,
            ),
            headers@.len() == k,
            forall|i: int|
                0 <= i < k ==> {
                    &&& converted(#[trigger] headers@[i], names[i])
                    &&& headers@[i].spec_header_value() == input[i].spec_header_value()
                    &&& headers@[i].spec_allow_compression() == input[i].spec_allow_compression()
                },
        decreases rest.len(),
    {
        let mut header = rest.remove(0);
        proof {
            assert(rest@.len() + 1 == input.skip(k).len());
            assert(k < input.len());
            assert(header == input[k]);
            assert(names[k] == <Header as HpackHeaderTrait>::spec_name(&input[k]));
            assert(names.skip(k).drop_first() =~= names.skip(k + 1));
            assert(names.skip(k)[0] == names[k]);
            lemma_header_hpack_view(header);
        }
        let name_text = header.get_name();
        assert(names.skip(k)[0] == name_text@);
        assert(names.skip(k).len() > 0);
        if match_header_name(name_text.as_str()).is_none() {
            return Err(
                HttpError::StreamError(
                    ErrorCode::ProtocolError,
                    ErrorName::NonLowerCaseHeaderNameIsRejectedAsMalformed,
                ),
            );
        }
        let new_name = HeaderName::from(name_text.as_str());
        if assert_request {
            match &new_name {
                HeaderName::PseudoMethod => {
                    if has_method {
                        return Err(
                            HttpError::StreamError(
                                ErrorCode::ProtocolError,
                                ErrorName::MalformedRequestHasDuplicatePseudoHeaderMethod,
                            ),
                        );
                    }
                    has_method = true;
                },
                HeaderName::PseudoScheme => {
                    if has_scheme {
                        return Err(
                            HttpError::StreamError(
                                ErrorCode::ProtocolError,
                                ErrorName::MalformedRequestHasDuplicatePseudoHeaderScheme,
                            ),
                        );
                    }
                    has_scheme = true;
                },
                HeaderName::PseudoPath => {
                    if has_path {
                        return Err(
                            HttpError::StreamError(
                                ErrorCode::ProtocolError,
                                ErrorName::MalformedRequestHasDuplicatePseudoHeaderPath,
                            ),
                        );
                    }
                    has_path = true;
                },
                _ => {},
            }
        }
        header.set_name(new_name);
        headers.push_header(header);
        proof {
            assert(rest@ =~= input.skip(k + 1));
            k = k + 1;
        }
    }
    proof {
        assert(names.skip(k) =~= Seq::<Seq<char>>::empty());
    }
    if assert_request && (!has_method || !has_scheme || !has_path) {
        return Err(
            HttpError::StreamError(
                ErrorCode::ProtocolError,
                ErrorName::MalformedRequestHasMissingRequiredPseudoHeader,
            ),
        );
    }
    Ok(headers)
}

/// Headers converted from a decoded block: each name converted, each value
/// the decoded text, each compression flag kept.
pub open spec fn headers_from_block(out: Seq<Header>, block: Seq<(Seq<char>, Seq<char>, bool)>) -> bool {
    &&& out.len() == block.len()
    &&& forall|i: int|
        0 <= i < out.len() ==> {
            &&& converted(#[trigger] out[i], block[i].0)
            &&& crate::http2::header::header_value_text(out[i].spec_header_value()) == block[i].1
            &&& out[i].spec_allow_compression() == block[i].2
        }
}

/// The request a stream receives: its headers, its payload, and trailing
/// headers.
#[derive(Debug)]
pub struct StreamRequest {
    pub headers: Headers,
    pub payload: Option<Vec<u8>>,
    pub trailer_headers: Option<Headers>,
}

/// The result of decoding a header block in a decoder context.
pub open spec fn decode_block(
    static_fields: Seq<(Seq<char>, Seq<char>)>,
    dynamic: Seq<(Seq<char>, Seq<char>)>,
    max_size: int,
    block: Seq<u8>,
) -> Option<(Seq<(Seq<char>, Seq<char>)>, int, Seq<(Seq<char>, Seq<char>, bool)>, int)> {
    unpack_from(static_fields, block, 0, (dynamic, max_size, Seq::empty(), 0))
}

/// The error for a header block that does not decode.
pub open spec fn decoding_error() -> HttpError {
    HttpError::ConnectionError(ErrorCode::CompressionError, ErrorName::HeaderBlockDecodingFailed)
}

/// The error, if any, of storing a complete header block: `None` when it
/// decodes and its names pass the checks (the request checks when no request
/// headers have been received yet).
pub open spec fn block_error(ctx: RecvContext, headers_empty: bool, block: Seq<u8>) -> Option<HttpError> {
    match decode_block(ctx.static_fields(), ctx.dynamic_fields(), ctx.dynamic_max_size() as int, block) {
        None => Some(decoding_error()),
        Some(st) => check_names(hpack_names(st.2), headers_empty, false, false, false),
    }
}

/// What storing a complete header block does to a request and to the
/// decoder context: a block that does not decode changes neither; else the
/// context takes the table the block left; the decoded headers become the
/// request headers when none were received, else the trailing headers,
/// provided their names pass the checks.
pub open spec fn block_processed(
    old_req: StreamRequest,
    new_req: StreamRequest,
    old_ctx: RecvContext,
    new_ctx: RecvContext,
    block: Seq<u8>,
) -> bool {
    &&& new_req.payload == old_req.payload
    &&& match decode_block(
        old_ctx.static_fields(),
        old_ctx.dynamic_fields(),
        old_ctx.dynamic_max_size() as int,
        block,
    ) {
        None => new_req.headers@ == old_req.headers@ && new_req.trailer_headers
            == old_req.trailer_headers,
        Some(st) => {
            &&& new_ctx.dynamic_fields() == st.0
            &&& new_ctx.dynamic_max_size() == st.1
            &&& if old_req.headers@.len() == 0 {
                &&& new_req.trailer_headers == old_req.trailer_headers
                &&& match check_names(hpack_names(st.2), true, false, false, false) {
                    Some(e) => new_req.headers@ == old_req.headers@,
                    None => headers_from_block(new_req.headers@, st.2),
                }
            } else {
                &&& new_req.headers@ == old_req.headers@
                &&& match check_names(hpack_names(st.2), false, false, false, false) {
                    Some(e) => new_req.trailer_headers == old_req.trailer_headers,
                    None => new_req.trailer_headers matches Some(t) && headers_from_block(t@, st.2),
                }
            }
        },
    }
}

impl StreamRequest {
    pub fn new() -> (r: Self)
        ensures
            r.headers@.len() == 0,
            r.payload is None,
            r.trailer_headers is None,
    {
        StreamRequest { headers: Headers::new(), payload: None, trailer_headers: None }
    }

    /// Decodes a complete header block and stores it: as the request headers
    /// when none have been received, else as the trailing headers. A block
    /// that does not decode is a COMPRESSION_ERROR; a block whose names fail
    /// the checks leaves the request as it was and its error is returned.
    pub fn process_temp_header_block(
        &mut self,
        temp_header_block: &[u8],
        hpack_recv_context: &mut RecvContext,
    ) -> (r: Option<HttpError>)
        requires
            old(hpack_recv_context).wf(),
            !(old(self).headers@.len() > 0 && old(self).trailer_headers is Some),
        ensures
            final(hpack_recv_context).wf(),
            final(hpack_recv_context).static_fields() == old(hpack_recv_context).static_fields(),
            r == block_error(*old(hpack_recv_context), old(self).headers@.len() == 0, temp_header_block@),
            block_processed(
                *old(self),
                *final(self),
                *old(hpack_recv_context),
                *final(hpack_recv_context),
                temp_header_block@,
            ),
    {
        let mut decoded = UnpackedHeaders::<Header>::new();
        proof {
            assert(headers_view(decoded.headers@) =~= Seq::<(Seq<char>, Seq<char>, bool)>::empty());
        }
        if !unpack::unpack(temp_header_block, hpack_recv_context, &mut decoded) {
            return Some(
                HttpError::ConnectionError(ErrorCode::CompressionError, ErrorName::HeaderBlockDecodingFailed),
            );
        }
        let ghost block = headers_view(decoded.headers@);
        proof {
            assert forall|i: int| 0 <= i < decoded.headers@.len() implies {
                &&& crate::http2::header::header_value_text(decoded.headers@[i].spec_header_value()) == #[trigger] block[i].1
                &&& decoded.headers@[i].spec_allow_compression() == block[i].2
            } by {
                lemma_header_hpack_view(decoded.headers@[i]);
            }
        }
        if self.headers.is_empty() {
            match hpack_to_http2_headers(decoded.headers, true) {
                Ok(headers) => {
                    self.headers = headers;
                },
                Err(e) => {
                    return Some(e);
                },
            }
        } else if self.trailer_headers.is_none() {
            match hpack_to_http2_headers(decoded.headers, false) {
                Ok(headers) => {
                    self.trailer_headers = Some(headers);
                },
                Err(e) => {
                    return Some(e);
                },
            }
        }
        None
    }
}

} // verus!
