//! HPACK header compression (RFC 7541).

use vstd::prelude::*;
use vstd::string::StringExecFns;

pub mod bits;
pub mod context;
pub mod flags;
pub mod header_trait;
pub mod huffman;
pub mod number;
pub mod pack;
pub mod round_trip;
pub mod string;
pub mod table;
pub mod unpack;

use self::table::{Field, Table};
use self::context::{SendContext, RecvContext, ContextTrait};

verus! {

/// The number of items in the static table (RFC 7541, section 2.3.1).
pub const STATIC_TABLE_LENGTH: usize = 61;

/// The name and value of a static table entry (RFC 7541, appendix A), from 0.
pub open spec fn static_entry(i: int) -> (Seq<char>, Seq<char>) {
    if i == 0 {
        (":authority"@, ""@)
    } else if i == 1 {
        (":method"@, "GET"@)
    } else if i == 2 {
        (":method"@, "POST"@)
    } else if i == 3 {
        (":path"@, "/"@)
    } else if i == 4 {
        (":path"@, "/index.html"@)
    } else if i == 5 {
        (":scheme"@, "http"@)
    } else if i == 6 {
        (":scheme"@, "https"@)
    } else if i == 7 {
        (":status"@, "200"@)
    } else if i == 8 {
        (":status"@, "204"@)
    } else if i == 9 {
        (":status"@, "206"@)
    } else if i == 10 {
        (":status"@, "304"@)
    } else if i == 11 {
        (":status"@, "400"@)
    } else if i == 12 {
        (":status"@, "404"@)
    } else if i == 13 {
        (":status"@, "500"@)
    } else if i == 14 {
        ("accept-charset"@, ""@)
    } else if i == 15 {
        ("accept-encoding"@, "gzip, deflate"@)
    } else if i == 16 {
        ("accept-language"@, ""@)
    } else if i == 17 {
        ("accept-ranges"@, ""@)
    } else if i == 18 {
        ("accept"@, ""@)
    } else if i == 19 {
        ("access-control-allow-origin"@, ""@)
    } else if i == 20 {
        ("age"@, ""@)
    } else if i == 21 {
        ("allow"@, ""@)
    } else if i == 22 {
        ("authorization"@, ""@)
    } else if i == 23 {
        ("cache-control"@, ""@)
    } else if i == 24 {
        ("content-disposition"@, ""@)
    } else if i == 25 {
        ("content-encoding"@, ""@)
    } else if i == 26 {
        ("content-language"@, ""@)
    } else if i == 27 {
        ("content-length"@, ""@)
    } else if i == 28 {
        ("content-location"@, ""@)
    } else if i == 29 {
        ("content-range"@, ""@)
    } else if i == 30 {
        ("content-type"@, ""@)
    } else if i == 31 {
        ("cookie"@, ""@)
    } else if i == 32 {
        ("date"@, ""@)
    } else if i == 33 {
        ("etag"@, ""@)
    } else if i == 34 {
        ("expect"@, ""@)
    } else if i == 35 {
        ("expires"@, ""@)
    } else if i == 36 {
        ("from"@, ""@)
    } else if i == 37 {
        ("host"@, ""@)
    } else if i == 38 {
        ("if-match"@, ""@)
    } else if i == 39 {
        ("if-modified-since"@, ""@)
    } else if i == 40 {
        ("if-none-match"@, ""@)
    } else if i == 41 {
        ("if-range"@, ""@)
    } else if i == 42 {
        ("if-unmodified-since"@, ""@)
    } else if i == 43 {
        ("last-modified"@, ""@)
    } else if i == 44 {
        ("link"@, ""@)
    } else if i == 45 {
        ("location"@, ""@)
    } else if i == 46 {
        ("max-forwards"@, ""@)
    } else if i == 47 {
        ("proxy-authenticate"@, ""@)
    } else if i == 48 {
        ("proxy-authorization"@, ""@)
    } else if i == 49 {
        ("range"@, ""@)
    } else if i == 50 {
        ("referer"@, ""@)
    } else if i == 51 {
        ("refresh"@, ""@)
    } else if i == 52 {
        ("retry-after"@, ""@)
    } else if i == 53 {
        ("server"@, ""@)
    } else if i == 54 {
        ("set-cookie"@, ""@)
    } else if i == 55 {
        ("strict-transport-security"@, ""@)
    } else if i == 56 {
        ("transfer-encoding"@, ""@)
    } else if i == 57 {
        ("user-agent"@, ""@)
    } else if i == 58 {
        ("vary"@, ""@)
    } else if i == 59 {
        ("via"@, ""@)
    } else {
        ("www-authenticate"@, ""@)
    }
}

/// The static table's entries are those of RFC 7541, appendix A.
pub open spec fn is_static_table(fields: Seq<(Seq<char>, Seq<char>)>) -> bool {
    &&& fields.len() == STATIC_TABLE_LENGTH
    &&& forall|i: int|
        0 <= i < STATIC_TABLE_LENGTH ==> #[trigger] fields[i] == static_entry(i)
}

/// A name of ASCII characters other than capital letters has no capital
/// letter among its octets.
proof fn lemma_ascii_lowercase(name: Seq<char>)
    requires
        forall|i: int| 0 <= i < name.len() ==> '\0' <= #[trigger] name[i] <= '\u{7f}' && !('A' <= name[i] <= 'Z'),
    ensures
        round_trip::lowercase_name(name),
{
    assert(vstd::utf8::is_ascii_chars(name));
    vstd::utf8::is_ascii_chars_encode_utf8(name);
    assert forall|i: int| 0 <= i < pack::text_bytes(name).len() implies !(65 <= #[trigger] pack::text_bytes(name)[i] <= 90) by {
        assert(name[i] as u8 == pack::text_bytes(name)[i]);
    }
}

/// The name of each static table entry has no capital letter.
proof fn lemma_static_entry_lowercase(i: int)
    requires
        0 <= i < STATIC_TABLE_LENGTH,
    ensures
        round_trip::lowercase_name(static_entry(i).0),
{
    if i == 0 {
        reveal_strlit(":authority");
        lemma_ascii_lowercase(":authority"@);
    } else if i == 1 {
        reveal_strlit(":method");
        lemma_ascii_lowercase(":method"@);
    } else if i == 2 {
        reveal_strlit(":method");
        lemma_ascii_lowercase(":method"@);
    } else if i == 3 {
        reveal_strlit(":path");
        lemma_ascii_lowercase(":path"@);
    } else if i == 4 {
        reveal_strlit(":path");
        lemma_ascii_lowercase(":path"@);
    } else if i == 5 {
        reveal_strlit(":scheme");
        lemma_ascii_lowercase(":scheme"@);
    } else if i == 6 {
        reveal_strlit(":scheme");
        lemma_ascii_lowercase(":scheme"@);
    } else if i == 7 {
        reveal_strlit(":status");
        lemma_ascii_lowercase(":status"@);
    } else if i == 8 {
        reveal_strlit(":status");
        lemma_ascii_lowercase(":status"@);
    } else if i == 9 {
        reveal_strlit(":status");
        lemma_ascii_lowercase(":status"@);
    } else if i == 10 {
        reveal_strlit(":status");
        lemma_ascii_lowercase(":status"@);
    } else if i == 11 {
        reveal_strlit(":status");
        lemma_ascii_lowercase(":status"@);
    } else if i == 12 {
        reveal_strlit(":status");
        lemma_ascii_lowercase(":status"@);
    } else if i == 13 {
        reveal_strlit(":status");
        lemma_ascii_lowercase(":status"@);
    } else if i == 14 {
        reveal_strlit("accept-charset");
        lemma_ascii_lowercase("accept-charset"@);
    } else if i == 15 {
        reveal_strlit("accept-encoding");
        lemma_ascii_lowercase("accept-encoding"@);
    } else if i == 16 {
        reveal_strlit("accept-language");
        lemma_ascii_lowercase("accept-language"@);
    } else if i == 17 {
        reveal_strlit("accept-ranges");
        lemma_ascii_lowercase("accept-ranges"@);
    } else if i == 18 {
        reveal_strlit("accept");
        lemma_ascii_lowercase("accept"@);
    } else if i == 19 {
        reveal_strlit("access-control-allow-origin");
        lemma_ascii_lowercase("access-control-allow-origin"@);
    } else if i == 20 {
        reveal_strlit("age");
        lemma_ascii_lowercase("age"@);
    } else if i == 21 {
        reveal_strlit("allow");
        lemma_ascii_lowercase("allow"@);
    } else if i == 22 {
        reveal_strlit("authorization");
        lemma_ascii_lowercase("authorization"@);
    } else if i == 23 {
        reveal_strlit("cache-control");
        lemma_ascii_lowercase("cache-control"@);
    } else if i == 24 {
        reveal_strlit("content-disposition");
        lemma_ascii_lowercase("content-disposition"@);
    } else if i == 25 {
        reveal_strlit("content-encoding");
        lemma_ascii_lowercase("content-encoding"@);
    } else if i == 26 {
        reveal_strlit("content-language");
        lemma_ascii_lowercase("content-language"@);
    } else if i == 27 {
        reveal_strlit("content-length");
        lemma_ascii_lowercase("content-length"@);
    } else if i == 28 {
        reveal_strlit("content-location");
        lemma_ascii_lowercase("content-location"@);
    } else if i == 29 {
        reveal_strlit("content-range");
        lemma_ascii_lowercase("content-range"@);
    } else if i == 30 {
        reveal_strlit("content-type");
        lemma_ascii_lowercase("content-type"@);
    } else if i == 31 {
        reveal_strlit("cookie");
        lemma_ascii_lowercase("cookie"@);
    } else if i == 32 {
        reveal_strlit("date");
        lemma_ascii_lowercase("date"@);
    } else if i == 33 {
        reveal_strlit("etag");
        lemma_ascii_lowercase("etag"@);
    } else if i == 34 {
        reveal_strlit("expect");
        lemma_ascii_lowercase("expect"@);
    } else if i == 35 {
        reveal_strlit("expires");
        lemma_ascii_lowercase("expires"@);
    } else if i == 36 {
        reveal_strlit("from");
        lemma_ascii_lowercase("from"@);
    } else if i == 37 {
        reveal_strlit("host");
        lemma_ascii_lowercase("host"@);
    } else if i == 38 {
        reveal_strlit("if-match");
        lemma_ascii_lowercase("if-match"@);
    } else if i == 39 {
        reveal_strlit("if-modified-since");
        lemma_ascii_lowercase("if-modified-since"@);
    } else if i == 40 {
        reveal_strlit("if-none-match");
        lemma_ascii_lowercase("if-none-match"@);
    } else if i == 41 {
        reveal_strlit("if-range");
        lemma_ascii_lowercase("if-range"@);
    } else if i == 42 {
        reveal_strlit("if-unmodified-since");
        lemma_ascii_lowercase("if-unmodified-since"@);
    } else if i == 43 {
        reveal_strlit("last-modified");
        lemma_ascii_lowercase("last-modified"@);
    } else if i == 44 {
        reveal_strlit("link");
        lemma_ascii_lowercase("link"@);
    } else if i == 45 {
        reveal_strlit("location");
        lemma_ascii_lowercase("location"@);
    } else if i == 46 {
        reveal_strlit("max-forwards");
        lemma_ascii_lowercase("max-forwards"@);
    } else if i == 47 {
        reveal_strlit("proxy-authenticate");
        lemma_ascii_lowercase("proxy-authenticate"@);
    } else if i == 48 {
        reveal_strlit("proxy-authorization");
        lemma_ascii_lowercase("proxy-authorization"@);
    } else if i == 49 {
        reveal_strlit("range");
        lemma_ascii_lowercase("range"@);
    } else if i == 50 {
        reveal_strlit("referer");
        lemma_ascii_lowercase("referer"@);
    } else if i == 51 {
        reveal_strlit("refresh");
        lemma_ascii_lowercase("refresh"@);
    } else if i == 52 {
        reveal_strlit("retry-after");
        lemma_ascii_lowercase("retry-after"@);
    } else if i == 53 {
        reveal_strlit("server");
        lemma_ascii_lowercase("server"@);
    } else if i == 54 {
        reveal_strlit("set-cookie");
        lemma_ascii_lowercase("set-cookie"@);
    } else if i == 55 {
        reveal_strlit("strict-transport-security");
        lemma_ascii_lowercase("strict-transport-security"@);
    } else if i == 56 {
        reveal_strlit("transfer-encoding");
        lemma_ascii_lowercase("transfer-encoding"@);
    } else if i == 57 {
        reveal_strlit("user-agent");
        lemma_ascii_lowercase("user-agent"@);
    } else if i == 58 {
        reveal_strlit("vary");
        lemma_ascii_lowercase("vary"@);
    } else if i == 59 {
        reveal_strlit("via");
        lemma_ascii_lowercase("via"@);
    } else {
        reveal_strlit("www-authenticate");
        lemma_ascii_lowercase("www-authenticate"@);
    }
}

/// The names of the static table (RFC 7541, appendix A) have no capital
/// letter, as HTTP/2 requires of header names.
pub proof fn lemma_static_table_lowercase(fields: Seq<(Seq<char>, Seq<char>)>)
    requires
        is_static_table(fields),
    ensures
        round_trip::lowercase_names(fields),
{
    assert forall|i: int| 0 <= i < fields.len() implies round_trip::lowercase_name(#[trigger] fields[i].0) by {
        assert(fields[i] == static_entry(i));
        lemma_static_entry_lowercase(i);
    }
}

/// HPACK round trip between an encoder context and a decoder context on the
/// static table, whose dynamic tables and maximum sizes are equal: the block
/// the encoder writes for a list of headers (names without capital letters)
/// decodes, in the decoder, to the same headers (names, values, and whether
/// they may be indexed), after those it decoded before, and leaves the
/// decoder's dynamic table and maximum size equal to the encoder's.
pub proof fn lemma_contexts_round_trip<T: header_trait::HpackHeaderTrait>(
    send: SendContext,
    recv: RecvContext,
    unpacked: unpack::UnpackedHeaders<T>,
    headers: Seq<T>,
    huff: bool,
)
    requires
        send.wf(),
        is_static_table(send.static_fields()),
        recv.static_fields() == send.static_fields(),
        recv.dynamic_fields() == send.dynamic_fields(),
        recv.dynamic_max_size() == send.dynamic_max_size(),
        round_trip::lowercase_names(send.dynamic_fields()),
        round_trip::lowercase_headers(pack::headers_view(headers)),
        pack::headers_encodable(pack::headers_view(headers)),
        pack::spec_pack(
            send.static_fields(),
            send.dynamic_fields(),
            send.dynamic_max_size() as int,
            send.pending_size_update(),
            pack::headers_view(headers),
            huff,
        ) is Some,
        unpacked.octets_read + 3 * pack::spec_pack(
            send.static_fields(),
            send.dynamic_fields(),
            send.dynamic_max_size() as int,
            send.pending_size_update(),
            pack::headers_view(headers),
            huff,
        )->Some_0.0.len() <= usize::MAX,
    ensures
        ({
            let (bytes, d, m) = pack::spec_pack(
                send.static_fields(),
                send.dynamic_fields(),
                send.dynamic_max_size() as int,
                send.pending_size_update(),
                pack::headers_view(headers),
                huff,
            )->Some_0;
            unpack::unpack_from(recv.static_fields(), bytes, 0, unpack::recv_state(recv, unpacked)) matches Some(st)
                && st.0 == d && st.1 == m && st.2 == pack::headers_view(unpacked.headers@) + pack::headers_view(headers)
        }),
{
    send.lemma_wf();
    lemma_static_table_lowercase(send.static_fields());
    round_trip::lemma_pack_unpack_round_trip(
        send.static_fields(),
        send.dynamic_fields(),
        send.dynamic_max_size() as int,
        send.pending_size_update(),
        pack::headers_view(headers),
        huff,
        pack::headers_view(unpacked.headers@),
        unpacked.octets_read as int,
    );
}

/// The single instance of the static table, from which contexts are made.
pub struct HPack {
    static_table: Table,
}

fn static_field(name: &str, value: &str) -> (r: Field)
    ensures
        r.name@ == name@,
        r.value@ == value@,
{
    Field { name: String::from_str(name), value: String::from_str(value) }
}

impl HPack {
    pub closed spec fn static_fields(&self) -> Seq<(Seq<char>, Seq<char>)> {
        self.static_table@
    }

    /// Builds the static table.
    pub fn new() -> (r: Self)
        ensures
            is_static_table(r.static_fields()),
    {
        let mut static_table = Table::new();
        static_table.push_back(static_field(":authority", ""));
        static_table.push_back(static_field(":method", "GET"));
        static_table.push_back(static_field(":method", "POST"));
        static_table.push_back(static_field(":path", "/"));
        static_table.push_back(static_field(":path", "/index.html"));
        static_table.push_back(static_field(":scheme", "http"));
        static_table.push_back(static_field(":scheme", "https"));
        static_table.push_back(static_field(":status", "200"));
        static_table.push_back(static_field(":status", "204"));
        static_table.push_back(static_field(":status", "206"));
        static_table.push_back(static_field(":status", "304"));
        static_table.push_back(static_field(":status", "400"));
        static_table.push_back(static_field(":status", "404"));
        static_table.push_back(static_field(":status", "500"));
        static_table.push_back(static_field("accept-charset", ""));
        static_table.push_back(static_field("accept-encoding", "gzip, deflate"));
        static_table.push_back(static_field("accept-language", ""));
        static_table.push_back(static_field("accept-ranges", ""));
        static_table.push_back(static_field("accept", ""));
        static_table.push_back(static_field("access-control-allow-origin", ""));
        static_table.push_back(static_field("age", ""));
        static_table.push_back(static_field("allow", ""));
        static_table.push_back(static_field("authorization", ""));
        static_table.push_back(static_field("cache-control", ""));
        static_table.push_back(static_field("content-disposition", ""));
        static_table.push_back(static_field("content-encoding", ""));
        static_table.push_back(static_field("content-language", ""));
        static_table.push_back(static_field("content-length", ""));
        static_table.push_back(static_field("content-location", ""));
        static_table.push_back(static_field("content-range", ""));
        static_table.push_back(static_field("content-type", ""));
        static_table.push_back(static_field("cookie", ""));
        static_table.push_back(static_field("date", ""));
        static_table.push_back(static_field("etag", ""));
        static_table.push_back(static_field("expect", ""));
        static_table.push_back(static_field("expires", ""));
        static_table.push_back(static_field("from", ""));
        static_table.push_back(static_field("host", ""));
        static_table.push_back(static_field("if-match", ""));
        static_table.push_back(static_field("if-modified-since", ""));
        static_table.push_back(static_field("if-none-match", ""));
        static_table.push_back(static_field("if-range", ""));
        static_table.push_back(static_field("if-unmodified-since", ""));
        static_table.push_back(static_field("last-modified", ""));
        static_table.push_back(static_field("link", ""));
        static_table.push_back(static_field("location", ""));
        static_table.push_back(static_field("max-forwards", ""));
        static_table.push_back(static_field("proxy-authenticate", ""));
        static_table.push_back(static_field("proxy-authorization", ""));
        static_table.push_back(static_field("range", ""));
        static_table.push_back(static_field("referer", ""));
        static_table.push_back(static_field("refresh", ""));
        static_table.push_back(static_field("retry-after", ""));
        static_table.push_back(static_field("server", ""));
        static_table.push_back(static_field("set-cookie", ""));
        static_table.push_back(static_field("strict-transport-security", ""));
        static_table.push_back(static_field("transfer-encoding", ""));
        static_table.push_back(static_field("user-agent", ""));
        static_table.push_back(static_field("vary", ""));
        static_table.push_back(static_field("via", ""));
        static_table.push_back(static_field("www-authenticate", ""));
        assert(is_static_table(static_table@));
        HPack { static_table }
    }

    /// A new encoder context on the static table.
    pub fn new_send_context(&self) -> (r: SendContext<'_>)
        ensures
            r.static_fields() == self.static_fields(),
            r.dynamic_fields() == Seq::<(Seq<char>, Seq<char>)>::empty(),
            r.dynamic_size() == 0,
            r.dynamic_max_size() == table::DEFAULT_MAX_SIZE,
            r.dynamic_max_size_setting() == table::DEFAULT_MAX_SIZE_SETTING,
            r.wf(),
            r.pending_size_update() is None,
    {
        SendContext::new(&self.static_table)
    }

    /// A new decoder context on the static table.
    pub fn new_recv_context(&self) -> (r: RecvContext<'_>)
        ensures
            r.static_fields() == self.static_fields(),
            r.dynamic_fields() == Seq::<(Seq<char>, Seq<char>)>::empty(),
            r.dynamic_size() == 0,
            r.dynamic_max_size() == table::DEFAULT_MAX_SIZE,
            r.dynamic_max_size_setting() == table::DEFAULT_MAX_SIZE_SETTING,
            r.wf(),
    {
        RecvContext::new(&self.static_table)
    }
}

} // verus!
