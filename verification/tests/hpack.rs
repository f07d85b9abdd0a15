use osmium::http2::header::Header;
use osmium::http2::hpack::context::ContextTrait;
use osmium::http2::hpack::header_trait::HpackHeaderTrait;
use osmium::http2::hpack::huffman::{decode as huffman_decode, encode as huffman_encode};
use osmium::http2::hpack::number::{decode as number_decode, encode as number_encode};
use osmium::http2::hpack::pack;
use osmium::http2::hpack::string::{decode as string_decode, encode as string_encode};
use osmium::http2::hpack::table::{Field, Table};
use osmium::http2::hpack::unpack;
use osmium::http2::hpack::{HPack, STATIC_TABLE_LENGTH};

type FakeHeader = Header;

fn field(name: &str, value: &str) -> Field {
    Field { name: name.to_owned(), value: value.to_owned() }
}

fn to_hex_dump(octets: &[u8]) -> String {
    let mut hex = Vec::new();
    for v in octets {
        for c in format!("{:02x}", v).chars() {
            hex.push(c);
        }
    }
    let mut dump = String::new();
    for (i, pair) in hex.chunks(4).enumerate() {
        if i > 0 {
            dump.push(' ');
        }
        for c in pair {
            dump.push(*c);
        }
    }
    dump
}

fn assert_headers(expected: &Vec<FakeHeader>, actual: &Vec<FakeHeader>) {
    assert_eq!(expected.len(), actual.len());
    for (e, a) in expected.iter().zip(actual.iter()) {
        assert_eq!(e.get_name(), a.get_name());
        assert_eq!(e.get_value(), a.get_value());
        assert_eq!(e.is_allow_compression(), a.is_allow_compression());
    }
}

fn assert_table_entry<'a, T: ContextTrait<'a>>(context: &T, index: usize, name: &str, value: &str) {
    let entry = context.get(index);
    assert!(entry.is_some());
    let f = entry.unwrap();
    assert_eq!(name, &f.name.to_lowercase());
    assert_eq!(value, &f.value);
}

fn assert_contexts_equal<'a, 'b, T: ContextTrait<'a>, S: ContextTrait<'b>>(expected: &T, actual: &S) {
    assert_eq!(expected.size(), actual.size());
    let mut index = STATIC_TABLE_LENGTH;
    loop {
        match expected.get(index) {
            Some(entry) => {
                assert_table_entry(actual, index, entry.name.to_lowercase().as_ref(), entry.value.as_ref());
                index += 1;
            },
            None => break,
        }
    }
}

#[test]
fn mod_encode_hello_world() {
    let es = huffman_encode(b"Hello, world!");
    assert_eq!(vec!(198, 90, 40, 63, 210, 158, 15, 101, 18, 127, 31), es);
}

#[test]
fn mod_decode_hello_world() {
    let es = huffman_encode(b"Hello, world!");
    assert_eq!("Hello, world!", String::from_utf8(huffman_decode(es.as_slice())).unwrap());
}

#[test]
fn round_trip_whole_alphabet() {
    let mut string = String::new();
    for i in 0..256 {
        string.push(i as u8 as char);
    }
    let result = huffman_decode(huffman_encode(string.as_bytes()).as_slice());
    assert_eq!(string, String::from_utf8(result).unwrap());
}

#[test]
fn encdode_in_prefix() {
    let en = number_encode(10, 5);
    assert_eq!(10, en.prefix);
    assert!(en.rest.is_none());
}

#[test]
fn decode_prefix_only() {
    let en = number_encode(10, 5);
    let octets = vec!(en.prefix);
    let dn = number_decode(&octets, 5).unwrap();
    assert_eq!(1, dn.octets_read);
    assert_eq!(10, dn.num);
}

#[test]
fn encode_using_rest() {
    let en = number_encode(1337, 5);
    assert_eq!(31, en.prefix);
    assert!(en.rest.is_some());
    let rest = en.rest.unwrap();
    assert_eq!(154, rest[0]);
    assert_eq!(10, rest[1]);
}

#[test]
fn decode_using_rest() {
    let en = number_encode(1337, 5);
    let mut octets = vec!(en.prefix);
    octets.extend(en.rest.unwrap());
    let de = number_decode(&octets, 5).unwrap();
    assert_eq!(3, de.octets_read);
    assert_eq!(1337, de.num);
}

#[test]
fn encode_starting_at_octet_boundary() {
    let en = number_encode(42, 8);
    assert_eq!(42, en.prefix);
    assert!(en.rest.is_none());
}

#[test]
fn decode_starting_at_octet_boundary() {
    let en = number_encode(42, 8);
    let octets = vec!(en.prefix);
    let dn = number_decode(&octets, 8).unwrap();
    assert_eq!(1, dn.octets_read);
    assert_eq!(42, dn.num);
}

#[test]
fn string_encode_hello_world() {
    let result = string_encode(b"Hello, World!", false);
    assert_eq!(14, result.len());
    assert_eq!(13, result[0]);
    assert_eq!("Hello, World!", String::from_utf8(result[1..].to_vec()).unwrap());
}

#[test]
fn string_decode_hello_world() {
    let es = string_encode(b"Hello, World!", false);
    let ds = string_decode(&es).unwrap();
    assert_eq!(14, ds.octets_read);
    assert_eq!("Hello, World!", String::from_utf8(ds.string).unwrap());
}

#[test]
fn round_trip_huffman_hello_world() {
    let result = string_encode(b"Hello, World!", true);
    let decoded = string_decode(&result).unwrap();
    assert_eq!("Hello, World!", String::from_utf8(decoded.string).unwrap());
}

const LONG_STRING: &str = "this is an excessively long string which overflows the prefix, to check that the 'rest' length bytes are included in the string encoding";

#[test]
fn encode_string_which_has_length_encoding_too_long_for_prefix() {
    let test_string = LONG_STRING.to_owned();
    let result = string_encode(test_string.as_bytes(), false);
    assert_eq!(138, result.len());
    assert!(result[0] & 128 == 0);
    let dn = number_decode(&vec!(result[0], result[1]), 7).unwrap();
    assert_eq!(2, dn.octets_read);
    assert_eq!(test_string.len(), dn.num as usize);
    assert_eq!(test_string, String::from_utf8(result[2..].to_vec()).unwrap());
}

#[test]
fn decode_string_which_has_length_encoding_too_long_for_prefix() {
    let test_string = LONG_STRING.to_owned();
    let es = string_encode(test_string.as_bytes(), false);
    let ds = string_decode(&es).unwrap();
    assert_eq!(2 + test_string.len(), ds.octets_read as usize);
    assert_eq!(test_string, String::from_utf8(ds.string).unwrap());
}

#[test]
fn number_decode_ignores_bits_above_prefix() {
    // The flag bits above a 5-bit prefix do not count.
    let dn = number_decode(&[0xe0 | 10], 5).unwrap();
    assert_eq!(10, dn.num);
    assert_eq!(1, dn.octets_read);
}

#[test]
fn string_decode_reads_what_is_present_of_a_truncated_literal() {
    // The length says 13 octets, only 3 follow: the declared length is
    // counted, the string holds what is present.
    let ds = string_decode(&[13, b'a', b'b', b'c']).unwrap();
    assert_eq!(14, ds.octets_read);
    assert_eq!(b"abc".to_vec(), ds.string);
}

#[test]
fn encode_custom_header() {
    let hpack = HPack::new();
    let mut encoding_context = hpack.new_send_context();
    let headers = vec![FakeHeader::from_field(field("custom-key", "custom-header"))];
    let encoded = pack::pack(&headers, &mut encoding_context, false);
    assert_eq!("400a 6375 7374 6f6d 2d6b 6579 0d63 7573 746f 6d2d 6865 6164 6572", to_hex_dump(encoded.as_slice()));
}

#[test]
fn decode_custom_header() {
    let hpack = HPack::new();
    let headers = vec![FakeHeader::from_field(field("custom-key", "custom-header"))];
    let mut encoding_context = hpack.new_send_context();
    let encoded = pack::pack(&headers, &mut encoding_context, false);
    let mut decoding_context = hpack.new_recv_context();
    let mut decoded = unpack::UnpackedHeaders::<FakeHeader>::new();
    assert!(unpack::unpack(&encoded, &mut decoding_context, &mut decoded));
    assert_headers(&headers, &decoded.headers);
    assert_eq!(55, decoding_context.size());
    assert_table_entry(&decoding_context, 62, "custom-key", "custom-header");
    assert_contexts_equal(&decoding_context, &encoding_context);
}

#[test]
fn encode_literal_field_without_indexing() {
    let hpack = HPack::new();
    let mut encoding_context = hpack.new_send_context();
    let headers = vec![FakeHeader::from_field(field(":path", "/sample/path"))];
    let encoded = pack::pack(&headers, &mut encoding_context, false);
    assert_eq!("040c 2f73 616d 706c 652f 7061 7468", to_hex_dump(encoded.as_slice()));
}

#[test]
fn decode_literal_field_without_indexing() {
    let hpack = HPack::new();
    let headers = vec![FakeHeader::from_field(field(":path", "/sample/path"))];
    let mut encoding_context = hpack.new_send_context();
    let encoded = pack::pack(&headers, &mut encoding_context, false);
    let mut decoding_context = hpack.new_recv_context();
    let mut decoded = unpack::UnpackedHeaders::<FakeHeader>::new();
    assert!(unpack::unpack(&encoded, &mut decoding_context, &mut decoded));
    assert_headers(&headers, &decoded.headers);
    assert_eq!(0, decoding_context.size());
    assert_contexts_equal(&decoding_context, &encoding_context);
}

#[test]
fn encode_literal_field_never_indexed() {
    let hpack = HPack::new();
    let mut encoding_context = hpack.new_send_context();
    let headers = vec![FakeHeader::from_field_with_compression_flag(field("password", "secret"), false)];
    let encoded = pack::pack(&headers, &mut encoding_context, false);
    assert_eq!("1008 7061 7373 776f 7264 0673 6563 7265 74", to_hex_dump(encoded.as_slice()));
}

#[test]
fn decode_literal_field_never_indexed() {
    let hpack = HPack::new();
    let headers = vec![FakeHeader::from_field_with_compression_flag(field("password", "secret"), false)];
    let mut encoding_context = hpack.new_send_context();
    let encoded = pack::pack(&headers, &mut encoding_context, false);
    let mut decoding_context = hpack.new_recv_context();
    let mut decoded = unpack::UnpackedHeaders::<FakeHeader>::new();
    assert!(unpack::unpack(&encoded, &mut decoding_context, &mut decoded));
    assert_headers(&headers, &decoded.headers);
    assert_eq!(0, decoding_context.size());
    assert_contexts_equal(&decoding_context, &encoding_context);
}

#[test]
fn encode_indexed() {
    let hpack = HPack::new();
    let mut encoding_context = hpack.new_send_context();
    let headers = vec![FakeHeader::from_field(field(":method", "GET"))];
    let encoded = pack::pack(&headers, &mut encoding_context, false);
    assert_eq!("82", to_hex_dump(encoded.as_slice()));
}

#[test]
fn decode_indexed() {
    let hpack = HPack::new();
    let headers = vec![FakeHeader::from_field(field(":method", "GET"))];
    let mut encoding_context = hpack.new_send_context();
    let encoded = pack::pack(&headers, &mut encoding_context, false);
    let mut decoding_context = hpack.new_recv_context();
    let mut decoded = unpack::UnpackedHeaders::<FakeHeader>::new();
    assert!(unpack::unpack(&encoded, &mut decoding_context, &mut decoded));
    assert_headers(&headers, &decoded.headers);
    assert_eq!(0, decoding_context.size());
    assert_contexts_equal(&decoding_context, &encoding_context);
}

fn section_c_three_and_four_requests(use_huffman_coding: bool, one: &str, two: &str, three: &str) {
    let hpack = HPack::new();
    let mut encoding_context = hpack.new_send_context();
    let mut decoding_context = hpack.new_recv_context();

    let headers = vec![
        FakeHeader::from_field(field(":method", "GET")),
        FakeHeader::from_field(field(":scheme", "http")),
        FakeHeader::from_field(field(":path", "/")),
        FakeHeader::from_field(field(":authority", "www.example.com")),
    ];
    let encoded = pack::pack(&headers, &mut encoding_context, use_huffman_coding);
    assert_eq!(one, to_hex_dump(encoded.as_slice()));
    let mut decoded = unpack::UnpackedHeaders::<FakeHeader>::new();
    assert!(unpack::unpack(&encoded, &mut decoding_context, &mut decoded));
    assert_headers(&headers, &decoded.headers);
    assert_eq!(57, decoding_context.size());
    assert_table_entry(&decoding_context, 62, ":authority", "www.example.com");
    assert_contexts_equal(&decoding_context, &encoding_context);

    let headers = vec![
        FakeHeader::from_field(field(":method", "GET")),
        FakeHeader::from_field(field(":scheme", "http")),
        FakeHeader::from_field(field(":path", "/")),
        FakeHeader::from_field(field(":authority", "www.example.com")),
        FakeHeader::from_field(field("cache-control", "no-cache")),
    ];
    let encoded = pack::pack(&headers, &mut encoding_context, use_huffman_coding);
    assert_eq!(two, to_hex_dump(encoded.as_slice()));
    let mut decoded = unpack::UnpackedHeaders::<FakeHeader>::new();
    assert!(unpack::unpack(&encoded, &mut decoding_context, &mut decoded));
    assert_headers(&headers, &decoded.headers);
    assert_eq!(110, decoding_context.size());
    assert_table_entry(&decoding_context, 62, "cache-control", "no-cache");
    assert_table_entry(&decoding_context, 63, ":authority", "www.example.com");
    assert_contexts_equal(&decoding_context, &encoding_context);

    let headers = vec![
        FakeHeader::from_field(field(":method", "GET")),
        FakeHeader::from_field(field(":scheme", "https")),
        FakeHeader::from_field(field(":path", "/index.html")),
        FakeHeader::from_field(field(":authority", "www.example.com")),
        FakeHeader::from_field(field("custom-key", "custom-value")),
    ];
    let encoded = pack::pack(&headers, &mut encoding_context, use_huffman_coding);
    assert_eq!(three, to_hex_dump(encoded.as_slice()));
    let mut decoded = unpack::UnpackedHeaders::<FakeHeader>::new();
    assert!(unpack::unpack(&encoded, &mut decoding_context, &mut decoded));
    assert_headers(&headers, &decoded.headers);
    assert_eq!(164, decoding_context.size());
    assert_table_entry(&decoding_context, 62, "custom-key", "custom-value");
    assert_table_entry(&decoding_context, 63, "cache-control", "no-cache");
    assert_table_entry(&decoding_context, 64, ":authority", "www.example.com");
    assert_contexts_equal(&decoding_context, &encoding_context);
}

#[test]
fn decode_multiple_requests_without_huffman_coding() {
    section_c_three_and_four_requests(
        false,
        "8286 8441 0f77 7777 2e65 7861 6d70 6c65 2e63 6f6d",
        "8286 84be 5808 6e6f 2d63 6163 6865",
        "8287 85bf 400a 6375 7374 6f6d 2d6b 6579 0c63 7573 746f 6d2d 7661 6c75 65",
    );
}

#[test]
fn decode_multiple_requests_with_huffman_coding() {
    section_c_three_and_four_requests(
        true,
        "8286 8441 8cf1 e3c2 e5f2 3a6b a0ab 90f4 ff",
        "8286 84be 5886 a8eb 1064 9cbf",
        "8287 85bf 4088 25a8 49e9 5ba9 7d7f 8925 a849 e95b b8e8 b4bf",
    );
}

fn section_c_five_and_six_responses(use_huffman_coding: bool, one: &str, two: &str, three: &str) {
    let hpack = HPack::new();
    let mut encoding_context = hpack.new_send_context();
    let mut decoding_context = hpack.new_recv_context();
    encoding_context.set_max_size(256);
    decoding_context.set_max_size(256);

    let headers = vec![
        FakeHeader::from_field(field(":status", "302")),
        FakeHeader::from_field(field("cache-control", "private")),
        FakeHeader::from_field(field("date", "Mon, 21 Oct 2013 20:13:21 GMT")),
        FakeHeader::from_field(field("location", "https://www.example.com")),
    ];
    let encoded = pack::pack(&headers, &mut encoding_context, use_huffman_coding);
    assert_eq!(one, to_hex_dump(encoded.as_slice()));
    let mut decoded = unpack::UnpackedHeaders::<FakeHeader>::new();
    assert!(unpack::unpack(encoded.as_slice(), &mut decoding_context, &mut decoded));
    assert_headers(&headers, &decoded.headers);
    assert_eq!(222, decoding_context.size());
    assert_table_entry(&decoding_context, 62, "location", "https://www.example.com");
    assert_table_entry(&decoding_context, 63, "date", "Mon, 21 Oct 2013 20:13:21 GMT");
    assert_table_entry(&decoding_context, 64, "cache-control", "private");
    assert_table_entry(&decoding_context, 65, ":status", "302");
    assert_contexts_equal(&decoding_context, &encoding_context);

    let headers = vec![
        FakeHeader::from_field(field(":status", "307")),
        FakeHeader::from_field(field("cache-control", "private")),
        FakeHeader::from_field(field("date", "Mon, 21 Oct 2013 20:13:21 GMT")),
        FakeHeader::from_field(field("location", "https://www.example.com")),
    ];
    let encoded = pack::pack(&headers, &mut encoding_context, use_huffman_coding);
    assert_eq!(two, to_hex_dump(encoded.as_slice()));
    let mut decoded = unpack::UnpackedHeaders::<FakeHeader>::new();
    assert!(unpack::unpack(encoded.as_slice(), &mut decoding_context, &mut decoded));
    assert_headers(&headers, &decoded.headers);
    assert_eq!(222, decoding_context.size());
    assert_table_entry(&decoding_context, 62, ":status", "307");
    assert_table_entry(&decoding_context, 63, "location", "https://www.example.com");
    assert_table_entry(&decoding_context, 64, "date", "Mon, 21 Oct 2013 20:13:21 GMT");
    assert_table_entry(&decoding_context, 65, "cache-control", "private");
    assert_contexts_equal(&decoding_context, &encoding_context);

    let headers = vec![
        FakeHeader::from_field(field(":status", "200")),
        FakeHeader::from_field(field("cache-control", "private")),
        FakeHeader::from_field(field("date", "Mon, 21 Oct 2013 20:13:22 GMT")),
        FakeHeader::from_field(field("location", "https://www.example.com")),
        FakeHeader::from_field(field("content-encoding", "gzip")),
        FakeHeader::from_field(field("set-cookie", "foo=ASDJKHQKBZXOQWEOPIUAXQWEOIU; max-age=3600; version=1")),
    ];
    let encoded = pack::pack(&headers, &mut encoding_context, use_huffman_coding);
    assert_eq!(three, to_hex_dump(encoded.as_slice()));
    let mut decoded = unpack::UnpackedHeaders::<FakeHeader>::new();
    assert!(unpack::unpack(encoded.as_slice(), &mut decoding_context, &mut decoded));
    assert_headers(&headers, &decoded.headers);
    assert_eq!(215, decoding_context.size());
    assert_table_entry(&decoding_context, 62, "set-cookie", "foo=ASDJKHQKBZXOQWEOPIUAXQWEOIU; max-age=3600; version=1");
    assert_table_entry(&decoding_context, 63, "content-encoding", "gzip");
    assert_table_entry(&decoding_context, 64, "date", "Mon, 21 Oct 2013 20:13:22 GMT");
    assert_contexts_equal(&decoding_context, &encoding_context);
}

#[test]
fn multiple_responses_without_huffman_coding() {
    section_c_five_and_six_responses(
        false,
        "4803 3330 3258 0770 7269 7661 7465 611d 4d6f 6e2c 2032 3120 4f63 7420 3230 3133 2032 303a 3133 3a32 3120 474d 546e 1768 7474 7073 3a2f 2f77 7777 2e65 7861 6d70 6c65 2e63 6f6d",
        "4803 3330 37c1 c0bf",
        "88c1 611d 4d6f 6e2c 2032 3120 4f63 7420 3230 3133 2032 303a 3133 3a32 3220 474d 54c0 5a04 677a 6970 7738 666f 6f3d 4153 444a 4b48 514b 425a 584f 5157 454f 5049 5541 5851 5745 4f49 553b 206d 6178 2d61 6765 3d33 3630 303b 2076 6572 7369 6f6e 3d31",
    )
}

#[test]
fn multiple_responses_with_huffman_coding() {
    section_c_five_and_six_responses(
        true,
        "4882 6402 5885 aec3 771a 4b61 96d0 7abe 9410 54d4 44a8 2005 9504 0b81 66e0 82a6 2d1b ff6e 919d 29ad 1718 63c7 8f0b 97c8 e9ae 82ae 43d3",
        "4883 640e ffc1 c0bf",
        "88c1 6196 d07a be94 1054 d444 a820 0595 040b 8166 e084 a62d 1bff c05a 839b d9ab 77ad 94e7 821d d7f2 e6c7 b335 dfdf cd5b 3960 d5af 2708 7f36 72c1 ab27 0fb5 291f 9587 3160 65c0 03ed 4ee5 b106 3d50 07",
    )
}

#[test]
fn unpack_refuses_truncated_block() {
    let hpack = HPack::new();
    let mut decoding_context = hpack.new_recv_context();
    let mut decoded = unpack::UnpackedHeaders::<FakeHeader>::new();
    // A literal with an incremental-indexing name whose string is cut short.
    assert!(!unpack::unpack(&[0x40, 0x0a, b'c'], &mut decoding_context, &mut decoded));
}

#[test]
fn unpack_refuses_index_beyond_tables() {
    let hpack = HPack::new();
    let mut decoding_context = hpack.new_recv_context();
    let mut decoded = unpack::UnpackedHeaders::<FakeHeader>::new();
    // Index 70 with an empty dynamic table.
    assert!(!unpack::unpack(&[0x80 | 70], &mut decoding_context, &mut decoded));
}

#[test]
fn string_decode_reads_only_its_own_octets() {
    let mut octets = string_encode(b"Hello, World!", false);
    assert_eq!(14, octets.len());
    octets.extend_from_slice(&[0x82, 0x86]);
    let decoded = string_decode(&octets).unwrap();
    assert_eq!(b"Hello, World!".to_vec(), decoded.string);
    assert_eq!(14, decoded.octets_read);
}

#[test]
fn table_keeps_the_newest_entries_that_fit() {
    let mut table = Table::new();
    table.push_front(Field { name: "aa".to_owned(), value: "bb".to_owned() });
    table.push_front(Field { name: "cc".to_owned(), value: "dd".to_owned() });
    table.push_front(Field { name: "ee".to_owned(), value: "ff".to_owned() });
    assert_eq!(108, table.get_size());
    table.set_max_size(80);
    assert_eq!(2, table.len());
    assert_eq!(72, table.get_size());
    assert_eq!("ee", table.get(0).unwrap().name);
    assert_eq!("cc", table.get(1).unwrap().name);
    table.push_front(Field { name: "gg".to_owned(), value: "hh".to_owned() });
    assert!(table.get_size() <= 80);
    assert_eq!(2, table.len());
}
