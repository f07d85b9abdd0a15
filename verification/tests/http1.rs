use osmium::http::header::HeaderName;
use osmium::http::server::{get_addr, Settings};
use osmium::http::status::HttpStatus;
use osmium::http_version::HttpVersion;

#[test]
fn default_address() {
    assert_eq!("0.0.0.0:8000", get_addr(None));
    assert_eq!("0.0.0.0:8000", get_addr(Some(Settings { host: None, port: None })));
}

#[test]
fn configured_address() {
    assert_eq!(
        "localhost:8080",
        get_addr(Some(Settings { host: Some("localhost".to_owned()), port: Some(8080) }))
    );
}

#[test]
fn status_lines() {
    assert_eq!("200 OK", HttpStatus::Okay.to_string());
    assert_eq!("400 Bad Request", HttpStatus::BadRequest.to_string());
    assert_eq!("404 Not Found", HttpStatus::NotFound.to_string());
    assert_eq!("418 I'm a teapot", HttpStatus::Custom("418".to_owned(), "I'm a teapot".to_owned()).to_string());
}

#[test]
fn versions() {
    assert_eq!(HttpVersion::Http10, HttpVersion::from_minor_version(0));
    assert_eq!(HttpVersion::Http11, HttpVersion::from_minor_version(1));
    assert_eq!("1.1", HttpVersion::Http11.to_string());
    assert_eq!("2", HttpVersion::Http2.to_string());
}

#[test]
fn header_name_text() {
    assert_eq!("Content-Length", String::from(HeaderName::ContentLength));
}

use osmium::http::header::{HeaderValue, Headers};
use osmium::http::request::{decode, parse_i32};
use osmium::http::response::{encode, Response};

#[test]
fn decimal_text_is_read_as_i32() {
    assert_eq!(Some(42), parse_i32(b"42"));
    assert_eq!(Some(-7), parse_i32(b"-7"));
    assert_eq!(Some(5), parse_i32(b"+5"));
    assert_eq!(Some(2147483647), parse_i32(b"2147483647"));
    assert_eq!(Some(-2147483648), parse_i32(b"-2147483648"));
    assert_eq!(None, parse_i32(b"2147483648"));
    assert_eq!(None, parse_i32(b""));
    assert_eq!(None, parse_i32(b"-"));
    assert_eq!(None, parse_i32(b"12a"));
    assert_eq!(None, parse_i32(b"99999999999999999999"));
}

#[test]
fn request_is_decoded_with_its_headers_and_body() {
    let buf = b"POST /form HTTP/1.0\r\nHost: localhost\r\nContent-Length: 5\r\n\r\nhello";
    let (request, consumed) = decode(buf);
    let request = request.unwrap();
    assert_eq!(buf.len() - 5, consumed);
    assert_eq!(HttpVersion::Http10, request.version);
    assert_eq!("/form", request.uri);
    assert_eq!(Some("hello".to_owned()), request.body);
}

#[test]
fn empty_input_decodes_to_nothing() {
    let (request, consumed) = decode(b"");
    assert!(request.is_none());
    assert_eq!(0, consumed);
}

#[test]
fn partial_or_bad_request_is_consumed() {
    let (request, consumed) = decode(b"GET / HTTP/1.1\r\nHost: x");
    assert!(request.is_none());
    assert_eq!(23, consumed);
    let (request, consumed) = decode(b"GET / HTTP/9.9\r\n\r\n");
    assert!(request.is_none());
    assert_eq!(18, consumed);
    let (request, _) = decode(b"GET / HTTP/1.1\r\nContent-Length: many\r\n\r\n");
    assert!(request.is_none());
}

#[test]
fn response_is_encoded_with_status_line_headers_and_body() {
    let mut headers = Headers::new();
    headers.add(HeaderName::ContentLength, HeaderValue::Num(2));
    let response = Response {
        version: HttpVersion::Http11,
        status: HttpStatus::Okay,
        headers,
        body: Some("hi".to_owned()),
    };
    assert_eq!(b"HTTP/1.1 200 OK\r\nContent-Length: 2\r\n\r\nhi".to_vec(), encode(&response));
    let bare = Response { version: HttpVersion::Http10, status: HttpStatus::NotFound, headers: Headers::new(), body: None };
    assert_eq!(b"HTTP/1.0 404 Not Found\r\n\r\n".to_vec(), encode(&bare));
}

#[test]
fn header_names_are_read_from_text() {
    assert_eq!("Content-Length", String::from(HeaderName::from("Content-Length")));
    assert!(matches!(HeaderName::from("Content-Length"), HeaderName::ContentLength));
    assert!(matches!(HeaderName::from("Host"), HeaderName::CustomHeader(_)));
}

#[test]
fn numeric_header_values_are_written_in_decimal() {
    for (n, text) in [(0, "0"), (7, "7"), (10, "10"), (-42, "-42"), (i32::MAX, "2147483647"), (i32::MIN, "-2147483648")] {
        let mut headers = Headers::new();
        headers.add(HeaderName::CustomHeader("X".to_owned()), HeaderValue::Num(n));
        let response = Response { version: HttpVersion::Http11, status: HttpStatus::Okay, headers, body: None };
        let expected = format!("HTTP/1.1 200 OK\r\nX: {}\r\n\r\n", text);
        assert_eq!(expected.into_bytes(), encode(&response));
    }
}
