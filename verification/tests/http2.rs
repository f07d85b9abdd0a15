use osmium::http2::connection_core::connection::{route_frame, Connection, FrameRoute};
use osmium::http2::connection_core::flow_control::get_window_update_amount;
use osmium::http2::connection_core::stream_blocker::StreamBlocker;
use osmium::http2::error::{to_error_code, ErrorCode, ErrorName, HttpError};
use osmium::http2::frame::continuation::ContinuationFrameCompressModel;
use osmium::http2::frame::data::DataFrameCompressModel;
use osmium::http2::frame::headers::{HeaderFrame, HeadersFrameCompressModel};
use osmium::http2::frame::ping::PingFrameCompressModel;
use osmium::http2::frame::push_promise::PushPromiseFrameCompressModel;
use osmium::http2::frame::reset_stream::ResetStreamFrameCompressModel;
use osmium::http2::frame::settings::{SettingsFrame, SettingsFrameCompressModel};
use osmium::http2::frame::window_update::WindowUpdateFrameCompressModel;
use osmium::http2::frame::{compress_frame, decompress_frame, to_frame_type, Frame, FrameHeader, FrameType, OutgoingFrame};
use osmium::http2::header::{Header, HeaderName, HeaderValue, Headers};
use osmium::http2::hpack::context::SendContext;
use osmium::http2::hpack::pack;
use osmium::http2::hpack::HPack;
use osmium::http2::settings::{SettingName, Settings};
use osmium::http2::stream::state::{StreamClosedReason, StreamStateKind};
use osmium::http2::stream::stream_response::StreamResponse;
use osmium::http2::stream::Stream;

fn frame_from_octets(octets: Vec<u8>) -> Frame {
    let (header, payload) = decompress_frame(octets);
    Frame { header, payload }
}

fn request_headers(path: &str) -> Vec<Header> {
    vec![
        Header::new(HeaderName::PseudoMethod, HeaderValue::Str("GET".to_owned())),
        Header::new(HeaderName::PseudoScheme, HeaderValue::Str("https".to_owned())),
        Header::new(HeaderName::PseudoPath, HeaderValue::Str(path.to_owned())),
        Header::new(HeaderName::PseudoAuthority, HeaderValue::Str("localhost".to_owned())),
    ]
}

fn headers_frame(block: Vec<u8>, end_stream: bool, end_headers: bool, stream_id: u32) -> Frame {
    let mut model = HeadersFrameCompressModel::new(end_stream, end_headers);
    model.set_header_block_fragment(block);
    frame_from_octets(compress_frame(model, stream_id))
}

fn client_block(client: &mut SendContext, headers: &[Header]) -> Vec<u8> {
    pack::pack(headers, client, true)
}

fn header_value_text(h: &Header) -> String {
    match &h.value {
        HeaderValue::Str(s) => s.clone(),
        HeaderValue::Num(n) => n.to_string(),
    }
}

#[test]
fn example_payload() {
    let header = FrameHeader { length: 18, frame_type: Some(FrameType::Settings), flags: 0, stream_id: 0 };
    let payload = vec![0, 3, 0, 0, 0, 100, 0, 4, 64, 0, 0, 0, 0, 2, 0, 0, 0, 0];
    let decoded = SettingsFrame::new(&header, &payload);
    assert!(decoded.is_ok());
    let frame = decoded.unwrap();
    assert!(!frame.is_acknowledge());
    let parameters = frame.get_parameters();
    assert_eq!(3, parameters.len());
    assert_eq!(SettingName::SettingsMaxConcurrentStreams, parameters[0].name);
    assert_eq!(100, parameters[0].value);
    assert_eq!(SettingName::SettingsInitialWindowSize, parameters[1].name);
    assert_eq!(0x4000_0000, parameters[1].value);
    assert_eq!(SettingName::SettingsEnablePush, parameters[2].name);
    assert_eq!(0, parameters[2].value);
}

#[test]
fn settings_payload_not_multiple_of_six_is_refused() {
    let header = FrameHeader { length: 5, frame_type: Some(FrameType::Settings), flags: 0, stream_id: 0 };
    let payload = vec![0, 3, 0, 0, 0];
    match SettingsFrame::new(&header, &payload) {
        Err(e) => assert_eq!(
            HttpError::ConnectionError(ErrorCode::FrameSizeError, ErrorName::SettingsFramePayloadSizeNotAMultipleOfSix),
            e
        ),
        Ok(_) => panic!("accepted a malformed settings frame"),
    }
}

#[test]
fn frame_header_round_trip() {
    let mut model = HeadersFrameCompressModel::new(true, true);
    model.set_header_block_fragment(vec![1, 2, 3]);
    let octets = compress_frame(model, 0x8000_0005);
    assert_eq!(vec![0, 0, 3, 1, 5, 0, 0, 0, 5, 1, 2, 3], octets);
    let frame = frame_from_octets(octets);
    assert_eq!(3, frame.header.length);
    assert_eq!(Some(FrameType::Headers), frame.header.frame_type);
    assert_eq!(5, frame.header.flags);
    assert_eq!(5, frame.header.stream_id);
    let read = HeaderFrame::new(&frame.header, &frame.payload);
    assert_eq!(&[1u8, 2, 3][..], read.get_header_block_fragment());
    assert!(read.is_end_stream());
    assert!(read.is_end_headers());
}

#[test]
fn unknown_frame_type_reads_as_none() {
    assert_eq!(None, to_frame_type(10));
    assert_eq!(Some(FrameType::Continuation), to_frame_type(9));
    assert_eq!(9u8, u8::from(FrameType::Continuation));
}

#[test]
fn window_update_and_reset_frames_are_written_big_endian() {
    assert_eq!(
        vec![0, 0, 4, 8, 0, 0, 0, 0, 0, 0, 1, 0, 1],
        compress_frame(WindowUpdateFrameCompressModel::new(0x10001), 0)
    );
    assert_eq!(
        vec![0, 0, 4, 3, 0, 0, 0, 0, 3, 0, 0, 0, 8],
        compress_frame(ResetStreamFrameCompressModel::new(u32::from(ErrorCode::Cancel)), 3)
    );
}

#[test]
fn error_codes_round_trip() {
    assert_eq!(Some(ErrorCode::Cancel), to_error_code(u32::from(ErrorCode::Cancel)));
    assert_eq!(None, to_error_code(0xe));
    assert_eq!(b"stream is closed".to_vec(), Vec::<u8>::from(ErrorName::StreamIsClosed));
}

#[test]
fn window_update_amount_tops_up_to_the_maximum() {
    assert_eq!(0x7fff_ffff - 0xffff, get_window_update_amount(0xffff));
    assert_eq!(0, get_window_update_amount(0x7fff_ffff));
}

#[test]
fn stream_receives_a_request() {
    let client = HPack::new();
    let mut client_context = client.new_send_context();
    let server = HPack::new();
    let mut server_context = server.new_recv_context();
    let block = client_block(&mut client_context, &request_headers("/index.html"));

    let mut stream = Stream::new(1);
    let frame = headers_frame(block, true, true, 1);
    assert!(stream.can_recv(&frame.header, &frame.payload));
    assert_eq!(None, stream.recv(frame, &mut server_context));
    assert_eq!(StreamStateKind::HalfClosedRemote, stream.get_state_kind());

    let mut shared = osmium::http2::connection_core::connection_shared_state::ConnectionSharedState::new();
    let request = stream.take_request(&mut shared).unwrap();
    assert_eq!(1, shared.get_highest_started_processing_stream_id());
    let headers = request.headers.as_slice();
    assert_eq!(4, headers.len());
    assert!(matches!(headers[0].name, HeaderName::PseudoMethod));
    assert_eq!("GET", header_value_text(&headers[0]));
    assert!(matches!(headers[2].name, HeaderName::PseudoPath));
    assert_eq!("/index.html", header_value_text(&headers[2]));
}

#[test]
fn stream_refuses_push_promise_from_client() {
    let server = HPack::new();
    let mut server_context = server.new_recv_context();
    let mut stream = Stream::new(1);
    let mut model = PushPromiseFrameCompressModel::new(true);
    model.set_promised_stream_identifier(2);
    let frame = frame_from_octets(compress_frame(model, 1));
    assert_eq!(
        Some(HttpError::ConnectionError(ErrorCode::ProtocolError, ErrorName::CannotPushToServer)),
        stream.recv(frame, &mut server_context)
    );
    assert_eq!(StreamStateKind::Idle, stream.get_state_kind());
}

#[test]
fn stream_rejects_request_without_pseudo_headers() {
    let client = HPack::new();
    let mut client_context = client.new_send_context();
    let server = HPack::new();
    let mut server_context = server.new_recv_context();
    let block = client_block(
        &mut client_context,
        &[Header::new(HeaderName::PseudoMethod, HeaderValue::Str("GET".to_owned()))],
    );
    let mut stream = Stream::new(1);
    assert_eq!(
        Some(HttpError::StreamError(ErrorCode::ProtocolError, ErrorName::MalformedRequestHasMissingRequiredPseudoHeader)),
        stream.recv(headers_frame(block, true, true, 1), &mut server_context)
    );
    assert_eq!(StreamStateKind::Closed(StreamClosedReason::ResetLocal), stream.get_state_kind());
}

#[test]
fn stream_reads_a_block_split_over_continuation() {
    let client = HPack::new();
    let mut client_context = client.new_send_context();
    let server = HPack::new();
    let mut server_context = server.new_recv_context();
    let block = client_block(&mut client_context, &request_headers("/split"));
    let (first, second) = block.split_at(3);

    let mut stream = Stream::new(3);
    assert_eq!(None, stream.recv(headers_frame(first.to_vec(), false, false, 3), &mut server_context));
    assert_eq!(StreamStateKind::Open, stream.get_state_kind());
    let mut continuation = ContinuationFrameCompressModel::new(second.to_vec());
    continuation.set_end_headers();
    assert_eq!(None, stream.recv(frame_from_octets(compress_frame(continuation, 3)), &mut server_context));
    let mut data = DataFrameCompressModel::new(true);
    data.set_payload(b"body".to_vec());
    assert_eq!(None, stream.recv(frame_from_octets(compress_frame(data, 3)), &mut server_context));
    assert_eq!(StreamStateKind::HalfClosedRemote, stream.get_state_kind());
    let mut shared = osmium::http2::connection_core::connection_shared_state::ConnectionSharedState::new();
    let request = stream.take_request(&mut shared).unwrap();
    assert_eq!(4, request.headers.len());
    assert_eq!(Some(b"body".to_vec()), request.payload);
}

#[test]
fn continuation_without_a_block_is_a_connection_error() {
    let client = HPack::new();
    let mut client_context = client.new_send_context();
    let server = HPack::new();
    let mut server_context = server.new_recv_context();
    let block = client_block(&mut client_context, &request_headers("/"));
    let mut stream = Stream::new(1);
    assert_eq!(None, stream.recv(headers_frame(block, false, true, 1), &mut server_context));
    let continuation = ContinuationFrameCompressModel::new(vec![0x82]);
    assert_eq!(
        Some(HttpError::ConnectionError(ErrorCode::ProtocolError, ErrorName::UnexpectedContinuationFrame)),
        stream.recv(frame_from_octets(compress_frame(continuation, 1)), &mut server_context)
    );
}

#[test]
fn closed_stream_reports_frames() {
    let server = HPack::new();
    let mut server_context = server.new_recv_context();
    let mut stream = Stream::new(1);
    let client = HPack::new();
    let mut client_context = client.new_send_context();
    let block = client_block(&mut client_context, &request_headers("/"));
    assert_eq!(None, stream.recv(headers_frame(block, false, true, 1), &mut server_context));
    assert_eq!(None, stream.recv(frame_from_octets(compress_frame(ResetStreamFrameCompressModel::new(8), 1)), &mut server_context));
    assert_eq!(StreamStateKind::Closed(StreamClosedReason::ResetRemote), stream.get_state_kind());
    assert_eq!(
        Some(HttpError::ConnectionError(ErrorCode::ProtocolError, ErrorName::UnexpectedResetAfterStreamResetByRemote)),
        stream.recv(frame_from_octets(compress_frame(ResetStreamFrameCompressModel::new(8), 1)), &mut server_context)
    );
}

#[test]
fn stream_window_update_grows_and_zero_is_refused() {
    let server = HPack::new();
    let mut server_context = server.new_recv_context();
    let client = HPack::new();
    let mut client_context = client.new_send_context();
    let block = client_block(&mut client_context, &request_headers("/"));
    let mut stream = Stream::new(1);
    assert_eq!(None, stream.recv(headers_frame(block, false, true, 1), &mut server_context));
    assert_eq!(None, stream.recv(frame_from_octets(compress_frame(WindowUpdateFrameCompressModel::new(100), 1)), &mut server_context));
    assert_eq!(
        Some(HttpError::StreamError(ErrorCode::ProtocolError, ErrorName::ZeroWindowSizeIncrement)),
        stream.recv(frame_from_octets(compress_frame(WindowUpdateFrameCompressModel::new(0), 1)), &mut server_context)
    );
    assert_eq!(StreamStateKind::Closed(StreamClosedReason::ResetLocal), stream.get_state_kind());
}

fn response(status: &str, payload: Option<Vec<u8>>) -> StreamResponse {
    let mut headers = Headers::new();
    headers.push(HeaderName::PseudoStatus, HeaderValue::Str(status.to_owned()));
    StreamResponse { informational_headers: Vec::new(), headers, payload, trailer_headers: None }
}

#[test]
fn response_frames_end_the_stream_once() {
    let hpack = HPack::new();
    let mut context = hpack.new_send_context();
    let frames = response("200", Some(b"hello".to_vec())).to_frames(&mut context);
    assert_eq!(2, frames.len());
    assert_eq!(FrameType::Headers, frames[0].get_frame_type());
    assert_eq!(0x4, frames[0].get_flags());
    assert_eq!(FrameType::Data, frames[1].get_frame_type());
    assert_eq!(0x1, frames[1].get_flags());
}

#[test]
fn large_header_block_is_cut_into_continuation_frames() {
    let hpack = HPack::new();
    let mut context = hpack.new_send_context();
    let mut headers = Headers::new();
    headers.push(HeaderName::PseudoStatus, HeaderValue::Str("200".to_owned()));
    let mut long = String::new();
    for _ in 0..400 {
        long.push('x');
    }
    headers.push(HeaderName::CustomHeader("x-long".to_owned()), HeaderValue::Str(long));
    let resp = StreamResponse { informational_headers: Vec::new(), headers, payload: None, trailer_headers: None };
    let frames = resp.to_frames(&mut context);
    assert!(frames.len() >= 2);
    assert_eq!(FrameType::Headers, frames[0].get_frame_type());
    assert_eq!(0x1, frames[0].get_flags());
    assert_eq!(150, frames[0].get_length());
    for f in frames.iter().skip(1) {
        assert_eq!(FrameType::Continuation, f.get_frame_type());
    }
    assert_eq!(0x4, frames[frames.len() - 1].get_flags());
}

#[test]
fn stream_blocker_releases_oldest_first() {
    let mut blocker = StreamBlocker::new();
    assert!(!blocker.is_blocking(1));
    let mut first = DataFrameCompressModel::new(false);
    first.set_payload(vec![0; 10]);
    let mut second = DataFrameCompressModel::new(true);
    second.set_payload(vec![0; 20]);
    blocker.block_frame(1, OutgoingFrame::new(first));
    blocker.block_frame(1, OutgoingFrame::new(second));
    assert!(blocker.is_blocking(1));
    assert_eq!(vec![1], blocker.get_unblock_priorities().into_iter().collect::<Vec<u32>>());
    assert_eq!(Some(10), blocker.get_next_send_size(1));
    assert_eq!(10, blocker.get_next_frame(1).unwrap().get_length());
    assert_eq!(Some(20), blocker.get_next_send_size(1));
    assert!(blocker.get_next_frame(1).is_some());
    assert_eq!(None, blocker.get_next_send_size(1));
    assert!(blocker.get_next_frame(2).is_none());
}

#[test]
fn route_frame_decides_by_type_and_stream() {
    let header = |t: Option<FrameType>, id: u32, length: u32| FrameHeader { length, frame_type: t, flags: 0, stream_id: id };
    assert_eq!(FrameRoute::Discard, route_frame(true, 16384, true, &header(Some(FrameType::Ping), 0, 8)));
    assert_eq!(
        FrameRoute::Refuse(HttpError::ConnectionError(ErrorCode::ProtocolError, ErrorName::FramePayloadLargerThanSettingsValue)),
        route_frame(false, 16384, true, &header(Some(FrameType::Data), 1, 16385))
    );
    assert_eq!(
        FrameRoute::Refuse(HttpError::ConnectionError(ErrorCode::ProtocolError, ErrorName::HeaderBlockInterupted)),
        route_frame(false, 16384, false, &header(Some(FrameType::Data), 1, 1))
    );
    assert_eq!(FrameRoute::Ignore, route_frame(false, 16384, true, &header(None, 1, 1)));
    assert_eq!(FrameRoute::Ping, route_frame(false, 16384, true, &header(Some(FrameType::Ping), 0, 8)));
    assert_eq!(
        FrameRoute::Refuse(HttpError::ConnectionError(ErrorCode::ProtocolError, ErrorName::StreamIdentifierOnConnectionFrame)),
        route_frame(false, 16384, true, &header(Some(FrameType::Ping), 1, 8))
    );
    assert_eq!(
        FrameRoute::Refuse(HttpError::ConnectionError(ErrorCode::ProtocolError, ErrorName::MissingStreamIdentifierOnStreamFrame)),
        route_frame(false, 16384, true, &header(Some(FrameType::Headers), 0, 1))
    );
    assert_eq!(FrameRoute::DataToStream, route_frame(false, 16384, true, &header(Some(FrameType::Data), 1, 1)));
    assert_eq!(FrameRoute::ConnectionWindowUpdate, route_frame(false, 16384, true, &header(Some(FrameType::WindowUpdate), 0, 4)));
    assert_eq!(FrameRoute::ToStream, route_frame(false, 16384, true, &header(Some(FrameType::WindowUpdate), 1, 4)));
    assert_eq!(FrameRoute::Ignore, route_frame(false, 16384, true, &header(Some(FrameType::Priority), 1, 5)));
    assert_eq!(FrameRoute::Settings, route_frame(false, 16384, true, &header(Some(FrameType::Settings), 0, 0)));
    assert_eq!(FrameRoute::Unhandled, route_frame(false, 16384, true, &header(Some(FrameType::GoAway), 0, 8)));
}

const SETTINGS_ACK: [u8; 9] = [0, 0, 0, 4, 1, 0, 0, 0, 0];

#[test]
fn connection_acknowledges_initial_settings() {
    let hpack = HPack::new();
    let mut connection = Connection::new(
        hpack.new_send_context(),
        hpack.new_recv_context(),
        Settings::spec_default(),
        SettingsFrame::new_noop(),
    );
    assert!(!connection.is_shutdown());
    assert_eq!(Some(SETTINGS_ACK.to_vec()), connection.pull_frame());
    assert_eq!(None, connection.pull_frame());
}

fn new_connection(hpack: &HPack) -> Connection<'_> {
    let mut connection = Connection::new(
        hpack.new_send_context(),
        hpack.new_recv_context(),
        Settings::spec_default(),
        SettingsFrame::new_noop(),
    );
    connection.pull_frame();
    connection
}

#[test]
fn connection_answers_ping() {
    let hpack = HPack::new();
    let mut connection = new_connection(&hpack);
    let mut ping = PingFrameCompressModel::new();
    ping.set_ping_payload([1, 2, 3, 4, 5, 6, 7, 8]);
    let frame = frame_from_octets(compress_frame(ping, 0));
    assert!(connection.can_recv(&frame));
    assert!(connection.recv(frame).is_none());
    assert_eq!(Some(vec![0, 0, 8, 6, 1, 0, 0, 0, 0, 1, 2, 3, 4, 5, 6, 7, 8]), connection.pull_frame());
}

#[test]
fn connection_shuts_down_on_oversize_frame() {
    let hpack = HPack::new();
    let mut connection = new_connection(&hpack);
    let frame = Frame {
        header: FrameHeader { length: 16385, frame_type: Some(FrameType::Data), flags: 0, stream_id: 1 },
        payload: vec![0; 16385],
    };
    assert!(connection.recv(frame).is_none());
    assert!(connection.is_shutdown());
    let go_away = connection.pull_frame().unwrap();
    assert_eq!(7, go_away[3]);
    // Last stream 0, then the PROTOCOL_ERROR code.
    assert_eq!(&[0, 0, 0, 0, 0, 0, 0, 1], &go_away[9..17]);
    // A shutting down connection drops what it receives.
    let mut ping = PingFrameCompressModel::new();
    ping.set_ping_payload([0; 8]);
    assert!(connection.recv(frame_from_octets(compress_frame(ping, 0))).is_none());
    assert_eq!(None, connection.pull_frame());
}

#[test]
fn connection_refuses_even_client_stream() {
    let hpack = HPack::new();
    let mut connection = new_connection(&hpack);
    let client = HPack::new();
    let mut client_context = client.new_send_context();
    let block = client_block(&mut client_context, &request_headers("/"));
    assert!(connection.recv(headers_frame(block, true, true, 2)).is_none());
    assert!(connection.is_shutdown());
    let go_away = connection.pull_frame().unwrap();
    assert_eq!(7, go_away[3]);
}

#[test]
fn connection_refuses_invalid_enable_push_setting() {
    let hpack = HPack::new();
    let mut connection = new_connection(&hpack);
    let mut settings = SettingsFrameCompressModel::new();
    settings.add_parameter(SettingName::SettingsEnablePush, 2);
    assert!(connection.recv(frame_from_octets(compress_frame(settings, 0))).is_none());
    assert!(connection.is_shutdown());
}

#[test]
fn connection_refuses_zero_window_update() {
    let hpack = HPack::new();
    let mut connection = new_connection(&hpack);
    let frame = frame_from_octets(compress_frame(WindowUpdateFrameCompressModel::new(0), 0));
    assert!(connection.recv(frame).is_none());
    assert!(connection.is_shutdown());
}

#[test]
fn connection_processes_a_request_and_sends_the_response() {
    let hpack = HPack::new();
    let mut connection = new_connection(&hpack);
    let client = HPack::new();
    let mut client_context = client.new_send_context();
    let block = client_block(&mut client_context, &request_headers("/index.html"));
    let frame = headers_frame(block, true, true, 1);
    assert!(connection.can_recv(&frame));
    let (stream_id, request) = connection.recv(frame).unwrap();
    assert_eq!(1, stream_id);
    assert_eq!(4, request.headers.len());

    let resp = response("200", Some(b"hello".to_vec()));
    assert!(connection.can_respond(stream_id, &resp));
    connection.respond(stream_id, resp);
    let headers = connection.pull_frame().unwrap();
    assert_eq!(1, headers[3]);
    assert_eq!(0x4, headers[4]);
    assert_eq!(&[0, 0, 0, 1], &headers[5..9]);
    let data = connection.pull_frame().unwrap();
    assert_eq!(vec![0, 0, 5, 0, 1, 0, 0, 0, 1, b'h', b'e', b'l', b'l', b'o'], data);
    assert_eq!(None, connection.pull_frame());
}

#[test]
fn connection_promises_pushed_requests() {
    let hpack = HPack::new();
    let mut connection = new_connection(&hpack);
    assert!(connection.is_push_enabled());
    let client = HPack::new();
    let mut client_context = client.new_send_context();
    let block = client_block(&mut client_context, &request_headers("/index.html"));
    let (stream_id, _) = connection.recv(headers_frame(block, true, true, 1)).unwrap();

    let mut pushed = Headers::new();
    for h in request_headers("/style.css") {
        pushed.push_header(h);
    }
    connection.push_promise(
        stream_id,
        osmium::http2::stream::stream_request::StreamRequest { headers: pushed, payload: None, trailer_headers: None },
    );
    let resp = response("200", None);
    assert!(connection.can_respond(stream_id, &resp));
    connection.respond(stream_id, resp);

    let promise = connection.pull_frame().unwrap();
    assert_eq!(5, promise[3]);
    assert_eq!(&[0, 0, 0, 2], &promise[9..13]);
    let (promised_id, promised_request) = connection.execute_promised().unwrap();
    assert_eq!(2, promised_id);
    assert_eq!(4, promised_request.headers.len());
    assert!(connection.execute_promised().is_none());
    let resp = response("200", Some(b"body{}".to_vec()));
    assert!(connection.can_respond_promised(2, &resp));
    connection.respond_promised(2, resp);
}

#[test]
fn connection_holds_back_data_beyond_the_send_window_until_it_grows() {
    let hpack = HPack::new();
    let mut connection = new_connection(&hpack);
    let client = HPack::new();
    let mut client_context = client.new_send_context();
    let block = client_block(&mut client_context, &request_headers("/big"));
    let (stream_id, _) = connection.recv(headers_frame(block, true, true, 1)).unwrap();

    // 70000 octets do not fit in the initial window of 65535.
    let resp = response("200", Some(vec![7u8; 70000]));
    assert!(connection.can_respond(stream_id, &resp));
    connection.respond(stream_id, resp);
    let headers = connection.pull_frame().unwrap();
    assert_eq!(1, headers[3]);
    assert_eq!(None, connection.pull_frame());

    // Growing the window by 10000 makes room: the DATA frame goes out.
    let update = frame_from_octets(compress_frame(WindowUpdateFrameCompressModel::new(10000), 0));
    assert!(connection.can_recv(&update));
    assert!(connection.recv(update).is_none());
    assert!(!connection.is_shutdown());
    let data = connection.pull_frame().unwrap();
    assert_eq!(&[0x01, 0x11, 0x70, 0, 1, 0, 0, 0, 1], &data[0..9]);
    assert_eq!(9 + 70000, data.len());
    assert_eq!(None, connection.pull_frame());
}

#[test]
fn window_update_payload_reads_back_as_its_increment() {
    let model = WindowUpdateFrameCompressModel::new(0x1234_5678);
    let frame = frame_from_octets(compress_frame(model, 0));
    assert_eq!(&[0x12, 0x34, 0x56, 0x78], &frame.payload[..]);
    let read = osmium::http2::frame::window_update::WindowUpdateFrame::new_conn(&frame.header, &frame.payload).unwrap();
    assert_eq!(0x1234_5678, read.get_window_size_increment());
}

#[test]
fn shut_down_connection_drops_frames() {
    let hpack = HPack::new();
    let mut connection = new_connection(&hpack);
    let frame = frame_from_octets(compress_frame(WindowUpdateFrameCompressModel::new(0), 0));
    assert!(connection.recv(frame).is_none());
    assert!(connection.is_shutdown());
    assert!(connection.pull_frame().is_some());
    let client = HPack::new();
    let mut client_context = client.new_send_context();
    let block = client_block(&mut client_context, &request_headers("/"));
    let headers = headers_frame(block, true, true, 1);
    assert!(connection.can_recv(&headers));
    assert!(connection.recv(headers).is_none());
    assert!(connection.is_shutdown());
    assert_eq!(None, connection.pull_frame());
}

#[test]
fn headers_are_empty_until_one_is_pushed() {
    let mut headers = Headers::new();
    assert!(headers.is_empty());
    assert_eq!(0, headers.len());
    for h in request_headers("/") {
        headers.push_header(h);
        assert!(!headers.is_empty());
    }
    assert_eq!(4, headers.len());
}

#[test]
fn padded_frames_carry_pad_length_data_and_zeros() {
    let mut data = DataFrameCompressModel::new(false);
    data.set_payload(vec![1, 2]);
    data.set_pad_length(0);
    assert_eq!(vec![0, 0, 3, 0, 0x8, 0, 0, 0, 1, 0, 1, 2], compress_frame(data, 1));

    let mut headers = HeadersFrameCompressModel::new(false, true);
    headers.set_header_block_fragment(vec![0x82]);
    headers.set_pad_length(2);
    assert_eq!(vec![0, 0, 4, 1, 0xc, 0, 0, 0, 1, 2, 0x82, 0, 0], compress_frame(headers, 1));
}

#[test]
fn priority_frame_is_written_with_its_dependency() {
    let priority = osmium::http2::frame::priority::PriorityFrameCompressModel::new(0x0102_0304, 16, true);
    assert_eq!(vec![0, 0, 5, 2, 0, 0, 0, 0, 3, 0x81, 2, 3, 4, 16], compress_frame(priority, 3));
}

#[test]
fn connection_refuses_a_stream_lower_than_one_opened() {
    let hpack = HPack::new();
    let mut connection = new_connection(&hpack);
    let client = HPack::new();
    let mut client_context = client.new_send_context();
    let block = client_block(&mut client_context, &request_headers("/"));
    assert!(connection.recv(headers_frame(block, true, true, 5)).is_some());
    let block = client_block(&mut client_context, &request_headers("/"));
    assert!(connection.recv(headers_frame(block, true, true, 3)).is_none());
    assert!(connection.is_shutdown());
    let go_away = connection.pull_frame().unwrap();
    assert_eq!(7, go_away[3]);
    // Last stream 5 (processing started there), then PROTOCOL_ERROR.
    assert_eq!(&[0, 0, 0, 5, 0, 0, 0, 1], &go_away[9..17]);
}

#[test]
fn header_names_are_matched_ignoring_case() {
    assert!(matches!(HeaderName::from(":PATH"), HeaderName::PseudoPath));
    assert!(matches!(HeaderName::from("Content-Length"), HeaderName::ContentLength));
}
