use std::sync::Arc;

use http2_server::http2::connection::{
    can_flush, can_handle, can_receive, error_reply, flush_data_frame, handle_frame, handle_ping_frame,
    is_connection_preface, receive_frame, settings_in_range, DataStep, ErrorReply,
};
use http2_server::http2::connection_state::ConnectionState;
use http2_server::http2::outbound::{all_encodable, can_flush_queue, flush_queue, route_replies};
use http2_server::http2::error::{HTTP2Error, HTTP2ErrorCode, StreamError};
use http2_server::http2::frames::data_frame::DataFrame;
use http2_server::http2::frames::frame::Frame;
use http2_server::http2::stream::http_stream::HTTP2Stream;
use http2_server::read::FileCache;

fn frame_bytes(frame_type: u8, flags: u8, stream_id: u32, payload: &[u8]) -> Vec<u8> {
    let len = payload.len() as u32;
    let mut v = vec![(len >> 16) as u8, (len >> 8) as u8, len as u8, frame_type, flags];
    v.extend_from_slice(&stream_id.to_be_bytes());
    v.extend_from_slice(payload);
    v
}

fn receive(state: &mut ConnectionState, bytes: &[u8]) -> Result<Vec<Frame>, HTTP2Error> {
    assert!(can_receive(state, bytes));
    receive_frame(state, bytes)
}

fn cache_with_index() -> Arc<FileCache> {
    let mut cache = FileCache::new();
    cache.insert(b"/index.html".to_vec(), b"<h1>hello</h1>".to_vec());
    Arc::new(cache)
}

fn get_request_block(path: &[u8]) -> Vec<u8> {
    let mut encoder = hpack::Encoder::new();
    encoder.encode(vec![
        (&b":method"[..], &b"GET"[..]),
        (&b":scheme"[..], &b"https"[..]),
        (&b":authority"[..], &b"localhost"[..]),
        (&b":path"[..], path),
    ])
}

#[test]
fn new_connection_defaults() {
    let state = ConnectionState::default();
    assert!(state.settings_acked);
    assert!(!state.settings_sent);
    assert_eq!(state.settings.window_size, 65535);
    assert_eq!(state.settings.max_frame_size, 16384);
    assert_eq!(state.window_size, 65535);
    assert_eq!(state.last_stream_id, 0);
    assert!(state.streams.is_empty());
    assert_eq!(state.cache.len(), 0);
}

#[test]
fn first_settings_are_answered_with_ours_and_an_ack() {
    let mut state = ConnectionState::new(cache_with_index());
    let bytes = frame_bytes(4, 0, 0, &[0, 5, 0, 0, 0x80, 0]);
    let out = receive(&mut state, &bytes).unwrap();
    assert_eq!(out.len(), 2);
    match &out[0] {
        Frame::Settings(s) => {
            assert!(!s.header.flags.ack);
            assert_eq!(s.header.length, 24);
            assert_eq!(s.enable_push, Some(false));
            assert_eq!(s.header_table_size, Some(4096));
            assert_eq!(s.initial_window_size, Some(65535));
            assert_eq!(s.max_frame_size, Some(32768));
        }
        _ => panic!("expected our SETTINGS"),
    }
    match &out[1] {
        Frame::Settings(s) => assert!(s.header.flags.ack),
        _ => panic!("expected an acknowledgement"),
    }
    assert!(state.settings_sent);
    assert!(!state.settings_acked);
    assert_eq!(state.settings.max_frame_size, 32768);

    let again = receive(&mut state, &frame_bytes(4, 0, 0, &[])).unwrap();
    assert_eq!(again.len(), 1);
}

#[test]
fn settings_ack_marks_ours_acknowledged() {
    let mut state = ConnectionState::default();
    state.settings_acked = false;
    let out = receive(&mut state, &frame_bytes(4, 1, 0, &[])).unwrap();
    assert!(out.is_empty());
    assert!(state.settings_acked);
}

#[test]
fn settings_ack_with_payload_is_frame_size_error() {
    let mut state = ConnectionState::default();
    let r = receive(&mut state, &frame_bytes(4, 1, 0, &[0, 4, 0, 0, 0, 1]));
    assert_eq!(r.unwrap_err(), HTTP2Error::Connection(HTTP2ErrorCode::FrameSizeError));
    assert!(state.settings_acked);
}

#[test]
fn settings_on_a_stream_is_protocol_error() {
    let mut state = ConnectionState::default();
    let r = receive(&mut state, &frame_bytes(4, 0, 1, &[]));
    assert_eq!(r.unwrap_err(), HTTP2Error::Connection(HTTP2ErrorCode::ProtocolError));
    assert!(!state.settings_sent);
}

#[test]
fn initial_window_change_moves_stream_windows() {
    let mut state = ConnectionState::default();
    state.stream_window_sizes.get_or_insert(1, 65535);
    state.stream_window_sizes.get_or_insert(3, 100);
    let out = receive(&mut state, &frame_bytes(4, 0, 0, &[0, 4, 0, 0, 0x27, 0x10])).unwrap();
    assert_eq!(out.len(), 2);
    assert_eq!(state.settings.window_size, 10000);
    assert_eq!(state.stream_window_sizes.get(1), Some(10000));
    assert_eq!(state.stream_window_sizes.get(3), Some(100 - 55535));
}

#[test]
fn initial_window_change_out_of_range_cannot_be_handled() {
    let mut state = ConnectionState::default();
    state.stream_window_sizes.get_or_insert(1, i32::MIN + 10);
    let bytes = frame_bytes(4, 0, 0, &[0, 4, 0, 0, 0, 0]);
    assert!(!can_receive(&state, &bytes));
    match Frame::parse(&bytes).unwrap() {
        Frame::Settings(s) => assert!(!settings_in_range(&state, &s)),
        _ => panic!("expected SETTINGS"),
    }
}

#[test]
fn ping_is_answered() {
    let mut state = ConnectionState::default();
    let out = receive(&mut state, &frame_bytes(6, 0, 0, &[1, 2, 3, 4, 5, 6, 7, 8])).unwrap();
    assert_eq!(out.len(), 1);
    assert_eq!(out[0].to_bytes(), frame_bytes(6, 1, 0, &[1, 2, 3, 4, 5, 6, 7, 8]));
}

#[test]
fn ping_ack_gets_no_answer() {
    let bytes = frame_bytes(6, 1, 0, &[0; 8]);
    match Frame::parse(&bytes).unwrap() {
        Frame::Ping(p) => assert!(handle_ping_frame(p).unwrap().is_empty()),
        _ => panic!("expected PING"),
    }
}

#[test]
fn ping_on_a_stream_or_of_wrong_length_is_protocol_error() {
    let mut state = ConnectionState::default();
    let r = receive(&mut state, &frame_bytes(6, 0, 1, &[0; 8]));
    assert_eq!(r.unwrap_err(), HTTP2Error::Connection(HTTP2ErrorCode::ProtocolError));
    let r = receive(&mut state, &frame_bytes(6, 0, 0, &[0; 9]));
    assert_eq!(r.unwrap_err(), HTTP2Error::Connection(HTTP2ErrorCode::ProtocolError));
}

#[test]
fn unpadded_push_promise_cannot_be_read() {
    let state = ConnectionState::default();
    assert!(!can_receive(&state, &frame_bytes(5, 4, 1, &[0, 0, 0, 2, 0x82])));
}

#[test]
fn push_promise_from_client_is_protocol_error() {
    let mut state = ConnectionState::default();
    // Padded, with padding that covers the promised stream field, so that the frame can be
    // read at all.
    let r = receive(&mut state, &frame_bytes(5, 0xc, 1, &[4, 0, 0, 0, 2, 0x82, 0, 0, 0, 0]));
    assert_eq!(r.unwrap_err(), HTTP2Error::Connection(HTTP2ErrorCode::ProtocolError));
}

#[test]
fn zero_window_increment() {
    let mut state = ConnectionState::default();
    let r = receive(&mut state, &frame_bytes(8, 0, 0, &[0, 0, 0, 0]));
    assert_eq!(r.unwrap_err(), HTTP2Error::Connection(HTTP2ErrorCode::ProtocolError));
    let r = receive(&mut state, &frame_bytes(8, 0, 3, &[0, 0, 0, 0]));
    assert_eq!(
        r.unwrap_err(),
        HTTP2Error::Stream(StreamError::new(3, HTTP2ErrorCode::ProtocolError))
    );
    assert!(state.streams.is_empty());
}

#[test]
fn connection_window_update() {
    let mut state = ConnectionState::default();
    let out = receive(&mut state, &frame_bytes(8, 0, 0, &[0, 0, 0, 100])).unwrap();
    assert!(out.is_empty());
    assert_eq!(state.window_size, 65635);
}

#[test]
fn connection_window_overflow_is_flow_control_error() {
    let mut state = ConnectionState::default();
    let r = receive(&mut state, &frame_bytes(8, 0, 0, &[0x7f, 0xff, 0xff, 0xff]));
    assert_eq!(r.unwrap_err(), HTTP2Error::Connection(HTTP2ErrorCode::FlowControlError));
    assert_eq!(state.window_size, 65535);
}

#[test]
fn even_new_stream_is_protocol_error() {
    let mut state = ConnectionState::default();
    let r = receive(&mut state, &frame_bytes(0, 0, 2, b"x"));
    assert_eq!(r.unwrap_err(), HTTP2Error::Connection(HTTP2ErrorCode::ProtocolError));
    assert!(state.streams.is_empty());
}

#[test]
fn skipped_streams_are_closed() {
    let mut state = ConnectionState::default();
    // DATA on stream 5 opens it (skipping 1 and 3); an idle stream refuses DATA.
    let r = receive(&mut state, &frame_bytes(0, 0, 5, b"x"));
    assert_eq!(r.unwrap_err(), HTTP2Error::Connection(HTTP2ErrorCode::ProtocolError));
    assert_eq!(state.last_stream_id, 5);
    assert_eq!(state.streams.len(), 3);
    for (i, s) in state.streams.iter().enumerate() {
        match s {
            HTTP2Stream::Closed(c) => {
                assert_eq!(c.id, 2 * i as u32 + 1);
                assert_eq!(c.skipped, i < 2);
            }
            _ => panic!("expected a closed stream"),
        }
    }
    let r = receive(&mut state, &frame_bytes(0, 0, 3, b"x"));
    assert_eq!(r.unwrap_err(), HTTP2Error::Connection(HTTP2ErrorCode::StreamClosed));
}

#[test]
fn frame_larger_than_allowed_is_protocol_error() {
    let mut state = ConnectionState::default();
    state.settings.max_frame_size = 2;
    let r = receive(&mut state, &frame_bytes(0, 0, 1, b"xyz"));
    assert_eq!(r.unwrap_err(), HTTP2Error::Connection(HTTP2ErrorCode::ProtocolError));
    // The stream is opened before the size is checked.
    assert_eq!(state.last_stream_id, 1);
    assert!(matches!(state.streams[0], HTTP2Stream::Idle(_)));
}

#[test]
fn waiting_for_continuation_refuses_other_frames() {
    let mut state = ConnectionState::default();
    state.waiting_for_continuation = Some(1);
    let r = receive(&mut state, &frame_bytes(8, 0, 1, &[0, 0, 0, 1]));
    assert_eq!(r.unwrap_err(), HTTP2Error::Connection(HTTP2ErrorCode::ProtocolError));
    // An unreadable frame is a protocol error too while waiting.
    let r = receive(&mut state, &frame_bytes(0x20, 0, 1, &[]));
    assert_eq!(r.unwrap_err(), HTTP2Error::Connection(HTTP2ErrorCode::ProtocolError));
}

#[test]
fn unknown_frame_is_discarded() {
    let mut state = ConnectionState::default();
    let r = receive(&mut state, &frame_bytes(0x20, 0, 1, &[]));
    assert_eq!(r.unwrap_err(), HTTP2Error::Connection(HTTP2ErrorCode::NoError));
}

#[test]
fn get_request_is_answered_with_headers_and_data() {
    let mut state = ConnectionState::new(cache_with_index());
    let block = get_request_block(b"/index.html");
    let bytes = frame_bytes(1, 5, 1, &block);
    let out = receive(&mut state, &bytes).unwrap();
    assert_eq!(out.len(), 2);
    let headers = match &out[0] {
        Frame::Headers(h) => {
            assert!(h.header.flags.end_headers);
            assert!(!h.header.flags.end_stream);
            assert_eq!(h.header.stream_id, 1);
            let mut decoder = hpack::Decoder::new();
            decoder.decode(&h.header_block_fragment).unwrap()
        }
        _ => panic!("expected HEADERS"),
    };
    assert_eq!(headers[0], (b":status".to_vec(), b"200".to_vec()));
    assert!(headers.contains(&(b"content-type".to_vec(), b"text/html".to_vec())));
    assert!(headers.contains(&(b"content-length".to_vec(), b"14".to_vec())));
    assert!(headers.iter().any(|(n, _)| n == b"date"));
    match &out[1] {
        Frame::Data(d) => {
            assert_eq!(d.data, b"<h1>hello</h1>".to_vec());
            assert!(d.header.flags.end_stream);
            assert_eq!(d.header.stream_id, 1);
        }
        _ => panic!("expected DATA"),
    }
    match &state.streams[0] {
        HTTP2Stream::Closed(c) => {
            assert_eq!(c.id, 1);
            assert!(c.end_stream_received);
        }
        _ => panic!("expected the stream closed"),
    }
}

#[test]
fn request_for_a_missing_file_is_not_found() {
    let mut state = ConnectionState::new(cache_with_index());
    let block = get_request_block(b"/missing.html");
    let out = receive(&mut state, &frame_bytes(1, 5, 1, &block)).unwrap();
    let headers = match &out[0] {
        Frame::Headers(h) => hpack::Decoder::new().decode(&h.header_block_fragment).unwrap(),
        _ => panic!("expected HEADERS"),
    };
    assert_eq!(headers[0], (b":status".to_vec(), b"404".to_vec()));
}

#[test]
fn request_headers_with_capital_letters_are_a_stream_error() {
    let mut state = ConnectionState::new(cache_with_index());
    let mut encoder = hpack::Encoder::new();
    let block = encoder.encode(vec![
        (&b":method"[..], &b"GET"[..]),
        (&b":path"[..], &b"/index.html"[..]),
        (&b"Accept"[..], &b"*/*"[..]),
    ]);
    let r = receive(&mut state, &frame_bytes(1, 5, 1, &block));
    assert_eq!(
        r.unwrap_err(),
        HTTP2Error::Stream(StreamError::new(1, HTTP2ErrorCode::ProtocolError))
    );
}

#[test]
fn can_handle_refuses_priority_on_an_idle_stream() {
    let state = ConnectionState::default();
    let bytes = frame_bytes(2, 0, 1, &[0, 0, 0, 0, 16]);
    let frame = Frame::parse(&bytes).unwrap();
    assert!(!can_handle(&state, bytes.len(), &frame));
    assert!(!can_receive(&state, &bytes));
}

#[test]
fn handle_frame_on_a_parsed_frame() {
    let mut state = ConnectionState::default();
    let bytes = frame_bytes(8, 0, 0, &[0, 0, 0, 5]);
    let frame = Frame::parse(&bytes).unwrap();
    assert!(can_handle(&state, bytes.len(), &frame));
    assert!(handle_frame(&mut state, bytes.len(), frame).unwrap().is_empty());
    assert_eq!(state.window_size, 65540);
}

fn open_state_with_stream_1() -> ConnectionState<'static> {
    let mut state = ConnectionState::new(cache_with_index());
    let block = get_request_block(b"/index.html");
    receive(&mut state, &frame_bytes(1, 5, 1, &block)).unwrap();
    state
}

#[test]
fn flush_sends_whole_frame_within_windows() {
    let mut state = open_state_with_stream_1();
    let step = flush_data_frame(&mut state, DataFrame::new(1, b"<h1>hello</h1>".to_vec(), true));
    match step {
        DataStep::Send { bytes, rest } => {
            assert_eq!(bytes, frame_bytes(0, 1, 1, b"<h1>hello</h1>"));
            assert!(rest.is_none());
        }
        DataStep::Blocked(_) => panic!("expected the data sent"),
    }
    assert_eq!(state.window_size, 65535 - 14);
    assert_eq!(state.stream_window_sizes.get(1), Some(65535 - 14));
}

#[test]
fn flush_splits_at_the_largest_frame() {
    let mut state = open_state_with_stream_1();
    state.settings.max_frame_size = 4;
    let step = flush_data_frame(&mut state, DataFrame::new(1, b"abcdefg".to_vec(), true));
    match step {
        DataStep::Send { bytes, rest } => {
            assert_eq!(bytes, frame_bytes(0, 0, 1, b"abcd"));
            let rest = rest.unwrap();
            assert_eq!(rest.data, b"efg".to_vec());
            assert!(rest.header.flags.end_stream);
            assert_eq!(rest.header.length, 3);
        }
        DataStep::Blocked(_) => panic!("expected the data sent"),
    }
    assert_eq!(state.window_size, 65531);
}

#[test]
fn flush_blocks_without_window() {
    let mut state = open_state_with_stream_1();
    state.window_size = 0;
    let step = flush_data_frame(&mut state, DataFrame::new(1, b"abc".to_vec(), true));
    match step {
        DataStep::Blocked(d) => assert_eq!(d.data, b"abc".to_vec()),
        DataStep::Send { .. } => panic!("expected the frame blocked"),
    }
    // The stream is given the initial window even so.
    assert_eq!(state.stream_window_sizes.get(1), Some(65535));
}

#[test]
fn flush_end_of_stream_half_closes_an_open_stream() {
    let mut state = ConnectionState::default();
    // A HEADERS frame without END_STREAM leaves the stream open, waiting for its body.
    let block = get_request_block(b"/index.html");
    let out = receive(&mut state, &frame_bytes(1, 4, 1, &block)).unwrap();
    assert!(out.is_empty());
    assert!(matches!(state.streams[0], HTTP2Stream::Open(_)));
    let step = flush_data_frame(&mut state, DataFrame::new(1, Vec::new(), true));
    assert!(matches!(step, DataStep::Send { rest: None, .. }));
    assert!(matches!(state.streams[0], HTTP2Stream::HalfClosedLocal(_)));
}

#[test]
fn error_replies() {
    assert!(matches!(
        error_reply(HTTP2Error::Connection(HTTP2ErrorCode::NoError)),
        ErrorReply::Ignore
    ));
    match error_reply(HTTP2Error::Connection(HTTP2ErrorCode::ProtocolError)) {
        ErrorReply::Close(b) => assert_eq!(b, frame_bytes(7, 0, 0, &[0, 0, 0, 0, 0, 0, 0, 1])),
        _ => panic!("expected GOAWAY"),
    }
    match error_reply(HTTP2Error::Stream(StreamError::new(3, HTTP2ErrorCode::ProtocolError))) {
        ErrorReply::Reset(b) => assert_eq!(b, frame_bytes(3, 0, 3, &[0, 0, 0, 1])),
        _ => panic!("expected RST_STREAM"),
    }
}

#[test]
fn connection_preface() {
    assert!(is_connection_preface(b"PRI * HTTP/2.0\r\n\r\nSM\r\n\r\n"));
    assert!(!is_connection_preface(b"GET / HTTP/1.1\r\n\r\nSM\r\n\r\n"));
    assert!(!is_connection_preface(b"PRI * HTTP/2.0\r\n"));
}

#[test]
fn queue_is_sent_in_pieces_within_the_windows() {
    let mut state = open_state_with_stream_1();
    state.settings.max_frame_size = 4;
    let mut queue = std::collections::VecDeque::new();
    queue.push_back(DataFrame::new(1, b"abcdefg".to_vec(), true));
    assert!(can_flush_queue(&state, &queue));
    let bytes = flush_queue(&mut state, &mut queue);
    let mut expected = frame_bytes(0, 0, 1, b"abcd");
    expected.extend(frame_bytes(0, 1, 1, b"efg"));
    assert_eq!(bytes, expected);
    assert!(queue.is_empty());
    assert_eq!(state.window_size, 65535 - 7);
    assert_eq!(state.stream_window_sizes.get(1), Some(65535 - 7));
}

#[test]
fn queue_stops_at_the_first_blocked_frame() {
    let mut state = open_state_with_stream_1();
    state.window_size = 3;
    let mut queue = std::collections::VecDeque::new();
    queue.push_back(DataFrame::new(1, b"abcdefg".to_vec(), false));
    queue.push_back(DataFrame::new(1, b"xy".to_vec(), true));
    let bytes = flush_queue(&mut state, &mut queue);
    assert_eq!(bytes, frame_bytes(0, 0, 1, b"abc"));
    assert_eq!(queue.len(), 2);
    assert_eq!(queue[0].data, b"defg".to_vec());
    assert!(!queue[0].header.flags.end_stream);
    assert_eq!(queue[1].data, b"xy".to_vec());
    assert_eq!(state.window_size, 0);
    // Nothing more goes out until a window opens.
    assert!(flush_queue(&mut state, &mut queue).is_empty());
    assert_eq!(queue.len(), 2);
}

#[test]
fn queue_for_a_missing_stream_is_not_defined() {
    let state = ConnectionState::new(cache_with_index());
    let mut queue = std::collections::VecDeque::new();
    queue.push_back(DataFrame::new(5, b"x".to_vec(), false));
    assert!(can_flush_queue(&state, &queue));
    queue.push_back(DataFrame::new(5, b"y".to_vec(), true));
    assert!(!can_flush_queue(&state, &queue));
}

#[test]
fn data_for_a_missing_stream_cannot_end_it() {
    let state = ConnectionState::new(cache_with_index());
    assert!(can_flush(&state, &DataFrame::new(1, b"x".to_vec(), false)));
    assert!(!can_flush(&state, &DataFrame::new(1, b"x".to_vec(), true)));
}

#[test]
fn header_block_split_over_continuation_frames_is_decoded_whole() {
    let mut state = ConnectionState::new(cache_with_index());
    let block = get_request_block(b"/index.html");
    let (a, rest) = block.split_at(3);
    let (b, c) = rest.split_at(rest.len() / 2);
    // HEADERS with END_STREAM but without END_HEADERS.
    assert!(receive(&mut state, &frame_bytes(1, 1, 1, a)).unwrap().is_empty());
    assert!(matches!(state.streams[0], HTTP2Stream::Open(_)));
    // A CONTINUATION frame's fragment is read from byte 9 up to its length.
    let mut pb = b.to_vec();
    pb.extend_from_slice(&[0u8; 9]);
    assert!(receive(&mut state, &frame_bytes(9, 0, 1, &pb)).unwrap().is_empty());
    let mut pc = c.to_vec();
    pc.extend_from_slice(&[0u8; 9]);
    let out = receive(&mut state, &frame_bytes(9, 4, 1, &pc)).unwrap();
    assert_eq!(out.len(), 2);
    let headers = match &out[0] {
        Frame::Headers(h) => hpack::Decoder::new().decode(&h.header_block_fragment).unwrap(),
        _ => panic!("expected HEADERS"),
    };
    assert_eq!(headers[0], (b":status".to_vec(), b"200".to_vec()));
    assert!(matches!(state.streams[0], HTTP2Stream::Closed(_)));
}

#[test]
fn replies_are_written_and_data_is_queued() {
    let mut state = ConnectionState::new(cache_with_index());
    let block = get_request_block(b"/index.html");
    let frames = receive(&mut state, &frame_bytes(1, 5, 1, &block)).unwrap();
    assert!(all_encodable(&frames));
    let headers_bytes = frames[0].to_bytes();
    let mut queue = std::collections::VecDeque::new();
    let bytes = route_replies(frames, &mut queue);
    assert_eq!(bytes, headers_bytes);
    assert_eq!(queue.len(), 1);
    assert_eq!(queue[0].data, b"<h1>hello</h1>".to_vec());
    assert!(queue[0].header.flags.end_stream);
}
