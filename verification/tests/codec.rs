use std::sync::Arc;

use http2_server::clock::{date_for, FIRST_RFC2822_SECOND, LAST_RFC2822_SECOND};
use http2_server::http2::codec::{size_updates_ok, HpackDecoder, HpackEncoder};
use http2_server::http2::connection::{can_receive, receive_frame};
use http2_server::http2::connection_state::ConnectionState;
use http2_server::http2::error::{HTTP2Error, HTTP2ErrorCode, StreamError};
use http2_server::http2::frames::frame::{Frame, FrameHeader, FrameType};
use http2_server::http2::frames::headers_frame::response_header_list;
use http2_server::response::{Response, StatusCode};
use http2_server::types::Header;
use http2_server::http2::frames::settings_frame::SettingsFrameBuilder;
use http2_server::http2::frames::window_update_frame::WindowUpdateFrame;
use http2_server::http2::header_builder::{headers_from_decoded, HeaderBuilder};
use http2_server::read::FileCache;
use http2_server::request::Request;

fn frame_bytes(frame_type: u8, flags: u8, stream_id: u32, payload: &[u8]) -> Vec<u8> {
    let len = payload.len() as u32;
    let mut v = vec![(len >> 16) as u8, (len >> 8) as u8, len as u8, frame_type, flags];
    v.extend_from_slice(&stream_id.to_be_bytes());
    v.extend_from_slice(payload);
    v
}

fn buffer_of(text: &[u8]) -> [u8; 1024] {
    let mut buf = [0u8; 1024];
    buf[..text.len()].copy_from_slice(text);
    buf
}

fn pairs(list: &[(&[u8], &[u8])]) -> Vec<(Vec<u8>, Vec<u8>)> {
    list.iter().map(|(n, v)| (n.to_vec(), v.to_vec())).collect()
}

fn window_update(stream_id: u32, increment: u32) -> WindowUpdateFrame {
    WindowUpdateFrame {
        header: FrameHeader { length: 4, frame_type: FrameType::WindowUpdate, flags: 0, stream_id },
        window_size_increment: increment,
    }
}

#[test]
fn size_update_cut_short_is_refused() {
    assert!(!size_updates_ok(&[0x3F]));
    assert!(!size_updates_ok(&[0x3F, 0xFF]));
    // Six bytes of integer are more than the decoder reads.
    assert!(!size_updates_ok(&[0x3F, 0xFF, 0xFF, 0xFF, 0xFF, 0x7F]));
}

#[test]
fn well_formed_blocks_pass_the_size_update_check() {
    assert!(size_updates_ok(&[]));
    assert!(size_updates_ok(&[0x82]));
    // A size update to 4096 (31 + 4065), then an indexed header.
    assert!(size_updates_ok(&[0x3F, 0xE1, 0x1F, 0x82]));
    let mut encoder = HpackEncoder::new();
    let block = encoder.encode(&pairs(&[(b":method", b"GET"), (b"x-name", b"value")]));
    assert!(size_updates_ok(&block));
}

#[test]
fn encoder_and_decoder_agree() {
    let mut encoder = HpackEncoder::new();
    let mut decoder = HpackDecoder::new();
    let first = pairs(&[(b":method", b"GET"), (b":path", b"/index.html"), (b"x-a", b"1")]);
    let second = pairs(&[(b":method", b"GET"), (b"x-a", b"2")]);
    let b1 = encoder.encode(&first);
    let b2 = encoder.encode(&second);
    assert!(!b1.is_empty());
    assert_eq!(decoder.decode(&b1).unwrap(), first);
    assert_eq!(decoder.decode(&b2).unwrap(), second);
}

#[test]
fn header_names_and_values_are_read_as_text() {
    let decoded = vec![(vec![0xFFu8], vec![b'a', 0xC3])];
    let hs = headers_from_decoded(&decoded, 1).unwrap();
    assert_eq!(hs.len(), 1);
    assert_eq!(hs[0].name, vec![0xEF, 0xBF, 0xBD]);
    assert_eq!(hs[0].value, vec![b'a', 0xEF, 0xBF, 0xBD]);
}

#[test]
fn header_names_with_capitals_are_a_stream_error() {
    let decoded = pairs(&[(b"Accept", b"*/*")]);
    assert_eq!(
        headers_from_decoded(&decoded, 3).unwrap_err(),
        HTTP2Error::Stream(StreamError::new(3, HTTP2ErrorCode::ProtocolError))
    );
}

#[test]
fn builder_keeps_the_block_when_it_does_not_decode() {
    let mut decoder = HpackDecoder::new();
    let mut builder = HeaderBuilder::new();
    builder.new_fragment(vec![0x3F]);
    assert_eq!(
        builder.build(&mut decoder, 1).unwrap_err(),
        HTTP2Error::Connection(HTTP2ErrorCode::CompressionError)
    );
    assert!(builder.waiting_for_continuation());
}

#[test]
fn builder_decodes_the_fragments_as_one_block() {
    let mut encoder = HpackEncoder::new();
    let block = encoder.encode(&pairs(&[(b":method", b"GET"), (b":path", b"/a.html")]));
    let (a, b) = block.split_at(block.len() / 2);
    let mut decoder = HpackDecoder::new();
    let mut builder = HeaderBuilder::new();
    builder.new_fragment(a.to_vec());
    builder.new_fragment(b.to_vec());
    let hs = builder.build(&mut decoder, 1).unwrap();
    assert!(!builder.waiting_for_continuation());
    assert!(hs.iter().any(|h| h.name == b":path".to_vec() && h.value == b"/a.html".to_vec()));
}

#[test]
fn malformed_size_update_in_headers_is_a_compression_error() {
    let mut state = ConnectionState::new(Arc::new(FileCache::new()));
    let bytes = frame_bytes(1, 5, 1, &[0x3F]);
    assert!(can_receive(&state, &bytes));
    assert_eq!(
        receive_frame(&mut state, &bytes).unwrap_err(),
        HTTP2Error::Connection(HTTP2ErrorCode::CompressionError)
    );
}

#[test]
fn request_line_splits_at_unicode_whitespace() {
    let r = Request::from_bytes(buffer_of(b"GET\xC2\xA0/index.html\xE2\x80\x83HTTP/1.1\r\n\r\n")).unwrap();
    assert_eq!(r.path, b"/index.html".to_vec());
}

#[test]
fn request_bytes_are_read_as_text() {
    let r = Request::from_bytes(buffer_of(b"GET /a\xFF.html HTTP/1.1\r\n\r\n")).unwrap();
    assert_eq!(r.path, b"/a\xEF\xBF\xBD.html".to_vec());
}

#[test]
fn dates_are_rfc2822_text() {
    assert_eq!(date_for(Ok((0, 0))), b"Thu, 1 Jan 1970 00:00:00 +0000".to_vec());
    assert_eq!(date_for(Ok((1_000_000_000, 999_999_999))), b"Sun, 9 Sep 2001 01:46:40 +0000".to_vec());
    assert_eq!(
        date_for(Ok((LAST_RFC2822_SECOND as u64, 0))),
        b"Fri, 31 Dec 9999 23:59:59 +0000".to_vec()
    );
}

#[test]
fn dates_before_the_epoch_are_rfc2822_text() {
    assert_eq!(date_for(Err((1, 0))), b"Wed, 31 Dec 1969 23:59:59 +0000".to_vec());
    // Half a second before the epoch still falls in the second before it.
    assert_eq!(date_for(Err((0, 500_000_000))), b"Wed, 31 Dec 1969 23:59:59 +0000".to_vec());
    let first = chrono::DateTime::from_timestamp(FIRST_RFC2822_SECOND, 0).unwrap().to_rfc2822();
    assert_eq!(date_for(Err(((-FIRST_RFC2822_SECOND) as u64, 0))), first.into_bytes());
}

#[test]
fn dates_outside_rfc2822_are_left_empty() {
    assert!(date_for(Ok((LAST_RFC2822_SECOND as u64 + 1, 0))).is_empty());
    assert!(date_for(Err(((-FIRST_RFC2822_SECOND) as u64, 1))).is_empty());
    assert!(date_for(Err((u64::MAX, 0))).is_empty());
}

#[test]
fn stream_window_update_sets_that_stream_only() {
    let mut state = ConnectionState::default();
    state.update_window(&window_update(3, 100)).unwrap();
    assert_eq!(state.stream_window_sizes.get(3), Some(65635));
    assert_eq!(state.stream_window_sizes.get(5), None);
    state.update_window(&window_update(5, 1)).unwrap();
    assert_eq!(state.stream_window_sizes.get(3), Some(65635));
    assert_eq!(state.stream_window_sizes.get(5), Some(65536));
    assert_eq!(state.window_size, 65535);
}

#[test]
fn stream_window_overflow_is_a_flow_control_error() {
    let mut state = ConnectionState::default();
    assert_eq!(
        state.update_window(&window_update(3, 0x7FFF_FFFF)).unwrap_err(),
        HTTP2Error::Stream(StreamError::new(3, HTTP2ErrorCode::FlowControlError))
    );
    assert_eq!(state.stream_window_sizes.get(3), Some(65535));
}

#[test]
fn settings_length_is_six_bytes_per_parameter() {
    assert_eq!(SettingsFrameBuilder::new().build().header.length, 0);
    let f = SettingsFrameBuilder::new().enable_push(false).max_frame_size(16384).build();
    assert_eq!(f.header.length, 12);
}

#[test]
fn response_header_names_are_made_small_as_text() {
    let res = Response {
        status_code: StatusCode::OK,
        headers: vec![
            Header::new("X-Ä".as_bytes().to_vec(), b"1".to_vec()),
            Header::new(b"Content-Type".to_vec(), b"text/html".to_vec()),
        ],
        body: Vec::new(),
        stream_id: 1,
    };
    let list = response_header_list(&res);
    assert_eq!(list[0], (b":status".to_vec(), b"200".to_vec()));
    assert_eq!(list[1], ("x-ä".as_bytes().to_vec(), b"1".to_vec()));
    assert_eq!(list[2], (b"content-type".to_vec(), b"text/html".to_vec()));
}

#[test]
fn parsed_frames_carry_the_31_bit_stream_id() {
    let bytes = frame_bytes(8, 0, 0x8000_0003, &[0, 0, 0, 1]);
    assert!(Frame::can_parse(&bytes));
    assert_eq!(Frame::parse(&bytes).unwrap().get_stream_id(), 3);
}
