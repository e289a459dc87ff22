use http2_server::http2::error::{HTTP2Error, HTTP2ErrorCode, StreamError};
use http2_server::http2::frames::data_frame::DataFrame;
use http2_server::http2::frames::frame::{Frame, FrameType};
use http2_server::http2::frames::go_away_frame::GoAwayFrame;
use http2_server::http2::frames::ping_frame::PingFrame;
use http2_server::http2::frames::rst_frame::RstFrame;
use http2_server::http2::frames::settings_frame::{
    SettingsFrame, SettingsFrameBuilder, SettingsIdentifier,
};
use http2_server::settings_frame::SettingsFrame as SettingsRecord;
use http2_server::util::u32_from_3_bytes;

fn frame_bytes(frame_type: u8, flags: u8, stream_id: u32, payload: &[u8]) -> Vec<u8> {
    let len = payload.len() as u32;
    let mut v = vec![(len >> 16) as u8, (len >> 8) as u8, len as u8, frame_type, flags];
    v.extend_from_slice(&stream_id.to_be_bytes());
    v.extend_from_slice(payload);
    v
}

#[test]
fn u32_from_3_bytes_reads_big_endian() {
    assert_eq!(u32_from_3_bytes([0x01, 0x02, 0x03]), 0x010203);
    assert_eq!(u32_from_3_bytes([0, 0, 0]), 0);
    assert_eq!(u32_from_3_bytes([0xff, 0xff, 0xff]), 0xff_ffff);
}

#[test]
fn frame_type_codes_round_trip() {
    for b in 0u8..10 {
        let t = FrameType::from_byte(b).unwrap();
        assert_eq!(t.code(), b);
    }
    assert_eq!(
        FrameType::from_byte(10),
        Err(HTTP2Error::Connection(HTTP2ErrorCode::NoError))
    );
}

#[test]
fn window_update_reads_back_as_written() {
    let bytes = frame_bytes(8, 0, 1, &[0, 0, 0x10, 0]);
    let frame = Frame::parse(&bytes).unwrap();
    match &frame {
        Frame::WindowUpdate(wu) => {
            assert_eq!(wu.window_size_increment, 4096);
            assert_eq!(wu.header.stream_id, 1);
            assert_eq!(wu.header.length, 4);
        }
        _ => panic!("expected WINDOW_UPDATE"),
    }
    assert_eq!(frame.get_stream_id(), 1);
    assert_eq!(frame.to_bytes(), bytes);
}

#[test]
fn data_frame_unpadded() {
    let bytes = frame_bytes(0, 1, 3, b"abc");
    match Frame::parse(&bytes).unwrap() {
        Frame::Data(d) => {
            assert_eq!(d.data, b"abc".to_vec());
            assert!(d.header.flags.end_stream);
            assert!(!d.header.flags.padding);
            assert_eq!(d.pad_length, 0);
            assert_eq!(d.to_bytes(), bytes);
        }
        _ => panic!("expected DATA"),
    }
}

#[test]
fn data_frame_padded_takes_length_less_padding() {
    // The data is `length - pad_length` bytes after the pad length byte, so the first
    // padding byte is read as data.
    let bytes = frame_bytes(0, 8, 1, &[2, b'a', b'b', b'c', 0, 0]);
    match Frame::parse(&bytes).unwrap() {
        Frame::Data(d) => {
            assert_eq!(d.data, b"abc\0".to_vec());
            assert_eq!(d.pad_length, 2);
            assert!(d.header.flags.padding);
        }
        _ => panic!("expected DATA"),
    }
}

#[test]
fn data_frame_padding_longer_than_frame_cannot_be_read() {
    let bytes = frame_bytes(0, 8, 1, &[9, b'a']);
    assert!(!Frame::can_parse(&bytes));
}

#[test]
fn data_frame_new_writes_header() {
    let d = DataFrame::new(5, b"hello".to_vec(), true);
    assert_eq!(d.to_bytes(), frame_bytes(0, 1, 5, b"hello"));
}

#[test]
fn unknown_frame_type_is_discarded() {
    let bytes = frame_bytes(0x20, 0, 1, &[]);
    assert!(Frame::can_parse(&bytes));
    assert_eq!(
        Frame::parse(&bytes).unwrap_err(),
        HTTP2Error::Connection(HTTP2ErrorCode::NoError)
    );
}

#[test]
fn short_header_cannot_be_read() {
    assert!(!Frame::can_parse(&[0, 0, 0, 4, 0, 0, 0]));
}

#[test]
fn go_away_frames_are_not_read() {
    let bytes = frame_bytes(7, 0, 0, &[0, 0, 0, 0, 0, 0, 0, 1]);
    assert!(!Frame::can_parse(&bytes));
}

#[test]
fn settings_frame_reads_parameters() {
    let bytes = frame_bytes(4, 0, 0, &[0, 4, 0, 0, 0xff, 0xff, 0, 5, 0, 0, 0x40, 0]);
    match Frame::parse(&bytes).unwrap() {
        Frame::Settings(s) => {
            assert_eq!(s.initial_window_size, Some(65535));
            assert_eq!(s.max_frame_size, Some(16384));
            assert_eq!(s.header_table_size, None);
            assert!(!s.header.flags.ack);
        }
        _ => panic!("expected SETTINGS"),
    }
}

#[test]
fn settings_later_value_replaces_earlier() {
    let bytes = frame_bytes(4, 0, 0, &[0, 1, 0, 0, 0, 1, 0, 1, 0, 0, 0, 2]);
    match Frame::parse(&bytes).unwrap() {
        Frame::Settings(s) => assert_eq!(s.header_table_size, Some(2)),
        _ => panic!("expected SETTINGS"),
    }
}

#[test]
fn settings_unknown_identifier_is_protocol_error() {
    let bytes = frame_bytes(4, 0, 0, &[0, 9, 0, 0, 0, 1]);
    assert_eq!(
        Frame::parse(&bytes).unwrap_err(),
        HTTP2Error::Connection(HTTP2ErrorCode::ProtocolError)
    );
}

#[test]
fn settings_length_not_multiple_of_six_is_frame_size_error() {
    let bytes = frame_bytes(4, 0, 0, &[0, 4, 0, 0, 0]);
    assert_eq!(
        Frame::parse(&bytes).unwrap_err(),
        HTTP2Error::Connection(HTTP2ErrorCode::FrameSizeError)
    );
}

#[test]
fn settings_identifiers() {
    assert_eq!(
        SettingsIdentifier::from_u16(4),
        Some(SettingsIdentifier::InitialWindowSize)
    );
    assert_eq!(SettingsIdentifier::from_u16(7), None);
    assert_eq!(SettingsIdentifier::MaxHeaderListSize.code(), 6);
}

#[test]
fn settings_builder_writes_length_and_parameters() {
    let f = SettingsFrameBuilder::new()
        .enable_push(false)
        .header_table_size(4096)
        .initial_window_size(65535)
        .max_frame_size(16384)
        .build();
    assert_eq!(f.header.length, 24);
    assert_eq!(f.header.stream_id, 0);
    let expected = frame_bytes(
        4,
        0,
        0,
        &[
            0, 1, 0, 0, 0x10, 0, //
            0, 2, 0, 0, 0, 0, //
            0, 4, 0, 0, 0xff, 0xff, //
            0, 5, 0, 0, 0x40, 0,
        ],
    );
    assert_eq!(f.to_bytes(), expected);
    match Frame::parse(&expected).unwrap() {
        Frame::Settings(s) => assert_eq!(s, f),
        _ => panic!("expected SETTINGS"),
    }
}

#[test]
fn settings_builder_without_parameters() {
    let f = SettingsFrameBuilder::new()
        .max_concurrent_streams(100)
        .max_header_list_size(8192)
        .build();
    assert_eq!(f.header.length, 12);
    assert_eq!(f.max_concurrent_streams, Some(100));
    assert_eq!(f.max_header_list_size, Some(8192));
}

#[test]
fn settings_ack_is_empty() {
    let f = SettingsFrame::new_ack(0);
    assert!(f.header.flags.ack);
    assert_eq!(f.to_bytes(), frame_bytes(4, 1, 0, &[]));
}

#[test]
fn ping_ack_keeps_data() {
    let bytes = frame_bytes(6, 0, 0, &[1, 2, 3, 4, 5, 6, 7, 8]);
    let ping = match Frame::parse(&bytes).unwrap() {
        Frame::Ping(p) => p,
        _ => panic!("expected PING"),
    };
    let ack = PingFrame::ack(ping);
    assert!(ack.header.flags.ack);
    let mut out = Vec::new();
    ack.encode_to(&mut out);
    assert_eq!(out, frame_bytes(6, 1, 0, &[1, 2, 3, 4, 5, 6, 7, 8]));
}

#[test]
fn short_ping_payload_is_frame_size_error() {
    let mut bytes = frame_bytes(6, 0, 0, &[1, 2, 3, 4, 5, 6, 7, 8]);
    bytes.truncate(12);
    assert_eq!(
        Frame::parse(&bytes).unwrap_err(),
        HTTP2Error::Connection(HTTP2ErrorCode::FrameSizeError)
    );
}

#[test]
fn headers_on_stream_zero_is_protocol_error() {
    let bytes = frame_bytes(1, 4, 0, &[0x82]);
    assert_eq!(
        Frame::parse(&bytes).unwrap_err(),
        HTTP2Error::Connection(HTTP2ErrorCode::ProtocolError)
    );
}

#[test]
fn headers_with_priority_reads_fields() {
    let bytes = frame_bytes(1, 0x24, 3, &[0x80, 0, 0, 1, 15, 0x82]);
    match Frame::parse(&bytes).unwrap() {
        Frame::Headers(h) => {
            assert_eq!(h.exclusive, Some(true));
            assert_eq!(h.stream_dependency, Some(1));
            assert_eq!(h.weight, Some(15));
            assert_eq!(h.header_block_fragment, vec![0x82]);
            assert!(h.header.flags.end_headers);
            assert_eq!(h.to_bytes(), bytes);
        }
        _ => panic!("expected HEADERS"),
    }
}

#[test]
fn priority_frame_reads_fields() {
    let bytes = frame_bytes(2, 0, 3, &[0, 0, 0, 1, 7]);
    match Frame::parse(&bytes).unwrap() {
        Frame::Priority(p) => {
            assert_eq!(p.stream_dependency, 1);
            assert!(!p.exclusive);
            assert_eq!(p.weight, 7);
        }
        _ => panic!("expected PRIORITY"),
    }
}

#[test]
fn rst_stream_bytes() {
    let r = RstFrame::from_stream_error(StreamError::new(3, HTTP2ErrorCode::Cancel));
    assert_eq!(r.to_bytes(), frame_bytes(3, 0, 3, &[0, 0, 0, 8]));
    assert_eq!(Frame::parse(&r.to_bytes()).unwrap().get_stream_id(), 3);
    assert_eq!(
        RstFrame::new(5, HTTP2ErrorCode::FlowControlError).error_code,
        3
    );
}

#[test]
fn go_away_bytes() {
    let g = GoAwayFrame::from_error_code(HTTP2ErrorCode::FrameSizeError);
    assert_eq!(g.to_bytes(), frame_bytes(7, 0, 0, &[0, 0, 0, 0, 0, 0, 0, 6]));
}

#[test]
fn error_codes_on_the_wire() {
    assert_eq!(HTTP2ErrorCode::NoError.code(), 0);
    assert_eq!(HTTP2ErrorCode::CompressionError.code(), 9);
    assert_eq!(HTTP2ErrorCode::HTTP11Required.code(), 13);
}

#[test]
fn continuation_frame_reads_fragment() {
    let bytes = frame_bytes(9, 4, 1, &[0x84, 0x86]);
    match Frame::parse(&bytes).unwrap() {
        Frame::Continuation(c) => {
            assert!(c.header.flags.end_headers);
            assert_eq!(c.header.stream_id, 1);
        }
        _ => panic!("expected CONTINUATION"),
    }
}

#[test]
fn settings_record_reads_fields() {
    let mut bytes = vec![0u8; 21];
    bytes[0..4].copy_from_slice(&4096u32.to_be_bytes());
    bytes[4] = 1;
    bytes[5..9].copy_from_slice(&100u32.to_be_bytes());
    bytes[9..13].copy_from_slice(&65535u32.to_be_bytes());
    bytes[13..17].copy_from_slice(&16384u32.to_be_bytes());
    bytes[17..21].copy_from_slice(&8192u32.to_be_bytes());
    let r = SettingsRecord::from_bytes(&bytes).unwrap();
    assert_eq!(r.header_table_size, 4096);
    assert!(r.enable_push);
    assert_eq!(r.max_concurrent_streams, 100);
    assert_eq!(r.initial_window_size, 65535);
    assert_eq!(r.max_frame_size, 16384);
    assert_eq!(r.max_header_list_size, 8192);
}

#[test]
fn settings_record_too_short() {
    let e = SettingsRecord::from_bytes(&[1, 2, 3]).unwrap_err();
    assert_eq!(e, "Settings frame must be at least 6 bytes");
}
