use vstd::prelude::*;

verus! {

/// An error that ends either the whole connection or a single stream.
#[derive(Clone, Copy, Debug, PartialEq, Eq, Structural)]
pub enum HTTP2Error {
    Connection(HTTP2ErrorCode),
    Stream(StreamError),
}

/// The error codes of HTTP/2 (RFC 9113, section 7).
#[derive(Clone, Copy, Debug, PartialEq, Eq, Structural)]
pub enum HTTP2ErrorCode {
    NoError,
    ProtocolError,
    InternalError,
    FlowControlError,
    SettingsTimeout,
    StreamClosed,
    FrameSizeError,
    RefusedStream,
    Cancel,
    CompressionError,
    ConnectError,
    EnhanceYourCalm,
    InadequateSecurity,
    HTTP11Required,
}

impl HTTP2ErrorCode {
    /// The number that stands for this code on the wire.
    pub open spec fn spec_code(self) -> u32 {
        match self {
            HTTP2ErrorCode::NoError => 0,
            HTTP2ErrorCode::ProtocolError => 1,
            HTTP2ErrorCode::InternalError => 2,
            HTTP2ErrorCode::FlowControlError => 3,
            HTTP2ErrorCode::SettingsTimeout => 4,
            HTTP2ErrorCode::StreamClosed => 5,
            HTTP2ErrorCode::FrameSizeError => 6,
            HTTP2ErrorCode::RefusedStream => 7,
            HTTP2ErrorCode::Cancel => 8,
            HTTP2ErrorCode::CompressionError => 9,
            HTTP2ErrorCode::ConnectError => 10,
            HTTP2ErrorCode::EnhanceYourCalm => 11,
            HTTP2ErrorCode::InadequateSecurity => 12,
            HTTP2ErrorCode::HTTP11Required => 13,
        }
    }

    /// The number that stands for this code on the wire.
    pub fn code(&self) -> (r: u32)
        ensures
            r == self.spec_code(),
    {
        match self {
            HTTP2ErrorCode::NoError => 0,
            HTTP2ErrorCode::ProtocolError => 1,
            HTTP2ErrorCode::InternalError => 2,
            HTTP2ErrorCode::FlowControlError => 3,
            HTTP2ErrorCode::SettingsTimeout => 4,
            HTTP2ErrorCode::StreamClosed => 5,
            HTTP2ErrorCode::FrameSizeError => 6,
            HTTP2ErrorCode::RefusedStream => 7,
            HTTP2ErrorCode::Cancel => 8,
            HTTP2ErrorCode::CompressionError => 9,
            HTTP2ErrorCode::ConnectError => 10,
            HTTP2ErrorCode::EnhanceYourCalm => 11,
            HTTP2ErrorCode::InadequateSecurity => 12,
            HTTP2ErrorCode::HTTP11Required => 13,
        }
    }
}

/// An error confined to one stream; it is answered with a RST_STREAM frame.
#[derive(Clone, Copy, Debug, PartialEq, Eq, Structural)]
pub struct StreamError {
    pub stream_id: u32,
    pub error_code: HTTP2ErrorCode,
}

impl StreamError {
    pub fn new(stream_id: u32, error_code: HTTP2ErrorCode) -> (r: Self)
        ensures
            r == (StreamError { stream_id, error_code }),
    {
        Self { stream_id, error_code }
    }
}

} // verus!
