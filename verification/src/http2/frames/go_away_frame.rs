use vstd::prelude::*;

use crate::http2::error::HTTP2ErrorCode;
use crate::http2::frames::frame::{FrameFlags, FrameHeader, FrameType};
use crate::bytes::{be32_bytes, extend_bytes, push_u32_be};

verus! {

/// The flags of a GOAWAY frame: it defines none.
#[derive(Clone, Copy, Debug, PartialEq, Eq, Structural)]
pub struct GoAwayFrameFlags {}

impl FrameFlags for GoAwayFrameFlags {
    open spec fn from_bits_spec(bits: u8) -> GoAwayFrameFlags {
        GoAwayFrameFlags {  }
    }

    open spec fn bits_spec(&self) -> u8 {
        0
    }

    fn from_bits(bits: u8) -> (r: GoAwayFrameFlags) {
        GoAwayFrameFlags {  }
    }

    fn to_bits(&self) -> (r: u8) {
        0
    }
}

/// A GOAWAY frame.
#[derive(Debug)]
pub struct GoAwayFrame {
    pub header: FrameHeader<GoAwayFrameFlags>,
    /// 31 bits.
    pub last_stream_id: u32,
    pub error_code: u32,
    pub data: Vec<u8>,
}

/// A GOAWAY frame as a value.
pub struct GoAwayFrameModel {
    pub header: FrameHeader<GoAwayFrameFlags>,
    pub last_stream_id: u32,
    pub error_code: u32,
    pub data: Seq<u8>,
}

impl View for GoAwayFrame {
    type V = GoAwayFrameModel;

    open spec fn view(&self) -> GoAwayFrameModel {
        GoAwayFrameModel {
            header: self.header,
            last_stream_id: self.last_stream_id,
            error_code: self.error_code,
            data: self.data@,
        }
    }
}

impl GoAwayFrameModel {
    /// The bytes of the frame: the header, the last stream, the error code and the debug data.
    pub open spec fn spec_encode(self) -> Seq<u8> {
        self.header.spec_encode() + be32_bytes(self.last_stream_id) + be32_bytes(self.error_code)
            + self.data
    }
}

impl GoAwayFrame {
    /// The GOAWAY frame that closes the connection with an error code: on stream 0, with last
    /// stream 0 and no debug data.
    pub fn from_error_code(e: HTTP2ErrorCode) -> (r: GoAwayFrame)
        ensures
            r.header == (FrameHeader {
                length: 8,
                frame_type: FrameType::GoAway,
                flags: GoAwayFrameFlags {  },
                stream_id: 0,
            }),
            r.last_stream_id == 0,
            r.error_code == e.spec_code(),
            r.data@ == Seq::<u8>::empty(),
    {
        GoAwayFrame {
            header: FrameHeader {
                length: 8,
                frame_type: FrameType::GoAway,
                flags: GoAwayFrameFlags {  },
                stream_id: 0,
            },
            last_stream_id: 0,
            error_code: e.code(),
            data: Vec::new(),
        }
    }

    /// Appends the bytes of this frame to `buf`.
    pub fn encode_to(&self, buf: &mut Vec<u8>)
        ensures
            final(buf)@ == old(buf)@ + self@.spec_encode(),
    {
        self.header.encode_to(buf);
        push_u32_be(buf, self.last_stream_id);
        push_u32_be(buf, self.error_code);
        extend_bytes(buf, self.data.as_slice());
        assert(final(buf)@ =~= old(buf)@ + self@.spec_encode());
    }

    /// The bytes of this frame.
    pub fn to_bytes(&self) -> (r: Vec<u8>)
        ensures
            r@ == self@.spec_encode(),
    {
        let mut buf = Vec::new();
        self.encode_to(&mut buf);
        assert(buf@ =~= self@.spec_encode());
        buf
    }
}

} // verus!
