use vstd::prelude::*;

use crate::http2::error::{HTTP2Error, HTTP2ErrorCode, StreamError};
use crate::http2::frames::frame::{lemma_header_roundtrip, spec_parse_header, FrameHeader, FrameType};
use crate::bytes::{be32_at, be32_bytes, lemma_be32_roundtrip, push_u32_be, read_u32_be};

verus! {

/// A RST_STREAM frame.
#[derive(Clone, Copy, Debug, PartialEq, Eq)]
pub struct RstFrame {
    pub header: FrameHeader<u8>,
    pub error_code: u32,
}

impl RstFrame {
    /// The RST_STREAM frame that ends a stream with an error code.
    pub fn new(stream_id: u32, e: HTTP2ErrorCode) -> (r: Self)
        ensures
            r == (RstFrame {
                header: FrameHeader {
                    length: 4,
                    frame_type: FrameType::RstStream,
                    flags: 0,
                    stream_id,
                },
                error_code: e.spec_code(),
            }),
    {
        RstFrame {
            header: FrameHeader { length: 4, frame_type: FrameType::RstStream, flags: 0, stream_id },
            error_code: e.code(),
        }
    }

    /// The RST_STREAM frame that answers a stream error.
    pub fn from_stream_error(e: StreamError) -> (r: Self)
        ensures
            r == (RstFrame {
                header: FrameHeader {
                    length: 4,
                    frame_type: FrameType::RstStream,
                    flags: 0,
                    stream_id: e.stream_id,
                },
                error_code: e.error_code.spec_code(),
            }),
    {
        RstFrame::new(e.stream_id, e.error_code)
    }

    /// The inputs on which reading a RST_STREAM frame is defined: the error code is there.
    pub open spec fn parse_defined(buf: Seq<u8>) -> bool {
        &&& buf.len() >= 9
        &&& spec_parse_header::<u8>(buf) is Ok ==> buf.len() >= 13
    }

    /// The RST_STREAM frame that `buf` holds: the error code is the word after the header.
    pub open spec fn spec_parse(buf: Seq<u8>) -> Result<RstFrame, HTTP2Error> {
        match spec_parse_header::<u8>(buf) {
            Err(e) => Err(e),
            Ok(h) => Ok(RstFrame { header: h, error_code: be32_at(buf, 9) as u32 }),
        }
    }

    /// The bytes of the frame: the header and the error code.
    pub open spec fn spec_encode(self) -> Seq<u8> {
        self.header.spec_encode() + be32_bytes(self.error_code)
    }

    pub fn parse(buf: &[u8]) -> (r: Result<RstFrame, HTTP2Error>)
        requires
            Self::parse_defined(buf@),
        ensures
            r == Self::spec_parse(buf@),
    {
        let header: FrameHeader<u8> = FrameHeader::parse(buf)?;
        let error_code: u32 = read_u32_be(buf, 9);
        Ok(RstFrame { header, error_code })
    }

    /// Appends the bytes of this frame to `buf`.
    pub fn encode_to(&self, buf: &mut Vec<u8>)
        ensures
            final(buf)@ == old(buf)@ + self.spec_encode(),
    {
        self.header.encode_to(buf);
        push_u32_be(buf, self.error_code);
        assert(final(buf)@ =~= old(buf)@ + self.spec_encode());
    }

    /// The bytes of this frame.
    pub fn to_bytes(&self) -> (r: Vec<u8>)
        ensures
            r@ == self.spec_encode(),
    {
        let mut buf = Vec::new();
        self.encode_to(&mut buf);
        assert(buf@ =~= self.spec_encode());
        buf
    }
}

/// A RST_STREAM frame reads back as itself from its bytes.
pub proof fn lemma_rst_frame_roundtrip(f: RstFrame)
    requires
        f.header.wf(),
    ensures
        RstFrame::parse_defined(f.spec_encode()),
        RstFrame::spec_parse(f.spec_encode()) == Ok::<RstFrame, HTTP2Error>(f),
{
    lemma_header_roundtrip(f.header, be32_bytes(f.error_code));
    lemma_be32_roundtrip(f.error_code);
    assert(f.spec_encode() =~= f.header.spec_encode() + be32_bytes(f.error_code) + Seq::empty());
}

} // verus!
