use vstd::prelude::*;

use crate::http2::error::{HTTP2Error, HTTP2ErrorCode};
use crate::http2::frames::frame::{
    lemma_header_roundtrip, spec_parse_header, FrameFlags, FrameHeader, FrameType,
};
use crate::bytes::{copy_range, extend_bytes};

verus! {

/// The flags of a PING frame.
#[derive(Clone, Copy, Debug, PartialEq, Eq, Structural)]
pub struct PingFrameFlags {
    /// Bit 0.
    pub ack: bool,
}

impl FrameFlags for PingFrameFlags {
    open spec fn from_bits_spec(bits: u8) -> PingFrameFlags {
        PingFrameFlags { ack: bits & 1 != 0 }
    }

    open spec fn bits_spec(&self) -> u8 {
        if self.ack {
            1
        } else {
            0
        }
    }

    fn from_bits(bits: u8) -> (r: PingFrameFlags) {
        PingFrameFlags { ack: bits & 1 != 0 }
    }

    fn to_bits(&self) -> (r: u8) {
        if self.ack {
            1
        } else {
            0
        }
    }
}

/// Writing PING flags and reading them back gives the same flags.
pub proof fn lemma_ping_flags_roundtrip(f: PingFrameFlags)
    ensures
        PingFrameFlags::from_bits_spec(f.bits_spec()) == f,
{
    assert(1u8 & 1 != 0) by (bit_vector);
    assert(0u8 & 1 == 0) by (bit_vector);
}

/// A PING frame.
#[derive(Debug)]
pub struct PingFrame {
    pub header: FrameHeader<PingFrameFlags>,
    pub opaque_data: Vec<u8>,
}

/// A PING frame as a value.
pub struct PingFrameModel {
    pub header: FrameHeader<PingFrameFlags>,
    pub opaque_data: Seq<u8>,
}

impl View for PingFrame {
    type V = PingFrameModel;

    open spec fn view(&self) -> PingFrameModel {
        PingFrameModel { header: self.header, opaque_data: self.opaque_data@ }
    }
}

impl PingFrameModel {
    /// The bytes of the frame: the header and the opaque data.
    pub open spec fn spec_encode(self) -> Seq<u8> {
        self.header.spec_encode() + self.opaque_data
    }
}

impl PingFrame {
    /// The PING frame that `buf` holds: `length` bytes of opaque data follow the header; too few
    /// bytes give `Connection(FrameSizeError)`.
    pub open spec fn spec_parse(buf: Seq<u8>) -> Result<PingFrameModel, HTTP2Error> {
        match spec_parse_header::<PingFrameFlags>(buf) {
            Err(e) => Err(e),
            Ok(h) => if buf.len() - 9 < h.length {
                Err(HTTP2Error::Connection(HTTP2ErrorCode::FrameSizeError))
            } else {
                Ok(
                    PingFrameModel {
                        header: h,
                        opaque_data: buf.subrange(9, 9 + h.length as int),
                    },
                )
            },
        }
    }

    pub fn parse(buf: &[u8]) -> (r: Result<PingFrame, HTTP2Error>)
        requires
            buf@.len() >= 9,
        ensures
            match (r, Self::spec_parse(buf@)) {
                (Ok(f), Ok(m)) => f@ == m,
                (Err(e), Err(e2)) => e == e2,
                _ => false,
            },
    {
        let header: FrameHeader<PingFrameFlags> = FrameHeader::parse(buf)?;
        if ((buf.len() - 9) as u64) < header.length as u64 {
            return Err(HTTP2Error::Connection(HTTP2ErrorCode::FrameSizeError));
        }
        let opaque_data = copy_range(buf, 9, 9 + header.length as usize);
        Ok(PingFrame { header, opaque_data })
    }

    /// The acknowledgement of a PING: the same opaque data and stream, with the ACK flag set and
    /// the length of the data.
    pub fn ack(ping: PingFrame) -> (r: PingFrame)
        ensures
            r.header == (FrameHeader {
                length: ping.opaque_data@.len() as u32,
                frame_type: FrameType::Ping,
                flags: PingFrameFlags { ack: true },
                stream_id: ping.header.stream_id,
            }),
            r.opaque_data@ == ping.opaque_data@,
    {
        PingFrame {
            header: FrameHeader {
                length: ping.opaque_data.len() as u32,
                frame_type: FrameType::Ping,
                flags: PingFrameFlags { ack: true },
                stream_id: ping.header.stream_id,
            },
            opaque_data: ping.opaque_data,
        }
    }

    /// Appends the bytes of this frame to `buf`.
    pub fn encode_to(&self, buf: &mut Vec<u8>)
        ensures
            final(buf)@ == old(buf)@ + self@.spec_encode(),
    {
        self.header.encode_to(buf);
        extend_bytes(buf, self.opaque_data.as_slice());
        assert(final(buf)@ =~= old(buf)@ + self@.spec_encode());
    }
}

/// A PING frame whose length is that of its data reads back as itself from its bytes.
pub proof fn lemma_ping_frame_roundtrip(m: PingFrameModel)
    requires
        m.header.wf(),
        m.header.length == m.opaque_data.len(),
    ensures
        PingFrame::spec_parse(m.spec_encode()) == Ok::<PingFrameModel, HTTP2Error>(m),
{
    lemma_header_roundtrip(m.header, m.opaque_data);
    assert(m.spec_encode().subrange(9, 9 + m.opaque_data.len() as int) =~= m.opaque_data);
}

} // verus!
