use vstd::prelude::*;

use crate::http2::error::HTTP2Error;
use crate::http2::frames::frame::{spec_parse_header, FrameFlags, FrameHeader};
use crate::bytes::{copy_range, extend_bytes};

verus! {

/// The flags of a CONTINUATION frame.
#[derive(Clone, Copy, Debug, PartialEq, Eq, Structural)]
pub struct ContinuationFrameFlags {
    /// Bit 2.
    pub end_headers: bool,
}

impl FrameFlags for ContinuationFrameFlags {
    open spec fn from_bits_spec(bits: u8) -> ContinuationFrameFlags {
        ContinuationFrameFlags { end_headers: bits & 4 != 0 }
    }

    open spec fn bits_spec(&self) -> u8 {
        if self.end_headers {
            4
        } else {
            0
        }
    }

    fn from_bits(bits: u8) -> (r: ContinuationFrameFlags) {
        ContinuationFrameFlags { end_headers: bits & 4 != 0 }
    }

    fn to_bits(&self) -> (r: u8) {
        if self.end_headers {
            4
        } else {
            0
        }
    }
}

/// Writing CONTINUATION flags and reading them back gives the same flags.
pub proof fn lemma_continuation_flags_roundtrip(f: ContinuationFrameFlags)
    ensures
        ContinuationFrameFlags::from_bits_spec(f.bits_spec()) == f,
{
    assert(4u8 & 4 != 0) by (bit_vector);
    assert(0u8 & 4 == 0) by (bit_vector);
}

/// A CONTINUATION frame.
#[derive(Debug)]
pub struct ContinuationFrame {
    pub header: FrameHeader<ContinuationFrameFlags>,
    pub header_block_fragment: Vec<u8>,
}

/// A CONTINUATION frame as a value.
pub struct ContinuationFrameModel {
    pub header: FrameHeader<ContinuationFrameFlags>,
    pub header_block_fragment: Seq<u8>,
}

impl View for ContinuationFrame {
    type V = ContinuationFrameModel;

    open spec fn view(&self) -> ContinuationFrameModel {
        ContinuationFrameModel {
            header: self.header,
            header_block_fragment: self.header_block_fragment@,
        }
    }
}

impl ContinuationFrameModel {
    /// The bytes of the frame: the header and the fragment.
    pub open spec fn spec_encode(self) -> Seq<u8> {
        self.header.spec_encode() + self.header_block_fragment
    }
}

impl ContinuationFrame {
    /// The inputs on which reading a CONTINUATION frame is defined: the fragment is taken as the
    /// bytes from offset 9 up to offset `length`, so `length` lies between 9 and the buffer's end.
    pub open spec fn parse_defined(buf: Seq<u8>) -> bool {
        &&& buf.len() >= 9
        &&& spec_parse_header::<ContinuationFrameFlags>(buf) matches Ok(h) ==> 9 <= h.length
            <= buf.len()
    }

    /// The CONTINUATION frame that `buf` holds: its fragment is `buf[9..length]`.
    pub open spec fn spec_parse(buf: Seq<u8>) -> Result<ContinuationFrameModel, HTTP2Error> {
        match spec_parse_header::<ContinuationFrameFlags>(buf) {
            Err(e) => Err(e),
            Ok(h) => Ok(
                ContinuationFrameModel {
                    header: h,
                    header_block_fragment: buf.subrange(9, h.length as int),
                },
            ),
        }
    }

    pub fn parse(buf: &[u8]) -> (r: Result<ContinuationFrame, HTTP2Error>)
        requires
            Self::parse_defined(buf@),
        ensures
            match (r, Self::spec_parse(buf@)) {
                (Ok(f), Ok(m)) => f@ == m,
                (Err(e), Err(e2)) => e == e2,
                _ => false,
            },
    {
        let header: FrameHeader<ContinuationFrameFlags> = FrameHeader::parse(buf)?;
        let header_block_fragment = copy_range(buf, 9, header.length as usize);
        Ok(ContinuationFrame { header, header_block_fragment })
    }

    /// Appends the bytes of this frame to `buf`.
    pub fn encode_to(&self, buf: &mut Vec<u8>)
        ensures
            final(buf)@ == old(buf)@ + self@.spec_encode(),
    {
        self.header.encode_to(buf);
        extend_bytes(buf, self.header_block_fragment.as_slice());
        assert(final(buf)@ =~= old(buf)@ + self@.spec_encode());
    }
}

} // verus!
