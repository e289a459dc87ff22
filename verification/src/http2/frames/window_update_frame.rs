use vstd::prelude::*;

use crate::http2::error::HTTP2Error;
use crate::http2::frames::frame::{lemma_header_roundtrip, spec_parse_header, FrameHeader};
use crate::bytes::{be32_at, be32_bytes, lemma_be32_roundtrip, push_u32_be, read_u32_be};

verus! {

/// A WINDOW_UPDATE frame.
#[derive(Clone, Copy, Debug, PartialEq, Eq)]
pub struct WindowUpdateFrame {
    pub header: FrameHeader<u8>,
    /// 31 bits: the top bit is ignored.
    pub window_size_increment: u32,
}

impl WindowUpdateFrame {
    /// The inputs on which reading a WINDOW_UPDATE frame is defined: the increment is there.
    pub open spec fn parse_defined(buf: Seq<u8>) -> bool {
        &&& buf.len() >= 9
        &&& spec_parse_header::<u8>(buf) is Ok ==> buf.len() >= 13
    }

    /// The WINDOW_UPDATE frame that `buf` holds: the increment is the low 31 bits of the word
    /// after the header.
    pub open spec fn spec_parse(buf: Seq<u8>) -> Result<WindowUpdateFrame, HTTP2Error> {
        match spec_parse_header::<u8>(buf) {
            Err(e) => Err(e),
            Ok(h) => Ok(
                WindowUpdateFrame {
                    header: h,
                    window_size_increment: (be32_at(buf, 9) % 0x8000_0000) as u32,
                },
            ),
        }
    }

    /// The bytes of the frame: the header and the low 31 bits of the increment.
    pub open spec fn spec_encode(self) -> Seq<u8> {
        self.header.spec_encode() + be32_bytes((self.window_size_increment % 0x8000_0000) as u32)
    }

    pub fn parse(buf: &[u8]) -> (r: Result<WindowUpdateFrame, HTTP2Error>)
        requires
            Self::parse_defined(buf@),
        ensures
            r == Self::spec_parse(buf@),
    {
        let header: FrameHeader<u8> = FrameHeader::parse(buf)?;
        let raw: u32 = read_u32_be(buf, 9);
        let window_size_increment: u32 = raw & 0x7fff_ffff;
        assert(raw & 0x7fff_ffff == raw % 0x8000_0000) by (bit_vector);
        Ok(WindowUpdateFrame { header, window_size_increment })
    }

    /// Appends the bytes of this frame to `buf`.
    pub fn encode_to(&self, buf: &mut Vec<u8>)
        ensures
            final(buf)@ == old(buf)@ + self.spec_encode(),
    {
        self.header.encode_to(buf);
        let v: u32 = self.window_size_increment;
        assert(v & 0x7fff_ffff == v % 0x8000_0000) by (bit_vector);
        push_u32_be(buf, v & 0x7fff_ffff);
        assert(final(buf)@ =~= old(buf)@ + self.spec_encode());
    }
}

/// A WINDOW_UPDATE frame reads back from its bytes with the low 31 bits of its increment, so a
/// frame whose increment fits in 31 bits reads back as itself.
pub proof fn lemma_window_update_roundtrip(f: WindowUpdateFrame)
    requires
        f.header.wf(),
    ensures
        WindowUpdateFrame::parse_defined(f.spec_encode()),
        WindowUpdateFrame::spec_parse(f.spec_encode()) == Ok::<WindowUpdateFrame, HTTP2Error>(
            WindowUpdateFrame {
                header: f.header,
                window_size_increment: (f.window_size_increment % 0x8000_0000) as u32,
            },
        ),
        f.window_size_increment < 0x8000_0000 ==> WindowUpdateFrame::spec_parse(f.spec_encode())
            == Ok::<WindowUpdateFrame, HTTP2Error>(f),
{
    let v = (f.window_size_increment % 0x8000_0000) as u32;
    let s = f.spec_encode();
    lemma_header_roundtrip(f.header, be32_bytes(v));
    lemma_be32_roundtrip(v);
    assert(s =~= f.header.spec_encode() + be32_bytes(v) + Seq::empty());
    assert(be32_at(s, 9) == v);
    assert(v % 0x8000_0000 == v);
}

} // verus!
