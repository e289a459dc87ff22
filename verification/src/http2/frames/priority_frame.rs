use vstd::prelude::*;

use crate::http2::error::HTTP2Error;
use crate::http2::frames::frame::{lemma_header_roundtrip, spec_parse_header, FrameHeader};
use crate::http2::frames::headers_frame::dependency_word;
use crate::bytes::{be32_at, be32_bytes, lemma_be32_roundtrip, push_u32_be, read_u32_be};

verus! {

/// A PRIORITY frame.
#[derive(Clone, Copy, Debug, PartialEq, Eq)]
pub struct PriorityFrame {
    pub header: FrameHeader<u8>,
    /// 1 bit.
    pub exclusive: bool,
    /// 31 bits.
    pub stream_dependency: u32,
    pub weight: u8,
}

impl PriorityFrame {
    /// The inputs on which reading a PRIORITY frame is defined: the five payload bytes are there.
    pub open spec fn parse_defined(buf: Seq<u8>) -> bool {
        &&& buf.len() >= 9
        &&& spec_parse_header::<u8>(buf) is Ok ==> buf.len() >= 14
    }

    /// The PRIORITY frame that `buf` holds: the top bit of the word after the header is the
    /// exclusive bit, its other 31 bits the dependency, and the next byte the weight.
    pub open spec fn spec_parse(buf: Seq<u8>) -> Result<PriorityFrame, HTTP2Error> {
        match spec_parse_header::<u8>(buf) {
            Err(e) => Err(e),
            Ok(h) => Ok(
                PriorityFrame {
                    header: h,
                    exclusive: be32_at(buf, 9) >= 0x8000_0000,
                    stream_dependency: (be32_at(buf, 9) % 0x8000_0000) as u32,
                    weight: buf[13],
                },
            ),
        }
    }

    /// The bytes of the frame: the header, the dependency word and the weight.
    pub open spec fn spec_encode(self) -> Seq<u8> {
        self.header.spec_encode() + be32_bytes(dependency_word(self.exclusive, self.stream_dependency))
            + seq![self.weight]
    }

    pub fn parse(buf: &[u8]) -> (r: Result<PriorityFrame, HTTP2Error>)
        requires
            Self::parse_defined(buf@),
        ensures
            r == Self::spec_parse(buf@),
    {
        let header: FrameHeader<u8> = FrameHeader::parse(buf)?;
        let n: u32 = read_u32_be(buf, 9);
        let exclusive = n & 0x8000_0000 != 0;
        let stream_dependency: u32 = n & 0x7fff_ffff;
        assert(n & 0x8000_0000 != 0 <==> n >= 0x8000_0000) by (bit_vector);
        assert(n & 0x7fff_ffff == n % 0x8000_0000) by (bit_vector);
        let weight: u8 = buf[13];
        Ok(PriorityFrame { header, exclusive, stream_dependency, weight })
    }

    /// Appends the bytes of this frame to `buf`.
    pub fn encode_to(&self, buf: &mut Vec<u8>)
        ensures
            final(buf)@ == old(buf)@ + self.spec_encode(),
    {
        self.header.encode_to(buf);
        let ex: u32 = if self.exclusive { 0x8000_0000 } else { 0 };
        push_u32_be(buf, self.stream_dependency | ex);
        buf.push(self.weight);
        assert(final(buf)@ =~= old(buf)@ + self.spec_encode());
    }
}

/// A PRIORITY frame with a 31-bit dependency reads back as itself from its bytes.
pub proof fn lemma_priority_frame_roundtrip(f: PriorityFrame)
    requires
        f.header.wf(),
        f.stream_dependency < 0x8000_0000,
    ensures
        PriorityFrame::parse_defined(f.spec_encode()),
        PriorityFrame::spec_parse(f.spec_encode()) == Ok::<PriorityFrame, HTTP2Error>(f),
{
    let w = dependency_word(f.exclusive, f.stream_dependency);
    let rest = be32_bytes(w) + seq![f.weight];
    assert(f.spec_encode() =~= f.header.spec_encode() + rest);
    lemma_header_roundtrip(f.header, rest);
    lemma_be32_roundtrip(w);
    let s = f.spec_encode();
    assert(s =~= f.header.spec_encode() + be32_bytes(w) + seq![f.weight]);
    assert(be32_at(s, 9) == w);
    let (e, d) = (f.exclusive, f.stream_dependency);
    assert(w >= 0x8000_0000 <==> e) by (bit_vector)
        requires
            w == d | (if e { 0x8000_0000u32 } else { 0u32 }),
            d < 0x8000_0000,
    ;
    assert(w % 0x8000_0000 == d) by (bit_vector)
        requires
            w == d | (if e { 0x8000_0000u32 } else { 0u32 }),
            d < 0x8000_0000,
    ;
}

} // verus!
