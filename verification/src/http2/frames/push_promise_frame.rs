use vstd::prelude::*;

use crate::http2::error::HTTP2Error;
use crate::http2::frames::frame::{spec_parse_header, FrameFlags, FrameHeader};
use crate::bytes::{
    be32_at, be32_bytes, copy_range, extend_bytes, push_u32_be, push_zeros, read_u32_be, zeros,
};

verus! {

/// The flags of a PUSH_PROMISE frame.
#[derive(Clone, Copy, Debug, PartialEq, Eq, Structural)]
pub struct PushPromiseFrameFlags {
    /// Bit 2.
    pub end_headers: bool,
    /// Bit 3.
    pub padded: bool,
}

impl FrameFlags for PushPromiseFrameFlags {
    open spec fn from_bits_spec(bits: u8) -> PushPromiseFrameFlags {
        PushPromiseFrameFlags { end_headers: bits & 4 != 0, padded: bits & 8 != 0 }
    }

    open spec fn bits_spec(&self) -> u8 {
        (if self.end_headers { 4u8 } else { 0u8 }) | (if self.padded { 8u8 } else { 0u8 })
    }

    fn from_bits(bits: u8) -> (r: PushPromiseFrameFlags) {
        PushPromiseFrameFlags { end_headers: bits & 4 != 0, padded: bits & 8 != 0 }
    }

    fn to_bits(&self) -> (r: u8) {
        let a: u8 = if self.end_headers { 4 } else { 0 };
        let b: u8 = if self.padded { 8 } else { 0 };
        a | b
    }
}

/// Writing PUSH_PROMISE flags and reading them back gives the same flags.
pub proof fn lemma_push_promise_flags_roundtrip(f: PushPromiseFrameFlags)
    ensures
        PushPromiseFrameFlags::from_bits_spec(f.bits_spec()) == f,
{
    let (e, p) = (f.end_headers, f.padded);
    assert(((if e { 4u8 } else { 0u8 }) | (if p { 8u8 } else { 0u8 })) & 4 != 0 <==> e)
        by (bit_vector);
    assert(((if e { 4u8 } else { 0u8 }) | (if p { 8u8 } else { 0u8 })) & 8 != 0 <==> p)
        by (bit_vector);
}

/// A PUSH_PROMISE frame.
#[derive(Debug)]
pub struct PushPromiseFrame {
    pub header: FrameHeader<PushPromiseFrameFlags>,
    pub pad_length: u8,
    /// The promised stream: 31 bits.
    pub promised_stream_id: u32,
    pub header_block_fragment: Vec<u8>,
}

/// A PUSH_PROMISE frame as a value.
pub struct PushPromiseFrameModel {
    pub header: FrameHeader<PushPromiseFrameFlags>,
    pub pad_length: u8,
    pub promised_stream_id: u32,
    pub header_block_fragment: Seq<u8>,
}

impl View for PushPromiseFrame {
    type V = PushPromiseFrameModel;

    open spec fn view(&self) -> PushPromiseFrameModel {
        PushPromiseFrameModel {
            header: self.header,
            pad_length: self.pad_length,
            promised_stream_id: self.promised_stream_id,
            header_block_fragment: self.header_block_fragment@,
        }
    }
}

impl PushPromiseFrameModel {
    /// The bytes of the frame: the header, the pad length byte if padded, the promised stream,
    /// the fragment and `pad_length` zero bytes.
    pub open spec fn spec_encode(self) -> Seq<u8> {
        self.header.spec_encode() + (if self.header.flags.padded {
            seq![self.pad_length]
        } else {
            Seq::empty()
        }) + be32_bytes(self.promised_stream_id) + self.header_block_fragment + zeros(
            self.pad_length as nat,
        )
    }
}

impl PushPromiseFrame {
    /// Where the promised stream identifier starts.
    pub open spec fn id_start(h: FrameHeader<PushPromiseFrameFlags>) -> int {
        if h.flags.padded {
            10
        } else {
            9
        }
    }

    /// The fragment length: the frame length less the pad length byte and the padding.
    pub open spec fn frag_len(buf: Seq<u8>, h: FrameHeader<PushPromiseFrameFlags>) -> int {
        if h.flags.padded {
            h.length - 1 - buf[9]
        } else {
            h.length as int
        }
    }

    /// The inputs on which reading a PUSH_PROMISE frame is defined: the pad length byte is there
    /// if padded, the length covers it and the padding, and the promised stream and then
    /// `frag_len` bytes of fragment are there.
    pub open spec fn parse_defined(buf: Seq<u8>) -> bool {
        &&& buf.len() >= 9
        &&& spec_parse_header::<PushPromiseFrameFlags>(buf) matches Ok(h) ==> {
            &&& (h.flags.padded ==> buf.len() >= 10 && 1 + buf[9] <= h.length)
            &&& buf.len() >= Self::id_start(h) + 4 + Self::frag_len(buf, h)
        }
    }

    /// The PUSH_PROMISE frame that `buf` holds.
    pub open spec fn spec_parse(buf: Seq<u8>) -> Result<PushPromiseFrameModel, HTTP2Error> {
        match spec_parse_header::<PushPromiseFrameFlags>(buf) {
            Err(e) => Err(e),
            Ok(h) => {
                let p = Self::id_start(h);
                Ok(
                    PushPromiseFrameModel {
                        header: h,
                        pad_length: if h.flags.padded {
                            buf[9]
                        } else {
                            0
                        },
                        promised_stream_id: (be32_at(buf, p) % 0x8000_0000) as u32,
                        header_block_fragment: buf.subrange(p + 4, p + 4 + Self::frag_len(buf, h)),
                    },
                )
            },
        }
    }

    pub fn parse(buf: &[u8]) -> (r: Result<PushPromiseFrame, HTTP2Error>)
        requires
            Self::parse_defined(buf@),
        ensures
            match (r, Self::spec_parse(buf@)) {
                (Ok(f), Ok(m)) => f@ == m,
                (Err(e), Err(e2)) => e == e2,
                _ => false,
            },
    {
        let header: FrameHeader<PushPromiseFrameFlags> = FrameHeader::parse(buf)?;
        let mut frag_length: usize = header.length as usize;
        let mut pos: usize = 9;
        let pad_length: u8 = if header.flags.padded {
            let val: u8 = buf[9];
            pos = 10;
            frag_length = frag_length - 1 - val as usize;
            val
        } else {
            0
        };
        let n: u32 = read_u32_be(buf, pos);
        let promised_stream_id: u32 = n & 0x7fff_ffff;
        assert(n & 0x7fff_ffff == n % 0x8000_0000) by (bit_vector);
        pos = pos + 4;
        let header_block_fragment = copy_range(buf, pos, pos + frag_length);
        Ok(PushPromiseFrame { header, pad_length, promised_stream_id, header_block_fragment })
    }

    /// Appends the bytes of this frame to `buf`.
    pub fn encode_to(&self, buf: &mut Vec<u8>)
        ensures
            final(buf)@ == old(buf)@ + self@.spec_encode(),
    {
        self.header.encode_to(buf);
        if self.header.flags.padded {
            buf.push(self.pad_length);
        }
        push_u32_be(buf, self.promised_stream_id);
        extend_bytes(buf, self.header_block_fragment.as_slice());
        push_zeros(buf, self.pad_length as usize);
        assert(final(buf)@ =~= old(buf)@ + self@.spec_encode());
    }
}

} // verus!
