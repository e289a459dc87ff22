use vstd::prelude::*;

use crate::text::{text_lowercase, to_lowercase};

use crate::http2::error::{HTTP2Error, HTTP2ErrorCode};
use crate::http2::frames::frame::{
    lemma_header_roundtrip, spec_parse_header, FrameFlags, FrameHeader, FrameType,
};
use crate::http2::codec::{hpack_encode, HpackEncoder};
use crate::http2::header_builder::pairs_view;
use crate::response::{HeaderList, Response, ResponseModel};
use crate::bytes::{decimal, decimal_bytes,
    be32_at, be32_bytes, copy_range, extend_bytes, lemma_be32_roundtrip, push_u32_be, push_zeros,
    read_u32_be, zeros,
};

verus! {

/// The flags of a HEADERS frame.
#[derive(Clone, Copy, Debug, PartialEq, Eq, Structural)]
pub struct HeadersFrameFlags {
    /// Bit 0.
    pub end_stream: bool,
    /// Bit 2.
    pub end_headers: bool,
    /// Bit 3.
    pub padded: bool,
    /// Bit 5.
    pub priority: bool,
}

pub open spec fn bit_if(b: bool, v: u8) -> u8 {
    if b {
        v
    } else {
        0
    }
}

impl FrameFlags for HeadersFrameFlags {
    open spec fn from_bits_spec(bits: u8) -> HeadersFrameFlags {
        HeadersFrameFlags {
            end_stream: bits & 1 != 0,
            end_headers: bits & 4 != 0,
            padded: bits & 8 != 0,
            priority: bits & 32 != 0,
        }
    }

    open spec fn bits_spec(&self) -> u8 {
        bit_if(self.end_stream, 1) | bit_if(self.end_headers, 4) | bit_if(self.padded, 8) | bit_if(
            self.priority,
            32,
        )
    }

    fn from_bits(bits: u8) -> (r: HeadersFrameFlags) {
        HeadersFrameFlags {
            end_stream: bits & 1 != 0,
            end_headers: bits & 4 != 0,
            padded: bits & 8 != 0,
            priority: bits & 32 != 0,
        }
    }

    fn to_bits(&self) -> (r: u8) {
        let a: u8 = if self.end_stream { 1 } else { 0 };
        let b: u8 = if self.end_headers { 4 } else { 0 };
        let c: u8 = if self.padded { 8 } else { 0 };
        let d: u8 = if self.priority { 32 } else { 0 };
        a | b | c | d
    }
}

/// Writing HEADERS flags and reading them back gives the same flags; reading a byte and writing
/// the flags back keeps bits 0, 2, 3 and 5 of it.
pub proof fn lemma_headers_flags_roundtrip(f: HeadersFrameFlags, b: u8)
    ensures
        HeadersFrameFlags::from_bits_spec(f.bits_spec()) == f,
        HeadersFrameFlags::from_bits_spec(b).bits_spec() == b & 45,
{
    let (e, h, p, q) = (f.end_stream, f.end_headers, f.padded, f.priority);
    let x = bit_if(e, 1) | bit_if(h, 4) | bit_if(p, 8) | bit_if(q, 32);
    assert(x & 1 != 0 <==> e) by (bit_vector)
        requires
            x == (if e { 1u8 } else { 0u8 }) | (if h { 4u8 } else { 0u8 }) | (if p { 8u8 } else {
                0u8
            }) | (if q { 32u8 } else { 0u8 }),
    ;
    assert(x & 4 != 0 <==> h) by (bit_vector)
        requires
            x == (if e { 1u8 } else { 0u8 }) | (if h { 4u8 } else { 0u8 }) | (if p { 8u8 } else {
                0u8
            }) | (if q { 32u8 } else { 0u8 }),
    ;
    assert(x & 8 != 0 <==> p) by (bit_vector)
        requires
            x == (if e { 1u8 } else { 0u8 }) | (if h { 4u8 } else { 0u8 }) | (if p { 8u8 } else {
                0u8
            }) | (if q { 32u8 } else { 0u8 }),
    ;
    assert(x & 32 != 0 <==> q) by (bit_vector)
        requires
            x == (if e { 1u8 } else { 0u8 }) | (if h { 4u8 } else { 0u8 }) | (if p { 8u8 } else {
                0u8
            }) | (if q { 32u8 } else { 0u8 }),
    ;
    let y = HeadersFrameFlags::from_bits_spec(b).bits_spec();
    assert(y == b & 45) by (bit_vector)
        requires
            y == (if b & 1 != 0 { 1u8 } else { 0u8 }) | (if b & 4 != 0 { 4u8 } else { 0u8 }) | (
            if b & 8 != 0 { 8u8 } else { 0u8 }) | (if b & 32 != 0 { 32u8 } else { 0u8 }),
    ;
}

/// A HEADERS frame.
#[derive(Debug)]
pub struct HeadersFrame {
    pub header: FrameHeader<HeadersFrameFlags>,
    pub pad_length: u8,
    pub exclusive: Option<bool>,
    /// 31 bits on the wire.
    pub stream_dependency: Option<u32>,
    pub weight: Option<u8>,
    pub header_block_fragment: Vec<u8>,
}

/// A HEADERS frame as a value.
pub struct HeadersFrameModel {
    pub header: FrameHeader<HeadersFrameFlags>,
    pub pad_length: u8,
    pub exclusive: Option<bool>,
    pub stream_dependency: Option<u32>,
    pub weight: Option<u8>,
    pub header_block_fragment: Seq<u8>,
}

impl View for HeadersFrame {
    type V = HeadersFrameModel;

    open spec fn view(&self) -> HeadersFrameModel {
        HeadersFrameModel {
            header: self.header,
            pad_length: self.pad_length,
            exclusive: self.exclusive,
            stream_dependency: self.stream_dependency,
            weight: self.weight,
            header_block_fragment: self.header_block_fragment@,
        }
    }
}

/// The 32-bit word that carries the exclusive bit and the stream dependency.
pub open spec fn dependency_word(exclusive: bool, dependency: u32) -> u32 {
    dependency | (if exclusive { 0x8000_0000u32 } else { 0u32 })
}

impl HeadersFrameModel {
    /// The bytes of the frame: the header; the pad length byte if padded; the dependency word
    /// and the weight if the priority flag is set; the fragment; `pad_length` zero bytes.
    pub open spec fn spec_encode(self) -> Seq<u8> {
        self.header.spec_encode() + (if self.header.flags.padded {
            seq![self.pad_length]
        } else {
            Seq::empty()
        }) + (if self.header.flags.priority {
            be32_bytes(dependency_word(self.exclusive->0, self.stream_dependency->0)) + seq![
                self.weight->0,
            ]
        } else {
            Seq::empty()
        }) + self.header_block_fragment + zeros(self.pad_length as nat)
    }

    /// The priority fields are present exactly when the priority flag is set, so that the
    /// frame can be written.
    pub open spec fn encodable(self) -> bool {
        self.header.flags.priority ==> (self.exclusive is Some && self.stream_dependency is Some
            && self.weight is Some)
    }
}

impl HeadersFrame {
    /// The offset at which the priority fields (or else the fragment) start.
    pub open spec fn after_pad(h: FrameHeader<HeadersFrameFlags>) -> int {
        if h.flags.padded {
            10
        } else {
            9
        }
    }

    pub open spec fn spec_pad_length(buf: Seq<u8>, h: FrameHeader<HeadersFrameFlags>) -> u8 {
        if h.flags.padded {
            buf[9]
        } else {
            0
        }
    }

    /// The fragment length left once the pad length byte and the padding are taken away.
    pub open spec fn len_after_pad(buf: Seq<u8>, h: FrameHeader<HeadersFrameFlags>) -> int {
        if h.flags.padded {
            h.length - 1 - buf[9]
        } else {
            h.length as int
        }
    }

    /// The inputs on which reading a HEADERS frame is defined: the pad length byte, and the
    /// five priority bytes, are there when their flags are set, and the length covers them.
    pub open spec fn parse_defined(buf: Seq<u8>) -> bool {
        &&& buf.len() >= 9
        &&& spec_parse_header::<HeadersFrameFlags>(buf) matches Ok(h) ==> (h.stream_id != 0 ==> {
            &&& (h.flags.padded ==> buf.len() >= 10 && 1 + buf[9] <= h.length)
            &&& (h.flags.priority ==> buf.len() >= Self::after_pad(h) + 5 && Self::len_after_pad(
                buf,
                h,
            ) >= 5)
        })
    }

    /// The HEADERS frame that `buf` holds. Stream 0 gives `Connection(ProtocolError)`; a
    /// fragment that the bytes do not hold gives `Connection(FrameSizeError)`.
    pub open spec fn spec_parse(buf: Seq<u8>) -> Result<HeadersFrameModel, HTTP2Error> {
        match spec_parse_header::<HeadersFrameFlags>(buf) {
            Err(e) => Err(e),
            Ok(h) => if h.stream_id == 0 {
                Err(HTTP2Error::Connection(HTTP2ErrorCode::ProtocolError))
            } else {
                let p = Self::after_pad(h);
                let frag_start = if h.flags.priority {
                    p + 5
                } else {
                    p
                };
                let frag_len = if h.flags.priority {
                    Self::len_after_pad(buf, h) - 5
                } else {
                    Self::len_after_pad(buf, h)
                };
                if buf.len() - frag_start < frag_len {
                    Err(HTTP2Error::Connection(HTTP2ErrorCode::FrameSizeError))
                } else {
                    let w = be32_at(buf, p);
                    Ok(
                        HeadersFrameModel {
                            header: h,
                            pad_length: Self::spec_pad_length(buf, h),
                            exclusive: if h.flags.priority {
                                Some(w >= 0x8000_0000)
                            } else {
                                None
                            },
                            stream_dependency: if h.flags.priority {
                                Some((w % 0x8000_0000) as u32)
                            } else {
                                None
                            },
                            weight: if h.flags.priority {
                                Some(buf[p + 4])
                            } else {
                                None
                            },
                            header_block_fragment: buf.subrange(frag_start, frag_start + frag_len),
                        },
                    )
                }
            },
        }
    }

    pub fn parse(buf: &[u8]) -> (r: Result<HeadersFrame, HTTP2Error>)
        requires
            Self::parse_defined(buf@),
        ensures
            match (r, Self::spec_parse(buf@)) {
                (Ok(f), Ok(m)) => f@ == m,
                (Err(e), Err(e2)) => e == e2,
                _ => false,
            },
    {
        let header: FrameHeader<HeadersFrameFlags> = FrameHeader::parse(buf)?;
        if header.stream_id == 0 {
            return Err(HTTP2Error::Connection(HTTP2ErrorCode::ProtocolError));
        }
        let mut pos: usize = 9;
        let mut frag_length: usize = header.length as usize;
        let pad_length: u8 = if header.flags.padded {
            let val: u8 = buf[9];
            pos = 10;
            frag_length = frag_length - 1 - val as usize;
            val
        } else {
            0
        };
        let (exclusive, stream_dependency, weight) = if header.flags.priority {
            let value: u32 = read_u32_be(buf, pos);
            let weight: u8 = buf[pos + 4];
            frag_length = frag_length - 5;
            pos = pos + 5;
            let exclusive = value & 0x8000_0000 != 0;
            let dependency: u32 = value & 0x7fff_ffff;
            assert(value & 0x8000_0000 != 0 <==> value >= 0x8000_0000) by (bit_vector);
            assert(value & 0x7fff_ffff == value % 0x8000_0000) by (bit_vector);
            (Some(exclusive), Some(dependency), Some(weight))
        } else {
            (None, None, None)
        };
        if buf.len() - pos < frag_length {
            return Err(HTTP2Error::Connection(HTTP2ErrorCode::FrameSizeError));
        }
        let header_block_fragment = copy_range(buf, pos, pos + frag_length);
        Ok(HeadersFrame {
            header,
            pad_length,
            exclusive,
            stream_dependency,
            weight,
            header_block_fragment,
        })
    }

    /// The HEADERS frame that carries a whole header block on a stream: unpadded, without
    /// priority, with END_HEADERS set and END_STREAM clear.
    pub fn from_block(stream_id: u32, block: Vec<u8>) -> (r: HeadersFrame)
        ensures
            r.header == (FrameHeader {
                length: block@.len() as u32,
                frame_type: FrameType::Headers,
                flags: HeadersFrameFlags {
                    end_stream: false,
                    end_headers: true,
                    padded: false,
                    priority: false,
                },
                stream_id,
            }),
            r.pad_length == 0,
            r.exclusive is None,
            r.stream_dependency is None,
            r.weight is None,
            r.header_block_fragment@ == block@,
    {
        HeadersFrame {
            header: FrameHeader {
                length: block.len() as u32,
                frame_type: FrameType::Headers,
                flags: HeadersFrameFlags {
                    end_stream: false,
                    end_headers: true,
                    padded: false,
                    priority: false,
                },
                stream_id,
            },
            pad_length: 0,
            exclusive: None,
            stream_dependency: None,
            weight: None,
            header_block_fragment: block,
        }
    }

    /// Appends the bytes of this frame to `buf`.
    pub fn encode_to(&self, buf: &mut Vec<u8>)
        requires
            self@.encodable(),
        ensures
            final(buf)@ == old(buf)@ + self@.spec_encode(),
    {
        self.header.encode_to(buf);
        if self.header.flags.padded {
            buf.push(self.pad_length);
        }
        if self.header.flags.priority {
            let dep: u32 = self.stream_dependency.unwrap();
            let ex: u32 = if self.exclusive.unwrap() { 0x8000_0000 } else { 0 };
            push_u32_be(buf, dep | ex);
            buf.push(self.weight.unwrap());
        }
        extend_bytes(buf, self.header_block_fragment.as_slice());
        if self.pad_length > 0 {
            push_zeros(buf, self.pad_length as usize);
        }
        assert(zeros(0) =~= Seq::<u8>::empty());
        assert(final(buf)@ =~= old(buf)@ + self@.spec_encode());
    }

    /// The bytes of this frame.
    pub fn to_bytes(&self) -> (r: Vec<u8>)
        requires
            self@.encodable(),
        ensures
            r@ == self@.spec_encode(),
    {
        let mut buf = Vec::new();
        self.encode_to(&mut buf);
        assert(buf@ =~= self@.spec_encode());
        buf
    }
}

/// The header list that answers with a response: `:status` with the code, then each header of
/// the response with its name in small letters (see `text_lowercase`).
pub open spec fn spec_response_header_list(m: ResponseModel) -> HeaderList {
    seq![
        (
            seq![':' as u8, 's' as u8, 't' as u8, 'a' as u8, 't' as u8, 'u' as u8, 's' as u8],
            decimal(m.status_code.spec_code() as nat),
        ),
    ] + m.headers.map_values(|h: (Seq<u8>, Seq<u8>)| (text_lowercase(h.0), h.1))
}

/// The header list that answers with a response (see `spec_response_header_list`).
pub fn response_header_list(res: &Response) -> (r: Vec<(Vec<u8>, Vec<u8>)>)
    ensures
        pairs_view(r@) == spec_response_header_list(res@),
{
    let mut r: Vec<(Vec<u8>, Vec<u8>)> = Vec::new();
    let status_name: Vec<u8> = vec![':' as u8, 's' as u8, 't' as u8, 'a' as u8, 't' as u8, 'u' as u8, 's' as u8];
    r.push((status_name, decimal_bytes(res.status_code.to_code() as u64)));
    let ghost first = pairs_view(r@);
    let ghost hs = res@.headers;
    let mut i: usize = 0;
    while i < res.headers.len()
        invariant
            i <= res.headers@.len(),
            hs == res@.headers,
            first.len() == 1,
            pairs_view(r@) == first + hs.subrange(0, i as int).map_values(
                |h: (Seq<u8>, Seq<u8>)| (text_lowercase(h.0), h.1),
            ),
        decreases res.headers@.len() - i,
    {
        let name = to_lowercase(res.headers[i].name.as_slice());
        let value = copy_range(res.headers[i].value.as_slice(), 0, res.headers[i].value.len());
        assert(res.headers@[i as int].value@.subrange(0, res.headers@[i as int].value@.len() as int)
            =~= res.headers@[i as int].value@);
        assert(hs[i as int] == res.headers@[i as int]@);
        let ghost prev = pairs_view(r@);
        let ghost entry = (name@, value@);
        r.push((name, value));
        assert(pairs_view(r@) =~= prev.push(entry));
        assert(hs.subrange(0, i + 1) =~= hs.subrange(0, i as int).push(hs[i as int]));
        i = i + 1;
        assert(pairs_view(r@) =~= first + hs.subrange(0, i as int).map_values(
            |h: (Seq<u8>, Seq<u8>)| (text_lowercase(h.0), h.1),
        ));
    }
    assert(hs.subrange(0, i as int) =~= hs);
    r
}

impl HeadersFrame {
    /// The HEADERS frame that answers with a response: its header list (see
    /// `spec_response_header_list`) encoded with the connection's encoder, which is handed it.
    pub fn from_response(res: &Response, encoder: &mut HpackEncoder) -> (r: HeadersFrame)
        ensures
            r.header_block_fragment@ == hpack_encode(old(encoder)@, spec_response_header_list(res@)),
            final(encoder)@ == old(encoder)@.push(spec_response_header_list(res@)),
            r.header == (FrameHeader {
                length: r.header_block_fragment@.len() as u32,
                frame_type: FrameType::Headers,
                flags: HeadersFrameFlags {
                    end_stream: false,
                    end_headers: true,
                    padded: false,
                    priority: false,
                },
                stream_id: res.stream_id,
            }),
            r.pad_length == 0,
            r.exclusive is None,
            r.stream_dependency is None,
            r.weight is None,
    {
        let list = response_header_list(res);
        let block = encoder.encode(&list);
        HeadersFrame::from_block(res.stream_id, block)
    }
}

/// A HEADERS frame on a nonzero stream whose length counts its pad length byte, priority
/// fields, fragment and padding, and whose priority fields are present exactly when its flag is
/// set (with a 31-bit dependency), reads back as itself from its bytes.
#[verifier::rlimit(80)]
pub proof fn lemma_headers_frame_roundtrip(m: HeadersFrameModel)
    requires
        m.header.wf(),
        m.header.stream_id != 0,
        m.header.flags.priority ==> (m.exclusive is Some && m.stream_dependency is Some
            && m.weight is Some && m.stream_dependency->0 < 0x8000_0000),
        !m.header.flags.priority ==> (m.exclusive is None && m.stream_dependency is None
            && m.weight is None),
        !m.header.flags.padded ==> m.pad_length == 0,
        m.header.length == (if m.header.flags.padded {
            1 + m.pad_length
        } else {
            0int
        }) + (if m.header.flags.priority {
            5int
        } else {
            0
        }) + m.header_block_fragment.len(),
    ensures
        HeadersFrame::parse_defined(m.spec_encode()),
        HeadersFrame::spec_parse(m.spec_encode()) == Ok::<HeadersFrameModel, HTTP2Error>(m),
{
    let pad_part = if m.header.flags.padded {
        seq![m.pad_length]
    } else {
        Seq::empty()
    };
    let prio_part = if m.header.flags.priority {
        be32_bytes(dependency_word(m.exclusive->0, m.stream_dependency->0)) + seq![m.weight->0]
    } else {
        Seq::<u8>::empty()
    };
    let rest = pad_part + prio_part + m.header_block_fragment + zeros(m.pad_length as nat);
    assert(m.spec_encode() =~= m.header.spec_encode() + rest);
    lemma_header_roundtrip(m.header, rest);
    let s = m.spec_encode();
    let h = m.header;
    let p = HeadersFrame::after_pad(h);
    if h.flags.padded {
        assert(s[9] == m.pad_length);
    }
    assert(HeadersFrame::spec_pad_length(s, h) == m.pad_length);
    if h.flags.priority {
        let e = m.exclusive->0;
        let d = m.stream_dependency->0;
        let w = dependency_word(e, d);
        lemma_be32_roundtrip(w);
        let pre = m.header.spec_encode() + pad_part;
        assert(s =~= pre + be32_bytes(w) + (seq![m.weight->0] + m.header_block_fragment + zeros(
            m.pad_length as nat,
        )));
        assert(pre.len() == p);
        assert(be32_at(s, p) == w);
        assert(s[p + 4] == m.weight->0);
        assert(w >= 0x8000_0000 <==> e) by (bit_vector)
            requires
                w == d | (if e { 0x8000_0000u32 } else { 0u32 }),
                d < 0x8000_0000,
        ;
        assert(w % 0x8000_0000 == d) by (bit_vector)
            requires
                w == d | (if e { 0x8000_0000u32 } else { 0u32 }),
                d < 0x8000_0000,
        ;
    }
    let frag_start = if h.flags.priority {
        p + 5
    } else {
        p
    };
    let frag_len = if h.flags.priority {
        HeadersFrame::len_after_pad(s, h) - 5
    } else {
        HeadersFrame::len_after_pad(s, h)
    };
    assert(frag_len == m.header_block_fragment.len());
    assert(s.len() == frag_start + m.header_block_fragment.len() + m.pad_length);
    assert(s.subrange(frag_start, frag_start + frag_len) =~= m.header_block_fragment);
    assert(HeadersFrame::parse_defined(s));
    let parsed = HeadersFrame::spec_parse(s);
    assert(parsed matches Ok(pm) && pm.header == m.header && pm.pad_length == m.pad_length
        && pm.exclusive == m.exclusive && pm.stream_dependency == m.stream_dependency
        && pm.weight == m.weight && pm.header_block_fragment == m.header_block_fragment);
}

} // verus!
