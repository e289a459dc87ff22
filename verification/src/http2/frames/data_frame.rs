use vstd::prelude::*;

use crate::http2::error::{HTTP2Error, HTTP2ErrorCode};
use crate::http2::frames::frame::{
    lemma_header_roundtrip, spec_parse_header, FrameFlags, FrameHeader, FrameType,
};
use crate::response::Response;
use crate::bytes::{copy_range, extend_bytes, push_zeros, zeros};

verus! {

/// The flags of a DATA frame.
#[derive(Clone, Copy, Debug, PartialEq, Eq, Structural)]
pub struct DataFrameFlags {
    /// Bit 3.
    pub padding: bool,
    /// Bit 0.
    pub end_stream: bool,
}

impl FrameFlags for DataFrameFlags {
    open spec fn from_bits_spec(bits: u8) -> DataFrameFlags {
        DataFrameFlags { padding: bits & 8 != 0, end_stream: bits & 1 != 0 }
    }

    open spec fn bits_spec(&self) -> u8 {
        (if self.padding { 8u8 } else { 0u8 }) | (if self.end_stream { 1u8 } else { 0u8 })
    }

    fn from_bits(bits: u8) -> (r: DataFrameFlags) {
        DataFrameFlags { padding: bits & 8 != 0, end_stream: bits & 1 != 0 }
    }

    fn to_bits(&self) -> (r: u8) {
        let p = self.padding;
        let e = self.end_stream;
        let a: u8 = if p { 8 } else { 0 };
        let b: u8 = if e { 1 } else { 0 };
        a | b
    }
}

/// Writing DATA flags and reading them back gives the same flags; reading a byte and writing
/// the flags back keeps bits 0 and 3 of it.
pub proof fn lemma_data_flags_roundtrip(f: DataFrameFlags, b: u8)
    ensures
        DataFrameFlags::from_bits_spec(f.bits_spec()) == f,
        DataFrameFlags::from_bits_spec(b).bits_spec() == b & 9,
{
    let p = f.padding;
    let e = f.end_stream;
    assert(((if p { 8u8 } else { 0u8 }) | (if e { 1u8 } else { 0u8 })) & 8 != 0 <==> p)
        by (bit_vector);
    assert(((if p { 8u8 } else { 0u8 }) | (if e { 1u8 } else { 0u8 })) & 1 != 0 <==> e)
        by (bit_vector);
    assert(((if b & 8 != 0 { 8u8 } else { 0u8 }) | (if b & 1 != 0 { 1u8 } else { 0u8 })) == b & 9)
        by (bit_vector);
}

/// A DATA frame.
#[derive(Debug)]
pub struct DataFrame {
    pub header: FrameHeader<DataFrameFlags>,
    /// Present on the wire only when the padding flag is set.
    pub pad_length: u8,
    pub data: Vec<u8>,
}

/// A DATA frame as a value.
pub struct DataFrameModel {
    pub header: FrameHeader<DataFrameFlags>,
    pub pad_length: u8,
    pub data: Seq<u8>,
}

impl View for DataFrame {
    type V = DataFrameModel;

    open spec fn view(&self) -> DataFrameModel {
        DataFrameModel { header: self.header, pad_length: self.pad_length, data: self.data@ }
    }
}

impl DataFrameModel {
    /// The bytes of the frame: the header, the pad length byte when the padding flag is set,
    /// the data, and then `pad_length` zero bytes.
    pub open spec fn spec_encode(self) -> Seq<u8> {
        self.header.spec_encode() + (if self.header.flags.padding {
            seq![self.pad_length]
        } else {
            Seq::empty()
        }) + self.data + zeros(self.pad_length as nat)
    }
}

impl DataFrame {
    /// The offset in a frame's bytes at which the data starts.
    pub open spec fn data_start(h: FrameHeader<DataFrameFlags>) -> int {
        if h.flags.padding {
            10
        } else {
            9
        }
    }

    /// The pad length that a frame's bytes give.
    pub open spec fn spec_pad_length(buf: Seq<u8>, h: FrameHeader<DataFrameFlags>) -> u8 {
        if h.flags.padding {
            buf[9]
        } else {
            0
        }
    }

    /// The inputs on which reading a DATA frame is defined: a header is there, the pad length
    /// byte is there when the padding flag is set, and the pad length is at most the length.
    pub open spec fn parse_defined(buf: Seq<u8>) -> bool {
        &&& buf.len() >= 9
        &&& spec_parse_header::<DataFrameFlags>(buf) matches Ok(h) ==> {
            &&& (h.flags.padding ==> buf.len() >= 10)
            &&& Self::spec_pad_length(buf, h) <= h.length
        }
    }

    /// The DATA frame that `buf` holds: `length - pad_length` bytes of data follow the header
    /// (and the pad length byte, if any). Too few bytes give `Connection(FrameSizeError)`.
    pub open spec fn spec_parse(buf: Seq<u8>) -> Result<DataFrameModel, HTTP2Error> {
        match spec_parse_header::<DataFrameFlags>(buf) {
            Err(e) => Err(e),
            Ok(h) => {
                let start = Self::data_start(h);
                let pad = Self::spec_pad_length(buf, h);
                let n = h.length - pad;
                if buf.len() - start < n {
                    Err(HTTP2Error::Connection(HTTP2ErrorCode::FrameSizeError))
                } else {
                    Ok(
                        DataFrameModel {
                            header: h,
                            pad_length: pad,
                            data: buf.subrange(start, start + n),
                        },
                    )
                }
            },
        }
    }

    pub fn parse(buf: &[u8]) -> (r: Result<DataFrame, HTTP2Error>)
        requires
            Self::parse_defined(buf@),
        ensures
            match (r, Self::spec_parse(buf@)) {
                (Ok(f), Ok(m)) => f@ == m,
                (Err(e), Err(e2)) => e == e2,
                _ => false,
            },
    {
        let header: FrameHeader<DataFrameFlags> = FrameHeader::parse(buf)?;
        let mut start: usize = 9;
        let pad_length: u8 = if header.flags.padding {
            start = 10;
            buf[9]
        } else {
            0
        };
        let data_length: u32 = header.length - pad_length as u32;
        if ((buf.len() - start) as u64) < data_length as u64 {
            return Err(HTTP2Error::Connection(HTTP2ErrorCode::FrameSizeError));
        }
        let data = copy_range(buf, start, start + data_length as usize);
        Ok(DataFrame { header, pad_length, data })
    }

    /// A DATA frame that carries `data` whole on the given stream, unpadded.
    pub fn new(stream_id: u32, data: Vec<u8>, end_stream: bool) -> (r: DataFrame)
        ensures
            r.header == (FrameHeader {
                length: data@.len() as u32,
                frame_type: FrameType::Data,
                flags: DataFrameFlags { padding: false, end_stream },
                stream_id,
            }),
            r.pad_length == 0,
            r.data@ == data@,
    {
        DataFrame {
            header: FrameHeader {
                length: data.len() as u32,
                frame_type: FrameType::Data,
                flags: DataFrameFlags { padding: false, end_stream },
                stream_id,
            },
            pad_length: 0,
            data,
        }
    }

    /// The DATA frame that carries the body of a response and ends its stream.
    pub fn from_response(res: &Response) -> (r: DataFrame)
        ensures
            r.header == (FrameHeader {
                length: res.body@.len() as u32,
                frame_type: FrameType::Data,
                flags: DataFrameFlags { padding: false, end_stream: true },
                stream_id: res.stream_id,
            }),
            r.pad_length == 0,
            r.data@ == res.body@,
    {
        let data = copy_range(res.body.as_slice(), 0, res.body.len());
        assert(res.body@.subrange(0, res.body@.len() as int) == res.body@);
        DataFrame::new(res.stream_id, data, true)
    }

    /// Appends the bytes of this frame to `buf`.
    pub fn encode_to(&self, buf: &mut Vec<u8>)
        ensures
            final(buf)@ == old(buf)@ + self@.spec_encode(),
    {
        self.header.encode_to(buf);
        if self.header.flags.padding {
            buf.push(self.pad_length);
        }
        extend_bytes(buf, self.data.as_slice());
        if self.pad_length > 0 {
            push_zeros(buf, self.pad_length as usize);
        }
        assert(zeros(0) =~= Seq::<u8>::empty());
        assert(final(buf)@ =~= old(buf)@ + self@.spec_encode());
    }

    /// The bytes of this frame.
    pub fn to_bytes(&self) -> (r: Vec<u8>)
        ensures
            r@ == self@.spec_encode(),
    {
        let mut buf = Vec::new();
        self.encode_to(&mut buf);
        assert(buf@ =~= self@.spec_encode());
        buf
    }
}

/// An unpadded DATA frame whose length is that of its data reads back as itself from its bytes.
pub proof fn lemma_data_frame_roundtrip(m: DataFrameModel)
    requires
        m.header.wf(),
        !m.header.flags.padding,
        m.pad_length == 0,
        m.header.length == m.data.len(),
    ensures
        DataFrame::parse_defined(m.spec_encode()),
        DataFrame::spec_parse(m.spec_encode()) == Ok::<DataFrameModel, HTTP2Error>(m),
{
    let tail = m.data + zeros(0);
    assert(zeros(0) =~= Seq::<u8>::empty());
    assert(m.spec_encode() =~= m.header.spec_encode() + m.data);
    lemma_header_roundtrip(m.header, m.data);
    assert(m.spec_encode().subrange(9, 9 + m.data.len() as int) =~= m.data);
}

} // verus!
