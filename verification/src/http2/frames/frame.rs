use vstd::prelude::*;

use crate::http2::error::{HTTP2Error, HTTP2ErrorCode};
use crate::http2::frames::continuation_frame::{ContinuationFrame, ContinuationFrameModel};
use crate::http2::frames::data_frame::{lemma_data_frame_roundtrip, DataFrame, DataFrameModel};
use crate::http2::frames::go_away_frame::{GoAwayFrame, GoAwayFrameModel};
use crate::http2::frames::headers_frame::{
    lemma_headers_frame_roundtrip, HeadersFrame, HeadersFrameModel,
};
use crate::http2::frames::ping_frame::{lemma_ping_frame_roundtrip, PingFrame, PingFrameModel};
use crate::http2::frames::priority_frame::{lemma_priority_frame_roundtrip, PriorityFrame};
use crate::http2::frames::push_promise_frame::{PushPromiseFrame, PushPromiseFrameModel};
use crate::http2::frames::rst_frame::{lemma_rst_frame_roundtrip, RstFrame};
use crate::http2::frames::settings_frame::{
    count_some, lemma_apply_entries_header, lemma_settings_frame_roundtrip, SettingsFrame,
    SettingsFrameFlags,
};
use crate::http2::frames::window_update_frame::{lemma_window_update_roundtrip, WindowUpdateFrame};
use crate::bytes::{be24, be24_bytes, be32_at, be32_bytes, push_u24_be, push_u32_be, read_u32_be};
use crate::util::u32_from_3_bytes;

verus! {

/// The frame types of HTTP/2 (RFC 9113, section 6).
#[derive(Clone, Copy, Debug, PartialEq, Eq, Structural)]
pub enum FrameType {
    Data,
    Headers,
    Priority,
    RstStream,
    Settings,
    PushPromise,
    Ping,
    GoAway,
    WindowUpdate,
    Continuation,
}

impl FrameType {
    /// The type byte that stands for this frame type on the wire.
    pub open spec fn spec_code(self) -> u8 {
        match self {
            FrameType::Data => 0,
            FrameType::Headers => 1,
            FrameType::Priority => 2,
            FrameType::RstStream => 3,
            FrameType::Settings => 4,
            FrameType::PushPromise => 5,
            FrameType::Ping => 6,
            FrameType::GoAway => 7,
            FrameType::WindowUpdate => 8,
            FrameType::Continuation => 9,
        }
    }

    /// The frame type a type byte stands for; bytes above 9 stand for none.
    pub open spec fn spec_from_byte(b: u8) -> Option<FrameType> {
        if b == 0 {
            Some(FrameType::Data)
        } else if b == 1 {
            Some(FrameType::Headers)
        } else if b == 2 {
            Some(FrameType::Priority)
        } else if b == 3 {
            Some(FrameType::RstStream)
        } else if b == 4 {
            Some(FrameType::Settings)
        } else if b == 5 {
            Some(FrameType::PushPromise)
        } else if b == 6 {
            Some(FrameType::Ping)
        } else if b == 7 {
            Some(FrameType::GoAway)
        } else if b == 8 {
            Some(FrameType::WindowUpdate)
        } else if b == 9 {
            Some(FrameType::Continuation)
        } else {
            None
        }
    }

    pub fn code(&self) -> (r: u8)
        ensures
            r == self.spec_code(),
    {
        match self {
            FrameType::Data => 0,
            FrameType::Headers => 1,
            FrameType::Priority => 2,
            FrameType::RstStream => 3,
            FrameType::Settings => 4,
            FrameType::PushPromise => 5,
            FrameType::Ping => 6,
            FrameType::GoAway => 7,
            FrameType::WindowUpdate => 8,
            FrameType::Continuation => 9,
        }
    }

    /// Reads a type byte. An unknown type is reported as `Connection(NoError)`: such a frame is
    /// to be discarded, not answered.
    pub fn from_byte(b: u8) -> (r: Result<FrameType, HTTP2Error>)
        ensures
            match Self::spec_from_byte(b) {
                Some(t) => r == Ok::<FrameType, HTTP2Error>(t),
                None => r == Err::<FrameType, HTTP2Error>(
                    HTTP2Error::Connection(HTTP2ErrorCode::NoError),
                ),
            },
    {
        match b {
            0 => Ok(FrameType::Data),
            1 => Ok(FrameType::Headers),
            2 => Ok(FrameType::Priority),
            3 => Ok(FrameType::RstStream),
            4 => Ok(FrameType::Settings),
            5 => Ok(FrameType::PushPromise),
            6 => Ok(FrameType::Ping),
            7 => Ok(FrameType::GoAway),
            8 => Ok(FrameType::WindowUpdate),
            9 => Ok(FrameType::Continuation),
            _ => Err(HTTP2Error::Connection(HTTP2ErrorCode::NoError)),
        }
    }
}

/// Reading back the type byte of a frame type gives the frame type; and every type byte that
/// stands for a frame type is that type's byte.
pub proof fn lemma_frame_type_roundtrip(t: FrameType, b: u8)
    ensures
        FrameType::spec_from_byte(t.spec_code()) == Some(t),
        FrameType::spec_from_byte(b) matches Some(u) ==> u.spec_code() == b,
        FrameType::spec_from_byte(b) is None <==> b > 9,
{
}

/// The flags byte of a frame header, read into the fields that a frame type defines.
pub trait FrameFlags: Sized {
    /// The flags that a flags byte stands for.
    spec fn from_bits_spec(bits: u8) -> Self;

    /// The flags byte that these flags are written as.
    spec fn bits_spec(&self) -> u8;

    fn from_bits(bits: u8) -> (r: Self)
        ensures
            r == Self::from_bits_spec(bits),
    ;

    fn to_bits(&self) -> (r: u8)
        ensures
            r == self.bits_spec(),
    ;
}

/// Frame types that define no flags keep the raw flags byte.
impl FrameFlags for u8 {
    open spec fn from_bits_spec(bits: u8) -> u8 {
        bits
    }

    open spec fn bits_spec(&self) -> u8 {
        *self
    }

    fn from_bits(bits: u8) -> (r: u8) {
        bits
    }

    fn to_bits(&self) -> (r: u8) {
        *self
    }
}

/// The 9-byte header that starts every frame.
#[derive(Clone, Copy, Debug, PartialEq, Eq)]
pub struct FrameHeader<T> {
    /// The payload length: 24 bits on the wire.
    pub length: u32,
    pub frame_type: FrameType,
    pub flags: T,
    /// 31 bits on the wire; the reserved top bit is ignored when read.
    pub stream_id: u32,
}

/// The header that `buf` starts with, or the error that reading it gives.
pub open spec fn spec_parse_header<T: FrameFlags>(buf: Seq<u8>) -> Result<FrameHeader<T>, HTTP2Error> {
    match FrameType::spec_from_byte(buf[3]) {
        None => Err(HTTP2Error::Connection(HTTP2ErrorCode::NoError)),
        Some(t) => Ok(
            FrameHeader {
                length: be24(buf[0], buf[1], buf[2]) as u32,
                frame_type: t,
                flags: T::from_bits_spec(buf[4]),
                stream_id: (be32_at(buf, 5) % 0x8000_0000) as u32,
            },
        ),
    }
}

impl<T: FrameFlags> FrameHeader<T> {
    /// The 9 bytes that this header is written as: the length (its low 24 bits), the type byte,
    /// the flags byte and the stream identifier.
    pub open spec fn spec_encode(self) -> Seq<u8> {
        be24_bytes(self.length) + seq![self.frame_type.spec_code(), self.flags.bits_spec()]
            + be32_bytes(self.stream_id)
    }

    /// A header that reads back as itself: its length fits in 24 bits and its stream identifier
    /// in 31, and its flags are written as bits that read back as the same flags.
    pub open spec fn wf(self) -> bool {
        &&& self.length < 0x100_0000
        &&& self.stream_id < 0x8000_0000
        &&& T::from_bits_spec(self.flags.bits_spec()) == self.flags
    }

    /// Reads the header at the start of `buf`.
    pub fn parse(buf: &[u8]) -> (r: Result<Self, HTTP2Error>)
        requires
            buf@.len() >= 9,
        ensures
            r == spec_parse_header::<T>(buf@),
    {
        let length: u32 = u32_from_3_bytes([buf[0], buf[1], buf[2]]);
        let frame_type = FrameType::from_byte(buf[3])?;
        let flags = T::from_bits(buf[4]);
        let raw: u32 = read_u32_be(buf, 5);
        let stream_id: u32 = raw & 0x7fff_ffff;
        assert(raw & 0x7fff_ffff == raw % 0x8000_0000) by (bit_vector);
        Ok(FrameHeader { length, frame_type, flags, stream_id })
    }

    /// Appends the 9 bytes of this header to `buf`.
    pub fn encode_to(&self, buf: &mut Vec<u8>)
        ensures
            final(buf)@ == old(buf)@ + self.spec_encode(),
    {
        push_u24_be(buf, self.length);
        buf.push(self.frame_type.code());
        buf.push(self.flags.to_bits());
        push_u32_be(buf, self.stream_id);
        assert(final(buf)@ =~= old(buf)@ + self.spec_encode());
    }
}

/// Reading back the 9 bytes of a header gives the header again, whatever follows them.
pub proof fn lemma_header_roundtrip<T: FrameFlags>(h: FrameHeader<T>, rest: Seq<u8>)
    requires
        h.wf(),
    ensures
        (h.spec_encode() + rest).len() >= 9,
        spec_parse_header::<T>(h.spec_encode() + rest) == Ok::<FrameHeader<T>, HTTP2Error>(h),
{
    let s = h.spec_encode() + rest;
    let l = h.length;
    lemma_frame_type_roundtrip(h.frame_type, 0);
    assert(s[0] == ((l / 65536) % 256) as u8);
    assert(s[1] == ((l / 256) % 256) as u8);
    assert(s[2] == (l % 256) as u8);
    assert(s[3] == h.frame_type.spec_code());
    assert(s[4] == h.flags.bits_spec());
    assert((((l / 65536) % 256) as u8) as nat * 65536 + (((l / 256) % 256) as u8) as nat * 256 + ((
    l % 256) as u8) as nat == l) by (nonlinear_arith)
        requires
            l < 0x100_0000,
    ;
    crate::bytes::lemma_be32_roundtrip(h.stream_id);
    let pre = be24_bytes(h.length) + seq![h.frame_type.spec_code(), h.flags.bits_spec()];
    assert(s == pre + be32_bytes(h.stream_id) + rest);
    assert(be32_at(s, 5) == h.stream_id);
}

/// A frame of any type.
#[derive(Debug)]
pub enum Frame {
    Data(DataFrame),
    Headers(HeadersFrame),
    Priority(PriorityFrame),
    RstStream(RstFrame),
    Settings(SettingsFrame),
    PushPromise(PushPromiseFrame),
    Ping(PingFrame),
    GoAway(GoAwayFrame),
    WindowUpdate(WindowUpdateFrame),
    Continuation(ContinuationFrame),
}

/// A frame of any type, as a value.
pub enum FrameModel {
    Data(DataFrameModel),
    Headers(HeadersFrameModel),
    Priority(PriorityFrame),
    RstStream(RstFrame),
    Settings(SettingsFrame),
    PushPromise(PushPromiseFrameModel),
    Ping(PingFrameModel),
    GoAway(GoAwayFrameModel),
    WindowUpdate(WindowUpdateFrame),
    Continuation(ContinuationFrameModel),
}

impl View for Frame {
    type V = FrameModel;

    open spec fn view(&self) -> FrameModel {
        match self {
            Frame::Data(f) => FrameModel::Data(f@),
            Frame::Headers(f) => FrameModel::Headers(f@),
            Frame::Priority(f) => FrameModel::Priority(*f),
            Frame::RstStream(f) => FrameModel::RstStream(*f),
            Frame::Settings(f) => FrameModel::Settings(*f),
            Frame::PushPromise(f) => FrameModel::PushPromise(f@),
            Frame::Ping(f) => FrameModel::Ping(f@),
            Frame::GoAway(f) => FrameModel::GoAway(f@),
            Frame::WindowUpdate(f) => FrameModel::WindowUpdate(*f),
            Frame::Continuation(f) => FrameModel::Continuation(f@),
        }
    }
}

impl FrameModel {
    /// The stream that the frame's header names.
    pub open spec fn stream_id(self) -> u32 {
        match self {
            FrameModel::Data(f) => f.header.stream_id,
            FrameModel::Headers(f) => f.header.stream_id,
            FrameModel::Priority(f) => f.header.stream_id,
            FrameModel::RstStream(f) => f.header.stream_id,
            FrameModel::Settings(f) => f.header.stream_id,
            FrameModel::PushPromise(f) => f.header.stream_id,
            FrameModel::Ping(f) => f.header.stream_id,
            FrameModel::GoAway(f) => f.header.stream_id,
            FrameModel::WindowUpdate(f) => f.header.stream_id,
            FrameModel::Continuation(f) => f.header.stream_id,
        }
    }

    /// The bytes of the frame.
    pub open spec fn spec_encode(self) -> Seq<u8> {
        match self {
            FrameModel::Data(f) => f.spec_encode(),
            FrameModel::Headers(f) => f.spec_encode(),
            FrameModel::Priority(f) => f.spec_encode(),
            FrameModel::RstStream(f) => f.spec_encode(),
            FrameModel::Settings(f) => f.spec_encode(),
            FrameModel::PushPromise(f) => f.spec_encode(),
            FrameModel::Ping(f) => f.spec_encode(),
            FrameModel::GoAway(f) => f.spec_encode(),
            FrameModel::WindowUpdate(f) => f.spec_encode(),
            FrameModel::Continuation(f) => f.spec_encode(),
        }
    }

    /// The frame can be written: a HEADERS frame has its priority fields when its flag is set.
    pub open spec fn encodable(self) -> bool {
        self matches FrameModel::Headers(f) ==> f.encodable()
    }

    /// The frames whose bytes read back as themselves: a well-formed header of the frame's own
    /// type, a length that counts the payload, and 31-bit stream fields. Padded DATA frames,
    /// PUSH_PROMISE, CONTINUATION and GOAWAY frames are not among them.
    pub open spec fn reads_back(self) -> bool {
        match self {
            FrameModel::Data(m) => {
                &&& m.header.wf()
                &&& m.header.frame_type == FrameType::Data
                &&& !m.header.flags.padding
                &&& m.pad_length == 0
                &&& m.header.length == m.data.len()
            },
            FrameModel::Headers(m) => {
                &&& m.header.wf()
                &&& m.header.frame_type == FrameType::Headers
                &&& m.header.stream_id != 0
                &&& m.header.flags.priority ==> (m.exclusive is Some && m.stream_dependency is Some
                    && m.weight is Some && m.stream_dependency->0 < 0x8000_0000)
                &&& !m.header.flags.priority ==> (m.exclusive is None && m.stream_dependency is None
                    && m.weight is None)
                &&& !m.header.flags.padded ==> m.pad_length == 0
                &&& m.header.length == (if m.header.flags.padded {
                    1 + m.pad_length
                } else {
                    0int
                }) + (if m.header.flags.priority {
                    5int
                } else {
                    0
                }) + m.header_block_fragment.len()
            },
            FrameModel::Priority(f) => {
                &&& f.header.wf()
                &&& f.header.frame_type == FrameType::Priority
                &&& f.stream_dependency < 0x8000_0000
            },
            FrameModel::RstStream(f) => f.header.wf() && f.header.frame_type == FrameType::RstStream,
            FrameModel::Settings(f) => {
                &&& f.header.wf()
                &&& f.header.frame_type == FrameType::Settings
                &&& f.header.length == 6 * count_some(f)
            },
            FrameModel::Ping(m) => {
                &&& m.header.wf()
                &&& m.header.frame_type == FrameType::Ping
                &&& m.header.length == m.opaque_data.len()
            },
            FrameModel::WindowUpdate(f) => {
                &&& f.header.wf()
                &&& f.header.frame_type == FrameType::WindowUpdate
                &&& f.window_size_increment < 0x8000_0000
            },
            _ => false,
        }
    }
}

impl Frame {
    /// The inputs on which reading a frame is defined: a 9-byte header is there and the reader
    /// of its type is defined on them. GOAWAY frames cannot be read.
    pub open spec fn parse_defined(buf: Seq<u8>) -> bool {
        &&& buf.len() >= 9
        &&& match FrameType::spec_from_byte(buf[3]) {
            None => true,
            Some(FrameType::Data) => DataFrame::parse_defined(buf),
            Some(FrameType::Headers) => HeadersFrame::parse_defined(buf),
            Some(FrameType::Priority) => PriorityFrame::parse_defined(buf),
            Some(FrameType::RstStream) => RstFrame::parse_defined(buf),
            Some(FrameType::Settings) => true,
            Some(FrameType::PushPromise) => PushPromiseFrame::parse_defined(buf),
            Some(FrameType::Ping) => true,
            Some(FrameType::GoAway) => false,
            Some(FrameType::WindowUpdate) => WindowUpdateFrame::parse_defined(buf),
            Some(FrameType::Continuation) => ContinuationFrame::parse_defined(buf),
        }
    }

    /// The frame that `buf` holds, read by the reader of the type that its type byte names. An
    /// unknown type byte gives `Connection(NoError)`: the frame is to be discarded.
    pub open spec fn spec_parse(buf: Seq<u8>) -> Result<FrameModel, HTTP2Error> {
        match FrameType::spec_from_byte(buf[3]) {
            None => Err(HTTP2Error::Connection(HTTP2ErrorCode::NoError)),
            Some(FrameType::Data) => match DataFrame::spec_parse(buf) {
                Ok(m) => Ok(FrameModel::Data(m)),
                Err(e) => Err(e),
            },
            Some(FrameType::Headers) => match HeadersFrame::spec_parse(buf) {
                Ok(m) => Ok(FrameModel::Headers(m)),
                Err(e) => Err(e),
            },
            Some(FrameType::Priority) => match PriorityFrame::spec_parse(buf) {
                Ok(m) => Ok(FrameModel::Priority(m)),
                Err(e) => Err(e),
            },
            Some(FrameType::RstStream) => match RstFrame::spec_parse(buf) {
                Ok(m) => Ok(FrameModel::RstStream(m)),
                Err(e) => Err(e),
            },
            Some(FrameType::Settings) => match SettingsFrame::spec_parse(buf) {
                Ok(m) => Ok(FrameModel::Settings(m)),
                Err(e) => Err(e),
            },
            Some(FrameType::PushPromise) => match PushPromiseFrame::spec_parse(buf) {
                Ok(m) => Ok(FrameModel::PushPromise(m)),
                Err(e) => Err(e),
            },
            Some(FrameType::Ping) => match PingFrame::spec_parse(buf) {
                Ok(m) => Ok(FrameModel::Ping(m)),
                Err(e) => Err(e),
            },
            Some(FrameType::GoAway) => Err(HTTP2Error::Connection(HTTP2ErrorCode::NoError)),
            Some(FrameType::WindowUpdate) => match WindowUpdateFrame::spec_parse(buf) {
                Ok(m) => Ok(FrameModel::WindowUpdate(m)),
                Err(e) => Err(e),
            },
            Some(FrameType::Continuation) => match ContinuationFrame::spec_parse(buf) {
                Ok(m) => Ok(FrameModel::Continuation(m)),
                Err(e) => Err(e),
            },
        }
    }

    /// Reads the frame that `buf` holds.
    pub fn parse(buf: &[u8]) -> (r: Result<Frame, HTTP2Error>)
        requires
            Self::parse_defined(buf@),
        ensures
            match (r, Self::spec_parse(buf@)) {
                (Ok(f), Ok(m)) => f@ == m,
                (Err(e), Err(e2)) => e == e2,
                _ => false,
            },
    {
        let frame_type = FrameType::from_byte(buf[3])?;
        match frame_type {
            FrameType::Data => Ok(Frame::Data(DataFrame::parse(buf)?)),
            FrameType::Headers => Ok(Frame::Headers(HeadersFrame::parse(buf)?)),
            FrameType::Priority => Ok(Frame::Priority(PriorityFrame::parse(buf)?)),
            FrameType::RstStream => Ok(Frame::RstStream(RstFrame::parse(buf)?)),
            FrameType::Settings => Ok(Frame::Settings(SettingsFrame::parse(buf)?)),
            FrameType::PushPromise => Ok(Frame::PushPromise(PushPromiseFrame::parse(buf)?)),
            FrameType::Ping => Ok(Frame::Ping(PingFrame::parse(buf)?)),
            FrameType::GoAway => Err(HTTP2Error::Connection(HTTP2ErrorCode::NoError)),
            FrameType::WindowUpdate => Ok(Frame::WindowUpdate(WindowUpdateFrame::parse(buf)?)),
            FrameType::Continuation => Ok(Frame::Continuation(ContinuationFrame::parse(buf)?)),
        }
    }

    /// Whether reading the frame that `buf` holds is defined (see `parse_defined`).
    pub fn can_parse(buf: &[u8]) -> (r: bool)
        ensures
            r == Self::parse_defined(buf@),
    {
        if buf.len() < 9 {
            return false;
        }
        let length: usize = u32_from_3_bytes([buf[0], buf[1], buf[2]]) as usize;
        let len: usize = buf.len();
        let flags: u8 = buf[4];
        match FrameType::from_byte(buf[3]) {
            Err(_) => true,
            Ok(FrameType::Data) => {
                let padded = flags & 8 != 0;
                if padded {
                    len >= 10 && buf[9] as usize <= length
                } else {
                    true
                }
            },
            Ok(FrameType::Headers) => {
                let padded = flags & 8 != 0;
                let priority = flags & 32 != 0;
                let raw: u32 = read_u32_be(buf, 5);
                if raw & 0x7fff_ffff == 0 {
                    assert(raw & 0x7fff_ffff == raw % 0x8000_0000) by (bit_vector);
                    return true;
                }
                assert(raw & 0x7fff_ffff == raw % 0x8000_0000) by (bit_vector);
                let mut after_pad: usize = 9;
                let mut rest: usize = length;
                if padded {
                    if len < 10 || 1 + buf[9] as usize > length {
                        return false;
                    }
                    after_pad = 10;
                    rest = length - 1 - buf[9] as usize;
                }
                if priority {
                    len >= after_pad + 5 && rest >= 5
                } else {
                    true
                }
            },
            Ok(FrameType::Priority) => len >= 14,
            Ok(FrameType::RstStream) => len >= 13,
            Ok(FrameType::Settings) => true,
            Ok(FrameType::PushPromise) => {
                let padded = flags & 8 != 0;
                if padded {
                    if len < 10 || 1 + buf[9] as usize > length {
                        return false;
                    }
                    len >= 14 && len - 14 >= length - 1 - buf[9] as usize
                } else {
                    len >= 13 && len - 13 >= length
                }
            },
            Ok(FrameType::Ping) => true,
            Ok(FrameType::GoAway) => false,
            Ok(FrameType::WindowUpdate) => len >= 13,
            Ok(FrameType::Continuation) => 9 <= length && length <= len,
        }
    }

    /// The stream that the frame's header names.
    pub fn get_stream_id(&self) -> (r: u32)
        ensures
            r == self@.stream_id(),
    {
        match self {
            Frame::Data(f) => f.header.stream_id,
            Frame::Headers(f) => f.header.stream_id,
            Frame::Priority(f) => f.header.stream_id,
            Frame::RstStream(f) => f.header.stream_id,
            Frame::Settings(f) => f.header.stream_id,
            Frame::PushPromise(f) => f.header.stream_id,
            Frame::Ping(f) => f.header.stream_id,
            Frame::GoAway(f) => f.header.stream_id,
            Frame::WindowUpdate(f) => f.header.stream_id,
            Frame::Continuation(f) => f.header.stream_id,
        }
    }

    /// Whether the frame can be written (see `FrameModel::encodable`).
    pub fn is_encodable(&self) -> (r: bool)
        ensures
            r == self@.encodable(),
    {
        match self {
            Frame::Headers(h) => !h.header.flags.priority || (h.exclusive.is_some()
                && h.stream_dependency.is_some() && h.weight.is_some()),
            _ => true,
        }
    }

    /// Appends the bytes of the frame to `buf`.
    pub fn encode_to(&self, buf: &mut Vec<u8>)
        requires
            self@.encodable(),
        ensures
            final(buf)@ == old(buf)@ + self@.spec_encode(),
    {
        match self {
            Frame::Data(f) => f.encode_to(buf),
            Frame::Headers(f) => f.encode_to(buf),
            Frame::Priority(f) => f.encode_to(buf),
            Frame::RstStream(f) => f.encode_to(buf),
            Frame::Settings(f) => f.encode_to(buf),
            Frame::PushPromise(f) => f.encode_to(buf),
            Frame::Ping(f) => f.encode_to(buf),
            Frame::GoAway(f) => f.encode_to(buf),
            Frame::WindowUpdate(f) => f.encode_to(buf),
            Frame::Continuation(f) => f.encode_to(buf),
        }
    }

    /// The bytes of the frame.
    pub fn to_bytes(&self) -> (r: Vec<u8>)
        requires
            self@.encodable(),
        ensures
            r@ == self@.spec_encode(),
    {
        let mut buf = Vec::new();
        self.encode_to(&mut buf);
        assert(buf@ =~= self@.spec_encode());
        buf
    }
}

/// Reading back the bytes of a frame gives the frame again, for the frames of `reads_back`.
pub proof fn lemma_frame_roundtrip(m: FrameModel)
    requires
        m.reads_back(),
    ensures
        Frame::parse_defined(m.spec_encode()),
        Frame::spec_parse(m.spec_encode()) == Ok::<FrameModel, HTTP2Error>(m),
{
    match m {
        FrameModel::Data(f) => {
            lemma_data_frame_roundtrip(f);
            lemma_header_roundtrip(f.header, f.data + crate::bytes::zeros(0));
        },
        FrameModel::Headers(f) => {
            lemma_headers_frame_roundtrip(f);
            assert(f.spec_encode()[3] == FrameType::Headers.spec_code());
        },
        FrameModel::Priority(f) => {
            lemma_priority_frame_roundtrip(f);
            assert(f.spec_encode()[3] == FrameType::Priority.spec_code());
        },
        FrameModel::RstStream(f) => {
            lemma_rst_frame_roundtrip(f);
            assert(f.spec_encode()[3] == FrameType::RstStream.spec_code());
        },
        FrameModel::Settings(f) => {
            lemma_settings_frame_roundtrip(f);
        },
        FrameModel::Ping(f) => {
            lemma_ping_frame_roundtrip(f);
            assert(f.spec_encode()[3] == FrameType::Ping.spec_code());
        },
        FrameModel::WindowUpdate(f) => {
            lemma_window_update_roundtrip(f);
            assert(f.spec_encode()[3] == FrameType::WindowUpdate.spec_code());
        },
        _ => {},
    }
}

/// A frame read from `buf`, of any type, belongs to the stream that the header names: the
/// 31-bit word at bytes 5 to 8, its reserved top bit dropped.
pub proof fn lemma_parsed_stream_id(buf: Seq<u8>)
    requires
        buf.len() >= 9,
        Frame::spec_parse(buf) is Ok,
    ensures
        Frame::spec_parse(buf)->Ok_0.stream_id() == (be32_at(buf, 5) % 0x8000_0000) as u32,
{
    if FrameType::spec_from_byte(buf[3]) == Some(FrameType::Settings) {
        let h = spec_parse_header::<SettingsFrameFlags>(buf)->Ok_0;
        if buf.len() - 9 >= h.length && h.length % 6 == 0 {
            lemma_apply_entries_header(SettingsFrame::empty(h), buf, (h.length / 6) as nat);
        }
    }
}

} // verus!
