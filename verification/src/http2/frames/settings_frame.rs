use vstd::prelude::*;

use crate::http2::error::{HTTP2Error, HTTP2ErrorCode};
use crate::http2::frames::frame::{
    lemma_header_roundtrip, spec_parse_header, FrameFlags, FrameHeader, FrameType,
};
use crate::bytes::{be16_at, be16_bytes, be32_at, be32_bytes, push_u16_be, push_u32_be, read_u16_be, read_u32_be};

verus! {

/// The flags of a SETTINGS frame.
#[derive(Clone, Copy, Debug, PartialEq, Eq, Structural)]
pub struct SettingsFrameFlags {
    /// Bit 0.
    pub ack: bool,
}

impl FrameFlags for SettingsFrameFlags {
    open spec fn from_bits_spec(bits: u8) -> SettingsFrameFlags {
        SettingsFrameFlags { ack: bits & 1 != 0 }
    }

    open spec fn bits_spec(&self) -> u8 {
        if self.ack {
            1
        } else {
            0
        }
    }

    fn from_bits(bits: u8) -> (r: SettingsFrameFlags) {
        SettingsFrameFlags { ack: bits & 1 != 0 }
    }

    fn to_bits(&self) -> (r: u8) {
        if self.ack {
            1
        } else {
            0
        }
    }
}

/// Writing SETTINGS flags and reading them back gives the same flags; reading a byte and
/// writing the flags back keeps bit 0 of it.
pub proof fn lemma_settings_flags_roundtrip(f: SettingsFrameFlags, b: u8)
    ensures
        SettingsFrameFlags::from_bits_spec(f.bits_spec()) == f,
        SettingsFrameFlags::from_bits_spec(b).bits_spec() == b & 1,
{
    assert(1u8 & 1 != 0) by (bit_vector);
    assert(0u8 & 1 == 0) by (bit_vector);
    assert((if b & 1 != 0 { 1u8 } else { 0u8 }) == b & 1) by (bit_vector);
}

/// The parameters that a SETTINGS frame can carry.
#[derive(Clone, Copy, Debug, PartialEq, Eq, Structural)]
pub enum SettingsIdentifier {
    HeaderTableSize,
    EnablePush,
    MaxConcurrentStreams,
    InitialWindowSize,
    MaxFrameSize,
    MaxHeaderListSize,
}

impl SettingsIdentifier {
    /// The identifier that a 16-bit value stands for: 1 to 6.
    pub open spec fn spec_from_u16(v: u16) -> Option<SettingsIdentifier> {
        if v == 1 {
            Some(SettingsIdentifier::HeaderTableSize)
        } else if v == 2 {
            Some(SettingsIdentifier::EnablePush)
        } else if v == 3 {
            Some(SettingsIdentifier::MaxConcurrentStreams)
        } else if v == 4 {
            Some(SettingsIdentifier::InitialWindowSize)
        } else if v == 5 {
            Some(SettingsIdentifier::MaxFrameSize)
        } else if v == 6 {
            Some(SettingsIdentifier::MaxHeaderListSize)
        } else {
            None
        }
    }

    pub open spec fn spec_code(self) -> u16 {
        match self {
            SettingsIdentifier::HeaderTableSize => 1,
            SettingsIdentifier::EnablePush => 2,
            SettingsIdentifier::MaxConcurrentStreams => 3,
            SettingsIdentifier::InitialWindowSize => 4,
            SettingsIdentifier::MaxFrameSize => 5,
            SettingsIdentifier::MaxHeaderListSize => 6,
        }
    }

    pub fn from_u16(v: u16) -> (r: Option<SettingsIdentifier>)
        ensures
            r == Self::spec_from_u16(v),
    {
        match v {
            1 => Some(SettingsIdentifier::HeaderTableSize),
            2 => Some(SettingsIdentifier::EnablePush),
            3 => Some(SettingsIdentifier::MaxConcurrentStreams),
            4 => Some(SettingsIdentifier::InitialWindowSize),
            5 => Some(SettingsIdentifier::MaxFrameSize),
            6 => Some(SettingsIdentifier::MaxHeaderListSize),
            _ => None,
        }
    }

    pub fn code(&self) -> (r: u16)
        ensures
            r == self.spec_code(),
    {
        match self {
            SettingsIdentifier::HeaderTableSize => 1,
            SettingsIdentifier::EnablePush => 2,
            SettingsIdentifier::MaxConcurrentStreams => 3,
            SettingsIdentifier::InitialWindowSize => 4,
            SettingsIdentifier::MaxFrameSize => 5,
            SettingsIdentifier::MaxHeaderListSize => 6,
        }
    }
}

/// A SETTINGS frame: each parameter is `None` when the frame does not carry it.
#[derive(Clone, Copy, Debug, PartialEq, Eq)]
pub struct SettingsFrame {
    pub header: FrameHeader<SettingsFrameFlags>,
    pub header_table_size: Option<u32>,
    pub enable_push: Option<bool>,
    pub max_concurrent_streams: Option<u32>,
    pub initial_window_size: Option<u32>,
    pub max_frame_size: Option<u32>,
    pub max_header_list_size: Option<u32>,
}

/// The 6 bytes of one parameter, or none when the parameter is absent.
pub open spec fn entry_bytes(id: u16, v: Option<u32>) -> Seq<u8> {
    match v {
        Some(x) => be16_bytes(id) + be32_bytes(x),
        None => Seq::empty(),
    }
}

/// The value that a boolean parameter is written as.
pub open spec fn bool_value(b: Option<bool>) -> Option<u32> {
    match b {
        Some(x) => Some(
            if x {
                1u32
            } else {
                0u32
            },
        ),
        None => None,
    }
}

/// The number of parameters that a frame carries.
pub open spec fn count_some(f: SettingsFrame) -> nat {
    (if f.header_table_size is Some { 1nat } else { 0nat }) + (if f.enable_push is Some {
        1nat
    } else {
        0nat
    }) + (if f.max_concurrent_streams is Some { 1nat } else { 0nat }) + (
    if f.initial_window_size is Some { 1nat } else { 0nat }) + (if f.max_frame_size is Some {
        1nat
    } else {
        0nat
    }) + (if f.max_header_list_size is Some { 1nat } else { 0nat })
}

/// Appends the 6 bytes of a parameter, if it is present.
fn push_entry(buf: &mut Vec<u8>, id: u16, v: Option<u32>)
    ensures
        final(buf)@ == old(buf)@ + entry_bytes(id, v),
{
    if let Some(x) = v {
        push_u16_be(buf, id);
        push_u32_be(buf, x);
    }
    assert(final(buf)@ =~= old(buf)@ + entry_bytes(id, v));
}

/// Once reading the parameters has failed, reading more of them fails with the same error.
pub proof fn lemma_apply_entries_err(start: SettingsFrame, buf: Seq<u8>, k: nat, m: nat)
    requires
        k <= m,
        SettingsFrame::apply_entries(start, buf, k) is Err,
    ensures
        SettingsFrame::apply_entries(start, buf, m) == SettingsFrame::apply_entries(start, buf, k),
    decreases m - k,
{
    if k < m {
        lemma_apply_entries_err(start, buf, k, (m - 1) as nat);
    }
}

/// Reading parameters leaves the header as it was.
pub proof fn lemma_apply_entries_header(start: SettingsFrame, buf: Seq<u8>, n: nat)
    requires
        SettingsFrame::apply_entries(start, buf, n) is Ok,
    ensures
        SettingsFrame::apply_entries(start, buf, n)->Ok_0.header == start.header,
    decreases n,
{
    if n > 0 {
        if SettingsFrame::apply_entries(start, buf, (n - 1) as nat) is Err {
        } else {
            lemma_apply_entries_header(start, buf, (n - 1) as nat);
        }
    }
}

impl SettingsFrame {
    /// The frame with a header and no parameters.
    pub open spec fn empty(header: FrameHeader<SettingsFrameFlags>) -> SettingsFrame {
        SettingsFrame {
            header,
            header_table_size: None,
            enable_push: None,
            max_concurrent_streams: None,
            initial_window_size: None,
            max_frame_size: None,
            max_header_list_size: None,
        }
    }

    /// The frame with one more parameter read: a later value of a parameter replaces an earlier
    /// one; an identifier other than 1 to 6 gives `Connection(ProtocolError)`.
    pub open spec fn apply_entry(self, id: u16, value: u32) -> Result<SettingsFrame, HTTP2Error> {
        match SettingsIdentifier::spec_from_u16(id) {
            None => Err(HTTP2Error::Connection(HTTP2ErrorCode::ProtocolError)),
            Some(SettingsIdentifier::HeaderTableSize) => Ok(
                SettingsFrame { header_table_size: Some(value), ..self },
            ),
            Some(SettingsIdentifier::EnablePush) => Ok(
                SettingsFrame { enable_push: Some(value > 0), ..self },
            ),
            Some(SettingsIdentifier::MaxConcurrentStreams) => Ok(
                SettingsFrame { max_concurrent_streams: Some(value), ..self },
            ),
            Some(SettingsIdentifier::InitialWindowSize) => Ok(
                SettingsFrame { initial_window_size: Some(value), ..self },
            ),
            Some(SettingsIdentifier::MaxFrameSize) => Ok(
                SettingsFrame { max_frame_size: Some(value), ..self },
            ),
            Some(SettingsIdentifier::MaxHeaderListSize) => Ok(
                SettingsFrame { max_header_list_size: Some(value), ..self },
            ),
        }
    }

    /// The frame after reading the first `n` parameters of the payload of `buf`, in order.
    pub open spec fn apply_entries(start: SettingsFrame, buf: Seq<u8>, n: nat) -> Result<
        SettingsFrame,
        HTTP2Error,
    >
        decreases n,
    {
        if n == 0 {
            Ok(start)
        } else {
            match Self::apply_entries(start, buf, (n - 1) as nat) {
                Err(e) => Err(e),
                Ok(f) => f.apply_entry(
                    be16_at(buf, 9 + 6 * (n - 1)) as u16,
                    be32_at(buf, 9 + 6 * (n - 1) + 2) as u32,
                ),
            }
        }
    }

    /// The SETTINGS frame that `buf` holds. A payload shorter than the length, or a length that
    /// is not a multiple of 6, gives `Connection(FrameSizeError)`.
    pub open spec fn spec_parse(buf: Seq<u8>) -> Result<SettingsFrame, HTTP2Error> {
        match spec_parse_header::<SettingsFrameFlags>(buf) {
            Err(e) => Err(e),
            Ok(h) => if buf.len() - 9 < h.length {
                Err(HTTP2Error::Connection(HTTP2ErrorCode::FrameSizeError))
            } else if h.length % 6 != 0 {
                Err(HTTP2Error::Connection(HTTP2ErrorCode::FrameSizeError))
            } else {
                Self::apply_entries(Self::empty(h), buf, (h.length / 6) as nat)
            },
        }
    }

    /// The bytes of the frame: the header, then each parameter present, in the order of the
    /// identifiers, as its identifier and value.
    pub open spec fn spec_encode(self) -> Seq<u8> {
        self.header.spec_encode() + entry_bytes(1, self.header_table_size) + entry_bytes(
            2,
            bool_value(self.enable_push),
        ) + entry_bytes(3, self.max_concurrent_streams) + entry_bytes(4, self.initial_window_size)
            + entry_bytes(5, self.max_frame_size) + entry_bytes(6, self.max_header_list_size)
    }

    /// The acknowledgement of a SETTINGS frame: no parameters, the ACK flag set.
    pub fn new_ack(stream_identifier: u32) -> (r: Self)
        ensures
            r == Self::empty(
                FrameHeader {
                    length: 0,
                    frame_type: FrameType::Settings,
                    flags: SettingsFrameFlags { ack: true },
                    stream_id: stream_identifier,
                },
            ),
    {
        SettingsFrame {
            header: FrameHeader {
                length: 0,
                frame_type: FrameType::Settings,
                flags: SettingsFrameFlags { ack: true },
                stream_id: stream_identifier,
            },
            header_table_size: None,
            enable_push: None,
            max_concurrent_streams: None,
            initial_window_size: None,
            max_frame_size: None,
            max_header_list_size: None,
        }
    }

    pub fn parse(buf: &[u8]) -> (r: Result<SettingsFrame, HTTP2Error>)
        requires
            buf@.len() >= 9,
        ensures
            r == Self::spec_parse(buf@),
    {
        let header: FrameHeader<SettingsFrameFlags> = FrameHeader::parse(buf)?;
        let length: usize = header.length as usize;
        if buf.len() - 9 < length {
            return Err(HTTP2Error::Connection(HTTP2ErrorCode::FrameSizeError));
        }
        if length % 6 != 0 {
            return Err(HTTP2Error::Connection(HTTP2ErrorCode::FrameSizeError));
        }
        let mut ret = SettingsFrame {
            header,
            header_table_size: None,
            enable_push: None,
            max_concurrent_streams: None,
            initial_window_size: None,
            max_frame_size: None,
            max_header_list_size: None,
        };
        let ghost start = ret;
        let mut offset: usize = 0;
        while offset < length
            invariant
                buf@.len() - 9 >= length,
                9 + length <= buf.len(),
                spec_parse_header::<SettingsFrameFlags>(buf@) == Ok::<
                    FrameHeader<SettingsFrameFlags>,
                    HTTP2Error,
                >(header),
                length == header.length,
                length % 6 == 0,
                offset % 6 == 0,
                offset <= length,
                start == Self::empty(header),
                Self::apply_entries(start, buf@, (offset / 6) as nat) == Ok::<
                    SettingsFrame,
                    HTTP2Error,
                >(ret),
            decreases length - offset,
        {
            assert(offset + 6 <= length) by (nonlinear_arith)
                requires
                    offset % 6 == 0,
                    length % 6 == 0,
                    offset < length,
            ;
            let ident: u16 = read_u16_be(buf, 9 + offset);
            let value: u32 = read_u32_be(buf, 9 + offset + 2);
            let ghost k = (offset / 6) as nat;
            assert((offset + 6) / 6 == k + 1);
            assert(9 + 6 * k == 9 + offset);
            let ghost prev = ret;
            match SettingsIdentifier::from_u16(ident) {
                None => {
                    proof {
                        assert(Self::apply_entries(start, buf@, k + 1) is Err);
                        lemma_apply_entries_err(start, buf@, k + 1, (length / 6) as nat);
                    }
                    return Err(HTTP2Error::Connection(HTTP2ErrorCode::ProtocolError));
                },
                Some(SettingsIdentifier::HeaderTableSize) => {
                    ret.header_table_size = Some(value);
                },
                Some(SettingsIdentifier::EnablePush) => {
                    ret.enable_push = Some(value > 0);
                },
                Some(SettingsIdentifier::MaxConcurrentStreams) => {
                    ret.max_concurrent_streams = Some(value);
                },
                Some(SettingsIdentifier::InitialWindowSize) => {
                    ret.initial_window_size = Some(value);
                },
                Some(SettingsIdentifier::MaxFrameSize) => {
                    ret.max_frame_size = Some(value);
                },
                Some(SettingsIdentifier::MaxHeaderListSize) => {
                    ret.max_header_list_size = Some(value);
                },
            }
            assert(prev.apply_entry(ident, value) == Ok::<SettingsFrame, HTTP2Error>(ret));
            offset = offset + 6;
        }
        Ok(ret)
    }

    /// Appends the bytes of this frame to `buf`.
    pub fn encode_to(&self, buf: &mut Vec<u8>)
        ensures
            final(buf)@ == old(buf)@ + self.spec_encode(),
    {
        self.header.encode_to(buf);
        push_entry(buf, 1, self.header_table_size);
        let push_value: Option<u32> = match self.enable_push {
            Some(enable) => Some(if enable { 1 } else { 0 }),
            None => None,
        };
        push_entry(buf, 2, push_value);
        push_entry(buf, 3, self.max_concurrent_streams);
        push_entry(buf, 4, self.initial_window_size);
        push_entry(buf, 5, self.max_frame_size);
        push_entry(buf, 6, self.max_header_list_size);
        assert(final(buf)@ =~= old(buf)@ + self.spec_encode());
    }

    /// The bytes of this frame.
    pub fn to_bytes(&self) -> (r: Vec<u8>)
        ensures
            r@ == self.spec_encode(),
    {
        let mut buf = Vec::new();
        self.encode_to(&mut buf);
        assert(buf@ =~= self.spec_encode());
        buf
    }
}

/// Collects the parameters of a SETTINGS frame; `build` writes the length that they take.
pub struct SettingsFrameBuilder {
    header: Option<FrameHeader<SettingsFrameFlags>>,
    header_table_size: Option<u32>,
    enable_push: Option<bool>,
    max_concurrent_streams: Option<u32>,
    initial_window_size: Option<u32>,
    max_frame_size: Option<u32>,
    max_header_list_size: Option<u32>,
}

impl SettingsFrameBuilder {
    /// The frame that `build` gives from what has been collected.
    pub closed spec fn spec_build(self) -> SettingsFrame {
        let f = SettingsFrame {
            header: FrameHeader {
                length: 0,
                frame_type: FrameType::Settings,
                flags: SettingsFrameFlags { ack: false },
                stream_id: 0,
            },
            header_table_size: self.header_table_size,
            enable_push: self.enable_push,
            max_concurrent_streams: self.max_concurrent_streams,
            initial_window_size: self.initial_window_size,
            max_frame_size: self.max_frame_size,
            max_header_list_size: self.max_header_list_size,
        };
        let length = (6 * count_some(f)) as u32;
        let header = match self.header {
            Some(h) => FrameHeader { length, ..h },
            None => FrameHeader { length, ..f.header },
        };
        SettingsFrame { header, ..f }
    }

    pub fn new() -> (r: Self)
        ensures
            r.spec_build() == SettingsFrame::empty(
                FrameHeader {
                    length: 0,
                    frame_type: FrameType::Settings,
                    flags: SettingsFrameFlags { ack: false },
                    stream_id: 0,
                },
            ),
    {
        SettingsFrameBuilder {
            header: None,
            header_table_size: None,
            enable_push: None,
            max_concurrent_streams: None,
            initial_window_size: None,
            max_frame_size: None,
            max_header_list_size: None,
        }
    }

    pub fn header_table_size(self, size: u32) -> (r: Self)
        ensures
            r.spec_build() == (SettingsFrame {
                header: FrameHeader {
                    length: (6 * count_some(
                        SettingsFrame { header_table_size: Some(size), ..self.spec_build() },
                    )) as u32,
                    ..self.spec_build().header
                },
                header_table_size: Some(size),
                ..self.spec_build()
            }),
    {
        SettingsFrameBuilder { header_table_size: Some(size), ..self }
    }

    pub fn enable_push(self, enable: bool) -> (r: Self)
        ensures
            r.spec_build() == (SettingsFrame {
                header: FrameHeader {
                    length: (6 * count_some(
                        SettingsFrame { enable_push: Some(enable), ..self.spec_build() },
                    )) as u32,
                    ..self.spec_build().header
                },
                enable_push: Some(enable),
                ..self.spec_build()
            }),
    {
        SettingsFrameBuilder { enable_push: Some(enable), ..self }
    }

    pub fn max_concurrent_streams(self, max: u32) -> (r: Self)
        ensures
            r.spec_build() == (SettingsFrame {
                header: FrameHeader {
                    length: (6 * count_some(
                        SettingsFrame { max_concurrent_streams: Some(max), ..self.spec_build() },
                    )) as u32,
                    ..self.spec_build().header
                },
                max_concurrent_streams: Some(max),
                ..self.spec_build()
            }),
    {
        SettingsFrameBuilder { max_concurrent_streams: Some(max), ..self }
    }

    pub fn initial_window_size(self, size: u32) -> (r: Self)
        ensures
            r.spec_build() == (SettingsFrame {
                header: FrameHeader {
                    length: (6 * count_some(
                        SettingsFrame { initial_window_size: Some(size), ..self.spec_build() },
                    )) as u32,
                    ..self.spec_build().header
                },
                initial_window_size: Some(size),
                ..self.spec_build()
            }),
    {
        SettingsFrameBuilder { initial_window_size: Some(size), ..self }
    }

    pub fn max_frame_size(self, size: u32) -> (r: Self)
        ensures
            r.spec_build() == (SettingsFrame {
                header: FrameHeader {
                    length: (6 * count_some(
                        SettingsFrame { max_frame_size: Some(size), ..self.spec_build() },
                    )) as u32,
                    ..self.spec_build().header
                },
                max_frame_size: Some(size),
                ..self.spec_build()
            }),
    {
        SettingsFrameBuilder { max_frame_size: Some(size), ..self }
    }

    pub fn max_header_list_size(self, size: u32) -> (r: Self)
        ensures
            r.spec_build() == (SettingsFrame {
                header: FrameHeader {
                    length: (6 * count_some(
                        SettingsFrame { max_header_list_size: Some(size), ..self.spec_build() },
                    )) as u32,
                    ..self.spec_build().header
                },
                max_header_list_size: Some(size),
                ..self.spec_build()
            }),
    {
        SettingsFrameBuilder { max_header_list_size: Some(size), ..self }
    }

    pub fn build(self) -> (r: SettingsFrame)
        ensures
            r == self.spec_build(),
            r.header.length == 6 * count_some(r),
    {
        let length: u32 = self.calc_length();
        let header = match self.header {
            Some(h) => FrameHeader { length, ..h },
            None => FrameHeader {
                length,
                frame_type: FrameType::Settings,
                stream_id: 0,
                flags: SettingsFrameFlags { ack: false },
            },
        };
        SettingsFrame {
            header,
            header_table_size: self.header_table_size,
            enable_push: self.enable_push,
            max_concurrent_streams: self.max_concurrent_streams,
            initial_window_size: self.initial_window_size,
            max_frame_size: self.max_frame_size,
            max_header_list_size: self.max_header_list_size,
        }
    }

    /// Six bytes for each parameter collected.
    fn calc_length(&self) -> (r: u32)
        ensures
            r == 6 * count_some(self.spec_build()),
    {
        let mut specified_parameters = 0u32;
        if self.header_table_size.is_some() {
            specified_parameters += 1;
        }
        if self.enable_push.is_some() {
            specified_parameters += 1;
        }
        if self.max_concurrent_streams.is_some() {
            specified_parameters += 1;
        }
        if self.initial_window_size.is_some() {
            specified_parameters += 1;
        }
        if self.max_frame_size.is_some() {
            specified_parameters += 1;
        }
        if self.max_header_list_size.is_some() {
            specified_parameters += 1;
        }
        specified_parameters * 6
    }
}

/// The parameters of a frame, in the order of their identifiers, with `es` before them.
pub open spec fn push_entry_spec(es: Seq<(u16, u32)>, id: u16, v: Option<u32>) -> Seq<(u16, u32)> {
    match v {
        Some(x) => es.push((id, x)),
        None => es,
    }
}

/// The (identifier, value) pairs that a frame is written with, in order.
pub open spec fn settings_entries(f: SettingsFrame) -> Seq<(u16, u32)> {
    push_entry_spec(
        push_entry_spec(
            push_entry_spec(
                push_entry_spec(
                    push_entry_spec(
                        push_entry_spec(Seq::empty(), 1, f.header_table_size),
                        2,
                        bool_value(f.enable_push),
                    ),
                    3,
                    f.max_concurrent_streams,
                ),
                4,
                f.initial_window_size,
            ),
            5,
            f.max_frame_size,
        ),
        6,
        f.max_header_list_size,
    )
}

/// The bytes of (identifier, value) pairs, 6 for each.
pub open spec fn entries_bytes(es: Seq<(u16, u32)>) -> Seq<u8>
    decreases es.len(),
{
    if es.len() == 0 {
        Seq::empty()
    } else {
        entries_bytes(es.drop_last()) + be16_bytes(es.last().0) + be32_bytes(es.last().1)
    }
}

/// The frame after applying (identifier, value) pairs in order, from `start`.
pub open spec fn apply_all(start: SettingsFrame, es: Seq<(u16, u32)>) -> Result<
    SettingsFrame,
    HTTP2Error,
>
    decreases es.len(),
{
    if es.len() == 0 {
        Ok(start)
    } else {
        match apply_all(start, es.drop_last()) {
            Err(e) => Err(e),
            Ok(f) => f.apply_entry(es.last().0, es.last().1),
        }
    }
}

proof fn lemma_entries_bytes_len(es: Seq<(u16, u32)>)
    ensures
        entries_bytes(es).len() == 6 * es.len(),
    decreases es.len(),
{
    if es.len() > 0 {
        lemma_entries_bytes_len(es.drop_last());
    }
}

proof fn lemma_entries_bytes_push(es: Seq<(u16, u32)>, id: u16, v: Option<u32>)
    ensures
        entries_bytes(push_entry_spec(es, id, v)) == entries_bytes(es) + entry_bytes(id, v),
{
    match v {
        Some(x) => {
            assert(es.push((id, x)).drop_last() =~= es);
            assert(entries_bytes(es.push((id, x))) =~= entries_bytes(es) + entry_bytes(id, v));
        },
        None => {
            assert(entries_bytes(es) + entry_bytes(id, v) =~= entries_bytes(es));
        },
    }
}

/// The bytes of the first `i + 1` pairs are those of the first `i` and then those of pair `i`.
proof fn lemma_entries_bytes_take(es: Seq<(u16, u32)>, i: int)
    requires
        0 <= i < es.len(),
    ensures
        entries_bytes(es.take(i + 1)) == entries_bytes(es.take(i)) + be16_bytes(es[i].0)
            + be32_bytes(es[i].1),
{
    assert(es.take(i + 1).drop_last() =~= es.take(i));
}

/// The bytes of pairs that another pair follows.
proof fn lemma_entries_bytes_prefix(es: Seq<(u16, u32)>, k: int)
    requires
        0 <= k <= es.len(),
    ensures
        entries_bytes(es) == entries_bytes(es.take(k)) + entries_bytes(es.skip(k)),
    decreases es.len() - k,
{
    if k == es.len() {
        assert(es.take(k) =~= es);
        assert(es.skip(k) =~= Seq::<(u16, u32)>::empty());
        assert(entries_bytes(es) + Seq::<u8>::empty() =~= entries_bytes(es));
    } else {
        lemma_entries_bytes_prefix(es, k + 1);
        lemma_entries_bytes_take(es, k);
        let t = es.skip(k);
        assert(t.len() > 0);
        lemma_entries_bytes_prefix_of_rest(t);
        assert(t.skip(1) =~= es.skip(k + 1));
        assert(t[0] == es[k]);
        assert(entries_bytes(es.take(k + 1)) + entries_bytes(es.skip(k + 1)) =~= entries_bytes(
            es.take(k),
        ) + (be16_bytes(es[k].0) + be32_bytes(es[k].1) + entries_bytes(es.skip(k + 1))));
    }
}

/// The bytes of a non-empty list of pairs: those of its first pair, then those of the rest.
proof fn lemma_entries_bytes_prefix_of_rest(t: Seq<(u16, u32)>)
    requires
        t.len() > 0,
    ensures
        entries_bytes(t) == be16_bytes(t[0].0) + be32_bytes(t[0].1) + entries_bytes(t.skip(1)),
    decreases t.len(),
{
    if t.len() == 1 {
        assert(t.drop_last() =~= Seq::<(u16, u32)>::empty());
        assert(t.skip(1) =~= Seq::<(u16, u32)>::empty());
        assert(entries_bytes(t) =~= be16_bytes(t[0].0) + be32_bytes(t[0].1) + entries_bytes(
            t.skip(1),
        ));
    } else {
        let d = t.drop_last();
        lemma_entries_bytes_prefix_of_rest(d);
        assert(d.skip(1) =~= t.skip(1).drop_last());
        assert(t.skip(1).last() == t.last());
        assert(d[0] == t[0]);
        assert(entries_bytes(t) =~= be16_bytes(t[0].0) + be32_bytes(t[0].1) + entries_bytes(
            t.skip(1),
        ));
    }
}

/// Pair `i` is read back from its place after a 9-byte header.
proof fn lemma_entry_at(hdr: Seq<u8>, es: Seq<(u16, u32)>, i: int)
    requires
        hdr.len() == 9,
        0 <= i < es.len(),
    ensures
        be16_at(hdr + entries_bytes(es), 9 + 6 * i) == es[i].0,
        be32_at(hdr + entries_bytes(es), 9 + 6 * i + 2) == es[i].1,
{
    let buf = hdr + entries_bytes(es);
    lemma_entries_bytes_prefix(es, i);
    let t = es.skip(i);
    lemma_entries_bytes_prefix_of_rest(t);
    lemma_entries_bytes_len(es.take(i));
    assert(t[0] == es[i]);
    let pre = hdr + entries_bytes(es.take(i));
    let x = es[i].0;
    let v = es[i].1;
    let post = entries_bytes(t.skip(1));
    assert(buf =~= pre + be16_bytes(x) + be32_bytes(v) + post);
    assert(pre.len() == 9 + 6 * i);
    assert(buf[9 + 6 * i] == be16_bytes(x)[0]);
    assert(buf[9 + 6 * i + 1] == be16_bytes(x)[1]);
    crate::bytes::lemma_be16_roundtrip(x);
    crate::bytes::lemma_be32_roundtrip(v);
    assert(buf =~= (pre + be16_bytes(x)) + be32_bytes(v) + post);
}

/// Reading the first `k` pairs from the bytes after a 9-byte header applies them in order.
proof fn lemma_apply_entries_bytes(
    start: SettingsFrame,
    hdr: Seq<u8>,
    es: Seq<(u16, u32)>,
    k: nat,
)
    requires
        hdr.len() == 9,
        k <= es.len(),
    ensures
        SettingsFrame::apply_entries(start, hdr + entries_bytes(es), k) == apply_all(
            start,
            es.take(k as int),
        ),
    decreases k,
{
    if k == 0 {
        assert(es.take(0) =~= Seq::<(u16, u32)>::empty());
    } else {
        lemma_apply_entries_bytes(start, hdr, es, (k - 1) as nat);
        lemma_entry_at(hdr, es, k - 1);
        assert(es.take(k as int).drop_last() =~= es.take(k - 1));
        assert(es.take(k as int).last() == es[k - 1]);
    }
}

proof fn lemma_apply_all_push(start: SettingsFrame, es: Seq<(u16, u32)>, id: u16, v: Option<u32>)
    ensures
        apply_all(start, push_entry_spec(es, id, v)) == match v {
            Some(x) => match apply_all(start, es) {
                Err(e) => Err(e),
                Ok(f) => f.apply_entry(id, x),
            },
            None => apply_all(start, es),
        },
{
    if let Some(x) = v {
        assert(es.push((id, x)).drop_last() =~= es);
    }
}

/// The bytes of a frame are its header and then the bytes of its pairs.
#[verifier::spinoff_prover]
#[verifier::rlimit(40)]
proof fn lemma_encode_is_entries(f: SettingsFrame)
    ensures
        f.spec_encode() == f.header.spec_encode() + entries_bytes(settings_entries(f)),
        settings_entries(f).len() == count_some(f),
{
    let hd = f.header.spec_encode();
    let e0 = Seq::<(u16, u32)>::empty();
    let e1 = push_entry_spec(e0, 1, f.header_table_size);
    let e2 = push_entry_spec(e1, 2, bool_value(f.enable_push));
    let e3 = push_entry_spec(e2, 3, f.max_concurrent_streams);
    let e4 = push_entry_spec(e3, 4, f.initial_window_size);
    let e5 = push_entry_spec(e4, 5, f.max_frame_size);
    let e6 = push_entry_spec(e5, 6, f.max_header_list_size);
    let x1 = entry_bytes(1, f.header_table_size);
    let x2 = entry_bytes(2, bool_value(f.enable_push));
    let x3 = entry_bytes(3, f.max_concurrent_streams);
    let x4 = entry_bytes(4, f.initial_window_size);
    let x5 = entry_bytes(5, f.max_frame_size);
    let x6 = entry_bytes(6, f.max_header_list_size);
    assert(entries_bytes(e0) =~= Seq::<u8>::empty());
    lemma_entries_bytes_push(e0, 1, f.header_table_size);
    assert(hd + entries_bytes(e1) =~= hd + x1);
    lemma_entries_bytes_push(e1, 2, bool_value(f.enable_push));
    assert(hd + entries_bytes(e2) =~= (hd + entries_bytes(e1)) + x2);
    lemma_entries_bytes_push(e2, 3, f.max_concurrent_streams);
    assert(hd + entries_bytes(e3) =~= (hd + entries_bytes(e2)) + x3);
    lemma_entries_bytes_push(e3, 4, f.initial_window_size);
    assert(hd + entries_bytes(e4) =~= (hd + entries_bytes(e3)) + x4);
    lemma_entries_bytes_push(e4, 5, f.max_frame_size);
    assert(hd + entries_bytes(e5) =~= (hd + entries_bytes(e4)) + x5);
    lemma_entries_bytes_push(e5, 6, f.max_header_list_size);
    assert(hd + entries_bytes(e6) =~= (hd + entries_bytes(e5)) + x6);
    assert(f.spec_encode() == hd + x1 + x2 + x3 + x4 + x5 + x6);
}

/// Applying the pairs of a frame to the frame with its header and no parameters gives the
/// frame.
proof fn lemma_apply_own_entries(f: SettingsFrame)
    ensures
        apply_all(SettingsFrame::empty(f.header), settings_entries(f)) == Ok::<
            SettingsFrame,
            HTTP2Error,
        >(f),
{
    let s0 = SettingsFrame::empty(f.header);
    let e1 = push_entry_spec(Seq::empty(), 1, f.header_table_size);
    let e2 = push_entry_spec(e1, 2, bool_value(f.enable_push));
    let e3 = push_entry_spec(e2, 3, f.max_concurrent_streams);
    let e4 = push_entry_spec(e3, 4, f.initial_window_size);
    let e5 = push_entry_spec(e4, 5, f.max_frame_size);
    lemma_apply_all_push(s0, Seq::empty(), 1, f.header_table_size);
    let f1 = SettingsFrame { header_table_size: f.header_table_size, ..s0 };
    assert(apply_all(s0, e1) == Ok::<SettingsFrame, HTTP2Error>(f1));
    lemma_apply_all_push(s0, e1, 2, bool_value(f.enable_push));
    let f2 = SettingsFrame { enable_push: f.enable_push, ..f1 };
    assert(apply_all(s0, e2) == Ok::<SettingsFrame, HTTP2Error>(f2));
    lemma_apply_all_push(s0, e2, 3, f.max_concurrent_streams);
    let f3 = SettingsFrame { max_concurrent_streams: f.max_concurrent_streams, ..f2 };
    assert(apply_all(s0, e3) == Ok::<SettingsFrame, HTTP2Error>(f3));
    lemma_apply_all_push(s0, e3, 4, f.initial_window_size);
    let f4 = SettingsFrame { initial_window_size: f.initial_window_size, ..f3 };
    assert(apply_all(s0, e4) == Ok::<SettingsFrame, HTTP2Error>(f4));
    lemma_apply_all_push(s0, e4, 5, f.max_frame_size);
    let f5 = SettingsFrame { max_frame_size: f.max_frame_size, ..f4 };
    assert(apply_all(s0, e5) == Ok::<SettingsFrame, HTTP2Error>(f5));
    lemma_apply_all_push(s0, e5, 6, f.max_header_list_size);
}

/// Writing a SETTINGS frame and reading it back gives the same frame, when its header is well
/// formed, names the SETTINGS type and counts the 6 bytes of each parameter present.
#[verifier::rlimit(80)]
pub proof fn lemma_settings_frame_roundtrip(f: SettingsFrame)
    requires
        f.header.wf(),
        f.header.frame_type == FrameType::Settings,
        f.header.length == 6 * count_some(f),
    ensures
        f.spec_encode().len() >= 9,
        f.spec_encode()[3] == FrameType::Settings.spec_code(),
        SettingsFrame::spec_parse(f.spec_encode()) == Ok::<SettingsFrame, HTTP2Error>(f),
{
    let es = settings_entries(f);
    let h = f.header;
    let c = count_some(f);
    let buf = f.spec_encode();
    lemma_encode_is_entries(f);
    lemma_header_roundtrip(h, entries_bytes(es));
    assert(spec_parse_header::<SettingsFrameFlags>(buf) == Ok::<
        FrameHeader<SettingsFrameFlags>,
        HTTP2Error,
    >(h));
    lemma_entries_bytes_len(es);
    assert(buf.len() - 9 == h.length);
    assert((6 * c) % 6 == 0 && (6 * c) / 6 == c) by (nonlinear_arith);
    lemma_apply_entries_bytes(SettingsFrame::empty(h), h.spec_encode(), es, es.len());
    assert(es.take(es.len() as int) =~= es);
    lemma_apply_own_entries(f);
    assert(SettingsFrame::apply_entries(SettingsFrame::empty(h), buf, c) == Ok::<
        SettingsFrame,
        HTTP2Error,
    >(f));
}

} // verus!
