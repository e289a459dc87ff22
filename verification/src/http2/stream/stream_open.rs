use vstd::prelude::*;

use crate::http2::connection_state::ConnectionState;
use crate::http2::error::{HTTP2Error, HTTP2ErrorCode, StreamError};
use crate::http2::frames::continuation_frame::{ContinuationFrame, ContinuationFrameModel};
use crate::http2::frames::data_frame::{DataFrame, DataFrameFlags, DataFrameModel};
use crate::http2::frames::frame::{Frame, FrameHeader, FrameModel, FrameType};
use crate::http2::frames::headers_frame::{HeadersFrame, HeadersFrameFlags, HeadersFrameModel};
use crate::http2::frames::priority_frame::PriorityFrame;
use crate::http2::codec::hpack_encode;
use crate::http2::frames::headers_frame::spec_response_header_list;
use crate::http2::header_builder::{
    decoded_history, method_pseudo, path_pseudo, spec_build, HeaderBuilder, headers_result_view,
};
use crate::http2::stream::http_stream::{
    frames_view, result_state, result_view, stream_handled, StepState, HTTP2Stream, StreamModel, StreamResult,
    StreamResultModel,
};
use crate::http2::stream::stream_closed::HTTP2StreamClosed;
use crate::http2::stream::stream_half_closed_local::HTTP2StreamHalfClosedLocal;
use crate::http2::stream::stream_half_closed_remote::HTTP2StreamHalfClosedRemote;
use crate::request::{Method, Request, RequestModel};
use crate::response::{lookup, HeaderList, Response, ResponseBuilderModel, ResponseModel};
use crate::bytes::{copy_range, extend_bytes};
use crate::types::Header;
use crate::clock::sendable_date;
use crate::util::{handle_request, spec_handle_request};

verus! {

/// An open stream: it collects a header block, and then the body of a request.
#[derive(Debug)]
pub struct HTTP2StreamOpen {
    pub id: u32,
    header_builder: HeaderBuilder,
    pending_request: Option<Box<Request>>,
}

/// An open stream as a value.
pub struct OpenModel {
    pub id: u32,
    /// The header block collected so far.
    pub header_block: Seq<u8>,
    /// The request whose body is still arriving.
    pub pending_request: Option<RequestModel>,
}

impl View for HTTP2StreamOpen {
    type V = OpenModel;

    closed spec fn view(&self) -> OpenModel {
        OpenModel {
            id: self.id,
            header_block: self.header_builder@,
            pending_request: match self.pending_request {
                Some(r) => Some(r@),
                None => None,
            },
        }
    }
}

/// What an open stream does with a frame, before any request is answered.
pub enum OpenOutcome {
    /// The stream stays open in this state and sends nothing.
    Stay(OpenModel),
    /// The stream goes to this state with this error.
    Fail(StreamModel, HTTP2Error),
    /// The request is answered on the stream, which is then closed.
    Respond(u32, RequestModel),
}

/// The closed stream that an open stream becomes.
pub open spec fn closed_model(id: u32, end_stream: bool) -> StreamModel {
    StreamModel::Closed(HTTP2StreamClosed { id, end_stream_received: end_stream, skipped: false })
}

/// The request that a decoded header list makes: it needs a `:method` that names a method
/// and a `:path`.
pub open spec fn spec_request_from_headers(hs: HeaderList, id: u32) -> Option<RequestModel> {
    match lookup(hs, method_pseudo()) {
        None => None,
        Some(m) => match Method::spec_from_name(m) {
            None => None,
            Some(method) => match lookup(hs, path_pseudo()) {
                None => None,
                Some(p) => Some(
                    RequestModel { method, path: p, headers: hs, body: Seq::empty(), stream_id: id },
                ),
            },
        },
    }
}

/// The frames that answer with a response, for an encoder that has been handed the header
/// lists of `encoded`: a HEADERS frame whose fragment is the whole header block of the response
/// (see `spec_response_header_list`), then a DATA frame that carries the whole body and ends
/// the stream.
pub open spec fn response_frames(frames: Seq<FrameModel>, res: ResponseModel, encoded: Seq<HeaderList>) -> bool {
    &&& frames.len() == 2
    &&& frames[0] matches FrameModel::Headers(h) && {
        &&& h.header == FrameHeader {
            length: h.header_block_fragment.len() as u32,
            frame_type: FrameType::Headers,
            flags: HeadersFrameFlags {
                end_stream: false,
                end_headers: true,
                padded: false,
                priority: false,
            },
            stream_id: res.stream_id,
        }
        &&& h.pad_length == 0
        &&& h.exclusive is None && h.stream_dependency is None && h.weight is None
        &&& h.header_block_fragment == hpack_encode(encoded, spec_response_header_list(res))
    }
    &&& frames[1] == FrameModel::Data(
        DataFrameModel {
            header: FrameHeader {
                length: res.body.len() as u32,
                frame_type: FrameType::Data,
                flags: DataFrameFlags { padding: false, end_stream: true },
                stream_id: res.stream_id,
            },
            pad_length: 0,
            data: res.body,
        },
    )
}

/// Whether a stream result is the one that an outcome gives, with the header lists handed to
/// the encoder before (`encoded`) and after (`encoded_after`): a request is answered with the
/// response that `spec_handle_request` gives (dated when it is built), whose header list is
/// handed to the encoder, or, when that fails, with a protocol error of the connection; either
/// way the stream closes. Other outcomes leave the encoder alone.
pub open spec fn outcome_holds(
    r: StreamResultModel,
    o: OpenOutcome,
    cache: HeaderList,
    encoded: Seq<HeaderList>,
    encoded_after: Seq<HeaderList>,
) -> bool {
    match o {
        OpenOutcome::Stay(m) => encoded_after == encoded && r == Ok::<
            (StreamModel, Seq<FrameModel>),
            (StreamModel, HTTP2Error),
        >((StreamModel::Open(m), Seq::empty())),
        OpenOutcome::Fail(s, e) => encoded_after == encoded && r == Err::<
            (StreamModel, Seq<FrameModel>),
            (StreamModel, HTTP2Error),
        >((s, e)),
        OpenOutcome::Respond(id, req) => match spec_handle_request(req, cache) {
            Err(_) => encoded_after == encoded && r == Err::<
                (StreamModel, Seq<FrameModel>),
                (StreamModel, HTTP2Error),
            >((closed_model(id, true), HTTP2Error::Connection(HTTP2ErrorCode::ProtocolError))),
            Ok(m) => match r {
                Ok((s, frames)) => s == closed_model(id, true) && exists|date: Seq<u8>|
                    #[trigger] response_frames(frames, m.build_with(date), encoded)
                        && sendable_date(date) && encoded_after == encoded.push(
                        spec_response_header_list(m.build_with(date)),
                    ),
                Err(_) => false,
            },
        },
    }
}

/// A response built from the request with some date, framed and encoded after the earlier
/// header lists, is what a `Respond` outcome allows.
proof fn lemma_response_outcome(
    r: StreamResultModel,
    id: u32,
    req: RequestModel,
    cache: HeaderList,
    encoded: Seq<HeaderList>,
    encoded_after: Seq<HeaderList>,
    frames: Seq<FrameModel>,
    date: Seq<u8>,
)
    requires
        spec_handle_request(req, cache) is Ok,
        r == Ok::<(StreamModel, Seq<FrameModel>), (StreamModel, HTTP2Error)>(
            (closed_model(id, true), frames),
        ),
        response_frames(frames, spec_handle_request(req, cache)->Ok_0.build_with(date), encoded),
        sendable_date(date),
        encoded_after == encoded.push(
            spec_response_header_list(spec_handle_request(req, cache)->Ok_0.build_with(date)),
        ),
    ensures
        outcome_holds(r, OpenOutcome::Respond(id, req), cache, encoded, encoded_after),
{
    let m = spec_handle_request(req, cache)->Ok_0;
    assert(response_frames(frames, m.build_with(date), encoded));
    assert(exists|d: Seq<u8>| #[trigger] response_frames(frames, m.build_with(d), encoded)
        && sendable_date(d) && encoded_after == encoded.push(spec_response_header_list(m.build_with(d))));
    assert(r->Ok_0.1 == frames);
    assert(r->Ok_0.0 == closed_model(id, true));
}

/// The header block that a frame completes, if it completes one: the fragments collected
/// before and its own, when it carries END_HEADERS (and, for HEADERS, does not make its stream
/// depend on itself).
pub open spec fn completed_block(o: OpenModel, frame: FrameModel) -> Option<Seq<u8>> {
    match frame {
        FrameModel::Headers(h) => if h.header.flags.end_headers && h.stream_dependency != Some(
            h.header.stream_id,
        ) {
            Some(o.header_block + h.header_block_fragment)
        } else {
            None
        },
        FrameModel::Continuation(c) => if c.header.flags.end_headers {
            Some(o.header_block + c.header_block_fragment)
        } else {
            None
        },
        _ => None,
    }
}

/// What building the block that a frame completes gives (see `spec_build`), for a decoder
/// that has been handed the blocks of `decoded`; a frame that completes none builds nothing,
/// which `spec_step` does not look at.
pub open spec fn built_for(o: OpenModel, frame: FrameModel, decoded: Seq<Seq<u8>>) -> Result<
    HeaderList,
    HTTP2Error,
> {
    match completed_block(o, frame) {
        Some(b) => spec_build(decoded, b, o.id),
        None => Err(HTTP2Error::Connection(HTTP2ErrorCode::CompressionError)),
    }
}

impl OpenModel {
    /// The outcome of the header block once it is complete and decoded to `built`: a decoding
    /// failure closes the stream; a list that makes no request is a protocol error of the
    /// connection (the stream closes, as ended when `close_ended` holds); a request is answered
    /// when `answer_now` holds and waits for its body otherwise.
    pub open spec fn after_build(
        self,
        built: Result<HeaderList, HTTP2Error>,
        close_ended: bool,
        answer_now: bool,
    ) -> OpenOutcome {
        match built {
            Err(e) => OpenOutcome::Fail(closed_model(self.id, true), e),
            Ok(hs) => match spec_request_from_headers(hs, self.id) {
                None => OpenOutcome::Fail(
                    closed_model(self.id, close_ended),
                    HTTP2Error::Connection(HTTP2ErrorCode::ProtocolError),
                ),
                Some(req) => if answer_now {
                    OpenOutcome::Respond(self.id, req)
                } else {
                    OpenOutcome::Stay(
                        OpenModel {
                            id: self.id,
                            header_block: Seq::empty(),
                            pending_request: Some(req),
                        },
                    )
                },
            },
        }
    }

    /// What the stream does with a frame, given what decoding the header block gave when the
    /// frame completes one.
    ///
    /// DATA: without a pending request it is a protocol error; the data is added to the body;
    /// with END_STREAM the request is answered, without it the request is dropped and the
    /// stream stays open.
    /// HEADERS: the fragment is collected; with END_HEADERS, a dependency on the frame's own
    /// stream is a stream error, and the block is decoded.
    /// CONTINUATION: the fragment is collected; with END_HEADERS the block is decoded and the
    /// request answered.
    /// PRIORITY: a dependency on the stream itself is a stream error; otherwise nothing changes.
    pub open spec fn spec_step(self, frame: FrameModel, built: Result<HeaderList, HTTP2Error>) -> OpenOutcome {
        match frame {
            FrameModel::Data(d) => match self.pending_request {
                None => OpenOutcome::Fail(
                    closed_model(self.id, false),
                    HTTP2Error::Connection(HTTP2ErrorCode::ProtocolError),
                ),
                Some(req) => {
                    let req2 = RequestModel { body: req.body + d.data, ..req };
                    if d.header.flags.end_stream {
                        OpenOutcome::Respond(self.id, req2)
                    } else {
                        OpenOutcome::Stay(OpenModel { pending_request: None, ..self })
                    }
                },
            },
            FrameModel::Headers(h) => {
                let block = self.header_block + h.header_block_fragment;
                if !h.header.flags.end_headers {
                    OpenOutcome::Stay(OpenModel { header_block: block, ..self })
                } else if h.stream_dependency == Some(h.header.stream_id) {
                    OpenOutcome::Fail(
                        closed_model(self.id, true),
                        HTTP2Error::Stream(
                            StreamError {
                                stream_id: h.header.stream_id,
                                error_code: HTTP2ErrorCode::ProtocolError,
                            },
                        ),
                    )
                } else {
                    self.after_build(built, h.header.flags.end_stream, h.header.flags.end_stream)
                }
            },
            FrameModel::Continuation(c) => {
                let block = self.header_block + c.header_block_fragment;
                if !c.header.flags.end_headers {
                    OpenOutcome::Stay(OpenModel { header_block: block, ..self })
                } else {
                    self.after_build(built, false, true)
                }
            },
            FrameModel::Priority(p) => if p.stream_dependency == self.id {
                OpenOutcome::Fail(
                    closed_model(self.id, true),
                    HTTP2Error::Stream(
                        StreamError {
                            stream_id: p.header.stream_id,
                            error_code: HTTP2ErrorCode::ProtocolError,
                        },
                    ),
                )
            } else {
                OpenOutcome::Stay(self)
            },
            _ => OpenOutcome::Stay(self),
        }
    }
}

impl HTTP2StreamOpen {
    /// The frames that an open stream handles.
    pub open spec fn handles(frame: FrameModel) -> bool {
        frame is Data || frame is Headers || frame is Continuation || frame is Priority
    }

    /// What an open stream does with a frame: the windows stay; a completed header block is
    /// built with the decoder (see `built_for` and `decoded_history`), which no other frame
    /// touches; and the result is the one that the outcome of `spec_step` gives.
    pub open spec fn open_handled(
        o: OpenModel,
        frame: FrameModel,
        cache: HeaderList,
        before: StepState,
        after: StepState,
        r: StreamResultModel,
    ) -> bool {
        &&& after.0 == before.0
        &&& after.1 == before.1
        &&& after.2 == match completed_block(o, frame) {
            Some(b) => decoded_history(before.2, b),
            None => before.2,
        }
        &&& outcome_holds(r, o.spec_step(frame, built_for(o, frame, before.2)), cache, before.3, after.3)
    }

    pub fn new(id: u32) -> (r: Self)
        ensures
            r@ == (OpenModel { id, header_block: Seq::empty(), pending_request: None }),
    {
        Self { id, header_builder: HeaderBuilder::new(), pending_request: None }
    }

    pub fn handle_frame(self, frame: Frame, state: &mut ConnectionState) -> (r: StreamResult)
        requires
            Self::handles(frame@),
        ensures
            stream_handled(StreamModel::Open(self@), frame@, old(state), final(state), result_view(r)),
    {
        match frame {
            Frame::Data(data_frame) => self.handle_data_frame(state, data_frame),
            Frame::Headers(headers_frame) => self.handle_headers_frame(state, headers_frame),
            Frame::Continuation(continuation_frame) => self.handle_continuation_frame(
                state,
                continuation_frame,
            ),
            Frame::Priority(priority_frame) => self.handle_priority_frame(&priority_frame),
            _ => {
                proof {
                    assert(false);
                }
                Ok((HTTP2Stream::Open(self), Vec::new()))
            },
        }
    }

    /// Answers a request on the stream, which then closes.
    fn respond(id: u32, req: Request, state: &mut ConnectionState) -> (r: StreamResult)
        ensures
            outcome_holds(
                result_view(r),
                OpenOutcome::Respond(id, req@),
                old(state).cache@,
                old(state).encoder@,
                final(state).encoder@,
            ),
            final(state).decoder == old(state).decoder,
            final(state).settings == old(state).settings,
            final(state).streams@ == old(state).streams@,
            final(state).last_stream_id == old(state).last_stream_id,
            final(state).settings_sent == old(state).settings_sent,
            final(state).settings_acked == old(state).settings_acked,
            final(state).waiting_for_continuation == old(state).waiting_for_continuation,
            final(state).cache == old(state).cache,
            final(state).window_size == old(state).window_size,
            final(state).stream_window_sizes@ == old(state).stream_window_sizes@,
    {
        match handle_request(&req, &*state.cache) {
            Err(_) => Err(
                (
                    HTTP2Stream::Closed(HTTP2StreamClosed::new(id, true)),
                    HTTP2Error::Connection(HTTP2ErrorCode::ProtocolError),
                ),
            ),
            Ok(res) => {
                let headers_frame = HeadersFrame::from_response(&res, &mut state.encoder);
                let data_frame = DataFrame::from_response(&res);
                let mut frames: Vec<Frame> = Vec::new();
                frames.push(Frame::Headers(headers_frame));
                frames.push(Frame::Data(data_frame));
                let r = Ok((HTTP2Stream::Closed(HTTP2StreamClosed::new(id, true)), frames));
                proof {
                    let fs = frames_view(frames@);
                    assert(fs.len() == 2);
                    assert(fs[0] == frames@[0]@);
                    assert(fs[1] == frames@[1]@);
                    let m = spec_handle_request(req@, old(state).cache@)->Ok_0;
                    let date = choose|date: Seq<u8>|
                        res@ == #[trigger] m.build_with(date) && sendable_date(date);
                    lemma_response_outcome(
                        result_view(r),
                        id,
                        req@,
                        old(state).cache@,
                        old(state).encoder@,
                        state.encoder@,
                        fs,
                        date,
                    );
                }
                r
            },
        }
    }

    /// The rest of the header block has arrived: decode it and act on the request it makes.
    fn after_headers(
        self,
        state: &mut ConnectionState,
        close_ended: bool,
        answer_now: bool,
    ) -> (r: StreamResult)
        ensures
            outcome_holds(
                result_view(r),
                self@.after_build(
                    spec_build(old(state).decoder@, self@.header_block, self@.id),
                    close_ended,
                    answer_now,
                ),
                old(state).cache@,
                old(state).encoder@,
                final(state).encoder@,
            ),
            final(state).decoder@ == decoded_history(old(state).decoder@, self@.header_block),
            final(state).settings == old(state).settings,
            final(state).streams@ == old(state).streams@,
            final(state).last_stream_id == old(state).last_stream_id,
            final(state).settings_sent == old(state).settings_sent,
            final(state).settings_acked == old(state).settings_acked,
            final(state).waiting_for_continuation == old(state).waiting_for_continuation,
            final(state).cache == old(state).cache,
            final(state).window_size == old(state).window_size,
            final(state).stream_window_sizes@ == old(state).stream_window_sizes@,
    {
        let ghost m = self@;
        let ghost cache = old(state).cache@;
        let ghost enc = old(state).encoder@;
        let mut this = self;
        let id: u32 = this.id;
        let built = this.header_builder.build(&mut state.decoder, id);
        let ghost bv = headers_result_view(built);
        assert(bv == spec_build(old(state).decoder@, m.header_block, id));
        let headers = match built {
            Ok(headers) => headers,
            Err(e) => {
                let r = Err((this.close(true), e));
                assert(outcome_holds(result_view(r), m.after_build(bv, close_ended, answer_now), cache, enc, state.encoder@));
                return r;
            },
        };
        let method_name: Vec<u8> = vec![':' as u8, 'm' as u8, 'e' as u8, 't' as u8, 'h' as u8, 'o' as u8, 'd' as u8];
        let path_name: Vec<u8> = vec![':' as u8, 'p' as u8, 'a' as u8, 't' as u8, 'h' as u8];
        assert(method_name@ =~= method_pseudo());
        assert(path_name@ =~= path_pseudo());
        let ghost hs = crate::types::headers_view(headers@);
        assert(bv == Ok::<HeaderList, HTTP2Error>(hs));
        let method = match crate::response::find_header(&headers, method_name.as_slice()) {
            None => {
                proof {
                    crate::response::lemma_lookup_absent(hs, method_pseudo());
                }
                let r = Err((this.close(close_ended), HTTP2Error::Connection(HTTP2ErrorCode::ProtocolError)));
                assert(outcome_holds(result_view(r), m.after_build(bv, close_ended, answer_now), cache, enc, state.encoder@));
                return r;
            },
            Some(i) => {
                proof {
                    assert forall|j: int| 0 <= j < i implies hs[j].0 != method_pseudo() by {
                        assert(hs[j] == headers@[j]@);
                    }
                    assert(hs[i as int] == headers@[i as int]@);
                    crate::request::lemma_lookup_first(hs, method_pseudo(), i as int);
                }
                match Method::from_str(headers[i].value.as_slice()) {
                    Ok(method) => method,
                    Err(_) => {
                        let r = Err((this.close(close_ended), HTTP2Error::Connection(HTTP2ErrorCode::ProtocolError)));
                        assert(outcome_holds(result_view(r), m.after_build(bv, close_ended, answer_now), cache, enc, state.encoder@));
                        return r;
                    },
                }
            },
        };
        let path = match crate::response::find_header(&headers, path_name.as_slice()) {
            None => {
                proof {
                    crate::response::lemma_lookup_absent(hs, path_pseudo());
                }
                let r = Err((this.close(close_ended), HTTP2Error::Connection(HTTP2ErrorCode::ProtocolError)));
                assert(outcome_holds(result_view(r), m.after_build(bv, close_ended, answer_now), cache, enc, state.encoder@));
                return r;
            },
            Some(i) => {
                proof {
                    assert forall|j: int| 0 <= j < i implies hs[j].0 != path_pseudo() by {
                        assert(hs[j] == headers@[j]@);
                    }
                    assert(hs[i as int] == headers@[i as int]@);
                    crate::request::lemma_lookup_first(hs, path_pseudo(), i as int);
                }
                let p = copy_range(headers[i].value.as_slice(), 0, headers[i].value.len());
                assert(p@ =~= lookup(hs, path_pseudo())->0);
                p
            },
        };
        let req = Request { headers, method, path, stream_id: id, body: Vec::new() };
        assert(req@.body =~= Seq::<u8>::empty());
        assert(spec_request_from_headers(hs, id) == Some(req@));
        if !answer_now {
            this.pending_request = Some(Box::new(req));
            let ghost tm = this@;
            assert(tm == OpenModel { id, header_block: Seq::empty(), pending_request: Some(req@) });
            let v: Vec<Frame> = Vec::new();
            assert(frames_view(v@) =~= Seq::<FrameModel>::empty());
            let r = Ok((HTTP2Stream::Open(this), v));
            assert(outcome_holds(result_view(r), m.after_build(bv, close_ended, answer_now), cache, enc, state.encoder@));
            return r;
        }
        let ghost dec_now = state.decoder@;
        let r = Self::respond(id, req, state);
        assert(outcome_holds(result_view(r), m.after_build(bv, close_ended, answer_now), cache, enc, state.encoder@));
        assert(state.decoder@ == dec_now);
        r
    }

    fn handle_data_frame(self, state: &mut ConnectionState, data_frame: DataFrame) -> (r: StreamResult)
        ensures
            stream_handled(StreamModel::Open(self@), FrameModel::Data(data_frame@), old(state), final(state), result_view(r)),
    {
        let ghost m = self@;
        let ghost fm = FrameModel::Data(data_frame@);
        let ghost b = built_for(m, fm, old(state).decoder@);
        let ghost enc = old(state).encoder@;
        let mut this = self;
        let pending = this.pending_request.take();
        let mut req = match pending {
            None => {
                let r = Err((this.close(false), HTTP2Error::Connection(HTTP2ErrorCode::ProtocolError)));
                assert(outcome_holds(result_view(r), m.spec_step(fm, b), old(state).cache@, enc, state.encoder@));
                return r;
            },
            Some(req) => req,
        };
        extend_bytes(&mut req.body, data_frame.data.as_slice());
        if data_frame.header.flags.end_stream {
            let r = Self::respond(this.id, *req, state);
            assert(outcome_holds(result_view(r), m.spec_step(fm, b), old(state).cache@, enc, state.encoder@));
            r
        } else {
            let ghost tm = this@;
            let v: Vec<Frame> = Vec::new();
            assert(frames_view(v@) =~= Seq::<FrameModel>::empty());
            let r = Ok((HTTP2Stream::Open(this), v));
            assert(tm == OpenModel { pending_request: None, ..m });
            assert(outcome_holds(result_view(r), m.spec_step(fm, b), old(state).cache@, enc, state.encoder@));
            r
        }
    }

    fn handle_headers_frame(self, state: &mut ConnectionState, headers_frame: HeadersFrame) -> (r: StreamResult)
        ensures
            stream_handled(StreamModel::Open(self@), FrameModel::Headers(headers_frame@), old(state), final(state), result_view(r)),
    {
        let ghost m = self@;
        let mut this = self;
        let ghost fm = FrameModel::Headers(headers_frame@);
        let ghost b = built_for(m, fm, old(state).decoder@);
        let ghost enc = old(state).encoder@;
        let HeadersFrame { header, stream_dependency, header_block_fragment, .. } = headers_frame;
        this.header_builder.new_fragment(header_block_fragment);
        if !header.flags.end_headers {
            let ghost tm = this@;
            let v: Vec<Frame> = Vec::new();
            assert(frames_view(v@) =~= Seq::<FrameModel>::empty());
            let r = Ok((HTTP2Stream::Open(this), v));
            assert(result_view(r) == Ok::<(StreamModel, Seq<FrameModel>), (StreamModel, HTTP2Error)>(
                (StreamModel::Open(tm), Seq::empty()),
            ));
            assert(outcome_holds(result_view(r), m.spec_step(fm, b), old(state).cache@, enc, state.encoder@));
            return r;
        }
        if let Some(dep) = stream_dependency {
            if dep == header.stream_id {
                let r = Err((
                    this.close(true),
                    HTTP2Error::Stream(StreamError { stream_id: header.stream_id, error_code: HTTP2ErrorCode::ProtocolError }),
                ));
                assert(outcome_holds(result_view(r), m.spec_step(fm, b), old(state).cache@, enc, state.encoder@));
                return r;
            }
        }
        let end_stream = header.flags.end_stream;
        let ghost tm = this@;
        assert(tm == OpenModel { header_block: m.header_block + headers_frame@.header_block_fragment, ..m });
        assert(completed_block(m, fm) == Some(tm.header_block));
        let r = this.after_headers(state, end_stream, end_stream);
        assert(m.spec_step(fm, b) == tm.after_build(b, end_stream, end_stream));
        r
    }

    fn handle_continuation_frame(self, state: &mut ConnectionState, continuation_frame: ContinuationFrame) -> (r: StreamResult)
        ensures
            stream_handled(StreamModel::Open(self@), FrameModel::Continuation(continuation_frame@), old(state), final(state), result_view(r)),
    {
        let ghost m = self@;
        let mut this = self;
        let ghost fm = FrameModel::Continuation(continuation_frame@);
        let ghost b = built_for(m, fm, old(state).decoder@);
        let ghost enc = old(state).encoder@;
        let ContinuationFrame { header, header_block_fragment } = continuation_frame;
        this.header_builder.new_fragment(header_block_fragment);
        if !header.flags.end_headers {
            let ghost tm = this@;
            let v: Vec<Frame> = Vec::new();
            assert(frames_view(v@) =~= Seq::<FrameModel>::empty());
            let r = Ok((HTTP2Stream::Open(this), v));
            assert(result_view(r) == Ok::<(StreamModel, Seq<FrameModel>), (StreamModel, HTTP2Error)>(
                (StreamModel::Open(tm), Seq::empty()),
            ));
            assert(outcome_holds(result_view(r), m.spec_step(fm, b), old(state).cache@, enc, state.encoder@));
            return r;
        }
        let ghost tm = this@;
        assert(tm == OpenModel { header_block: m.header_block + continuation_frame@.header_block_fragment, ..m });
        assert(completed_block(m, fm) == Some(tm.header_block));
        let r = this.after_headers(state, false, true);
        assert(m.spec_step(fm, b) == tm.after_build(b, false, true));
        r
    }

    fn handle_priority_frame(self, priority_frame: &PriorityFrame) -> (r: StreamResult)
        ensures
            forall|cache: HeaderList, encoded: Seq<HeaderList>, decoded: Seq<Seq<u8>>|
                outcome_holds(
                    result_view(r),
                    self@.spec_step(
                        FrameModel::Priority(*priority_frame),
                        built_for(self@, FrameModel::Priority(*priority_frame), decoded),
                    ),
                    cache,
                    encoded,
                    encoded,
                ),
    {
        let id = self.id;
        if priority_frame.stream_dependency == id {
            return Err(
                (
                    self.close(true),
                    HTTP2Error::Stream(
                        StreamError {
                            stream_id: priority_frame.header.stream_id,
                            error_code: HTTP2ErrorCode::ProtocolError,
                        },
                    ),
                ),
            );
        }
        let ghost m = self@;
        let v: Vec<Frame> = Vec::new();
        assert(frames_view(v@) =~= Seq::<FrameModel>::empty());
        let r = Ok((HTTP2Stream::Open(self), v));
        assert(result_view(r) == Ok::<(StreamModel, Seq<FrameModel>), (StreamModel, HTTP2Error)>(
            (StreamModel::Open(m), Seq::empty()),
        ));
        r
    }

    /// Whether part of a header block has been collected.
    pub fn waiting_for_continuation(&self) -> (r: bool)
        ensures
            r == (self@.header_block.len() > 0),
    {
        self.header_builder.waiting_for_continuation()
    }

    /// The stream, closed.
    pub fn close(self, end_stream: bool) -> (r: HTTP2Stream)
        ensures
            r@ == closed_model(self@.id, end_stream),
    {
        HTTP2Stream::Closed(HTTP2StreamClosed::new(self.id, end_stream))
    }

    /// The stream, half closed by the server.
    pub fn half_close_local(self) -> (r: HTTP2Stream)
        ensures
            r@ == StreamModel::HalfClosedLocal(HTTP2StreamHalfClosedLocal { id: self@.id }),
    {
        HTTP2Stream::HalfClosedLocal(HTTP2StreamHalfClosedLocal { id: self.id })
    }

    /// The stream, half closed by the peer.
    pub fn half_close_remote(self) -> (r: HTTP2Stream)
        ensures
            r@ == StreamModel::HalfClosedRemote(HTTP2StreamHalfClosedRemote { id: self@.id }),
    {
        HTTP2Stream::HalfClosedRemote(HTTP2StreamHalfClosedRemote { id: self.id })
    }
}

/// The fragments of CONTINUATION frames, one after another.
pub open spec fn continuation_fragments(cs: Seq<ContinuationFrameModel>) -> Seq<u8>
    decreases cs.len(),
{
    if cs.len() == 0 {
        Seq::empty()
    } else {
        continuation_fragments(cs.drop_last()) + cs.last().header_block_fragment
    }
}

/// Open stream `id` once a HEADERS frame and then CONTINUATION frames, none of them ending the
/// header block, have been collected.
pub open spec fn collecting(
    id: u32,
    h: HeadersFrameModel,
    cs: Seq<ContinuationFrameModel>,
) -> OpenModel {
    OpenModel {
        id,
        header_block: h.header_block_fragment + continuation_fragments(cs),
        pending_request: None,
    }
}

/// A header block sent as a HEADERS frame without END_HEADERS and CONTINUATION frames is
/// collected whole and decoded as one block. From a new open stream, the HEADERS frame and each
/// CONTINUATION frame without END_HEADERS only add their fragments, and hand the decoder
/// nothing; the CONTINUATION frame with END_HEADERS hands the decoder the fragments of all of
/// them, in order, as one block, builds the request from what that block decodes to, and
/// leaves the stream closed, whether it succeeds or fails.
pub proof fn lemma_continuation_chain(
    id: u32,
    h: HeadersFrameModel,
    cs: Seq<ContinuationFrameModel>,
    last: ContinuationFrameModel,
    cache: HeaderList,
    before: StepState,
    after: StepState,
    r: StreamResultModel,
)
    requires
        !h.header.flags.end_headers,
        forall|i: int| 0 <= i < cs.len() ==> !(#[trigger] cs[i]).header.flags.end_headers,
        last.header.flags.end_headers,
        HTTP2StreamOpen::open_handled(
            collecting(id, h, cs),
            FrameModel::Continuation(last),
            cache,
            before,
            after,
            r,
        ),
    ensures
        completed_block(
            OpenModel { id, header_block: Seq::empty(), pending_request: None },
            FrameModel::Headers(h),
        ) is None,
        forall|b: Result<HeaderList, HTTP2Error>|
            #[trigger] (OpenModel { id, header_block: Seq::empty(), pending_request: None }).spec_step(
                FrameModel::Headers(h),
                b,
            ) == OpenOutcome::Stay(collecting(id, h, Seq::empty())),
        forall|k: int|
            0 <= k < cs.len() ==> #[trigger] completed_block(
                collecting(id, h, cs.take(k)),
                FrameModel::Continuation(cs[k]),
            ) is None,
        forall|k: int, b: Result<HeaderList, HTTP2Error>|
            0 <= k < cs.len() ==> #[trigger] collecting(id, h, cs.take(k)).spec_step(
                FrameModel::Continuation(cs[k]),
                b,
            ) == OpenOutcome::Stay(collecting(id, h, cs.take(k + 1))),
        ({
            let block = h.header_block_fragment + continuation_fragments(cs)
                + last.header_block_fragment;
            &&& after.2 == decoded_history(before.2, block)
            &&& built_for(collecting(id, h, cs), FrameModel::Continuation(last), before.2)
                == spec_build(before.2, block, id)
        }),
        result_state(r) matches StreamModel::Closed(c) && c.id == id,
{
    let o0 = OpenModel { id, header_block: Seq::empty(), pending_request: None };
    assert(o0.header_block + h.header_block_fragment =~= collecting(id, h, Seq::empty()).header_block);
    assert forall|k: int, b: Result<HeaderList, HTTP2Error>|
        0 <= k < cs.len() implies #[trigger] collecting(id, h, cs.take(k)).spec_step(
            FrameModel::Continuation(cs[k]),
            b,
        ) == OpenOutcome::Stay(collecting(id, h, cs.take(k + 1))) by {
        assert(cs.take(k + 1).drop_last() =~= cs.take(k));
        assert(cs.take(k + 1).last() == cs[k]);
        assert(!cs[k].header.flags.end_headers);
        assert(collecting(id, h, cs.take(k)).header_block + cs[k].header_block_fragment
            =~= collecting(id, h, cs.take(k + 1)).header_block);
    }
    assert forall|k: int| 0 <= k < cs.len() implies #[trigger] completed_block(
        collecting(id, h, cs.take(k)),
        FrameModel::Continuation(cs[k]),
    ) is None by {
        assert(!cs[k].header.flags.end_headers);
    }
    let o = collecting(id, h, cs);
    let block = h.header_block_fragment + continuation_fragments(cs) + last.header_block_fragment;
    assert(o.header_block + last.header_block_fragment =~= block);
}

} // verus!
