use vstd::prelude::*;

use crate::http2::connection_state::{ConnectionState, WindowList};
use crate::response::HeaderList;
use crate::http2::error::HTTP2Error;
use crate::http2::frames::frame::{Frame, FrameModel};
use crate::http2::stream::stream_closed::HTTP2StreamClosed;
use crate::http2::stream::stream_half_closed_local::HTTP2StreamHalfClosedLocal;
use crate::http2::stream::stream_half_closed_remote::HTTP2StreamHalfClosedRemote;
use crate::http2::stream::stream_idle::HTTP2StreamIdle;
use crate::http2::stream::stream_open::{
    built_for, outcome_holds, HTTP2StreamOpen, OpenModel, OpenOutcome,
};
use crate::http2::stream::stream_reserved_remote::HTTP2StreamReservedRemote;

verus! {

/// A stream, in one of the states of RFC 9113, section 5.1.
#[derive(Debug)]
pub enum HTTP2Stream {
    Idle(HTTP2StreamIdle),
    Open(HTTP2StreamOpen),
    ReservedLocal,
    ReservedRemote(HTTP2StreamReservedRemote),
    HalfClosedRemote(HTTP2StreamHalfClosedRemote),
    HalfClosedLocal(HTTP2StreamHalfClosedLocal),
    Closed(HTTP2StreamClosed),
}

/// A stream as a value.
pub enum StreamModel {
    Idle(HTTP2StreamIdle),
    Open(OpenModel),
    ReservedLocal,
    ReservedRemote(HTTP2StreamReservedRemote),
    HalfClosedRemote(HTTP2StreamHalfClosedRemote),
    HalfClosedLocal(HTTP2StreamHalfClosedLocal),
    Closed(HTTP2StreamClosed),
}

impl View for HTTP2Stream {
    type V = StreamModel;

    open spec fn view(&self) -> StreamModel {
        match self {
            HTTP2Stream::Idle(s) => StreamModel::Idle(*s),
            HTTP2Stream::Open(s) => StreamModel::Open(s@),
            HTTP2Stream::ReservedLocal => StreamModel::ReservedLocal,
            HTTP2Stream::ReservedRemote(s) => StreamModel::ReservedRemote(*s),
            HTTP2Stream::HalfClosedRemote(s) => StreamModel::HalfClosedRemote(*s),
            HTTP2Stream::HalfClosedLocal(s) => StreamModel::HalfClosedLocal(*s),
            HTTP2Stream::Closed(s) => StreamModel::Closed(*s),
        }
    }
}

/// What a stream gives back for a frame: its next state and the frames to send, or its next
/// state and an error.
pub type StreamResult = Result<(HTTP2Stream, Vec<Frame>), (HTTP2Stream, HTTP2Error)>;

/// A stream result as a value.
pub type StreamResultModel = Result<(StreamModel, Seq<FrameModel>), (StreamModel, HTTP2Error)>;

/// Frames as values.
pub open spec fn frames_view(v: Seq<Frame>) -> Seq<FrameModel> {
    v.map_values(|f: Frame| f@)
}

/// A stream result as a value.
pub open spec fn result_view(r: StreamResult) -> StreamResultModel {
    match r {
        Ok((s, fs)) => Ok((s@, frames_view(fs@))),
        Err((s, e)) => Err((s@, e)),
    }
}

/// An empty list of frames.
pub(crate) fn no_frames() -> (v: Vec<Frame>)
    ensures
        frames_view(v@) == Seq::<FrameModel>::empty(),
        v@.len() == 0,
{
    let v: Vec<Frame> = Vec::new();
    assert(frames_view(v@) =~= Seq::<FrameModel>::empty());
    v
}

impl StreamModel {
    /// The frames that a stream in this state handles: the states that the server does not
    /// implement handle none (reserved states), or only some (idle: not PRIORITY or
    /// PUSH_PROMISE; open: DATA, HEADERS, CONTINUATION and PRIORITY; half closed (local):
    /// PRIORITY and WINDOW_UPDATE).
    pub open spec fn handles(self, frame: FrameModel) -> bool {
        match self {
            StreamModel::Idle(_) => !(frame is Priority || frame is PushPromise),
            StreamModel::Open(_) => HTTP2StreamOpen::handles(frame),
            StreamModel::ReservedLocal => false,
            StreamModel::ReservedRemote(_) => false,
            StreamModel::HalfClosedRemote(_) => true,
            StreamModel::HalfClosedLocal(_) => HTTP2StreamHalfClosedLocal::handles(frame),
            StreamModel::Closed(_) => true,
        }
    }

    /// The stream's id; a stream reserved by the server carries none.
    pub open spec fn id(self) -> Option<u32> {
        match self {
            StreamModel::Idle(i) => Some(i.id),
            StreamModel::Open(o) => Some(o.id),
            StreamModel::ReservedLocal => None,
            StreamModel::ReservedRemote(r) => Some(r.id),
            StreamModel::HalfClosedRemote(h) => Some(h.id),
            StreamModel::HalfClosedLocal(h) => Some(h.id),
            StreamModel::Closed(c) => Some(c.id),
        }
    }

    /// The state after the server sends the end of the stream: an open stream becomes half
    /// closed (local), a stream half closed (remote) becomes closed; other states stay.
    pub open spec fn spec_server_sent_es(self) -> StreamModel {
        match self {
            StreamModel::Open(o) => StreamModel::HalfClosedLocal(HTTP2StreamHalfClosedLocal { id: o.id }),
            StreamModel::HalfClosedRemote(h) => StreamModel::Closed(
                HTTP2StreamClosed { id: h.id, end_stream_received: true, skipped: false },
            ),
            _ => self,
        }
    }
}

/// What a stream step may change on the connection: its flow-control window, those of its
/// streams, the header blocks handed to its HPACK decoder and the header lists handed to its
/// HPACK encoder.
pub type StepState = (i32, WindowList, Seq<Seq<u8>>, Seq<HeaderList>);

/// What a stream does with a frame, as a relation between the stream, the frame, what it may
/// change before and after, and the result: the result is what the state's own handler states.
/// Only an open stream (or an idle one that a HEADERS frame opens) uses the decoder or the
/// encoder.
/// `initial` is the initial window of a stream, `cache` the files served.
pub open spec fn stream_step(
    s: StreamModel,
    frame: FrameModel,
    initial: i32,
    cache: HeaderList,
    before: StepState,
    after: StepState,
    r: StreamResultModel,
) -> bool {
    match s {
        StreamModel::Idle(i) => HTTP2StreamIdle::idle_handled(i, frame, initial, cache, before, after, r),
        StreamModel::Open(o) => HTTP2StreamOpen::open_handled(o, frame, cache, before, after, r),
        StreamModel::HalfClosedRemote(h) => match frame {
            FrameModel::WindowUpdate(wu) => {
                let (u, w, ws) = ConnectionState::spec_update_window(before.0, before.1, initial, wu);
                &&& after == (w, ws, before.2, before.3)
                &&& r == h.spec_handle_frame(frame, u)
            },
            _ => {
                &&& after == before
                &&& r == h.spec_handle_frame(frame, Ok(()))
            },
        },
        StreamModel::HalfClosedLocal(h) => match frame {
            FrameModel::WindowUpdate(wu) => {
                let (u, w, ws) = ConnectionState::spec_update_window(before.0, before.1, initial, wu);
                &&& after == (w, ws, before.2, before.3)
                &&& r == h.spec_handle_frame(frame, u)
            },
            _ => {
                &&& after == before
                &&& r == h.spec_handle_frame(frame, Ok(()))
            },
        },
        StreamModel::Closed(c) => {
            &&& after == before
            &&& r == c.spec_handle_frame(frame)
        },
        _ => false,
    }
}

/// What a stream does with a frame, seen on the connection state: only the windows, the
/// decoder and the encoder may change, as `stream_step` says.
pub open spec fn stream_handled(
    s: StreamModel,
    frame: FrameModel,
    before: &ConnectionState,
    after: &ConnectionState,
    r: StreamResultModel,
) -> bool {
    &&& after.settings == before.settings
    &&& after.streams@ == before.streams@
    &&& after.last_stream_id == before.last_stream_id
    &&& after.settings_sent == before.settings_sent
    &&& after.settings_acked == before.settings_acked
    &&& after.waiting_for_continuation == before.waiting_for_continuation
    &&& after.cache == before.cache
    &&& stream_step(
        s,
        frame,
        before.settings.window_size,
        before.cache@,
        (before.window_size, before.stream_window_sizes@, before.decoder@, before.encoder@),
        (after.window_size, after.stream_window_sizes@, after.decoder@, after.encoder@),
        r,
    )
}

impl HTTP2Stream {
    /// Hands a frame to the stream's state.
    pub fn handle_frame(self, frame: Frame, state: &mut ConnectionState) -> (r: StreamResult)
        requires
            self@.handles(frame@),
        ensures
            stream_handled(self@, frame@, old(state), final(state), result_view(r)),
    {
        match self {
            HTTP2Stream::Idle(stream) => stream.handle_frame(frame, state),
            HTTP2Stream::Open(stream) => stream.handle_frame(frame, state),
            HTTP2Stream::HalfClosedRemote(stream) => stream.handle_frame(frame, state),
            HTTP2Stream::HalfClosedLocal(stream) => stream.handle_frame(&frame, state),
            HTTP2Stream::Closed(stream) => stream.handle_frame(&frame),
            _ => {
                proof {
                    assert(false);
                }
                Err((HTTP2Stream::ReservedLocal, HTTP2Error::Connection(crate::http2::error::HTTP2ErrorCode::InternalError)))
            },
        }
    }

    /// Whether the stream's state handles a frame (see `StreamModel::handles`).
    pub fn handles(&self, frame: &Frame) -> (r: bool)
        ensures
            r == self@.handles(frame@),
    {
        match self {
            HTTP2Stream::Idle(_) => !(matches!(frame, Frame::Priority(_)) || matches!(frame, Frame::PushPromise(_))),
            HTTP2Stream::Open(_) => matches!(frame, Frame::Data(_)) || matches!(frame, Frame::Headers(_))
                || matches!(frame, Frame::Continuation(_)) || matches!(frame, Frame::Priority(_)),
            HTTP2Stream::ReservedLocal => false,
            HTTP2Stream::ReservedRemote(_) => false,
            HTTP2Stream::HalfClosedRemote(_) => true,
            HTTP2Stream::HalfClosedLocal(_) => matches!(frame, Frame::Priority(_)) || matches!(frame, Frame::WindowUpdate(_)),
            HTTP2Stream::Closed(_) => true,
        }
    }

    /// A new stream, idle.
    pub fn new(id: u32) -> (r: Self)
        ensures
            r@ == StreamModel::Idle(HTTP2StreamIdle { id }),
    {
        HTTP2Stream::Idle(HTTP2StreamIdle { id })
    }

    /// The state after the server sends the end of the stream (see
    /// `StreamModel::spec_server_sent_es`).
    pub fn server_sent_es(self) -> (r: HTTP2Stream)
        ensures
            r@ == self@.spec_server_sent_es(),
    {
        match self {
            HTTP2Stream::Open(o) => o.half_close_local(),
            HTTP2Stream::HalfClosedRemote(h) => HTTP2Stream::Closed(HTTP2StreamClosed::new(h.id, true)),
            other => other,
        }
    }

    /// Whether the stream is a closed stream that the peer skipped.
    pub fn is_skipped(&self) -> (r: bool)
        ensures
            r == (self@ matches StreamModel::Closed(c) && c.skipped),
    {
        match self {
            HTTP2Stream::Closed(c) => c.skipped,
            _ => false,
        }
    }
}

/// The state that a stream result leaves the stream in.
pub open spec fn result_state(r: StreamResultModel) -> StreamModel {
    match r {
        Ok((s, _)) => s,
        Err((s, _)) => s,
    }
}

/// The id of the state that an open stream's outcome leaves it in.
proof fn lemma_outcome_keeps_id(
    o: OpenModel,
    frame: FrameModel,
    built: Result<HeaderList, HTTP2Error>,
    r: StreamResultModel,
    cache: HeaderList,
    encoded: Seq<HeaderList>,
    encoded_after: Seq<HeaderList>,
)
    requires
        outcome_holds(r, o.spec_step(frame, built), cache, encoded, encoded_after),
    ensures
        result_state(r).id() == Some(o.id),
{
    match o.spec_step(frame, built) {
        OpenOutcome::Stay(m) => {},
        OpenOutcome::Fail(st, e) => {},
        OpenOutcome::Respond(id, req) => {},
    }
}

/// A stream keeps its id through every step: whatever a stream does with a frame, the state
/// it is left in carries the id it had.
pub proof fn lemma_stream_keeps_id(
    s: StreamModel,
    frame: FrameModel,
    initial: i32,
    cache: HeaderList,
    before: StepState,
    after: StepState,
    r: StreamResultModel,
)
    requires
        stream_step(s, frame, initial, cache, before, after, r),
    ensures
        result_state(r).id() == s.id(),
{
    match s {
        StreamModel::Open(o) => {
            lemma_outcome_keeps_id(o, frame, built_for(o, frame, before.2), r, cache, before.3, after.3);
        },
        StreamModel::Idle(i) => {
            if frame is Headers {
                let o = OpenModel { id: i.id, header_block: Seq::empty(), pending_request: None };
                lemma_outcome_keeps_id(o, frame, built_for(o, frame, before.2), r, cache, before.3, after.3);
            }
        },
        _ => {},
    }
}

/// The frames of a result can all be written.
pub open spec fn replies_encodable(r: StreamResultModel) -> bool {
    r matches Ok((_, fs)) ==> forall|i: int| 0 <= i < fs.len() ==> (#[trigger] fs[i]).encodable()
}

/// The frames that an open stream's outcome sends can all be written.
proof fn lemma_outcome_replies_encodable(
    o: OpenModel,
    frame: FrameModel,
    built: Result<HeaderList, HTTP2Error>,
    r: StreamResultModel,
    cache: HeaderList,
    encoded: Seq<HeaderList>,
    encoded_after: Seq<HeaderList>,
)
    requires
        outcome_holds(r, o.spec_step(frame, built), cache, encoded, encoded_after),
    ensures
        replies_encodable(r),
{
    match o.spec_step(frame, built) {
        OpenOutcome::Stay(m) => {},
        OpenOutcome::Fail(st, e) => {},
        OpenOutcome::Respond(id, req) => {
            if let Ok((st, fs)) = r {
                assert forall|i: int| 0 <= i < fs.len() implies (#[trigger] fs[i]).encodable() by {
                    if i == 0 {
                        assert(fs[0] is Headers);
                    }
                }
            }
        },
    }
}

/// Whatever a stream does with a frame, the frames it answers with can all be written.
pub proof fn lemma_stream_replies_encodable(
    s: StreamModel,
    frame: FrameModel,
    initial: i32,
    cache: HeaderList,
    before: StepState,
    after: StepState,
    r: StreamResultModel,
)
    requires
        stream_step(s, frame, initial, cache, before, after, r),
    ensures
        replies_encodable(r),
{
    match s {
        StreamModel::Open(o) => {
            lemma_outcome_replies_encodable(o, frame, built_for(o, frame, before.2), r, cache, before.3, after.3);
        },
        StreamModel::Idle(i) => {
            if frame is Headers {
                let o = OpenModel { id: i.id, header_block: Seq::empty(), pending_request: None };
                lemma_outcome_replies_encodable(o, frame, built_for(o, frame, before.2), r, cache, before.3, after.3);
            }
        },
        _ => {},
    }
}

} // verus!
