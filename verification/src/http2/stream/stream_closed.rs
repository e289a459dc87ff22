use vstd::prelude::*;

use crate::http2::error::{HTTP2Error, HTTP2ErrorCode, StreamError};
use crate::http2::frames::frame::{Frame, FrameModel};
use crate::http2::frames::priority_frame::PriorityFrame;
use crate::http2::stream::http_stream::{
    no_frames, result_view, stream_step, HTTP2Stream, StepState, StreamModel, StreamResult,
    StreamResultModel,
};
use crate::response::HeaderList;

verus! {

/// A closed stream.
#[derive(Clone, Copy, Debug, PartialEq, Eq, Structural)]
pub struct HTTP2StreamClosed {
    pub id: u32,
    /// Whether the peer ended the stream.
    pub end_stream_received: bool,
    /// Whether the peer skipped the stream by opening a later one.
    pub skipped: bool,
}

impl HTTP2StreamClosed {
    /// What a closed stream does with a frame: a PRIORITY frame that makes the stream depend on
    /// itself is a stream error, other PRIORITY frames are ignored; any other frame is a
    /// STREAM_CLOSED error, of the connection when the peer had ended the stream, of the stream
    /// otherwise.
    pub open spec fn spec_handle_frame(self, frame: FrameModel) -> StreamResultModel {
        match frame {
            FrameModel::Priority(p) => if p.stream_dependency == self.id {
                Err(
                    (
                        StreamModel::Closed(self),
                        HTTP2Error::Stream(
                            StreamError {
                                stream_id: p.header.stream_id,
                                error_code: HTTP2ErrorCode::ProtocolError,
                            },
                        ),
                    ),
                )
            } else {
                Ok((StreamModel::Closed(self), Seq::empty()))
            },
            _ => if self.end_stream_received {
                Err((StreamModel::Closed(self), HTTP2Error::Connection(HTTP2ErrorCode::StreamClosed)))
            } else {
                Err(
                    (
                        StreamModel::Closed(self),
                        HTTP2Error::Stream(
                            StreamError { stream_id: self.id, error_code: HTTP2ErrorCode::StreamClosed },
                        ),
                    ),
                )
            },
        }
    }

    pub fn handle_frame(self, frame: &Frame) -> (r: StreamResult)
        ensures
            result_view(r) == self.spec_handle_frame(frame@),
    {
        match frame {
            Frame::Priority(p) => self.handle_priority_frame(p),
            _ => {
                let id: u32 = self.id;
                if self.end_stream_received {
                    Err((HTTP2Stream::Closed(self), HTTP2Error::Connection(HTTP2ErrorCode::StreamClosed)))
                } else {
                    Err(
                        (
                            HTTP2Stream::Closed(self),
                            HTTP2Error::Stream(StreamError::new(id, HTTP2ErrorCode::StreamClosed)),
                        ),
                    )
                }
            },
        }
    }

    fn handle_priority_frame(self, priority_frame: &PriorityFrame) -> (r: StreamResult)
        ensures
            result_view(r) == self.spec_handle_frame(FrameModel::Priority(*priority_frame)),
    {
        let id: u32 = self.id;
        if priority_frame.stream_dependency == id {
            return Err(
                (
                    HTTP2Stream::Closed(self),
                    HTTP2Error::Stream(
                        StreamError {
                            stream_id: priority_frame.header.stream_id,
                            error_code: HTTP2ErrorCode::ProtocolError,
                        },
                    ),
                ),
            );
        }
        let r = Ok((HTTP2Stream::Closed(self), no_frames()));
        assert(result_view(r) == self.spec_handle_frame(FrameModel::Priority(*priority_frame)));
        r
    }

    /// A closed stream that was not skipped.
    pub fn new(id: u32, end_stream_received: bool) -> (r: Self)
        ensures
            r == (HTTP2StreamClosed { id, end_stream_received, skipped: false }),
    {
        Self { id, end_stream_received, skipped: false }
    }
}

/// A closed stream ignores a PRIORITY frame unless the frame makes the stream depend on
/// itself: the stream stays as it is, nothing is sent and the connection is left alone. A
/// dependency on the stream's own id is a PROTOCOL_ERROR of the stream that the frame names.
pub proof fn lemma_closed_stream_priority(
    c: HTTP2StreamClosed,
    p: PriorityFrame,
    initial: i32,
    cache: HeaderList,
    before: StepState,
    after: StepState,
    r: StreamResultModel,
)
    requires
        stream_step(StreamModel::Closed(c), FrameModel::Priority(p), initial, cache, before, after, r),
    ensures
        after == before,
        p.stream_dependency != c.id ==> r == Ok::<(StreamModel, Seq<FrameModel>), (StreamModel, HTTP2Error)>(
            (StreamModel::Closed(c), Seq::empty()),
        ),
        p.stream_dependency == c.id ==> r == Err::<(StreamModel, Seq<FrameModel>), (StreamModel, HTTP2Error)>(
            (
                StreamModel::Closed(c),
                HTTP2Error::Stream(
                    StreamError {
                        stream_id: p.header.stream_id,
                        error_code: HTTP2ErrorCode::ProtocolError,
                    },
                ),
            ),
        ),
{
}

/// Any frame other than PRIORITY on a closed stream is answered STREAM_CLOSED: as an error of
/// the connection when the peer had ended the stream, of the stream (with its id) otherwise.
/// The stream stays as it is and the connection is left alone.
pub proof fn lemma_closed_stream_refuses_frames(
    c: HTTP2StreamClosed,
    frame: FrameModel,
    initial: i32,
    cache: HeaderList,
    before: StepState,
    after: StepState,
    r: StreamResultModel,
)
    requires
        stream_step(StreamModel::Closed(c), frame, initial, cache, before, after, r),
        !(frame is Priority),
    ensures
        after == before,
        c.end_stream_received ==> r == Err::<(StreamModel, Seq<FrameModel>), (StreamModel, HTTP2Error)>(
            (StreamModel::Closed(c), HTTP2Error::Connection(HTTP2ErrorCode::StreamClosed)),
        ),
        !c.end_stream_received ==> r == Err::<(StreamModel, Seq<FrameModel>), (StreamModel, HTTP2Error)>(
            (
                StreamModel::Closed(c),
                HTTP2Error::Stream(
                    StreamError { stream_id: c.id, error_code: HTTP2ErrorCode::StreamClosed },
                ),
            ),
        ),
{
}

} // verus!
