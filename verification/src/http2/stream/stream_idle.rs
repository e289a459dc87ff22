use vstd::prelude::*;

use crate::http2::connection_state::ConnectionState;
use crate::http2::error::{HTTP2Error, HTTP2ErrorCode};
use crate::http2::frames::frame::{Frame, FrameModel};
use crate::http2::frames::headers_frame::HeadersFrame;
use crate::response::HeaderList;
use crate::http2::stream::http_stream::{StepState, result_view, stream_handled, HTTP2Stream, StreamModel, StreamResult, StreamResultModel};
use crate::http2::stream::stream_closed::HTTP2StreamClosed;
use crate::http2::stream::stream_open::{HTTP2StreamOpen, OpenModel};

verus! {

/// A stream that no frame has opened yet.
#[derive(Clone, Copy, Debug, PartialEq, Eq, Structural)]
pub struct HTTP2StreamIdle {
    pub id: u32,
}

impl HTTP2StreamIdle {
    /// What an idle stream does with a frame: a HEADERS frame opens it and is handled by the
    /// open stream; any other frame is a protocol error of the connection, and the stream closes.
    pub open spec fn idle_handled(
        i: HTTP2StreamIdle,
        frame: FrameModel,
        initial: i32,
        cache: HeaderList,
        before: StepState,
        after: StepState,
        r: StreamResultModel,
    ) -> bool {
        match frame {
            FrameModel::Headers(_) => HTTP2StreamOpen::open_handled(
                OpenModel { id: i.id, header_block: Seq::empty(), pending_request: None },
                frame,
                cache,
                before,
                after,
                r,
            ),
            _ => {
                &&& after == before
                &&& r == Err::<(StreamModel, Seq<FrameModel>), (StreamModel, HTTP2Error)>(
                    (
                        StreamModel::Closed(
                            HTTP2StreamClosed { id: i.id, end_stream_received: false, skipped: false },
                        ),
                        HTTP2Error::Connection(HTTP2ErrorCode::ProtocolError),
                    ),
                )
            },
        }
    }

    pub fn handle_frame(self, frame: Frame, state: &mut ConnectionState) -> (r: StreamResult)
        requires
            !(frame@ is Priority || frame@ is PushPromise),
        ensures
            stream_handled(StreamModel::Idle(self), frame@, old(state), final(state), result_view(r)),
    {
        match frame {
            Frame::Headers(headers_frame) => self.handle_headers_frame(headers_frame, state),
            _ => Err((self.close(false), HTTP2Error::Connection(HTTP2ErrorCode::ProtocolError))),
        }
    }

    /// Opens the stream and hands it the HEADERS frame.
    pub fn handle_headers_frame(self, headers_frame: HeadersFrame, state: &mut ConnectionState) -> (r: StreamResult)
        ensures
            stream_handled(StreamModel::Idle(self), FrameModel::Headers(headers_frame@), old(state), final(state), result_view(r)),
    {
        let open = HTTP2StreamOpen::new(self.id);
        open.handle_frame(Frame::Headers(headers_frame), state)
    }

    /// The stream, closed.
    pub fn close(self, end_stream: bool) -> (r: HTTP2Stream)
        ensures
            r@ == StreamModel::Closed(
                HTTP2StreamClosed { id: self.id, end_stream_received: end_stream, skipped: false },
            ),
    {
        HTTP2Stream::Closed(HTTP2StreamClosed::new(self.id, end_stream))
    }

    /// The stream, open.
    pub fn open(self) -> (r: HTTP2Stream)
        ensures
            r@ == StreamModel::Open(OpenModel { id: self.id, header_block: Seq::empty(), pending_request: None }),
    {
        HTTP2Stream::Open(HTTP2StreamOpen::new(self.id))
    }
}

} // verus!
