use vstd::prelude::*;

use crate::http2::connection_state::ConnectionState;
use crate::http2::error::{HTTP2Error, HTTP2ErrorCode, StreamError};
use crate::http2::frames::frame::{Frame, FrameModel};
use crate::http2::frames::priority_frame::PriorityFrame;
use crate::http2::stream::http_stream::{no_frames, 
    HTTP2Stream, StreamModel, StreamResult, StreamResultModel, result_view,
};
use crate::http2::stream::stream_closed::HTTP2StreamClosed;

verus! {

/// A stream that the server has ended and the peer has not.
#[derive(Clone, Copy, Debug, PartialEq, Eq, Structural)]
pub struct HTTP2StreamHalfClosedLocal {
    pub id: u32,
}

impl HTTP2StreamHalfClosedLocal {
    /// The frames that this state handles: PRIORITY and WINDOW_UPDATE.
    pub open spec fn handles(frame: FrameModel) -> bool {
        frame is Priority || frame is WindowUpdate
    }

    /// What the stream does with a PRIORITY frame, or with a WINDOW_UPDATE frame given what
    /// applying it to the connection's windows gave: a failed update closes the stream.
    pub open spec fn spec_handle_frame(self, frame: FrameModel, update: Result<(), HTTP2Error>) -> StreamResultModel {
        match frame {
            FrameModel::Priority(p) => if p.stream_dependency == self.id {
                Err(
                    (
                        StreamModel::HalfClosedLocal(self),
                        HTTP2Error::Stream(
                            StreamError {
                                stream_id: p.header.stream_id,
                                error_code: HTTP2ErrorCode::ProtocolError,
                            },
                        ),
                    ),
                )
            } else {
                Ok((StreamModel::HalfClosedLocal(self), Seq::empty()))
            },
            _ => match update {
                Err(e) => Err(
                    (
                        StreamModel::Closed(
                            HTTP2StreamClosed { id: self.id, end_stream_received: false, skipped: false },
                        ),
                        e,
                    ),
                ),
                Ok(()) => Ok((StreamModel::HalfClosedLocal(self), Seq::empty())),
            },
        }
    }

    pub fn handle_frame(self, frame: &Frame, state: &mut ConnectionState) -> (r: StreamResult)
        requires
            Self::handles(frame@),
        ensures
            match frame@ {
                FrameModel::WindowUpdate(wu) => {
                    let (u, w, ws) = ConnectionState::spec_update_window(
                        old(state).window_size,
                        old(state).stream_window_sizes@,
                        old(state).settings.window_size,
                        wu,
                    );
                    &&& final(state).window_size == w
                    &&& final(state).stream_window_sizes@ == ws
                    &&& result_view(r) == self.spec_handle_frame(frame@, u)
                },
                _ => {
                    &&& final(state).window_size == old(state).window_size
                    &&& final(state).stream_window_sizes@ == old(state).stream_window_sizes@
                    &&& result_view(r) == self.spec_handle_frame(frame@, Ok(()))
                },
            },
            final(state).settings == old(state).settings,
            final(state).streams@ == old(state).streams@,
            final(state).last_stream_id == old(state).last_stream_id,
            final(state).settings_sent == old(state).settings_sent,
            final(state).settings_acked == old(state).settings_acked,
            final(state).waiting_for_continuation == old(state).waiting_for_continuation,
            final(state).cache == old(state).cache,
            final(state).decoder == old(state).decoder,
            final(state).encoder == old(state).encoder,
    {
        match frame {
            Frame::Priority(p) => self.handle_priority_frame(p),
            Frame::WindowUpdate(window_update) => {
                if let Err(e) = state.update_window(window_update) {
                    return Err((self.close(false), e));
                }
                let r = Ok((HTTP2Stream::HalfClosedLocal(self), no_frames()));
                assert(result_view(r) == self.spec_handle_frame(frame@, Ok(())));
                r
            },
            _ => {
                proof {
                    assert(false);
                }
                Ok((HTTP2Stream::HalfClosedLocal(self), no_frames()))
            },
        }
    }

    fn handle_priority_frame(self, priority_frame: &PriorityFrame) -> (r: StreamResult)
        ensures
            result_view(r) == self.spec_handle_frame(FrameModel::Priority(*priority_frame), Ok(())),
    {
        let id = self.id;
        if priority_frame.stream_dependency == id {
            return Err(
                (
                    HTTP2Stream::HalfClosedLocal(self),
                    HTTP2Error::Stream(
                        StreamError {
                            stream_id: priority_frame.header.stream_id,
                            error_code: HTTP2ErrorCode::ProtocolError,
                        },
                    ),
                ),
            );
        }
        let r = Ok((HTTP2Stream::HalfClosedLocal(self), no_frames()));
        assert(result_view(r) == self.spec_handle_frame(FrameModel::Priority(*priority_frame), Ok(())));
        r
    }

    fn close(self, end_stream: bool) -> (r: HTTP2Stream)
        ensures
            r@ == StreamModel::Closed(
                HTTP2StreamClosed { id: self.id, end_stream_received: end_stream, skipped: false },
            ),
    {
        HTTP2Stream::Closed(HTTP2StreamClosed::new(self.id, end_stream))
    }
}

} // verus!
