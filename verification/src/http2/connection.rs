use vstd::prelude::*;

use crate::http2::connection_state::{
    set_window, window_of, ConnectionSettings, ConnectionState, WindowList,
};
use crate::http2::error::{HTTP2Error, HTTP2ErrorCode};
use crate::http2::frames::data_frame::{DataFrame, DataFrameFlags, DataFrameModel};
use crate::http2::frames::frame::{Frame, FrameHeader, FrameModel, FrameType};
use crate::http2::frames::go_away_frame::GoAwayFrame;
use crate::http2::frames::rst_frame::RstFrame;
use crate::http2::frames::ping_frame::{PingFrame, PingFrameFlags, PingFrameModel};
use crate::http2::frames::settings_frame::{
    SettingsFrame, SettingsFrameBuilder, SettingsFrameFlags,
};
use crate::http2::stream::http_stream::{
    frames_view, lemma_stream_keeps_id, lemma_stream_replies_encodable, no_frames, result_state,
    stream_step, HTTP2Stream, StreamModel, StreamResultModel,
};
use crate::http2::stream::stream_closed::HTTP2StreamClosed;
use crate::http2::stream::stream_idle::HTTP2StreamIdle;

verus! {

/// What a connection handler gives back, as a value: the frames to send, or an error.
pub open spec fn outcome_view(r: Result<Vec<Frame>, HTTP2Error>) -> Result<Seq<FrameModel>, HTTP2Error> {
    match r {
        Ok(fs) => Ok(frames_view(fs@)),
        Err(e) => Err(e),
    }
}

/// The answer to a PING frame: nothing to an acknowledgement; a protocol error when the frame
/// names a stream or does not carry 8 bytes; otherwise the same data back with the ACK flag.
pub open spec fn spec_ping_reply(p: PingFrameModel) -> Result<Seq<FrameModel>, HTTP2Error> {
    if p.header.flags.ack {
        Ok(Seq::empty())
    } else if p.header.stream_id != 0 || p.header.length != 8 {
        Err(HTTP2Error::Connection(HTTP2ErrorCode::ProtocolError))
    } else {
        Ok(
            seq![
                FrameModel::Ping(
                    PingFrameModel {
                        header: FrameHeader {
                            length: p.opaque_data.len() as u32,
                            frame_type: FrameType::Ping,
                            flags: PingFrameFlags { ack: true },
                            stream_id: p.header.stream_id,
                        },
                        opaque_data: p.opaque_data,
                    },
                ),
            ],
        )
    }
}

/// Answers a PING frame (see `spec_ping_reply`).
pub fn handle_ping_frame(ping_frame: PingFrame) -> (r: Result<Vec<Frame>, HTTP2Error>)
    ensures
        outcome_view(r) == spec_ping_reply(ping_frame@),
{
    if ping_frame.header.flags.ack {
        Ok(no_frames())
    } else if ping_frame.header.stream_id != 0 || ping_frame.header.length != 8 {
        Err(HTTP2Error::Connection(HTTP2ErrorCode::ProtocolError))
    } else {
        let ghost p = ping_frame@;
        let ack = PingFrame::ack(ping_frame);
        let mut v: Vec<Frame> = Vec::new();
        v.push(Frame::Ping(ack));
        proof {
            assert(frames_view(v@) =~= spec_ping_reply(p)->Ok_0);
        }
        Ok(v)
    }
}

/// The SETTINGS frame that the server sends once: no server push, a header table of 4096
/// bytes, an initial window of 65535 and the given largest frame.
pub open spec fn our_settings(max_frame_size: u32) -> SettingsFrame {
    SettingsFrame {
        header: FrameHeader {
            length: 24,
            frame_type: FrameType::Settings,
            flags: SettingsFrameFlags { ack: false },
            stream_id: 0,
        },
        header_table_size: Some(4096),
        enable_push: Some(false),
        max_concurrent_streams: None,
        initial_window_size: Some(65535),
        max_frame_size: Some(max_frame_size),
        max_header_list_size: None,
    }
}

/// The acknowledgement of the peer's SETTINGS.
pub open spec fn settings_ack() -> SettingsFrame {
    SettingsFrame::empty(
        FrameHeader {
            length: 0,
            frame_type: FrameType::Settings,
            flags: SettingsFrameFlags { ack: true },
            stream_id: 0,
        },
    )
}

/// The frames that answer the peer's SETTINGS: ours first if not yet sent, then the
/// acknowledgement.
pub open spec fn settings_reply(settings_sent: bool, max_frame_size: u32) -> Seq<FrameModel> {
    if settings_sent {
        seq![FrameModel::Settings(settings_ack())]
    } else {
        seq![
            FrameModel::Settings(our_settings(max_frame_size)),
            FrameModel::Settings(settings_ack()),
        ]
    }
}

/// Every window moved by `delta`.
pub open spec fn shifted_windows(ws: WindowList, delta: int) -> WindowList {
    ws.map_values(|p: (u32, i32)| (p.0, (p.1 + delta) as i32))
}

/// The inputs on which applying the peer's SETTINGS stays in range: the change of the initial
/// window, and each stream window moved by it, fit in an `i32`.
pub open spec fn settings_defined(state: &ConnectionState, f: SettingsFrame) -> bool {
    f.header.stream_id == 0 && !f.header.flags.ack ==> match f.initial_window_size {
        Some(v) => {
            let delta = (v as i32) - state.settings.window_size;
            &&& i32::MIN <= delta <= i32::MAX
            &&& forall|i: int|
                0 <= i < state.stream_window_sizes@.len() ==> i32::MIN <= #[trigger] state.stream_window_sizes@[i].1
                    + delta <= i32::MAX
        },
        None => true,
    }
}

/// What a SETTINGS frame does to the connection: on a stream it is a protocol error; an
/// acknowledgement marks ours acknowledged (and is a frame size error when it has a payload);
/// otherwise the initial window (moving every stream window by its change) and the largest frame
/// are taken over, and the reply is `settings_reply`, after which our settings count as sent and
/// not yet acknowledged.
pub open spec fn settings_handled(
    before: &ConnectionState,
    f: SettingsFrame,
    after: &ConnectionState,
    r: Result<Seq<FrameModel>, HTTP2Error>,
) -> bool {
    if f.header.stream_id != 0 {
        &&& *after == *before
        &&& r == Err::<Seq<FrameModel>, HTTP2Error>(
            HTTP2Error::Connection(HTTP2ErrorCode::ProtocolError),
        )
    } else if f.header.flags.ack {
        &&& *after == (ConnectionState { settings_acked: true, ..*before })
        &&& r == if f.header.length != 0 {
            Err(HTTP2Error::Connection(HTTP2ErrorCode::FrameSizeError))
        } else {
            Ok(Seq::<FrameModel>::empty())
        }
    } else {
        let window = match f.initial_window_size {
            Some(v) => v as i32,
            None => before.settings.window_size,
        };
        let max = match f.max_frame_size {
            Some(m) => m,
            None => before.settings.max_frame_size,
        };
        &&& after.settings == (ConnectionSettings { window_size: window, max_frame_size: max })
        &&& after.stream_window_sizes@ == match f.initial_window_size {
            Some(v) => shifted_windows(
                before.stream_window_sizes@,
                (v as i32) - before.settings.window_size,
            ),
            None => before.stream_window_sizes@,
        }
        &&& after.settings_sent
        &&& !after.settings_acked
        &&& after.decoder == before.decoder
        &&& after.encoder == before.encoder
        &&& after.streams@ == before.streams@
        &&& after.last_stream_id == before.last_stream_id
        &&& after.waiting_for_continuation == before.waiting_for_continuation
        &&& after.window_size == before.window_size
        &&& after.cache == before.cache
        &&& r == Ok::<Seq<FrameModel>, HTTP2Error>(settings_reply(before.settings_sent, max))
    }
}

/// Applies the peer's SETTINGS frame (see `settings_handled`).
pub fn handle_settings_frame(settings_frame: &SettingsFrame, state: &mut ConnectionState) -> (r:
    Result<Vec<Frame>, HTTP2Error>)
    requires
        settings_defined(old(state), *settings_frame),
    ensures
        settings_handled(old(state), *settings_frame, final(state), outcome_view(r)),
{
    if settings_frame.header.stream_id != 0 {
        return Err(HTTP2Error::Connection(HTTP2ErrorCode::ProtocolError));
    }
    if settings_frame.header.flags.ack {
        state.settings_acked = true;
        return if settings_frame.header.length != 0 {
            Err(HTTP2Error::Connection(HTTP2ErrorCode::FrameSizeError))
        } else {
            Ok(no_frames())
        };
    }
    let ghost windows = state.stream_window_sizes@;
    if let Some(initial_window_size) = settings_frame.initial_window_size {
        let initial_window_size: i32 = initial_window_size as i32;
        let delta: i32 = initial_window_size - state.settings.window_size;
        state.settings.window_size = initial_window_size;
        state.stream_window_sizes.add_to_all(delta);
        proof {
            assert(state.stream_window_sizes@ =~= shifted_windows(windows, delta as int));
        }
    }
    if let Some(max_frame_size) = settings_frame.max_frame_size {
        state.settings.max_frame_size = max_frame_size;
    }
    let mut ret: Vec<Frame> = Vec::new();
    let ghost sent = state.settings_sent;
    if !state.settings_sent {
        let my_settings = SettingsFrameBuilder::new().enable_push(false).header_table_size(
            4096,
        ).initial_window_size(65535).max_frame_size(state.settings.max_frame_size).build();
        ret.push(Frame::Settings(my_settings));
        state.settings_sent = true;
    }
    ret.push(Frame::Settings(SettingsFrame::new_ack(0)));
    state.settings_acked = false;
    proof {
        assert(frames_view(ret@) =~= settings_reply(sent, state.settings.max_frame_size));
    }
    Ok(ret)
}

/// The streams of a connection, as values.
pub open spec fn streams_view(state: &ConnectionState) -> Seq<StreamModel> {
    state.streams@.map_values(|s: HTTP2Stream| s@)
}

/// The stream skipped at index `i`: closed, as if the peer had ended it.
pub open spec fn skipped_stream(i: int) -> StreamModel {
    StreamModel::Closed(
        HTTP2StreamClosed { id: (i * 2 + 1) as u32, end_stream_received: true, skipped: true },
    )
}

/// The streams once the peer opens stream `id` past the end: the streams in between are closed
/// and skipped, and the new one is idle at index `id / 2`.
pub open spec fn opened_streams(streams: Seq<StreamModel>, id: u32) -> Seq<StreamModel> {
    streams + Seq::new(
        (id / 2 - streams.len()) as nat,
        |i: int| skipped_stream(streams.len() + i),
    ) + seq![StreamModel::Idle(HTTP2StreamIdle { id })]
}

/// While a header block waits for CONTINUATION frames, any other frame, or one on another
/// stream, breaks the connection.
pub open spec fn breaks_continuation(waiting: Option<u32>, frame: FrameModel) -> bool {
    waiting matches Some(w) && (w != frame.stream_id() || !(frame is Continuation))
}

/// A WINDOW_UPDATE that the connection handles itself: one on stream 0, or one with an
/// increment of 0.
pub open spec fn connection_window_update(frame: FrameModel) -> bool {
    frame matches FrameModel::WindowUpdate(wu) && (wu.window_size_increment == 0
        || wu.header.stream_id == 0)
}

/// The peer cannot open stream `id` past the end of `streams`: it is even, or not above the
/// last stream opened.
pub open spec fn bad_new_stream(id: u32, last_stream_id: u32) -> bool {
    id % 2 == 0 || id <= last_stream_id
}

/// The stream at `id / 2` is one that the peer skipped.
pub open spec fn is_skipped_at(streams: Seq<StreamModel>, id: u32) -> bool {
    streams[(id / 2) as int] matches StreamModel::Closed(c) && c.skipped
}

/// The frame is larger than the largest frame that the peer may send.
pub open spec fn too_large(full_frame_length: usize, max_frame_size: u32) -> bool {
    full_frame_length - 9 > max_frame_size
}

/// Where the connection hands a frame to a stream, after the stream is there: `streams` and
/// `last` are the streams and the last stream id by then. A frame larger than the largest
/// frame allowed is a protocol error and leaves the rest as it was; otherwise only the frame's
/// stream, the windows and the header codec change, as `stream_step` says of that stream.
pub open spec fn stream_dispatched(
    before: &ConnectionState,
    streams: Seq<StreamModel>,
    last: u32,
    full_frame_length: usize,
    frame: FrameModel,
    after: &ConnectionState,
    r: Result<Seq<FrameModel>, HTTP2Error>,
) -> bool {
    let idx = (frame.stream_id() / 2) as int;
    &&& after.settings == before.settings
    &&& after.settings_acked == before.settings_acked
    &&& after.settings_sent == before.settings_sent
    &&& after.waiting_for_continuation == before.waiting_for_continuation
    &&& after.cache == before.cache
    &&& after.last_stream_id == last
    &&& streams_view(after).len() == streams.len()
    &&& if too_large(full_frame_length, before.settings.max_frame_size) {
        &&& streams_view(after) == streams
        &&& after.window_size == before.window_size
        &&& after.stream_window_sizes@ == before.stream_window_sizes@
        &&& after.decoder == before.decoder
        &&& after.encoder == before.encoder
        &&& r == Err::<Seq<FrameModel>, HTTP2Error>(
            HTTP2Error::Connection(HTTP2ErrorCode::ProtocolError),
        )
    } else {
        let next = streams_view(after)[idx];
        &&& streams_view(after) == streams.update(idx, next)
        &&& stream_step(
            streams[idx],
            frame,
            before.settings.window_size,
            before.cache@,
            (before.window_size, before.stream_window_sizes@, before.decoder@, before.encoder@),
            (after.window_size, after.stream_window_sizes@, after.decoder@, after.encoder@),
            match r {
                Ok(fs) => Ok((next, fs)),
                Err(e) => Err((next, e)),
            },
        )
    }
}

/// What the connection does with a frame other than PUSH_PROMISE, SETTINGS and PING: a frame
/// that breaks a header block is a protocol error; a WINDOW_UPDATE of the connection (or with a
/// zero increment) goes to `spec_update_window`; a frame for a stream that the peer skipped is a
/// stream-closed error; a frame that would open an even stream, or one not above the last, is a
/// protocol error; a frame for a new stream opens it (see `opened_streams`) and becomes the last
/// stream; then the frame goes to its stream (see `stream_dispatched`).
pub open spec fn stream_frame_handled(
    before: &ConnectionState,
    full_frame_length: usize,
    frame: FrameModel,
    after: &ConnectionState,
    r: Result<Seq<FrameModel>, HTTP2Error>,
) -> bool {
    let id = frame.stream_id();
    let streams = streams_view(before);
    if breaks_continuation(before.waiting_for_continuation, frame) {
        &&& *after == *before
        &&& r == Err::<Seq<FrameModel>, HTTP2Error>(
            HTTP2Error::Connection(HTTP2ErrorCode::ProtocolError),
        )
    } else if connection_window_update(frame) {
        let (u, w, ws) = ConnectionState::spec_update_window(
            before.window_size,
            before.stream_window_sizes@,
            before.settings.window_size,
            frame->WindowUpdate_0,
        );
        &&& after.window_size == w
        &&& after.stream_window_sizes@ == ws
        &&& after.settings == before.settings
        &&& after.settings_acked == before.settings_acked
        &&& after.settings_sent == before.settings_sent
        &&& after.streams@ == before.streams@
        &&& after.last_stream_id == before.last_stream_id
        &&& after.waiting_for_continuation == before.waiting_for_continuation
        &&& after.decoder == before.decoder
        &&& after.encoder == before.encoder
        &&& after.cache == before.cache
        &&& r == match u {
            Ok(_) => Ok(Seq::<FrameModel>::empty()),
            Err(e) => Err(e),
        }
    } else if (id / 2) < streams.len() {
        if is_skipped_at(streams, id) {
            &&& *after == *before
            &&& r == Err::<Seq<FrameModel>, HTTP2Error>(
                HTTP2Error::Connection(HTTP2ErrorCode::StreamClosed),
            )
        } else {
            stream_dispatched(
                before,
                streams,
                before.last_stream_id,
                full_frame_length,
                frame,
                after,
                r,
            )
        }
    } else if bad_new_stream(id, before.last_stream_id) {
        &&& *after == *before
        &&& r == Err::<Seq<FrameModel>, HTTP2Error>(
            HTTP2Error::Connection(HTTP2ErrorCode::ProtocolError),
        )
    } else {
        stream_dispatched(before, opened_streams(streams, id), id, full_frame_length, frame, after, r)
    }
}

/// What the connection does with a frame: PUSH_PROMISE from a client is a protocol error;
/// SETTINGS and PING are answered by the connection; other frames go to their stream.
pub open spec fn frame_handled(
    before: &ConnectionState,
    full_frame_length: usize,
    frame: FrameModel,
    after: &ConnectionState,
    r: Result<Seq<FrameModel>, HTTP2Error>,
) -> bool {
    match frame {
        FrameModel::PushPromise(_) => {
            &&& *after == *before
            &&& r == Err::<Seq<FrameModel>, HTTP2Error>(
                HTTP2Error::Connection(HTTP2ErrorCode::ProtocolError),
            )
        },
        FrameModel::Settings(f) => settings_handled(before, f, after, r),
        FrameModel::Ping(p) => {
            &&& *after == *before
            &&& r == spec_ping_reply(p)
        },
        _ => stream_frame_handled(before, full_frame_length, frame, after, r),
    }
}

/// The inputs on which handling a frame is defined: SETTINGS must stay in range (see
/// `settings_defined`); a frame that reaches a stream must carry its 9-byte header in
/// `full_frame_length`, and, when not too large, be one that the stream's state handles.
pub open spec fn handle_frame_defined(
    state: &ConnectionState,
    full_frame_length: usize,
    frame: FrameModel,
) -> bool {
    let id = frame.stream_id();
    let streams = streams_view(state);
    let dispatch_ok = |s: StreamModel|
        full_frame_length >= 9 && (too_large(full_frame_length, state.settings.max_frame_size)
            || s.handles(frame));
    match frame {
        FrameModel::PushPromise(_) => true,
        FrameModel::Ping(_) => true,
        FrameModel::Settings(f) => settings_defined(state, f),
        _ => {
            if breaks_continuation(state.waiting_for_continuation, frame)
                || connection_window_update(frame) {
                true
            } else if (id / 2) < streams.len() {
                is_skipped_at(streams, id) || dispatch_ok(streams[(id / 2) as int])
            } else {
                bad_new_stream(id, state.last_stream_id) || dispatch_ok(
                    StreamModel::Idle(HTTP2StreamIdle { id }),
                )
            }
        },
    }
}

/// Handles a frame from the peer (see `frame_handled`).
pub fn handle_frame(state: &mut ConnectionState, full_frame_length: usize, frame: Frame) -> (r:
    Result<Vec<Frame>, HTTP2Error>)
    requires
        handle_frame_defined(old(state), full_frame_length, frame@),
    ensures
        frame_handled(old(state), full_frame_length, frame@, final(state), outcome_view(r)),
{
    match frame {
        Frame::PushPromise(_) => Err(HTTP2Error::Connection(HTTP2ErrorCode::ProtocolError)),
        Frame::Settings(settings_frame) => handle_settings_frame(&settings_frame, state),
        Frame::Ping(ping_frame) => handle_ping_frame(ping_frame),
        frame => dispatch_frame(state, full_frame_length, frame),
    }
}

/// Hands a frame to its stream, opening the stream first when it is new (see
/// `stream_frame_handled`).
fn dispatch_frame(state: &mut ConnectionState, full_frame_length: usize, frame: Frame) -> (r:
    Result<Vec<Frame>, HTTP2Error>)
    requires
        !(frame@ is PushPromise || frame@ is Settings || frame@ is Ping),
        handle_frame_defined(old(state), full_frame_length, frame@),
    ensures
        stream_frame_handled(old(state), full_frame_length, frame@, final(state), outcome_view(r)),
{
    let stream_id: u32 = frame.get_stream_id();
    if let Some(waiting_id) = state.waiting_for_continuation {
        if waiting_id != stream_id || !matches!(frame, Frame::Continuation(_)) {
            return Err(HTTP2Error::Connection(HTTP2ErrorCode::ProtocolError));
        }
    }
    if let Frame::WindowUpdate(window_update) = &frame {
        if window_update.window_size_increment == 0 || window_update.header.stream_id == 0 {
            return match state.update_window(window_update) {
                Ok(()) => Ok(no_frames()),
                Err(e) => Err(e),
            };
        }
    }
    let idx: usize = (stream_id / 2) as usize;
    let ghost streams0 = streams_view(state);
    if idx < state.streams.len() {
        if state.streams[idx].is_skipped() {
            return Err(HTTP2Error::Connection(HTTP2ErrorCode::StreamClosed));
        }
    } else {
        if stream_id % 2 == 0 || stream_id <= state.last_stream_id {
            return Err(HTTP2Error::Connection(HTTP2ErrorCode::ProtocolError));
        }
        state.last_stream_id = stream_id;
        let mut streams: Vec<HTTP2Stream> = Vec::new();
        std::mem::swap(&mut streams, &mut state.streams);
        while streams.len() < idx
            invariant
                idx == stream_id / 2,
                streams0.len() <= streams@.len() <= idx,
                streams@.map_values(|s: HTTP2Stream| s@) == streams0 + Seq::new(
                    (streams@.len() - streams0.len()) as nat,
                    |i: int| skipped_stream(streams0.len() + i),
                ),
            decreases idx - streams@.len(),
        {
            let n: usize = streams.len();
            let ghost before = streams@;
            streams.push(
                HTTP2Stream::Closed(
                    HTTP2StreamClosed { id: n as u32 * 2 + 1, end_stream_received: true, skipped: true },
                ),
            );
            proof {
                let target = streams0 + Seq::new(
                    (streams@.len() - streams0.len()) as nat,
                    |i: int| skipped_stream(streams0.len() + i),
                );
                let prev = streams0 + Seq::new(
                    (before.len() - streams0.len()) as nat,
                    |i: int| skipped_stream(streams0.len() + i),
                );
                let now = streams@.map_values(|s: HTTP2Stream| s@);
                assert(now.len() == target.len());
                assert forall|k: int| 0 <= k < now.len() implies now[k] == target[k] by {
                    if k < n {
                        assert(now[k] == before.map_values(|s: HTTP2Stream| s@)[k]);
                        assert(target[k] == prev[k]);
                    } else {
                        assert(k == n);
                        assert(now[k] == skipped_stream(n as int));
                    }
                }
                assert(now =~= target);
            }
        }
        streams.push(HTTP2Stream::new(stream_id));
        state.streams = streams;
        proof {
            assert(streams_view(state) =~= opened_streams(streams0, stream_id));
        }
    }
    if full_frame_length - 9 > state.settings.max_frame_size as usize {
        return Err(HTTP2Error::Connection(HTTP2ErrorCode::ProtocolError));
    }
    let ghost streams1 = state.streams@;
    let stream = state.streams.remove(idx);
    proof {
        assert(stream@ == streams1.map_values(|s: HTTP2Stream| s@)[idx as int]);
    }
    let r = stream.handle_frame(frame, state);
    match r {
        Ok((next, frames)) => {
            state.streams.insert(idx, next);
            proof {
                assert(streams_view(state) =~= streams1.map_values(|s: HTTP2Stream| s@).update(
                    idx as int,
                    streams_view(state)[idx as int],
                ));
            }
            Ok(frames)
        },
        Err((next, e)) => {
            state.streams.insert(idx, next);
            proof {
                assert(streams_view(state) =~= streams1.map_values(|s: HTTP2Stream| s@).update(
                    idx as int,
                    streams_view(state)[idx as int],
                ));
            }
            Err(e)
        },
    }
}

/// What to do with a DATA frame that waits to be sent.
#[derive(Debug)]
pub enum DataStep {
    /// No window is open: the frame waits, unchanged.
    Blocked(DataFrame),
    /// Send `bytes`; `rest`, if any, holds the data that did not fit, to be sent later.
    Send { bytes: Vec<u8>, rest: Option<DataFrame> },
}

/// A stream's window, and the windows once a stream without one has been given the initial
/// window.
pub open spec fn window_or_initial(ws: WindowList, id: u32, initial: i32) -> (i32, WindowList) {
    match window_of(ws, id) {
        Some(w) => (w, ws),
        None => (initial, ws.push((id, initial))),
    }
}

/// How much may be sent now: the least of the connection's window, the stream's window and
/// the largest frame allowed (taken as an `i32`).
pub open spec fn available_window(connection: i32, stream: i32, max_frame_size: u32) -> int {
    let m = max_frame_size as i32;
    let a = if connection < stream {
        connection
    } else {
        stream
    };
    if a < m {
        a as int
    } else {
        m as int
    }
}

/// How much of the frame's data goes out now, when the window is open.
pub open spec fn chunk_of(state: &ConnectionState, f: DataFrameModel) -> int {
    let id = f.header.stream_id;
    let (w, _) = window_or_initial(state.stream_window_sizes@, id, state.settings.window_size);
    let avail = available_window(state.window_size, w, state.settings.max_frame_size);
    if f.data.len() < avail {
        f.data.len() as int
    } else {
        avail
    }
}

/// A DATA frame of `data` on a stream, unpadded.
pub open spec fn plain_data_frame(id: u32, data: Seq<u8>, end_stream: bool) -> DataFrameModel {
    DataFrameModel {
        header: FrameHeader {
            length: data.len() as u32,
            frame_type: FrameType::Data,
            flags: DataFrameFlags { padding: false, end_stream },
            stream_id: id,
        },
        pad_length: 0,
        data,
    }
}

/// The inputs on which sending a DATA frame is defined: when the last of a frame that ends its
/// stream goes out, the stream is there.
pub open spec fn flush_defined(state: &ConnectionState, f: DataFrameModel) -> bool {
    let id = f.header.stream_id;
    let (w, _) = window_or_initial(state.stream_window_sizes@, id, state.settings.window_size);
    let avail = available_window(state.window_size, w, state.settings.max_frame_size);
    (avail > 0 && chunk_of(state, f) == f.data.len() && f.header.flags.end_stream) ==> (id / 2)
        < state.streams@.len()
}

/// Whether sending a DATA frame is defined (see `flush_defined`).
pub fn can_flush(state: &ConnectionState, data_frame: &DataFrame) -> (r: bool)
    ensures
        r == flush_defined(state, data_frame@),
{
    let id: u32 = data_frame.header.stream_id;
    let stream_window: i32 = match state.stream_window_sizes.get(id) {
        Some(w) => w,
        None => state.settings.window_size,
    };
    let max: i32 = state.settings.max_frame_size as i32;
    let mut available: i32 = if state.window_size < stream_window {
        state.window_size
    } else {
        stream_window
    };
    if max < available {
        available = max;
    }
    if available <= 0 || !data_frame.header.flags.end_stream {
        return true;
    }
    let whole = data_frame.data.len() <= available as usize;
    !whole || ((id / 2) as usize) < state.streams.len()
}

/// What sending a piece of a DATA frame does (see `flush_data_frame`).
pub open spec fn flush_step(
    before: &ConnectionState,
    frame: DataFrameModel,
    after: &ConnectionState,
    r: DataStep,
) -> bool {
    let f = frame;
    let id = f.header.stream_id;
    let (w, ws) = window_or_initial(
        before.stream_window_sizes@,
        id,
        before.settings.window_size,
    );
    let avail = available_window(
        before.window_size,
        w,
        before.settings.max_frame_size,
    );
    let chunk = chunk_of(before, f);
    let end_stream = chunk == f.data.len() && f.header.flags.end_stream;
    &&& after.settings == before.settings
    &&& after.settings_acked == before.settings_acked
    &&& after.settings_sent == before.settings_sent
    &&& after.last_stream_id == before.last_stream_id
    &&& after.waiting_for_continuation == before.waiting_for_continuation
    &&& after.decoder == before.decoder
    &&& after.encoder == before.encoder
    &&& after.cache == before.cache
    &&& streams_at_their_index(streams_view(before)) ==> streams_at_their_index(
        streams_view(after),
    )
    &&& if avail <= 0 {
        &&& r matches DataStep::Blocked(b) && b@ == f
        &&& after.window_size == before.window_size
        &&& after.stream_window_sizes@ == ws
        &&& after.streams@ == before.streams@
    } else {
        &&& r matches DataStep::Send { bytes, rest } && bytes@ == plain_data_frame(
            id,
            f.data.take(chunk),
            end_stream,
        ).spec_encode() && if chunk < f.data.len() {
            rest matches Some(g) && g@ == plain_data_frame(
                id,
                f.data.skip(chunk),
                f.header.flags.end_stream,
            )
        } else {
            rest is None
        }
        &&& after.window_size == before.window_size - chunk
        &&& after.stream_window_sizes@ == set_window(ws, id, (w - chunk) as i32)
        &&& 0 <= chunk <= before.settings.max_frame_size
        &&& after.window_size >= 0
        &&& window_of(after.stream_window_sizes@, id) == Some((w - chunk) as i32)
        &&& w - chunk >= 0
        &&& streams_view(after) == if end_stream {
            streams_view(before).update(
                (id / 2) as int,
                streams_view(before)[(id / 2) as int].spec_server_sent_es(),
            )
        } else {
            streams_view(before)
        }
    }
}

/// Takes the next piece of a DATA frame that flow control lets out. A stream without a window
/// is given the initial window first. When the least of the connection's window, the stream's
/// window and the largest frame is not positive, the frame is blocked. Otherwise as much of the
/// data as that allows goes out in an unpadded frame, which ends the stream when it carries the
/// last of a frame that does (the stream then records that the server ended it); the data sent
/// comes off both windows, and what is left stays in a frame of its own with the same end flag.
pub fn flush_data_frame(state: &mut ConnectionState, data_frame: DataFrame) -> (r: DataStep)
    requires
        flush_defined(old(state), data_frame@),
    ensures
        flush_step(old(state), data_frame@, final(state), r),
{
    let id: u32 = data_frame.header.stream_id;
    let stream_window: i32 = state.stream_window_sizes.get_or_insert(id, state.settings.window_size);
    let max: i32 = state.settings.max_frame_size as i32;
    proof {
        let m = state.settings.max_frame_size;
        assert((m as i32) > 0 ==> (m as i32) as int == m as int) by (bit_vector);
    }
    let mut available: i32 = if state.window_size < stream_window {
        state.window_size
    } else {
        stream_window
    };
    if max < available {
        available = max;
    }
    if available <= 0 {
        return DataStep::Blocked(data_frame);
    }
    let end_stream = data_frame.header.flags.end_stream;
    let mut data = data_frame.data;
    let ghost all = data@;
    let chunk_size: usize = if data.len() < available as usize {
        data.len()
    } else {
        available as usize
    };
    let remaining = data.split_off(chunk_size);
    let send_end_stream = remaining.len() == 0 && end_stream;
    let df = DataFrame::new(id, data, send_end_stream);
    if send_end_stream {
        let idx: usize = (id / 2) as usize;
        let ghost streams0 = state.streams@;
        let stream = state.streams.remove(idx);
        state.streams.insert(idx, stream.server_sent_es());
        proof {
            assert(streams_view(state) =~= streams0.map_values(|s: HTTP2Stream| s@).update(
                idx as int,
                streams0.map_values(|s: HTTP2Stream| s@)[idx as int].spec_server_sent_es(),
            ));
        }
    }
    proof {
        let before = streams_view(old(state));
        let now = streams_view(state);
        if streams_at_their_index(before) {
            assert forall|i: int| 0 <= i < now.len() implies (#[trigger] now[i]).id() == Some(
                (2 * i + 1) as u32,
            ) by {
                assert(before[i].id() == Some((2 * i + 1) as u32));
            }
        }
    }
    let bytes = df.to_bytes();
    state.sent_data(id, chunk_size as i32);
    let rest = if remaining.len() > 0 {
        Some(DataFrame::new(id, remaining, end_stream))
    } else {
        None
    };
    proof {
        assert(df@ == plain_data_frame(id, all.take(chunk_size as int), send_end_stream));
    }
    DataStep::Send { bytes, rest }
}

/// Whether applying the peer's SETTINGS stays in range (see `settings_defined`).
pub fn settings_in_range(state: &ConnectionState, f: &SettingsFrame) -> (r: bool)
    ensures
        r == settings_defined(state, *f),
{
    if f.header.stream_id != 0 || f.header.flags.ack {
        return true;
    }
    match f.initial_window_size {
        Some(v) => {
            let delta: i64 = (v as i32) as i64 - state.settings.window_size as i64;
            if delta < i32::MIN as i64 || delta > i32::MAX as i64 {
                return false;
            }
            state.stream_window_sizes.shift_fits(delta)
        },
        None => true,
    }
}

/// Whether handling a frame is defined (see `handle_frame_defined`).
pub fn can_handle(state: &ConnectionState, full_frame_length: usize, frame: &Frame) -> (r: bool)
    ensures
        r == handle_frame_defined(state, full_frame_length, frame@),
{
    match frame {
        Frame::PushPromise(_) => true,
        Frame::Ping(_) => true,
        Frame::Settings(f) => settings_in_range(state, f),
        _ => {
            let id: u32 = frame.get_stream_id();
            let breaks = match state.waiting_for_continuation {
                Some(w) => w != id || !matches!(frame, Frame::Continuation(_)),
                None => false,
            };
            let own_update = match frame {
                Frame::WindowUpdate(wu) => wu.window_size_increment == 0 || wu.header.stream_id
                    == 0,
                _ => false,
            };
            if breaks || own_update {
                return true;
            }
            let idx: usize = (id / 2) as usize;
            let sized = full_frame_length >= 9;
            let large = sized && full_frame_length - 9 > state.settings.max_frame_size as usize;
            if idx < state.streams.len() {
                state.streams[idx].is_skipped() || (sized && (large || state.streams[idx].handles(
                    frame,
                )))
            } else {
                id % 2 == 0 || id <= state.last_stream_id || (sized && (large || HTTP2Stream::new(
                    id,
                ).handles(frame)))
            }
        },
    }
}

/// The inputs on which receiving a frame's bytes is defined: the bytes can be read, and the
/// frame that they hold can be handled.
pub open spec fn receive_defined(state: &ConnectionState, buf: Seq<u8>) -> bool {
    &&& Frame::parse_defined(buf)
    &&& Frame::spec_parse(buf) matches Ok(m) ==> handle_frame_defined(state, buf.len() as usize, m)
}

/// Reads a whole frame from its bytes and handles it (see `frame_handled`). A frame that cannot
/// be read gives its error, except that while a header block waits for CONTINUATION frames it
/// is a protocol error of the connection.
pub fn receive_frame(state: &mut ConnectionState, buf: &[u8]) -> (r: Result<Vec<Frame>, HTTP2Error>)
    requires
        receive_defined(old(state), buf@),
    ensures
        match Frame::spec_parse(buf@) {
            Ok(m) => frame_handled(old(state), buf@.len() as usize, m, final(state), outcome_view(r)),
            Err(e) => {
                &&& *final(state) == *old(state)
                &&& r == Err::<Vec<Frame>, HTTP2Error>(
                    if old(state).waiting_for_continuation is Some {
                        HTTP2Error::Connection(HTTP2ErrorCode::ProtocolError)
                    } else {
                        e
                    },
                )
            },
        },
{
    match Frame::parse(buf) {
        Ok(frame) => handle_frame(state, buf.len(), frame),
        Err(e) => {
            if state.waiting_for_continuation.is_some() {
                Err(HTTP2Error::Connection(HTTP2ErrorCode::ProtocolError))
            } else {
                Err(e)
            }
        },
    }
}

/// Whether receiving a frame's bytes is defined (see `receive_defined`).
pub fn can_receive(state: &ConnectionState, buf: &[u8]) -> (r: bool)
    ensures
        r == receive_defined(state, buf@),
{
    if !Frame::can_parse(buf) {
        return false;
    }
    match Frame::parse(buf) {
        Ok(frame) => can_handle(state, buf.len(), &frame),
        Err(_) => true,
    }
}

/// How the server answers an error.
#[derive(Debug)]
pub enum ErrorReply {
    /// Nothing: the frame is discarded.
    Ignore,
    /// Send these bytes (a GOAWAY frame) and close the connection.
    Close(Vec<u8>),
    /// Send these bytes (a RST_STREAM frame) and go on.
    Reset(Vec<u8>),
}

/// The answer to an error: `Connection(NoError)` is ignored; another connection error closes
/// the connection with a GOAWAY that carries its code (last stream 0, no debug data); a stream
/// error resets the stream with a RST_STREAM that carries its code.
pub fn error_reply(e: HTTP2Error) -> (r: ErrorReply)
    ensures
        match e {
            HTTP2Error::Connection(HTTP2ErrorCode::NoError) => r is Ignore,
            HTTP2Error::Connection(c) => r matches ErrorReply::Close(b) && b@ == FrameHeader {
                length: 8,
                frame_type: FrameType::GoAway,
                flags: crate::http2::frames::go_away_frame::GoAwayFrameFlags {  },
                stream_id: 0,
            }.spec_encode() + crate::bytes::be32_bytes(0) + crate::bytes::be32_bytes(
                c.spec_code(),
            ),
            HTTP2Error::Stream(se) => r matches ErrorReply::Reset(b) && b@ == RstFrame {
                header: FrameHeader {
                    length: 4,
                    frame_type: FrameType::RstStream,
                    flags: 0,
                    stream_id: se.stream_id,
                },
                error_code: se.error_code.spec_code(),
            }.spec_encode(),
        },
{
    match e {
        HTTP2Error::Connection(HTTP2ErrorCode::NoError) => ErrorReply::Ignore,
        HTTP2Error::Connection(c) => {
            let go_away = GoAwayFrame::from_error_code(c);
            let bytes = go_away.to_bytes();
            proof {
                assert(bytes@ =~= go_away.header.spec_encode() + crate::bytes::be32_bytes(0)
                    + crate::bytes::be32_bytes(c.spec_code()));
            }
            ErrorReply::Close(bytes)
        },
        HTTP2Error::Stream(se) => ErrorReply::Reset(RstFrame::from_stream_error(se).to_bytes()),
    }
}

/// A frame changes the state of no stream but its own, forgets no stream, and never lowers the
/// last stream id: after any frame is handled, the streams that were there are still there,
/// and each of them but the one at the frame's index is as it was.
pub proof fn lemma_frame_touches_own_stream(
    before: &ConnectionState,
    full_frame_length: usize,
    frame: FrameModel,
    after: &ConnectionState,
    r: Result<Seq<FrameModel>, HTTP2Error>,
)
    requires
        frame_handled(before, full_frame_length, frame, after, r),
    ensures
        after.last_stream_id >= before.last_stream_id,
        streams_view(after).len() >= streams_view(before).len(),
        forall|i: int|
            0 <= i < streams_view(before).len() && i != frame.stream_id() / 2 ==> #[trigger] streams_view(after)[i]
                == streams_view(before)[i],
{
    let id = frame.stream_id();
    let streams = streams_view(before);
    match frame {
        FrameModel::PushPromise(_) => {},
        FrameModel::Ping(_) => {},
        FrameModel::Settings(f) => {
            if f.header.stream_id != 0 || f.header.flags.ack {
            } else {
                assert(streams_view(after) =~= streams);
            }
        },
        _ => {
            if breaks_continuation(before.waiting_for_continuation, frame) {
            } else if connection_window_update(frame) {
                assert(streams_view(after) =~= streams);
            } else if (id / 2) < streams.len() {
            } else if bad_new_stream(id, before.last_stream_id) {
            } else {
                let opened = opened_streams(streams, id);
                assert forall|i: int| 0 <= i < streams.len() implies opened[i] == streams[i] by {}
            }
        },
    }
}

/// Every stream sits at the index that its id gives: stream `2i + 1` at index `i`.
pub open spec fn streams_at_their_index(streams: Seq<StreamModel>) -> bool {
    forall|i: int| 0 <= i < streams.len() ==> (#[trigger] streams[i]).id() == Some((2 * i + 1) as u32)
}

/// Handling a frame keeps every stream at the index that its id gives, so that the stream of a
/// frame is always found at index `id / 2`.
pub proof fn lemma_streams_stay_at_their_index(
    before: &ConnectionState,
    full_frame_length: usize,
    frame: FrameModel,
    after: &ConnectionState,
    r: Result<Seq<FrameModel>, HTTP2Error>,
)
    requires
        frame_handled(before, full_frame_length, frame, after, r),
        streams_at_their_index(streams_view(before)),
    ensures
        streams_at_their_index(streams_view(after)),
{
    let id = frame.stream_id();
    let streams = streams_view(before);
    match frame {
        FrameModel::PushPromise(_) => {},
        FrameModel::Ping(_) => {},
        FrameModel::Settings(f) => {
            if f.header.stream_id != 0 || f.header.flags.ack {
            } else {
                assert(streams_view(after) =~= streams);
            }
        },
        _ => {
            if breaks_continuation(before.waiting_for_continuation, frame) {
            } else if connection_window_update(frame) {
                assert(streams_view(after) =~= streams);
            } else if (id / 2) < streams.len() {
                if !is_skipped_at(streams, id) {
                    lemma_dispatch_keeps_index(before, streams, before.last_stream_id, full_frame_length, frame, after, r);
                }
            } else if bad_new_stream(id, before.last_stream_id) {
            } else {
                let opened = opened_streams(streams, id);
                assert forall|i: int| 0 <= i < opened.len() implies (#[trigger] opened[i]).id() == Some((2 * i + 1) as u32) by {
                    if i < streams.len() {
                        assert(opened[i] == streams[i]);
                    } else if i < id / 2 {
                        assert(opened[i] == skipped_stream(i));
                    } else {
                        assert(i == id / 2);
                        assert(opened[i] == StreamModel::Idle(HTTP2StreamIdle { id }));
                        assert(id % 2 == 1);
                    }
                }
                lemma_dispatch_keeps_index(before, opened, id, full_frame_length, frame, after, r);
            }
        },
    }
}

/// The streams are those the peer has opened so far: the last stream id is 0 or odd, and there
/// is one stream for each odd id up to it.
pub open spec fn streams_follow_last(streams: Seq<StreamModel>, last: u32) -> bool {
    &&& (last == 0 || last % 2 == 1)
    &&& streams.len() == (last + 1) / 2
}

/// Handling a frame, whether it succeeds or fails, keeps one stream for each odd id up to the
/// last stream id, each at the index its id gives; the last stream id never falls.
pub proof fn lemma_streams_follow_last_stream(
    before: &ConnectionState,
    full_frame_length: usize,
    frame: FrameModel,
    after: &ConnectionState,
    r: Result<Seq<FrameModel>, HTTP2Error>,
)
    requires
        frame_handled(before, full_frame_length, frame, after, r),
        streams_follow_last(streams_view(before), before.last_stream_id),
        streams_at_their_index(streams_view(before)),
    ensures
        streams_follow_last(streams_view(after), after.last_stream_id),
        streams_at_their_index(streams_view(after)),
        after.last_stream_id >= before.last_stream_id,
{
    lemma_streams_stay_at_their_index(before, full_frame_length, frame, after, r);
    lemma_frame_touches_own_stream(before, full_frame_length, frame, after, r);
    let id = frame.stream_id();
    let streams = streams_view(before);
    match frame {
        FrameModel::PushPromise(_) => {},
        FrameModel::Ping(_) => {},
        FrameModel::Settings(f) => {
            if f.header.stream_id != 0 || f.header.flags.ack {
            } else {
                assert(streams_view(after) =~= streams);
            }
        },
        _ => {
            if breaks_continuation(before.waiting_for_continuation, frame) {
            } else if connection_window_update(frame) {
                assert(streams_view(after) =~= streams);
            } else if (id / 2) < streams.len() {
            } else if bad_new_stream(id, before.last_stream_id) {
            } else {
                let opened = opened_streams(streams, id);
                assert(opened.len() == id / 2 + 1);
                assert(id % 2 == 1);
                assert((id + 1) / 2 == id / 2 + 1);
            }
        },
    }
}

/// Handing a frame to its stream keeps every stream at its index.
proof fn lemma_dispatch_keeps_index(
    before: &ConnectionState,
    streams: Seq<StreamModel>,
    last: u32,
    full_frame_length: usize,
    frame: FrameModel,
    after: &ConnectionState,
    r: Result<Seq<FrameModel>, HTTP2Error>,
)
    requires
        stream_dispatched(before, streams, last, full_frame_length, frame, after, r),
        streams_at_their_index(streams),
        (frame.stream_id() / 2) < streams.len(),
    ensures
        streams_at_their_index(streams_view(after)),
{
    let idx = (frame.stream_id() / 2) as int;
    if !too_large(full_frame_length, before.settings.max_frame_size) {
        let next = streams_view(after)[idx];
        let sr: StreamResultModel = match r {
            Ok(fs) => Ok((next, fs)),
            Err(e) => Err((next, e)),
        };
        lemma_stream_keeps_id(
            streams[idx],
            frame,
            before.settings.window_size,
            before.cache@,
            (before.window_size, before.stream_window_sizes@, before.decoder@, before.encoder@),
            (after.window_size, after.stream_window_sizes@, after.decoder@, after.encoder@),
            sr,
        );
        assert(result_state(sr) == next);
        assert(streams[idx].id() == Some((2 * idx + 1) as u32));
        let now = streams_view(after);
        assert forall|i: int| 0 <= i < now.len() implies (#[trigger] now[i]).id() == Some((2 * i + 1) as u32) by {
            if i != idx {
                assert(now[i] == streams[i]);
            }
        }
    }
}

/// Every frame that the connection answers a frame with can be written.
pub proof fn lemma_replies_can_be_written(
    before: &ConnectionState,
    full_frame_length: usize,
    frame: FrameModel,
    after: &ConnectionState,
    r: Result<Seq<FrameModel>, HTTP2Error>,
)
    requires
        frame_handled(before, full_frame_length, frame, after, r),
    ensures
        r matches Ok(fs) ==> forall|i: int| 0 <= i < fs.len() ==> (#[trigger] fs[i]).encodable(),
{
    let id = frame.stream_id();
    let streams = streams_view(before);
    match frame {
        FrameModel::PushPromise(_) => {},
        FrameModel::Ping(_) => {},
        FrameModel::Settings(f) => {},
        _ => {
            if breaks_continuation(before.waiting_for_continuation, frame) {
            } else if connection_window_update(frame) {
            } else if (id / 2) < streams.len() {
                if !is_skipped_at(streams, id) {
                    lemma_dispatch_replies(before, streams, before.last_stream_id, full_frame_length, frame, after, r);
                }
            } else if bad_new_stream(id, before.last_stream_id) {
            } else {
                lemma_dispatch_replies(before, opened_streams(streams, id), id, full_frame_length, frame, after, r);
            }
        },
    }
}

/// The frames that a stream answers with, once the connection hands it a frame, can be written.
proof fn lemma_dispatch_replies(
    before: &ConnectionState,
    streams: Seq<StreamModel>,
    last: u32,
    full_frame_length: usize,
    frame: FrameModel,
    after: &ConnectionState,
    r: Result<Seq<FrameModel>, HTTP2Error>,
)
    requires
        stream_dispatched(before, streams, last, full_frame_length, frame, after, r),
    ensures
        r matches Ok(fs) ==> forall|i: int| 0 <= i < fs.len() ==> (#[trigger] fs[i]).encodable(),
{
    let idx = (frame.stream_id() / 2) as int;
    if !too_large(full_frame_length, before.settings.max_frame_size) {
        let next = streams_view(after)[idx];
        let sr: StreamResultModel = match r {
            Ok(fs) => Ok((next, fs)),
            Err(e) => Err((next, e)),
        };
        lemma_stream_replies_encodable(
            streams[idx],
            frame,
            before.settings.window_size,
            before.cache@,
            (before.window_size, before.stream_window_sizes@, before.decoder@, before.encoder@),
            (after.window_size, after.stream_window_sizes@, after.decoder@, after.encoder@),
            sr,
        );
    }
}

/// The 24 bytes that every client sends first: "PRI * HTTP/2.0\r\n\r\nSM\r\n\r\n".
pub open spec fn connection_preface() -> Seq<u8> {
    seq![
        80u8, 82u8, 73u8, 32u8, 42u8, 32u8, 72u8, 84u8, 84u8, 80u8, 47u8, 50u8, 46u8, 48u8, 13u8,
        10u8, 13u8, 10u8, 83u8, 77u8, 13u8, 10u8, 13u8, 10u8,
    ]
}

/// Whether bytes are the connection preface.
pub fn is_connection_preface(bytes: &[u8]) -> (r: bool)
    ensures
        r == (bytes@ == connection_preface()),
{
    let preface: Vec<u8> = vec![
        80u8, 82u8, 73u8, 32u8, 42u8, 32u8, 72u8, 84u8, 84u8, 80u8, 47u8, 50u8, 46u8, 48u8, 13u8,
        10u8, 13u8, 10u8, 83u8, 77u8, 13u8, 10u8, 13u8, 10u8,
    ];
    assert(preface@ =~= connection_preface());
    crate::bytes::bytes_eq(bytes, preface.as_slice())
}

} // verus!
