use vstd::prelude::*;

use std::collections::VecDeque;

use crate::http2::connection::{
    available_window, chunk_of, flush_data_frame, flush_defined, flush_step, plain_data_frame,
    streams_at_their_index, streams_view, window_or_initial, DataStep,
};
use crate::http2::connection_state::{
    has_window, set_window, window_index, window_of, ConnectionState, WindowList,
};
use crate::http2::frames::data_frame::{DataFrame, DataFrameModel};
use crate::http2::frames::frame::{Frame, FrameModel};
use crate::http2::stream::http_stream::frames_view;
use crate::http2::stream::http_stream::StreamModel;

verus! {

/// What sending DATA changes on a connection: its window, the stream windows and the streams.
pub type Flow = (i32, WindowList, Seq<StreamModel>);

/// The frames of a queue, as values.
pub open spec fn queue_view(q: Seq<DataFrame>) -> Seq<DataFrameModel> {
    q.map_values(|f: DataFrame| f@)
}

/// The bytes of data that wait in a queue.
pub open spec fn queued_len(q: Seq<DataFrameModel>) -> nat
    decreases q.len(),
{
    if q.len() == 0 {
        0
    } else {
        q[0].data.len() + queued_len(q.skip(1))
    }
}

/// The queue once its first frame has sent `chunk` bytes: what is left of that frame, if
/// anything, in front of the rest.
pub open spec fn after_chunk(q: Seq<DataFrameModel>, chunk: int) -> Seq<DataFrameModel> {
    let f = q[0];
    if chunk < f.data.len() {
        seq![plain_data_frame(f.header.stream_id, f.data.skip(chunk), f.header.flags.end_stream)]
            + q.skip(1)
    } else {
        q.skip(1)
    }
}

/// Sending a piece of the first frame leaves less to send, or a shorter queue.
pub proof fn lemma_after_chunk_shrinks(q: Seq<DataFrameModel>, chunk: int)
    requires
        q.len() > 0,
        0 <= chunk <= q[0].data.len(),
        chunk < q[0].data.len() ==> chunk > 0,
    ensures
        ({
            let r = after_chunk(q, chunk);
            &&& queued_len(r) == queued_len(q) - chunk
            &&& (queued_len(r) < queued_len(q) || (queued_len(r) == queued_len(q) && r.len()
                < q.len()))
        }),
{
    let f = q[0];
    if chunk < f.data.len() {
        let g = plain_data_frame(f.header.stream_id, f.data.skip(chunk), f.header.flags.end_stream);
        let r = seq![g] + q.skip(1);
        assert(r[0] == g);
        assert(r.skip(1) =~= q.skip(1));
    }
}

/// What the queue of DATA frames gives when flow control lets out as much as it can: the bytes
/// sent, the flow afterwards and the frames still waiting. The first frame goes out as far as
/// the least of the connection's window, its stream's window (a stream without one is given
/// `initial`) and `max` allows, in the way `flush_data_frame` sends it; what did not fit stays
/// at the front; sending stops at the first frame that no window lets out.
pub open spec fn flushed(flow: Flow, initial: i32, max: u32, q: Seq<DataFrameModel>) -> (
    Seq<u8>,
    Flow,
    Seq<DataFrameModel>,
)
    decreases queued_len(q), q.len(),
{
    if q.len() == 0 {
        (Seq::empty(), flow, q)
    } else {
        let f = q[0];
        let id = f.header.stream_id;
        let (w, ws) = window_or_initial(flow.1, id, initial);
        let avail = available_window(flow.0, w, max);
        if avail <= 0 {
            (Seq::empty(), (flow.0, ws, flow.2), q)
        } else {
            let chunk: int = if f.data.len() < avail {
                f.data.len() as int
            } else {
                avail
            };
            let end_stream = chunk == f.data.len() && f.header.flags.end_stream;
            let streams = if end_stream {
                flow.2.update((id / 2) as int, flow.2[(id / 2) as int].spec_server_sent_es())
            } else {
                flow.2
            };
            let next: Flow = ((flow.0 - chunk) as i32, set_window(ws, id, (w - chunk) as i32), streams);
            proof {
                lemma_after_chunk_shrinks(q, chunk);
            }
            let (b, fl, rest) = flushed(next, initial, max, after_chunk(q, chunk));
            (plain_data_frame(id, f.data.take(chunk), end_stream).spec_encode() + b, fl, rest)
        }
    }
}

/// Sending the queue stops only when it is empty or no window lets its first frame out.
pub proof fn lemma_flush_stops_when_blocked(flow: Flow, initial: i32, max: u32, q: Seq<DataFrameModel>)
    ensures
        ({
            let (_, fl, rest) = flushed(flow, initial, max, q);
            rest.len() == 0 || available_window(
                fl.0,
                window_or_initial(fl.1, rest[0].header.stream_id, initial).0,
                max,
            ) <= 0
        }),
    decreases queued_len(q), q.len(),
{
    if q.len() > 0 {
        let f = q[0];
        let id = f.header.stream_id;
        let (w, ws) = window_or_initial(flow.1, id, initial);
        let avail = available_window(flow.0, w, max);
        if avail <= 0 {
            if window_of(flow.1, id) is None {
                assert(ws[ws.len() - 1].0 == id);
                let k = window_index(ws, id);
                if k < ws.len() - 1 {
                    assert(flow.1[k].0 == id);
                }
            }
        } else {
            let chunk: int = if f.data.len() < avail {
                f.data.len() as int
            } else {
                avail
            };
            let end_stream = chunk == f.data.len() && f.header.flags.end_stream;
            let streams = if end_stream {
                flow.2.update((id / 2) as int, flow.2[(id / 2) as int].spec_server_sent_es())
            } else {
                flow.2
            };
            let next: Flow = ((flow.0 - chunk) as i32, set_window(ws, id, (w - chunk) as i32), streams);
            lemma_after_chunk_shrinks(q, chunk);
            lemma_flush_stops_when_blocked(next, initial, max, after_chunk(q, chunk));
        }
    }
}

/// What sending the queue takes off the connection's window is the data that left the queue:
/// no more data waits afterwards than before, the window falls by exactly the data sent, and
/// sending never takes it below zero.
pub proof fn lemma_flush_window_accounting(
    flow: Flow,
    initial: i32,
    max: u32,
    q: Seq<DataFrameModel>,
)
    ensures
        ({
            let (_, fl, rest) = flushed(flow, initial, max, q);
            &&& queued_len(rest) <= queued_len(q)
            &&& fl.0 == flow.0 - (queued_len(q) - queued_len(rest))
            &&& queued_len(rest) < queued_len(q) ==> fl.0 >= 0
        }),
    decreases queued_len(q), q.len(),
{
    if q.len() > 0 {
        let f = q[0];
        let id = f.header.stream_id;
        let (w, ws) = window_or_initial(flow.1, id, initial);
        let avail = available_window(flow.0, w, max);
        if avail > 0 {
            let chunk: int = if f.data.len() < avail {
                f.data.len() as int
            } else {
                avail
            };
            let end_stream = chunk == f.data.len() && f.header.flags.end_stream;
            let streams = if end_stream {
                flow.2.update((id / 2) as int, flow.2[(id / 2) as int].spec_server_sent_es())
            } else {
                flow.2
            };
            let next: Flow = ((flow.0 - chunk) as i32, set_window(ws, id, (w - chunk) as i32), streams);
            lemma_after_chunk_shrinks(q, chunk);
            lemma_flush_window_accounting(next, initial, max, after_chunk(q, chunk));
        }
    }
}

/// The inputs on which sending a queue is defined: every frame in it that ends its stream is
/// for a stream that is there.
pub open spec fn queue_defined(state: &ConnectionState, q: Seq<DataFrameModel>) -> bool {
    forall|i: int|
        0 <= i < q.len() && (#[trigger] q[i]).header.flags.end_stream ==> (q[i].header.stream_id
            / 2) < state.streams@.len()
}

/// Whether sending a queue is defined (see `queue_defined`).
pub fn can_flush_queue(state: &ConnectionState, queue: &VecDeque<DataFrame>) -> (r: bool)
    ensures
        r == queue_defined(state, queue_view(queue@)),
{
    let mut i: usize = 0;
    while i < queue.len()
        invariant
            i <= queue@.len(),
            forall|j: int|
                0 <= j < i && (#[trigger] queue_view(queue@)[j]).header.flags.end_stream ==> (
                queue_view(queue@)[j].header.stream_id / 2) < state.streams@.len(),
        decreases queue@.len() - i,
    {
        let f = &queue[i];
        if f.header.flags.end_stream && (f.header.stream_id / 2) as usize >= state.streams.len() {
            assert(queue_view(queue@)[i as int] == f@);
            return false;
        }
        i = i + 1;
    }
    true
}

/// The flow of a connection.
pub open spec fn flow_of(state: &ConnectionState) -> Flow {
    (state.window_size, state.stream_window_sizes@, streams_view(state))
}

/// The queue after one step of `flush_data_frame` on its first frame, when that step sent.
pub open spec fn queue_after_send(q: Seq<DataFrameModel>, r: DataStep) -> Seq<DataFrameModel> {
    match r {
        DataStep::Send { rest: Some(g), .. } => seq![g@] + q.skip(1),
        _ => q.skip(1),
    }
}

/// One step of `flush_data_frame` on the first frame of a queue is one step of `flushed`: a
/// blocked frame ends it where it stands; a piece sent comes first in what the rest of the
/// queue sends from the new flow, which leaves less to send and keeps the queue defined.
proof fn lemma_flush_step(
    before: &ConnectionState,
    after: &ConnectionState,
    q: Seq<DataFrameModel>,
    r: DataStep,
)
    requires
        q.len() > 0,
        flush_step(before, q[0], after, r),
        queue_defined(before, q),
    ensures
        match r {
            DataStep::Blocked(b) => {
                &&& b@ == q[0]
                &&& flushed(flow_of(before), before.settings.window_size, before.settings.max_frame_size, q)
                    == (Seq::<u8>::empty(), flow_of(after), q)
            },
            DataStep::Send { bytes, rest } => {
                let next = queue_after_send(q, r);
                let (b, fl, rq) = flushed(flow_of(after), before.settings.window_size, before.settings.max_frame_size, next);
                &&& flushed(flow_of(before), before.settings.window_size, before.settings.max_frame_size, q)
                    == (bytes@ + b, fl, rq)
                &&& (queued_len(next) < queued_len(q) || (queued_len(next) == queued_len(q)
                    && next.len() < q.len()))
                &&& queue_defined(after, next)
            },
        },
{
    let f = q[0];
    let id = f.header.stream_id;
    let initial = before.settings.window_size;
    let max = before.settings.max_frame_size;
    let (w, ws) = window_or_initial(before.stream_window_sizes@, id, initial);
    let avail = available_window(before.window_size, w, max);
    let chunk = chunk_of(before, f);
    if avail > 0 {
        let next = queue_after_send(q, r);
        assert(next =~= after_chunk(q, chunk));
        lemma_after_chunk_shrinks(q, chunk);
        assert(after.streams@.len() == streams_view(after).len());
        assert(before.streams@.len() == streams_view(before).len());
        assert forall|i: int|
            0 <= i < next.len() && (#[trigger] next[i]).header.flags.end_stream implies (
            next[i].header.stream_id / 2) < after.streams@.len() by {
            if chunk < f.data.len() {
                if i > 0 {
                    assert(next[i] == q[i]);
                } else {
                    assert(next[0].header == plain_data_frame(
                        id,
                        f.data.skip(chunk),
                        f.header.flags.end_stream,
                    ).header);
                    assert(q[0].header.flags.end_stream ==> (q[0].header.stream_id / 2)
                        < before.streams@.len());
                }
            } else {
                assert(next[i] == q[i + 1]);
            }
        }
    }
}

/// Sends as much of the queue as flow control lets out, in order (see `flushed`): the bytes
/// to write, the connection's flow moved on, and the queue left with what still waits. Nothing
/// else of the connection changes.
pub fn flush_queue(state: &mut ConnectionState, queue: &mut VecDeque<DataFrame>) -> (r: Vec<u8>)
    requires
        queue_defined(old(state), queue_view(old(queue)@)),
    ensures
        ({
            let (bytes, flow, rest) = flushed(
                flow_of(old(state)),
                old(state).settings.window_size,
                old(state).settings.max_frame_size,
                queue_view(old(queue)@),
            );
            &&& r@ == bytes
            &&& flow_of(final(state)) == flow
            &&& queue_view(final(queue)@) == rest
        }),
        final(state).settings == old(state).settings,
        final(state).settings_acked == old(state).settings_acked,
        final(state).settings_sent == old(state).settings_sent,
        final(state).last_stream_id == old(state).last_stream_id,
        final(state).waiting_for_continuation == old(state).waiting_for_continuation,
        final(state).decoder == old(state).decoder,
        final(state).encoder == old(state).encoder,
        final(state).cache == old(state).cache,
        streams_at_their_index(streams_view(old(state))) ==> streams_at_their_index(
            streams_view(final(state)),
        ),
{
    let ghost initial = state.settings.window_size;
    let ghost max = state.settings.max_frame_size;
    let ghost target = flushed(flow_of(state), initial, max, queue_view(queue@));
    let mut out: Vec<u8> = Vec::new();
    loop
        invariant_except_break
            queue_defined(state, queue_view(queue@)),
            out@ + flushed(flow_of(state), initial, max, queue_view(queue@)).0 == target.0,
            flushed(flow_of(state), initial, max, queue_view(queue@)).1 == target.1,
            flushed(flow_of(state), initial, max, queue_view(queue@)).2 == target.2,
        invariant
            state.settings == old(state).settings,
            state.settings_acked == old(state).settings_acked,
            state.settings_sent == old(state).settings_sent,
            state.last_stream_id == old(state).last_stream_id,
            state.waiting_for_continuation == old(state).waiting_for_continuation,
            state.decoder == old(state).decoder,
            state.encoder == old(state).encoder,
            state.cache == old(state).cache,
            initial == state.settings.window_size,
            max == state.settings.max_frame_size,
            streams_at_their_index(streams_view(old(state))) ==> streams_at_their_index(
                streams_view(state),
            ),
        ensures
            out@ == target.0,
            flow_of(state) == target.1,
            queue_view(queue@) == target.2,
        decreases queued_len(queue_view(queue@)), queue@.len(),
    {
        let ghost q = queue_view(queue@);
        let ghost before = *state;
        match queue.pop_front() {
            None => {
                assert(q.len() == 0);
                assert(out@ + Seq::<u8>::empty() =~= out@);
                break;
            },
            Some(frame) => {
                assert(frame@ == q[0]);
                assert(queue_view(queue@) =~= q.skip(1));
                let step = flush_data_frame(state, frame);
                proof {
                    lemma_flush_step(&before, state, q, step);
                }
                match step {
                    DataStep::Blocked(b) => {
                        queue.push_front(b);
                        assert(queue_view(queue@) =~= q);
                        assert(out@ + Seq::<u8>::empty() =~= out@);
                        break;
                    },
                    DataStep::Send { bytes, rest } => {
                        let ghost sent = bytes@;
                        let ghost out0 = out@;
                        let mut bytes = bytes;
                        out.append(&mut bytes);
                        match rest {
                            Some(g) => {
                                queue.push_front(g);
                            },
                            None => {},
                        }
                        proof {
                            assert(queue_view(queue@) =~= queue_after_send(q, step));
                            let b = flushed(flow_of(state), initial, max, queue_view(queue@)).0;
                            assert(out@ + b =~= out0 + (sent + b));
                        }
                    },
                }
            },
        }
    }
    out
}

/// The bytes of the frames other than DATA, one after another.
pub open spec fn direct_bytes(fs: Seq<FrameModel>) -> Seq<u8>
    decreases fs.len(),
{
    if fs.len() == 0 {
        Seq::empty()
    } else {
        direct_bytes(fs.drop_last()) + match fs.last() {
            FrameModel::Data(_) => Seq::empty(),
            f => f.spec_encode(),
        }
    }
}

/// The DATA frames among the frames, in order.
pub open spec fn data_frames(fs: Seq<FrameModel>) -> Seq<DataFrameModel>
    decreases fs.len(),
{
    if fs.len() == 0 {
        Seq::empty()
    } else {
        match fs.last() {
            FrameModel::Data(d) => data_frames(fs.drop_last()).push(d),
            _ => data_frames(fs.drop_last()),
        }
    }
}

/// Whether every frame can be written (see `FrameModel::encodable`).
pub fn all_encodable(frames: &Vec<Frame>) -> (r: bool)
    ensures
        r == forall|i: int| 0 <= i < frames@.len() ==> (#[trigger] frames@[i])@.encodable(),
{
    let mut i: usize = 0;
    while i < frames.len()
        invariant
            i <= frames@.len(),
            forall|j: int| 0 <= j < i ==> (#[trigger] frames@[j])@.encodable(),
        decreases frames@.len() - i,
    {
        if !frames[i].is_encodable() {
            return false;
        }
        i = i + 1;
    }
    true
}

/// Sorts the frames that answer a frame: the DATA frames join the end of the queue, to wait
/// for flow control; the others are to be written at once, in order, and their bytes come back.
pub fn route_replies(frames: Vec<Frame>, queue: &mut VecDeque<DataFrame>) -> (r: Vec<u8>)
    requires
        forall|i: int| 0 <= i < frames@.len() ==> (#[trigger] frames@[i])@.encodable(),
    ensures
        r@ == direct_bytes(frames_view(frames@)),
        queue_view(final(queue)@) == queue_view(old(queue)@) + data_frames(frames_view(frames@)),
{
    let ghost all = frames_view(frames@);
    let mut frames = frames;
    let mut out: Vec<u8> = Vec::new();
    let mut k: usize = 0;
    let total: usize = frames.len();
    assert(all.len() == total);
    assert(all.skip(0) =~= all);
    while frames.len() > 0
        invariant
            k + frames@.len() == all.len(),
            all.len() <= usize::MAX,
            frames_view(frames@) == all.skip(k as int),
            forall|i: int| 0 <= i < frames@.len() ==> (#[trigger] frames@[i])@.encodable(),
            out@ == direct_bytes(all.take(k as int)),
            queue_view(queue@) == queue_view(old(queue)@) + data_frames(all.take(k as int)),
        decreases frames@.len(),
    {
        let ghost before = frames@;
        let f = frames.remove(0);
        assert(f@ == all[k as int]) by {
            assert(frames_view(before)[0] == before[0]@);
            assert(all.skip(k as int)[0] == all[k as int]);
        }
        assert(frames_view(frames@) =~= all.skip(k + 1)) by {
            assert forall|i: int| 0 <= i < frames@.len() implies frames_view(frames@)[i]
                == all.skip(k + 1)[i] by {
                assert(frames@[i] == before[i + 1]);
                assert(frames_view(before)[i + 1] == all.skip(k as int)[i + 1]);
            }
        }
        assert(all.take(k + 1).drop_last() =~= all.take(k as int));
        assert(all.take(k + 1).last() == all[k as int]);
        let ghost q0 = queue_view(queue@);
        match f {
            Frame::Data(d) => {
                queue.push_back(d);
                assert(queue_view(queue@) =~= q0.push(d@));
                assert(out@ =~= out@ + Seq::<u8>::empty());
            },
            other => {
                assert(before[0]@.encodable());
                let mut b = other.to_bytes();
                out.append(&mut b);
            },
        }
        k = k + 1;
    }
    assert(all.take(k as int) =~= all);
    out
}

} // verus!
