use vstd::prelude::*;

use std::sync::Arc;

use crate::http2::codec::{HpackDecoder, HpackEncoder};
use crate::http2::error::{HTTP2Error, HTTP2ErrorCode, StreamError};
use crate::http2::frames::window_update_frame::WindowUpdateFrame;
use crate::http2::stream::http_stream::HTTP2Stream;
use crate::read::FileCache;
use crate::response::HeaderList;

verus! {

/// The settings of the peer that bound what the server sends.
#[derive(Clone, Copy, Debug, PartialEq, Eq, Structural)]
pub struct ConnectionSettings {
    /// The initial flow-control window of a stream.
    pub window_size: i32,
    pub max_frame_size: u32,
}

impl ConnectionSettings {
    /// The settings that HTTP/2 starts with: a window of 65535 and frames of up to 16384 bytes.
    pub fn default() -> (r: Self)
        ensures
            r == (ConnectionSettings { window_size: 65535, max_frame_size: 16384 }),
    {
        ConnectionSettings { window_size: 65535, max_frame_size: 16384 }
    }
}

/// Stream windows as values: (stream, window) pairs, one per stream.
pub type WindowList = Seq<(u32, i32)>;

/// Whether the list has a window for a stream.
pub open spec fn has_window(s: WindowList, id: u32) -> bool {
    exists|i: int| 0 <= i < s.len() && #[trigger] s[i].0 == id
}

/// The place of a stream's window in the list.
pub open spec fn window_index(s: WindowList, id: u32) -> int {
    choose|i: int| 0 <= i < s.len() && #[trigger] s[i].0 == id
}

/// The window of a stream, if the list has one.
pub open spec fn window_of(s: WindowList, id: u32) -> Option<i32> {
    if has_window(s, id) {
        Some(s[window_index(s, id)].1)
    } else {
        None
    }
}

/// The list with a stream's window replaced; the stream must have one.
pub open spec fn set_window(s: WindowList, id: u32, w: i32) -> WindowList {
    s.update(window_index(s, id), (id, w))
}

/// No stream has two windows.
pub open spec fn ids_distinct(s: WindowList) -> bool {
    forall|i: int, j: int| 0 <= i < j < s.len() ==> #[trigger] s[i].0 != #[trigger] s[j].0
}

/// The flow-control windows of the streams, as the peer's WINDOW_UPDATE frames and the data sent
/// leave them.
#[derive(Debug)]
pub struct StreamWindows {
    entries: Vec<(u32, i32)>,
}

impl View for StreamWindows {
    type V = WindowList;

    closed spec fn view(&self) -> WindowList {
        self.entries@
    }
}

proof fn lemma_index_is_unique(s: WindowList, id: u32, i: int)
    requires
        ids_distinct(s),
        0 <= i < s.len(),
        s[i].0 == id,
    ensures
        has_window(s, id),
        window_index(s, id) == i,
{
    let k = window_index(s, id);
    assert(s[k].0 == id);
    if k < i {
        assert(s[k].0 != s[i].0);
    } else if k > i {
        assert(s[i].0 != s[k].0);
    }
}

impl StreamWindows {
    #[verifier::type_invariant]
    closed spec fn inv(self) -> bool {
        ids_distinct(self.entries@)
    }

    /// No stream has two windows.
    pub closed spec fn distinct(&self) -> bool {
        ids_distinct(self.entries@)
    }

    pub fn new() -> (r: Self)
        ensures
            r@ == Seq::<(u32, i32)>::empty(),
    {
        StreamWindows { entries: Vec::new() }
    }

    /// The place of a stream's window, if it has one.
    fn find(&self, id: u32) -> (r: Option<usize>)
        ensures
            match r {
                Some(i) => i < self@.len() && self@[i as int].0 == id && window_index(self@, id)
                    == i && has_window(self@, id),
                None => !has_window(self@, id),
            },
    {
        proof {
            use_type_invariant(self);
        }
        let mut i: usize = 0;
        while i < self.entries.len()
            invariant
                i <= self@.len(),
                self@ == self.entries@,
                ids_distinct(self@),
                forall|j: int| 0 <= j < i ==> self@[j].0 != id,
            decreases self@.len() - i,
        {
            if self.entries[i].0 == id {
                proof {
                    lemma_index_is_unique(self@, id, i as int);
                }
                return Some(i);
            }
            i = i + 1;
        }
        None
    }

    /// The window of a stream, if it has one.
    pub fn get(&self, id: u32) -> (r: Option<i32>)
        ensures
            r == window_of(self@, id),
    {
        match self.find(id) {
            Some(i) => Some(self.entries[i].1),
            None => None,
        }
    }

    /// The window of a stream; a stream without one is given `default` first.
    pub fn get_or_insert(&mut self, id: u32, default: i32) -> (r: i32)
        ensures
            has_window(old(self)@, id) ==> final(self)@ == old(self)@ && r == window_of(
                old(self)@,
                id,
            )->0,
            !has_window(old(self)@, id) ==> final(self)@ == old(self)@.push((id, default)) && r
                == default,
            window_of(final(self)@, id) == Some(r),
            forall|other: u32|
                other != id ==> #[trigger] window_of(final(self)@, other) == window_of(
                    old(self)@,
                    other,
                ),
    {
        proof {
            use_type_invariant(&*self);
        }
        match self.find(id) {
            Some(i) => self.entries[i].1,
            None => {
                let mut e: Vec<(u32, i32)> = Vec::new();
                std::mem::swap(&mut e, &mut self.entries);
                e.push((id, default));
                proof {
                    assert forall|a: int, b: int| 0 <= a < b < e@.len() implies #[trigger] e@[a].0
                        != #[trigger] e@[b].0 by {
                        if b == e@.len() - 1 {
                            assert(old(self)@[a].0 != id);
                        } else {
                            assert(old(self)@[a].0 != old(self)@[b].0);
                        }
                    }
                    lemma_index_is_unique(e@, id, e@.len() - 1);
                    assert forall|other: u32| other != id implies #[trigger] window_of(e@, other)
                        == window_of(old(self)@, other) by {
                        if has_window(old(self)@, other) {
                            let j = window_index(old(self)@, other);
                            assert(e@[j].0 == other);
                            lemma_index_is_unique(e@, other, j);
                        } else if has_window(e@, other) {
                            let j = window_index(e@, other);
                            assert(old(self)@[j].0 == other);
                        }
                    }
                }
                self.entries = e;
                default
            },
        }
    }

    /// Replaces the window of a stream that has one.
    pub fn set(&mut self, id: u32, w: i32)
        requires
            has_window(old(self)@, id),
        ensures
            final(self)@ == set_window(old(self)@, id, w),
            window_of(final(self)@, id) == Some(w),
            forall|other: u32|
                other != id ==> #[trigger] window_of(final(self)@, other) == window_of(
                    old(self)@,
                    other,
                ),
    {
        proof {
            use_type_invariant(&*self);
        }
        let i: usize = self.find(id).unwrap();
        let mut e: Vec<(u32, i32)> = Vec::new();
        std::mem::swap(&mut e, &mut self.entries);
        e.set(i, (id, w));
        proof {
            assert forall|a: int, b: int| 0 <= a < b < e@.len() implies #[trigger] e@[a].0
                != #[trigger] e@[b].0 by {
                assert(old(self)@[a].0 != old(self)@[b].0);
            }
            lemma_index_is_unique(e@, id, i as int);
            assert forall|other: u32| other != id implies #[trigger] window_of(e@, other)
                == window_of(old(self)@, other) by {
                if has_window(old(self)@, other) {
                    let j = window_index(old(self)@, other);
                    assert(e@[j].0 == other);
                    lemma_index_is_unique(e@, other, j);
                } else if has_window(e@, other) {
                    let j = window_index(e@, other);
                    assert(old(self)@[j].0 == other);
                }
            }
        }
        self.entries = e;
    }

    /// Whether every window moved by `delta` stays in the `i32` range.
    pub fn shift_fits(&self, delta: i64) -> (r: bool)
        requires
            i32::MIN <= delta <= i32::MAX,
        ensures
            r == forall|i: int|
                0 <= i < self@.len() ==> i32::MIN <= #[trigger] self@[i].1 + delta <= i32::MAX,
    {
        let mut i: usize = 0;
        while i < self.entries.len()
            invariant
                i <= self@.len(),
                self@ == self.entries@,
                i32::MIN <= delta <= i32::MAX,
                forall|j: int| 0 <= j < i ==> i32::MIN <= #[trigger] self@[j].1 + delta <= i32::MAX,
            decreases self@.len() - i,
        {
            let w: i64 = self.entries[i].1 as i64 + delta;
            if w < i32::MIN as i64 || w > i32::MAX as i64 {
                return false;
            }
            i = i + 1;
        }
        true
    }

    /// Adds `delta` to every window.
    pub fn add_to_all(&mut self, delta: i32)
        requires
            forall|i: int|
                0 <= i < old(self)@.len() ==> i32::MIN <= #[trigger] old(self)@[i].1 + delta
                    <= i32::MAX,
        ensures
            final(self)@.len() == old(self)@.len(),
            forall|i: int|
                0 <= i < old(self)@.len() ==> #[trigger] final(self)@[i] == (
                old(self)@[i].0,
                (old(self)@[i].1 + delta) as i32,
            ),
    {
        proof {
            use_type_invariant(&*self);
        }
        let mut e: Vec<(u32, i32)> = Vec::new();
        std::mem::swap(&mut e, &mut self.entries);
        let ghost start = e@;
        let mut i: usize = 0;
        while i < e.len()
            invariant
                start == old(self)@,
                e@.len() == start.len(),
                i <= e@.len(),
                forall|j: int|
                    0 <= j < start.len() ==> i32::MIN <= #[trigger] start[j].1 + delta <= i32::MAX,
                forall|j: int|
                    0 <= j < i ==> #[trigger] e@[j] == (start[j].0, (start[j].1 + delta) as i32),
                forall|j: int| i <= j < e@.len() ==> #[trigger] e@[j] == start[j],
            decreases e@.len() - i,
        {
            let (id, w) = e[i];
            assert(start[i as int].1 + delta <= i32::MAX);
            e.set(i, (id, w + delta));
            i = i + 1;
        }
        proof {
            assert forall|a: int, b: int| 0 <= a < b < e@.len() implies #[trigger] e@[a].0
                != #[trigger] e@[b].0 by {
                assert(start[a].0 != start[b].0);
            }
        }
        self.entries = e;
    }
}

/// The state of one connection.
pub struct ConnectionState<'a> {
    pub decoder: HpackDecoder<'a>,
    pub encoder: HpackEncoder<'a>,
    pub settings_acked: bool,
    pub settings_sent: bool,
    pub settings: ConnectionSettings,
    /// Stream `2i + 1` is at index `i`.
    pub streams: Vec<HTTP2Stream>,
    pub last_stream_id: u32,
    pub waiting_for_continuation: Option<u32>,
    /// The connection's flow-control window.
    pub window_size: i32,
    pub stream_window_sizes: StreamWindows,
    pub cache: Arc<FileCache>,
}

impl<'a> ConnectionState<'a> {
    /// The state that a connection starts in: no streams, the default settings and windows,
    /// our settings not yet sent.
    pub fn new(cache: Arc<FileCache>) -> (r: Self)
        ensures
            r.settings_acked,
            !r.settings_sent,
            r.settings == (ConnectionSettings { window_size: 65535, max_frame_size: 16384 }),
            r.streams@.len() == 0,
            r.last_stream_id == 0,
            r.waiting_for_continuation is None,
            r.window_size == 65535,
            r.stream_window_sizes@.len() == 0,
            r.cache == cache,
            r.decoder@ == Seq::<Seq<u8>>::empty(),
            r.encoder@ == Seq::<HeaderList>::empty(),
    {
        ConnectionState {
            decoder: HpackDecoder::new(),
            encoder: HpackEncoder::new(),
            settings_acked: true,
            settings_sent: false,
            settings: ConnectionSettings::default(),
            streams: Vec::new(),
            last_stream_id: 0,
            waiting_for_continuation: None,
            window_size: 65535,
            stream_window_sizes: StreamWindows::new(),
            cache,
        }
    }

    /// The data sent on a stream cannot drive a window out of range.
    pub open spec fn can_send(&self, id: u32, amount: i32) -> bool {
        &&& i32::MIN <= self.window_size - amount <= i32::MAX
        &&& window_of(self.stream_window_sizes@, id) matches Some(w) ==> i32::MIN <= w - amount
            <= i32::MAX
    }

    /// Takes data sent on a stream off the connection's window and off the stream's window, if
    /// the stream has one.
    pub fn sent_data(&mut self, id: u32, amount: i32)
        requires
            old(self).can_send(id, amount),
        ensures
            final(self).window_size == old(self).window_size - amount,
            match window_of(old(self).stream_window_sizes@, id) {
                Some(w) => final(self).stream_window_sizes@ == set_window(
                    old(self).stream_window_sizes@,
                    id,
                    (w - amount) as i32,
                ),
                None => final(self).stream_window_sizes@ == old(self).stream_window_sizes@,
            },
            window_of(old(self).stream_window_sizes@, id) matches Some(w) ==> window_of(
                final(self).stream_window_sizes@,
                id,
            ) == Some((w - amount) as i32),
            final(self).settings == old(self).settings,
            final(self).streams@ == old(self).streams@,
            final(self).last_stream_id == old(self).last_stream_id,
            final(self).settings_sent == old(self).settings_sent,
            final(self).settings_acked == old(self).settings_acked,
            final(self).waiting_for_continuation == old(self).waiting_for_continuation,
            final(self).cache == old(self).cache,
            final(self).decoder == old(self).decoder,
            final(self).encoder == old(self).encoder,
    {
        self.window_size = self.window_size - amount;
        if let Some(w) = self.stream_window_sizes.get(id) {
            self.stream_window_sizes.set(id, w - amount);
        }
    }

    /// What a WINDOW_UPDATE frame does to the windows, as a value: an increment of 0 is a
    /// protocol error (of the connection on stream 0, of the stream otherwise); a window pushed
    /// out of the `i32` range is a flow-control error. A stream without a window is given the
    /// initial window first, even when the update then fails.
    pub open spec fn spec_update_window(
        window: i32,
        windows: WindowList,
        initial: i32,
        wu: WindowUpdateFrame,
    ) -> (Result<(), HTTP2Error>, i32, WindowList) {
        let inc = wu.window_size_increment as i32;
        let sid = wu.header.stream_id;
        if wu.window_size_increment == 0 {
            if sid == 0 {
                (Err(HTTP2Error::Connection(HTTP2ErrorCode::ProtocolError)), window, windows)
            } else {
                (
                    Err(
                        HTTP2Error::Stream(
                            StreamError { stream_id: sid, error_code: HTTP2ErrorCode::ProtocolError },
                        ),
                    ),
                    window,
                    windows,
                )
            }
        } else if sid == 0 {
            if window + inc > i32::MAX || window + inc < i32::MIN {
                (Err(HTTP2Error::Connection(HTTP2ErrorCode::FlowControlError)), window, windows)
            } else {
                (Ok(()), (window + inc) as i32, windows)
            }
        } else {
            let (current, ws) = match window_of(windows, sid) {
                Some(w) => (w, windows),
                None => (initial, windows.push((sid, initial))),
            };
            if current + inc > i32::MAX || current + inc < i32::MIN {
                (
                    Err(
                        HTTP2Error::Stream(
                            StreamError {
                                stream_id: sid,
                                error_code: HTTP2ErrorCode::FlowControlError,
                            },
                        ),
                    ),
                    window,
                    ws,
                )
            } else {
                (Ok(()), window, set_window(ws, sid, (current + inc) as i32))
            }
        }
    }

    /// Applies a WINDOW_UPDATE frame (see `spec_update_window`).
    pub fn update_window(&mut self, window_update: &WindowUpdateFrame) -> (r: Result<
        (),
        HTTP2Error,
    >)
        ensures
            (r, final(self).window_size, final(self).stream_window_sizes@) == Self::spec_update_window(
                old(self).window_size,
                old(self).stream_window_sizes@,
                old(self).settings.window_size,
                *window_update,
            ),
            final(self).settings == old(self).settings,
            final(self).streams@ == old(self).streams@,
            final(self).last_stream_id == old(self).last_stream_id,
            final(self).settings_sent == old(self).settings_sent,
            final(self).settings_acked == old(self).settings_acked,
            final(self).waiting_for_continuation == old(self).waiting_for_continuation,
            final(self).cache == old(self).cache,
            final(self).decoder == old(self).decoder,
            final(self).encoder == old(self).encoder,
            ({
                let sid = window_update.header.stream_id;
                let w = match window_of(old(self).stream_window_sizes@, sid) {
                    Some(w) => w,
                    None => old(self).settings.window_size,
                };
                let sum = w + window_update.window_size_increment as i32;
                sid != 0 && window_update.window_size_increment != 0 ==> {
                    &&& (r is Ok <==> i32::MIN <= sum <= i32::MAX)
                    &&& window_of(final(self).stream_window_sizes@, sid) == Some(
                        if r is Ok {
                            sum as i32
                        } else {
                            w
                        },
                    )
                }
            }),
            forall|other: u32|
                other != window_update.header.stream_id ==> #[trigger] window_of(
                    final(self).stream_window_sizes@,
                    other,
                ) == window_of(old(self).stream_window_sizes@, other),
    {
        let inc: i32 = window_update.window_size_increment as i32;
        if window_update.window_size_increment == 0 {
            match window_update.header.stream_id {
                0 => {
                    return Err(HTTP2Error::Connection(HTTP2ErrorCode::ProtocolError));
                },
                stream_id => {
                    return Err(
                        HTTP2Error::Stream(
                            StreamError { stream_id, error_code: HTTP2ErrorCode::ProtocolError },
                        ),
                    );
                },
            }
        }
        match window_update.header.stream_id {
            0 => {
                match self.window_size.checked_add(inc) {
                    Some(new_size) => {
                        self.window_size = new_size;
                    },
                    None => {
                        return Err(HTTP2Error::Connection(HTTP2ErrorCode::FlowControlError));
                    },
                }
            },
            stream_id => {
                let current: i32 = self.stream_window_sizes.get_or_insert(
                    stream_id,
                    self.settings.window_size,
                );
                match current.checked_add(inc) {
                    Some(new_size) => {
                        self.stream_window_sizes.set(stream_id, new_size);
                    },
                    None => {
                        return Err(
                            HTTP2Error::Stream(
                                StreamError {
                                    stream_id,
                                    error_code: HTTP2ErrorCode::FlowControlError,
                                },
                            ),
                        );
                    },
                }
            },
        }
        Ok(())
    }
}

impl<'a> Default for ConnectionState<'a> {
    /// A connection with an empty cache, in the state that `new` gives.
    fn default() -> (r: Self)
        ensures
            r.settings_acked,
            !r.settings_sent,
            r.settings == (ConnectionSettings { window_size: 65535, max_frame_size: 16384 }),
            r.streams@.len() == 0,
            r.last_stream_id == 0,
            r.waiting_for_continuation is None,
            r.window_size == 65535,
            r.stream_window_sizes@.len() == 0,
            r.cache@ == Seq::<(Seq<u8>, Seq<u8>)>::empty(),
    {
        ConnectionState::new(Arc::new(FileCache::new()))
    }
}

} // verus!
