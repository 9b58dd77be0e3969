//! The frames that wait to be sent on an HTTP/2 connection, and the windows
//! that say how many bytes of a body each stream may send.
//!
//! Frames that steer the connection go first, in the order in which they
//! came. The frames of a message keep the order of their stream. Among the
//! streams that may send, the one with the largest window goes first, and
//! among those with equal windows the one whose frame came first. Bytes of a
//! body are sent as far as the window of their stream, the window of the
//! connection and the largest payload allow.

use vstd::prelude::*;
use crate::consts::DEFAULT_MAX_FRAME_SIZE;
use crate::error::ProtError;
use crate::http2::frame::{Flag, Frame, FrameHeader, FrameView, Kind, StreamIdentifier};
use crate::http2::send_response::{data_frame, effective_max, frames_view};

verus! {

/// The largest window that flow control allows: 2^31 - 1.
pub const MAX_WINDOW: u64 = 2_147_483_647;

/// The window of the stream `id` in a list of windows; `initial` where the
/// list does not name the stream.
pub open spec fn window_in(windows: Seq<(StreamIdentifier, u64)>, id: StreamIdentifier, initial: u64) -> u64
    decreases windows.len(),
{
    if windows.len() == 0 {
        initial
    } else if windows[0].0 == id {
        windows[0].1
    } else {
        window_in(windows.skip(1), id, initial)
    }
}

/// What a [`PriorityQueue`] holds.
pub struct QueueView {
    /// The frames that wait, in the order in which they came.
    pub queue: Seq<FrameView>,
    /// The windows of the streams that have sent bytes or got more room.
    pub windows: Seq<(StreamIdentifier, u64)>,
    /// The window of the connection.
    pub conn_window: u64,
    /// The window of a stream that is not named yet.
    pub initial_window: u64,
    /// The weights that the peer gave to streams, the last one first.
    pub weights: Seq<(StreamIdentifier, u8)>,
}

/// The smaller of two numbers.
pub open spec fn least(a: int, b: int) -> int {
    if a <= b {
        a
    } else {
        b
    }
}

impl QueueView {
    /// The window of the stream `id`.
    pub open spec fn window_of(self, id: StreamIdentifier) -> u64 {
        window_in(self.windows, id, self.initial_window)
    }

    /// The bytes that the stream `id` may send now: what its window and the
    /// window of the connection both allow.
    pub open spec fn credit(self, id: StreamIdentifier) -> int {
        least(self.window_of(id) as int, self.conn_window as int)
    }

    /// Whether the frame at `i` is the first frame of a message on its stream
    /// that waits.
    pub open spec fn is_head(self, i: int) -> bool {
        forall|j: int|
            0 <= j < i ==> (#[trigger] self.queue[j]).is_control() || self.queue[j].header().id
                != self.queue[i].header().id
    }

    /// Whether the frame at `i` can be sent now: it steers the connection, or
    /// it is the first of its stream and, if it holds bytes, its stream may
    /// send some.
    pub open spec fn eligible(self, i: int) -> bool {
        &&& 0 <= i < self.queue.len()
        &&& !self.queue[i].is_control()
        &&& self.is_head(i)
        &&& (self.queue[i].payload().len() == 0 || self.credit(self.queue[i].header().id) > 0)
    }

    /// Whether the frame at `i` goes before the frame at `j`: its stream has
    /// the larger window, or the same and it came first.
    pub open spec fn beats(self, i: int, j: int) -> bool {
        let wi = self.window_of(self.queue[i].header().id);
        let wj = self.window_of(self.queue[j].header().id);
        wi > wj || (wi == wj && i <= j)
    }

    /// Whether no frame that steers the connection waits in front of `i`.
    pub open spec fn no_control_before(self, i: int) -> bool {
        forall|j: int| 0 <= j < i ==> !(#[trigger] self.queue[j]).is_control()
    }

    /// Whether the frame at `i` is the one to send next.
    pub open spec fn is_next(self, i: int) -> bool {
        &&& 0 <= i < self.queue.len()
        &&& if self.queue[i].is_control() {
            self.no_control_before(i)
        } else {
            &&& self.no_control_before(self.queue.len() as int)
            &&& self.eligible(i)
            &&& forall|j: int| self.eligible(j) ==> self.beats(i, j)
        }
    }

    /// Whether nothing can be sent now.
    pub open spec fn is_blocked(self) -> bool {
        self.no_control_before(self.queue.len() as int) && forall|j: int| !self.eligible(j)
    }

    /// How many bytes of the frame at `i` go out now.
    pub open spec fn share(self, i: int, max: usize) -> int {
        least(
            self.queue[i].payload().len() as int,
            least(self.credit(self.queue[i].header().id), effective_max(max) as int),
        )
    }

    /// The queue after the stream `id`, or the connection if `id` is zero,
    /// got room for `increment` more bytes, and whether the window stayed in
    /// range: a window that would pass the largest window stays as it is.
    pub open spec fn window_updated(self, id: StreamIdentifier, increment: u32) -> (
        QueueView,
        bool,
    ) {
        let before = if id == 0 {
            self.conn_window
        } else {
            self.window_of(id)
        };
        if before + increment > MAX_WINDOW {
            (self, false)
        } else if id == 0 {
            (QueueView { conn_window: (before + increment) as u64, ..self }, true)
        } else {
            (
                QueueView {
                    windows: seq![(id, (before + increment) as u64)] + self.windows,
                    ..self
                },
                true,
            )
        }
    }

    /// The windows after the stream `id` sent `n` bytes: its window is named
    /// first in the list, smaller by `n`.
    pub open spec fn spent(self, id: StreamIdentifier, n: int) -> QueueView {
        QueueView {
            windows: seq![(id, (self.window_of(id) - n) as u64)] + self.windows,
            conn_window: (self.conn_window - n) as u64,
            ..self
        }
    }

    /// The queue after the frame at `i` went out, whole or in part, with what
    /// went out. A frame that steers the connection, or one without bytes,
    /// goes out as it is. Of a frame with bytes the share goes out; what is
    /// left keeps its place, and with it the end of the stream.
    pub open spec fn sent_at(self, i: int, max: usize) -> (QueueView, FrameView) {
        let frame = self.queue[i];
        let n = self.share(i, max);
        if frame.is_control() || !(frame is Data) {
            (QueueView { queue: self.queue.remove(i), ..self }, frame)
        } else if n == frame.payload().len() {
            (QueueView { queue: self.queue.remove(i), ..self }.spent(frame.header().id, n), frame)
        } else {
            (
                QueueView {
                    queue: self.queue.update(
                        i,
                        FrameView::Data {
                            header: frame.header(),
                            payload: frame.payload().skip(n),
                        },
                    ),
                    ..self
                }.spent(frame.header().id, n),
                data_frame(frame.header().id, frame.payload().take(n), false),
            )
        }
    }
}

/// The frames that wait to be sent, with the windows.
pub struct PriorityQueue {
    queue: Vec<Frame>,
    windows: Vec<(StreamIdentifier, u64)>,
    conn_window: u64,
    initial_window: u64,
    weights: Vec<(StreamIdentifier, u8)>,
}

impl View for PriorityQueue {
    type V = QueueView;

    closed spec fn view(&self) -> QueueView {
        QueueView {
            queue: frames_view(self.queue@),
            windows: self.windows@,
            conn_window: self.conn_window,
            initial_window: self.initial_window,
            weights: self.weights@,
        }
    }
}

impl PriorityQueue {
    /// An empty queue. Every stream starts with the window `initial_window`,
    /// the connection too.
    pub fn new(initial_window: u32) -> (q: PriorityQueue)
        ensures
            q@ == (QueueView {
                queue: Seq::empty(),
                windows: Seq::empty(),
                conn_window: initial_window as u64,
                initial_window: initial_window as u64,
                weights: Seq::empty(),
            }),
    {
        let q = PriorityQueue {
            queue: Vec::new(),
            windows: Vec::new(),
            conn_window: initial_window as u64,
            initial_window: initial_window as u64,
            weights: Vec::new(),
        };
        proof {
            assert(q@.queue =~= Seq::<FrameView>::empty());
        }
        q
    }

    /// Whether no frame waits.
    pub fn is_empty(&self) -> (r: bool)
        ensures
            r == (self@.queue.len() == 0),
    {
        self.queue.len() == 0
    }

    /// The number of frames that wait.
    pub fn len(&self) -> (n: usize)
        ensures
            n == self@.queue.len(),
    {
        self.queue.len()
    }

    /// Puts frames behind those that wait, in their order.
    pub fn send_frames(&mut self, _stream_id: StreamIdentifier, frames: Vec<Frame>) -> (r: Result<
        (),
        ProtError,
    >)
        ensures
            r is Ok,
            final(self)@ == (QueueView {
                queue: old(self)@.queue + frames_view(frames@),
                ..old(self)@
            }),
    {
        let mut more = frames;
        let ghost before = frames_view(self.queue@);
        self.queue.append(&mut more);
        proof {
            assert(frames_view(self.queue@) =~= before + frames_view(frames@));
        }
        Ok(())
    }

    /// Puts one frame behind those that wait.
    pub fn send_frame(&mut self, frame: Frame)
        ensures
            final(self)@ == (QueueView { queue: old(self)@.queue.push(frame@), ..old(self)@ }),
    {
        let ghost before = frames_view(self.queue@);
        self.queue.push(frame);
        proof {
            assert(frames_view(self.queue@) =~= before.push(frame@));
        }
    }

    /// The window of the stream `id`.
    pub fn window_of(&self, id: StreamIdentifier) -> (w: u64)
        ensures
            w == self@.window_of(id),
    {
        let mut i: usize = 0;
        proof {
            assert(self.windows@.skip(0) =~= self.windows@);
        }
        while i < self.windows.len()
            invariant
                i <= self.windows@.len(),
                self@.window_of(id) == window_in(
                    self.windows@.skip(i as int),
                    id,
                    self.initial_window,
                ),
            decreases self.windows@.len() - i,
        {
            proof {
                assert(self.windows@.skip(i as int)[0] == self.windows@[i as int]);
                assert(self.windows@.skip(i as int).skip(1) =~= self.windows@.skip(i + 1));
            }
            if self.windows[i].0 == id {
                return self.windows[i].1;
            }
            i = i + 1;
        }
        self.initial_window
    }

    /// Takes note of the weight that the peer gave to a stream.
    pub fn priority_recv(&mut self, id: StreamIdentifier, weight: u8)
        ensures
            final(self)@ == (QueueView {
                weights: seq![(id, weight)] + old(self)@.weights,
                ..old(self)@
            }),
    {
        let ghost list = self.weights@;
        self.weights.insert(0, (id, weight));
        proof {
            assert(self.weights@ =~= seq![(id, weight)] + list);
        }
    }

    /// The window of the connection.
    pub fn conn_window(&self) -> (w: u64)
        ensures
            w == self@.conn_window,
    {
        self.conn_window
    }

    /// Sets the window of every stream that is not named yet.
    pub fn set_initial_window(&mut self, initial_window: u32)
        ensures
            final(self)@ == (QueueView { initial_window: initial_window as u64, ..old(self)@ }),
    {
        self.initial_window = initial_window as u64;
    }

    /// Gives the stream `id`, or the connection if `id` is zero, room for
    /// `increment` more bytes. A window that would pass the largest window
    /// is an error of flow control and stays as it is.
    pub fn window_update(&mut self, id: StreamIdentifier, increment: u32) -> (r: Result<
        (),
        ProtError,
    >)
        ensures
            final(self)@ == old(self)@.window_updated(id, increment).0,
            r == if old(self)@.window_updated(id, increment).1 {
                Ok::<(), ProtError>(())
            } else {
                Err::<(), ProtError>(ProtError::FlowControl)
            },
    {
        if id == 0 {
            if self.conn_window > MAX_WINDOW || increment as u64 > MAX_WINDOW - self.conn_window {
                return Err(ProtError::FlowControl);
            }
            self.conn_window = self.conn_window + increment as u64;
        } else {
            let before = self.window_of(id);
            if before > MAX_WINDOW || increment as u64 > MAX_WINDOW - before {
                return Err(ProtError::FlowControl);
            }
            let ghost list = self.windows@;
            self.windows.insert(0, (id, before + increment as u64));
            proof {
                assert(self.windows@ =~= seq![(id, (before + increment) as u64)] + list);
            }
        }
        Ok(())
    }
}

impl PriorityQueue {
    /// The place of the first frame that steers the connection.
    fn first_control(&self) -> (r: Option<usize>)
        ensures
            match r {
                Some(i) => i < self@.queue.len() && self@.queue[i as int].is_control()
                    && self@.no_control_before(i as int),
                None => self@.no_control_before(self@.queue.len() as int),
            },
    {
        let mut i: usize = 0;
        while i < self.queue.len()
            invariant
                i <= self.queue@.len(),
                self@.no_control_before(i as int),
            decreases self.queue@.len() - i,
        {
            if self.queue[i].is_control() {
                return Some(i);
            }
            i = i + 1;
        }
        None
    }

    /// Whether the frame at `i` is the first frame of a message on its
    /// stream that waits.
    fn is_head_at(&self, i: usize) -> (r: bool)
        requires
            i < self@.queue.len(),
        ensures
            r == self@.is_head(i as int),
    {
        let id = self.queue[i].stream_id();
        let mut j: usize = 0;
        while j < i
            invariant
                j <= i,
                i < self.queue@.len(),
                id == self@.queue[i as int].header().id,
                forall|k: int|
                    0 <= k < j ==> (#[trigger] self@.queue[k]).is_control()
                        || self@.queue[k].header().id != id,
            decreases i - j,
        {
            if !self.queue[j].is_control() && self.queue[j].stream_id() == id {
                proof {
                    assert(!self@.queue[j as int].is_control() && self@.queue[j as int].header().id
                        == self@.queue[i as int].header().id);
                }
                return false;
            }
            j = j + 1;
        }
        true
    }

    /// The bytes that the stream `id` may send now.
    fn credit_of(&self, id: StreamIdentifier) -> (c: u64)
        ensures
            c == self@.credit(id),
    {
        let w = self.window_of(id);
        if w <= self.conn_window {
            w
        } else {
            self.conn_window
        }
    }

    /// Whether the frame at `i` can be sent now.
    fn is_eligible(&self, i: usize) -> (r: bool)
        requires
            i < self@.queue.len(),
        ensures
            r == self@.eligible(i as int),
    {
        if self.queue[i].is_control() {
            return false;
        }
        if !self.is_head_at(i) {
            return false;
        }
        self.queue[i].payload_len() == 0 || self.credit_of(self.queue[i].stream_id()) > 0
    }

    /// The place of the frame of a message that goes out next.
    fn pick(&self) -> (r: Option<usize>)
        ensures
            match r {
                Some(i) => self@.eligible(i as int) && forall|j: int|
                    self@.eligible(j) ==> self@.beats(i as int, j),
                None => forall|j: int| !self@.eligible(j),
            },
    {
        let mut best: Option<usize> = None;
        let mut best_window: u64 = 0;
        let mut k: usize = 0;
        while k < self.queue.len()
            invariant
                k <= self.queue@.len(),
                match best {
                    Some(b) => b < k && self@.eligible(b as int) && best_window == self@.window_of(
                        self@.queue[b as int].header().id,
                    ) && forall|j: int| 0 <= j < k && self@.eligible(j) ==> self@.beats(b as int, j),
                    None => forall|j: int| 0 <= j < k ==> !self@.eligible(j),
                },
            decreases self.queue@.len() - k,
        {
            if self.is_eligible(k) {
                let w = self.window_of(self.queue[k].stream_id());
                match best {
                    None => {
                        best = Some(k);
                        best_window = w;
                    },
                    Some(_) => {
                        if w > best_window {
                            best = Some(k);
                            best_window = w;
                        }
                    },
                }
            }
            k = k + 1;
        }
        best
    }

    /// Takes note that the stream `id` sends `n` bytes.
    fn spend(&mut self, id: StreamIdentifier, n: u64)
        requires
            n <= old(self)@.credit(id),
        ensures
            final(self)@ == old(self)@.spent(id, n as int),
    {
        let left = self.window_of(id) - n;
        let ghost list = self.windows@;
        self.windows.insert(0, (id, left));
        self.conn_window = self.conn_window - n;
        proof {
            assert(self.windows@ =~= seq![(id, left)] + list);
        }
    }

    /// Sends the frame at `i`, whole or in part: see [`QueueView::sent_at`].
    fn send_at(&mut self, i: usize, max_frame_size: usize) -> (frame: Frame)
        requires
            i < old(self)@.queue.len(),
        ensures
            final(self)@ == old(self)@.sent_at(i as int, max_frame_size).0,
            frame@ == old(self)@.sent_at(i as int, max_frame_size).1,
    {
        let ghost list = frames_view(self.queue@);
        let limit = if max_frame_size == 0 {
            DEFAULT_MAX_FRAME_SIZE
        } else {
            max_frame_size
        };
        let frame = self.queue.remove(i);
        proof {
            assert(frames_view(self.queue@) =~= list.remove(i as int));
            assert(list[i as int] == frame@);
        }
        match frame {
            Frame::Data { header, payload } => {
                let credit = self.credit_of(header.id);
                let len = payload.len();
                let mut n: usize = len;
                if (n as u64) > credit {
                    n = credit as usize;
                }
                if n > limit {
                    n = limit;
                }
                if n == len {
                    self.spend(header.id, n as u64);
                    Frame::Data { header, payload }
                } else {
                    let first = vstd::slice::slice_to_vec(
                        vstd::slice::slice_subrange(payload.as_slice(), 0, n),
                    );
                    let rest = vstd::slice::slice_to_vec(
                        vstd::slice::slice_subrange(payload.as_slice(), n, len),
                    );
                    let ghost removed = frames_view(self.queue@);
                    self.queue.insert(i, Frame::Data { header, payload: rest });
                    proof {
                        assert(rest@ =~= payload@.skip(n as int));
                        assert(first@ =~= payload@.take(n as int));
                        assert(frames_view(self.queue@) =~= list.update(
                            i as int,
                            FrameView::Data { header, payload: payload@.skip(n as int) },
                        ));
                    }
                    self.spend(header.id, n as u64);
                    Frame::Data {
                        header: FrameHeader::new(Kind::Data, Flag::zero(), header.id),
                        payload: first,
                    }
                }
            },
            other => other,
        }
    }

    /// Takes the next frame to send from the queue: see
    /// [`QueueView::is_next`] for the frame that goes next and
    /// [`QueueView::sent_at`] for what goes out of it. `None` while nothing
    /// can be sent.
    pub fn poll_handle(&mut self, max_frame_size: usize) -> (r: Option<Frame>)
        ensures
            match r {
                None => old(self)@.is_blocked() && final(self)@ == old(self)@,
                Some(frame) => exists|i: int|
                    #[trigger] old(self)@.is_next(i) && final(self)@ == old(self)@.sent_at(
                        i,
                        max_frame_size,
                    ).0 && frame@ == old(self)@.sent_at(i, max_frame_size).1,
            },
    {
        match self.first_control() {
            Some(i) => {
                proof {
                    assert(old(self)@.is_next(i as int));
                }
                Some(self.send_at(i, max_frame_size))
            },
            None => match self.pick() {
                Some(i) => {
                    proof {
                        assert(old(self)@.is_next(i as int));
                    }
                    Some(self.send_at(i, max_frame_size))
                },
                None => None,
            },
        }
    }
}

/// What goes out of a frame with bytes never passes what flow control
/// allows: no more bytes than the window of the stream, the window of the
/// connection and the largest payload allow, and both windows shrink by the
/// bytes that went out.
pub proof fn lemma_share_bounded(q: QueueView, i: int, max: usize)
    requires
        q.eligible(i),
        q.queue[i] is Data,
    ensures
        ({
            let id = q.queue[i].header().id;
            let s = q.sent_at(i, max);
            &&& s.1.payload().len() == q.share(i, max)
            &&& s.1.payload().len() <= q.window_of(id)
            &&& s.1.payload().len() <= q.conn_window
            &&& s.1.payload().len() <= effective_max(max)
            &&& s.0.window_of(id) == q.window_of(id) - s.1.payload().len()
            &&& s.0.conn_window == q.conn_window - s.1.payload().len()
            &&& s.1.payload() == q.queue[i].payload().take(q.share(i, max))
        }),
{
    let frame = q.queue[i];
    let n = q.share(i, max);
    assert(frame.payload().take(frame.payload().len() as int) =~= frame.payload());
    assert((seq![(frame.header().id, (q.window_of(frame.header().id) - n) as u64)]
        + q.windows).skip(1) =~= q.windows);
}

/// Flow control loses no byte and moves no end: a frame with bytes goes out
/// whole, or its first bytes go out in a frame that does not end the stream
/// while the rest keeps the place and the flags of the frame.
pub proof fn lemma_sent_keeps_bytes(q: QueueView, i: int, max: usize)
    requires
        0 <= i < q.queue.len(),
        q.queue[i] is Data,
        q.credit(q.queue[i].header().id) >= 0,
    ensures
        ({
            let frame = q.queue[i];
            let s = q.sent_at(i, max);
            if q.share(i, max) == frame.payload().len() {
                s.1 == frame && s.0.queue == q.queue.remove(i)
            } else {
                &&& s.0.queue.len() == q.queue.len()
                &&& s.1.payload() + s.0.queue[i].payload() == frame.payload()
                &&& s.0.queue[i].header() == frame.header()
                &&& s.1.header().id == frame.header().id
                &&& !s.1.header().flag.end_stream
            }
        }),
{
    let frame = q.queue[i];
    let n = q.share(i, max);
    if n != frame.payload().len() {
        assert(frame.payload().take(n) + frame.payload().skip(n) =~= frame.payload());
    }
}

/// Whether `frames` are what went out of the queue `from`, one after the
/// other, each the frame that was next, and left the queue `to`.
pub open spec fn drained(from: QueueView, frames: Seq<FrameView>, to: QueueView, max: usize) -> bool
    decreases frames.len(),
{
    if frames.len() == 0 {
        to == from
    } else {
        exists|i: int|
            #[trigger] from.is_next(i) && frames[0] == from.sent_at(i, max).1 && drained(
                from.sent_at(i, max).0,
                frames.skip(1),
                to,
                max,
            )
    }
}

/// What went out of a queue can be followed by what goes out next.
pub proof fn lemma_drained_push(
    from: QueueView,
    frames: Seq<FrameView>,
    to: QueueView,
    max: usize,
    i: int,
)
    requires
        drained(from, frames, to, max),
        to.is_next(i),
    ensures
        drained(from, frames.push(to.sent_at(i, max).1), to.sent_at(i, max).0, max),
    decreases frames.len(),
{
    let more = frames.push(to.sent_at(i, max).1);
    if frames.len() == 0 {
        assert(more.skip(1) =~= Seq::<FrameView>::empty());
        assert(drained(to.sent_at(i, max).0, more.skip(1), to.sent_at(i, max).0, max));
        assert(from.is_next(i));
    } else {
        let k = choose|k: int|
            #[trigger] from.is_next(k) && frames[0] == from.sent_at(k, max).1 && drained(
                from.sent_at(k, max).0,
                frames.skip(1),
                to,
                max,
            );
        lemma_drained_push(from.sent_at(k, max).0, frames.skip(1), to, max, i);
        assert(more.skip(1) =~= frames.skip(1).push(to.sent_at(i, max).1));
        assert(from.is_next(k));
    }
}

} // verus!
