//! Buffered, penalty-aware adapter around one transport.
//!
//! The adapter owns a fixed send buffer and decides everything about
//! it: what fits, when to compact, when a synchronous drain is forced,
//! how a flush advances, when a penalty window refuses I/O, and how a
//! terminal error latches.  The caller owns the real socket or serial
//! port: where a step needs I/O the adapter hands out a plan, the
//! caller performs one transport call and reports the outcome back.

use vstd::prelude::*;

use crate::IoErrorKind;
use crate::connection::Connection;

verus! {

/// Size of the send buffer in bytes.
pub const BUFFER_CAPACITY: usize = 65536;

/// Answer of `write_later`: the bytes were buffered, or the buffer
/// must first be drained synchronously.
#[derive(Clone, Copy, Debug, PartialEq, Eq, Structural)]
pub enum WriteQueued {
    Buffered,
    DrainFirst,
}

/// What the caller must do to flush: one transport write of the
/// pending bytes, in this blocking mode.
#[derive(Clone, Copy, Debug, PartialEq, Eq, Structural)]
pub struct FlushPlan {
    pub nonblocking: bool,
}

/// Outcome of one transport write attempt, as reported back.
#[derive(Clone, Copy, Debug, PartialEq, Eq, Structural)]
pub enum WriteAttempt {
    Wrote(usize),
    WouldBlock,
    Failed(IoErrorKind),
}

/// What the caller must do to read: one read call in this blocking
/// mode, filling the whole buffer (`exact`) or taking what is there.
#[derive(Clone, Copy, Debug, PartialEq, Eq, Structural)]
pub struct ReadPlan {
    pub nonblocking: bool,
    pub exact: bool,
}

/// Answer of a queueing write: nothing left to do, one flush attempt
/// owed, or a synchronous drain owed because the buffer is full.
#[derive(Clone, Copy, Debug, PartialEq, Eq, Structural)]
pub enum WriteStep {
    Idle,
    Flush(FlushPlan),
    Drain,
}

/// The buffered adapter.  Its observable state: the transport record,
/// the pending bytes (queued, not yet handed to the transport), the
/// flushed bytes (handed to the transport, in order), a latched
/// terminal error, the accumulated synchronous-drain delay, and the
/// penalty deadline before which it refuses I/O.
pub struct SocketAdapter {
    pub internal: Connection,
    buf: Vec<u8>,
    written: usize,
    to_write: usize,
    broken: Option<IoErrorKind>,
    accumulated_delay: u128,
    ignore_until: Option<u128>,
    flushed: Ghost<Seq<u8>>,
}

impl SocketAdapter {
    /// Structural invariant of the buffer bookkeeping.
    pub closed spec fn wf(self) -> bool {
        self.buf@.len() == BUFFER_CAPACITY && self.written + self.to_write <= BUFFER_CAPACITY
    }

    /// Bytes queued and not yet handed to the transport.
    pub closed spec fn pending_view(self) -> Seq<u8> {
        self.buf@.subrange(self.written as int, self.written + self.to_write)
    }

    /// Bytes handed to the transport so far, in order.
    pub closed spec fn flushed_view(self) -> Seq<u8> {
        self.flushed@
    }

    /// Every byte accepted so far, in order: flushed first, pending
    /// after.
    pub open spec fn submitted_view(self) -> Seq<u8> {
        self.flushed_view() + self.pending_view()
    }

    /// The latched terminal error, if any.
    pub closed spec fn broken_view(self) -> Option<IoErrorKind> {
        self.broken
    }

    /// The transport record.
    pub closed spec fn conn_view(self) -> Connection {
        self.internal
    }

    /// Microseconds of synchronous drain time since last cleared.
    pub closed spec fn delay_view(self) -> u128 {
        self.accumulated_delay
    }

    /// The penalty deadline, if one is set.
    pub closed spec fn ignore_view(self) -> Option<u128> {
        self.ignore_until
    }

    /// Whether I/O is allowed at time `now`: it is unless a penalty
    /// deadline is set and still ahead.
    pub open spec fn gate_open_at(self, now: u128) -> bool {
        match self.ignore_view() {
            Some(t) => now >= t,
            None => true,
        }
    }

    /// Same observable state: nothing a contract speaks of changed.
    pub open spec fn same_obs(self, other: SocketAdapter) -> bool {
        other.conn_view() == self.conn_view() && other.pending_view() == self.pending_view()
            && other.flushed_view() == self.flushed_view() && other.broken_view()
            == self.broken_view() && other.delay_view() == self.delay_view()
            && other.ignore_view() == self.ignore_view()
    }

    /// A fresh adapter over `internal`: empty buffer, no error, no
    /// delay, no penalty.
    pub fn new(internal: Connection) -> (r: SocketAdapter)
        ensures
            r.wf(),
            r.conn_view() == internal,
            r.pending_view() == Seq::<u8>::empty(),
            r.flushed_view() == Seq::<u8>::empty(),
            r.broken_view() is None,
            r.delay_view() == 0,
            r.ignore_view() is None,
    {
        let mut buf: Vec<u8> = Vec::new();
        let mut i: usize = 0;
        while i < BUFFER_CAPACITY
            invariant
                i <= BUFFER_CAPACITY,
                buf@.len() == i,
            decreases BUFFER_CAPACITY - i,
        {
            buf.push(0);
            i = i + 1;
        }
        let r = SocketAdapter {
            internal,
            buf,
            written: 0,
            to_write: 0,
            broken: None,
            accumulated_delay: 0,
            ignore_until: None,
            flushed: Ghost(Seq::empty()),
        };
        proof {
            assert(r.pending_view() =~= Seq::<u8>::empty());
        }
        r
    }

    /// Move the pending region to the front of the buffer, freeing the
    /// space of already-flushed bytes.
    fn compact(&mut self)
        requires
            old(self).wf(),
        ensures
            final(self).wf(),
            final(self).same_obs(*old(self)),
            final(self).pending_start() == 0,
            final(self).pending_len() == old(self).pending_len(),
    {
        let w = self.written;
        let n = self.to_write;
        let ghost pre = self.buf@;
        let mut i: usize = 0;
        while i < n
            invariant
                i <= n,
                w + n <= BUFFER_CAPACITY,
                self.buf@.len() == BUFFER_CAPACITY,
                self.written == w,
                self.to_write == n,
                self.broken == old(self).broken,
                self.accumulated_delay == old(self).accumulated_delay,
                self.ignore_until == old(self).ignore_until,
                self.conn_view() == old(self).conn_view(),
                self.flushed == old(self).flushed,
                forall|j: int| 0 <= j < i ==> #[trigger] self.buf@[j] == pre[w + j],
                forall|j: int| i <= j < n ==> #[trigger] self.buf@[w + j] == pre[w + j],
            decreases n - i,
        {
            let b = self.buf[w + i];
            self.buf.set(i, b);
            i = i + 1;
        }
        self.written = 0;
        proof {
            assert(self.pending_view() =~= old(self).pending_view());
        }
    }

    /// Where the pending region starts in the buffer.
    pub closed spec fn pending_start(self) -> int {
        self.written as int
    }

    /// Length of the pending region.
    pub closed spec fn pending_len(self) -> int {
        self.to_write as int
    }

    /// Queue `data` behind whatever is already pending, compacting the
    /// buffer if the free tail is too short.  When even the compacted
    /// buffer cannot take it, nothing changes and the caller is told
    /// to drain synchronously first.  A latched error fails instead.
    pub fn write_later(&mut self, data: &[u8]) -> (r: Result<WriteQueued, IoErrorKind>)
        requires
            old(self).wf(),
            data@.len() <= BUFFER_CAPACITY,
        ensures
            final(self).wf(),
            ({
                let pre = *old(self);
                let post = *final(self);
                match r {
                    Err(k) => pre.broken_view() == Some(k) && post.same_obs(pre),
                    Ok(WriteQueued::Buffered) => {
                        &&& pre.broken_view() is None
                        &&& pre.pending_view().len() + data@.len() <= BUFFER_CAPACITY
                        &&& post.pending_view() == pre.pending_view() + data@
                        &&& post.flushed_view() == pre.flushed_view()
                        &&& post.submitted_view() == pre.submitted_view() + data@
                        &&& post.broken_view() is None
                        &&& post.delay_view() == pre.delay_view()
                        &&& post.ignore_view() == pre.ignore_view()
                        &&& post.conn_view() == pre.conn_view()
                    },
                    Ok(WriteQueued::DrainFirst) => {
                        &&& pre.broken_view() is None
                        &&& pre.pending_view().len() + data@.len() > BUFFER_CAPACITY
                        &&& post.same_obs(pre)
                    },
                }
            }),
    {
        if let Some(k) = self.broken {
            return Err(k);
        }
        if data.len() > BUFFER_CAPACITY - self.to_write {
            return Ok(WriteQueued::DrainFirst);
        }
        if data.len() > BUFFER_CAPACITY - self.to_write - self.written {
            self.compact();
        }
        let base = self.written + self.to_write;
        let ghost pre = self.buf@;
        let ghost pre_pending = self.pending_view();
        let w = self.written;
        let n = self.to_write;
        let mut i: usize = 0;
        while i < data.len()
            invariant
                i <= data@.len(),
                w + n + data@.len() <= BUFFER_CAPACITY,
                base == w + n,
                self.buf@.len() == BUFFER_CAPACITY,
                self.written == w,
                self.to_write == n,
                self.broken == old(self).broken,
                self.accumulated_delay == old(self).accumulated_delay,
                self.ignore_until == old(self).ignore_until,
                self.conn_view() == old(self).conn_view(),
                self.flushed == old(self).flushed,
                forall|j: int| 0 <= j < base ==> #[trigger] self.buf@[j] == pre[j],
                forall|j: int| 0 <= j < i ==> #[trigger] self.buf@[base + j] == data@[j],
            decreases data@.len() - i,
        {
            let b = data[i];
            self.buf.set(base + i, b);
            i = i + 1;
        }
        self.to_write = self.to_write + data.len();
        proof {
            assert(self.pending_view().len() == n + data@.len());
            assert forall|k: int| 0 <= k < n + data@.len() implies #[trigger] self.pending_view()[k]
                == (pre_pending + data@)[k] by {
                assert(self.pending_view()[k] == self.buf@[w + k]);
                if k < n {
                    assert(self.buf@[w + k] == pre[w + k]);
                    assert(pre_pending[k] == pre[w + k]);
                } else {
                    assert(self.buf@[base + (k - n)] == data@[k - n]);
                }
            }
            assert(self.pending_view() =~= pre_pending + data@);
        }
        Ok(WriteQueued::Buffered)
    }

    /// A copy of the pending bytes, for the caller to hand to the
    /// transport.
    pub fn pending_bytes(&self) -> (r: Vec<u8>)
        requires
            self.wf(),
        ensures
            r@ == self.pending_view(),
    {
        let mut out: Vec<u8> = Vec::new();
        let w = self.written;
        let n = self.to_write;
        let mut i: usize = 0;
        while i < n
            invariant
                i <= n,
                w + n <= BUFFER_CAPACITY,
                self.buf@.len() == BUFFER_CAPACITY,
                self.written == w,
                self.to_write == n,
                out@ == self.buf@.subrange(w as int, w + i),
            decreases n - i,
        {
            out.push(self.buf[w + i]);
            i = i + 1;
            proof {
                assert(out@ =~= self.buf@.subrange(w as int, w + i));
            }
        }
        out
    }

    /// Book a finished synchronous drain: the caller blocking-wrote
    /// the whole pending region, took `elapsed` microseconds doing it,
    /// and now `data` (the bytes that had not fit) becomes the entire
    /// buffer content.  The delay is added to the account the peer
    /// will be told about.  On a failed drain nothing changes.
    pub fn drain_done(
        &mut self,
        data: &[u8],
        elapsed: u128,
        io: Result<(), IoErrorKind>,
    ) -> (r: Result<(), IoErrorKind>)
        requires
            old(self).wf(),
            old(self).broken_view() is None,
            data@.len() <= BUFFER_CAPACITY,
        ensures
            final(self).wf(),
            ({
                let pre = *old(self);
                let post = *final(self);
                match io {
                    Ok(()) => {
                        &&& r == Ok::<(), IoErrorKind>(())
                        &&& post.pending_view() == data@
                        &&& post.flushed_view() == pre.flushed_view() + pre.pending_view()
                        &&& post.submitted_view() == pre.submitted_view() + data@
                        &&& post.broken_view() is None
                        &&& post.ignore_view() == pre.ignore_view()
                        &&& post.conn_view() == pre.conn_view()
                        &&& (elapsed <= u128::MAX - pre.delay_view() ==> post.delay_view()
                            == pre.delay_view() + elapsed)
                        &&& post.delay_view() >= pre.delay_view()
                    },
                    Err(k) => r == Err::<(), IoErrorKind>(k) && post.same_obs(pre),
                }
            }),
    {
        match io {
            Ok(()) => {
                let ghost pre_pending = self.pending_view();
                self.flushed = Ghost(self.flushed@ + pre_pending);
                self.written = 0;
                self.to_write = 0;
                proof {
                    assert(self.pending_view() =~= Seq::<u8>::empty());
                }
                let queued = self.write_later(data);
                proof {
                    assert(queued == Ok::<WriteQueued, IoErrorKind>(WriteQueued::Buffered));
                    assert(self.pending_view() =~= data@);
                }
                if elapsed > u128::MAX - self.accumulated_delay {
                    self.accumulated_delay = u128::MAX;
                } else {
                    self.accumulated_delay = self.accumulated_delay + elapsed;
                }
                Ok(())
            },
            Err(k) => Err(k),
        }
    }

    /// Begin a forced full flush in blocking mode.  `Ok(true)` asks
    /// the caller to blocking-write the whole pending region and
    /// report through `write_now_done`; `Ok(false)` means there was
    /// nothing to flush; a latched error fails.
    pub fn write_now(&self) -> (r: Result<bool, IoErrorKind>)
        requires
            self.wf(),
        ensures
            match r {
                Err(k) => self.broken_view() == Some(k),
                Ok(false) => self.broken_view() is None && self.pending_view().len() == 0,
                Ok(true) => self.broken_view() is None && self.pending_view().len() > 0,
            },
    {
        if let Some(k) = self.broken {
            return Err(k);
        }
        if self.to_write == 0 {
            return Ok(false);
        }
        Ok(true)
    }

    /// Book the outcome of the forced flush: success empties the
    /// buffer; failure latches the error.
    pub fn write_now_done(&mut self, io: Result<(), IoErrorKind>) -> (r: Result<
        (),
        IoErrorKind,
    >)
        requires
            old(self).wf(),
        ensures
            final(self).wf(),
            final(self).conn_view() == old(self).conn_view(),
            final(self).delay_view() == old(self).delay_view(),
            final(self).ignore_view() == old(self).ignore_view(),
            ({
                let pre = *old(self);
                let post = *final(self);
                match io {
                    Ok(()) => {
                        &&& r == Ok::<(), IoErrorKind>(())
                        &&& post.pending_view() == Seq::<u8>::empty()
                        &&& post.flushed_view() == pre.flushed_view() + pre.pending_view()
                        &&& post.submitted_view() == pre.submitted_view()
                        &&& post.broken_view() == pre.broken_view()
                    },
                    Err(k) => {
                        &&& r == Err::<(), IoErrorKind>(k)
                        &&& post.broken_view() == Some(k)
                        &&& post.pending_view() == pre.pending_view()
                        &&& post.flushed_view() == pre.flushed_view()
                    },
                }
            }),
    {
        match io {
            Ok(()) => {
                let ghost pre_pending = self.pending_view();
                self.flushed = Ghost(self.flushed@ + pre_pending);
                self.written = 0;
                self.to_write = 0;
                proof {
                    assert(self.pending_view() =~= Seq::<u8>::empty());
                }
                Ok(())
            },
            Err(k) => {
                self.broken = Some(k);
                Err(k)
            },
        }
    }

    /// Begin a best-effort flush at time `now`.  Inside a penalty
    /// window or with nothing pending there is no work; a latched
    /// error fails; otherwise the caller gets the plan: one write of
    /// the pending region, non-blocking unless the link is serial,
    /// reported through `update_done`.
    pub fn update(&self, now: u128) -> (r: Result<Option<FlushPlan>, IoErrorKind>)
        requires
            self.wf(),
        ensures
            match r {
                Err(k) => self.gate_open_at(now) && self.broken_view() == Some(k),
                Ok(None) => !self.gate_open_at(now) || (self.broken_view() is None
                    && self.pending_view().len() == 0),
                Ok(Some(plan)) => self.gate_open_at(now) && self.broken_view() is None
                    && self.pending_view().len() > 0 && plan.nonblocking == !self.conn_view().serial,
            },
    {
        if let Some(t) = self.ignore_until {
            if now < t {
                return Ok(None);
            }
        }
        if let Some(k) = self.broken {
            return Err(k);
        }
        if self.to_write == 0 {
            return Ok(None);
        }
        Ok(Some(FlushPlan { nonblocking: !self.internal.serial }))
    }

    /// Book the outcome of a best-effort flush: `Wrote(n)` hands the
    /// first `n` pending bytes to the transport; `WouldBlock` is
    /// success with no progress; any other failure latches.
    pub fn update_done(&mut self, io: WriteAttempt) -> (r: Result<(), IoErrorKind>)
        requires
            old(self).wf(),
            io matches WriteAttempt::Wrote(n) ==> n <= old(self).pending_view().len(),
        ensures
            final(self).wf(),
            final(self).conn_view() == old(self).conn_view(),
            final(self).delay_view() == old(self).delay_view(),
            final(self).ignore_view() == old(self).ignore_view(),
            ({
                let pre = *old(self);
                let post = *final(self);
                match io {
                    WriteAttempt::Wrote(n) => {
                        &&& r == Ok::<(), IoErrorKind>(())
                        &&& post.pending_view() == pre.pending_view().skip(n as int)
                        &&& post.flushed_view() == pre.flushed_view() + pre.pending_view().take(
                            n as int,
                        )
                        &&& post.submitted_view() == pre.submitted_view()
                        &&& post.broken_view() == pre.broken_view()
                    },
                    WriteAttempt::WouldBlock => r == Ok::<(), IoErrorKind>(()) && post.same_obs(
                        pre,
                    ),
                    WriteAttempt::Failed(k) => {
                        &&& r == Err::<(), IoErrorKind>(k)
                        &&& post.broken_view() == Some(k)
                        &&& post.pending_view() == pre.pending_view()
                        &&& post.flushed_view() == pre.flushed_view()
                    },
                }
            }),
    {
        match io {
            WriteAttempt::Wrote(n) => {
                let ghost pre_pending = self.pending_view();
                self.flushed = Ghost(self.flushed@ + pre_pending.take(n as int));
                self.to_write = self.to_write - n;
                self.written = self.written + n;
                if self.to_write == 0 {
                    self.written = 0;
                }
                proof {
                    assert(self.pending_view() =~= pre_pending.skip(n as int));
                    assert(self.flushed_view() + self.pending_view() =~= old(
                        self,
                    ).flushed_view() + pre_pending);
                }
                Ok(())
            },
            WriteAttempt::WouldBlock => Ok(()),
            WriteAttempt::Failed(k) => {
                self.broken = Some(k);
                Err(k)
            },
        }
    }

    /// Whether I/O is allowed at time `now`: the penalty window has
    /// no say only once it has elapsed.
    pub fn io_allowed(&self, now: u128) -> (r: bool)
        ensures
            r == self.gate_open_at(now),
    {
        match self.ignore_until {
            Some(t) => now >= t,
            None => true,
        }
    }

    /// Queue `data` and begin a best-effort flush at time `now`: the
    /// one-call form of `write_later` then `update`.
    pub fn write(&mut self, data: &[u8], now: u128) -> (r: Result<WriteStep, IoErrorKind>)
        requires
            old(self).wf(),
            data@.len() <= BUFFER_CAPACITY,
        ensures
            final(self).wf(),
            ({
                let pre = *old(self);
                let post = *final(self);
                match r {
                    Err(k) => pre.broken_view() == Some(k) && post.same_obs(pre),
                    Ok(WriteStep::Drain) => {
                        &&& pre.broken_view() is None
                        &&& pre.pending_view().len() + data@.len() > BUFFER_CAPACITY
                        &&& post.same_obs(pre)
                    },
                    Ok(WriteStep::Idle) => {
                        &&& pre.broken_view() is None
                        &&& post.pending_view() == pre.pending_view() + data@
                        &&& post.flushed_view() == pre.flushed_view()
                        &&& post.broken_view() is None
                        &&& post.ignore_view() == pre.ignore_view()
                        &&& post.conn_view() == pre.conn_view()
                        &&& (!post.gate_open_at(now) || post.pending_view().len() == 0)
                    },
                    Ok(WriteStep::Flush(plan)) => {
                        &&& pre.broken_view() is None
                        &&& post.pending_view() == pre.pending_view() + data@
                        &&& post.flushed_view() == pre.flushed_view()
                        &&& post.broken_view() is None
                        &&& post.ignore_view() == pre.ignore_view()
                        &&& post.conn_view() == pre.conn_view()
                        &&& post.gate_open_at(now)
                        &&& post.pending_view().len() > 0
                        &&& plan.nonblocking == !post.conn_view().serial
                    },
                }
            }),
    {
        match self.write_later(data) {
            Err(k) => Err(k),
            Ok(WriteQueued::DrainFirst) => Ok(WriteStep::Drain),
            Ok(WriteQueued::Buffered) => {
                match self.update(now) {
                    Err(k) => Err(k),
                    Ok(None) => Ok(WriteStep::Idle),
                    Ok(Some(plan)) => Ok(WriteStep::Flush(plan)),
                }
            },
        }
    }

    /// Gate a non-blocking read at time `now`: inside a penalty window
    /// the caller reports no data without touching the transport; else
    /// it performs one non-blocking read of whatever is there.  The
    /// loop flushes with `update` before it polls, as the adapter's
    /// reads push no bytes themselves.
    pub fn poll(&self, now: u128) -> (r: Option<ReadPlan>)
        ensures
            self.gate_open_at(now) ==> r == Some(ReadPlan { nonblocking: true, exact: false }),
            !self.gate_open_at(now) ==> r is None,
    {
        if !self.io_allowed(now) {
            return None;
        }
        Some(ReadPlan { nonblocking: true, exact: false })
    }

    /// Gate a non-blocking exact read at time `now`: as `poll`, but
    /// the caller must fill the whole buffer or report `WouldBlock`.
    pub fn poll_exact(&self, now: u128) -> (r: Option<ReadPlan>)
        ensures
            self.gate_open_at(now) ==> r == Some(ReadPlan { nonblocking: true, exact: true }),
            !self.gate_open_at(now) ==> r is None,
    {
        if !self.io_allowed(now) {
            return None;
        }
        Some(ReadPlan { nonblocking: true, exact: true })
    }

    /// Gate a blocking exact read at time `now`: as `poll_exact`, but
    /// the transport is put in blocking mode first.
    pub fn read_now(&self, now: u128) -> (r: Option<ReadPlan>)
        ensures
            self.gate_open_at(now) ==> r == Some(ReadPlan { nonblocking: false, exact: true }),
            !self.gate_open_at(now) ==> r is None,
    {
        if !self.io_allowed(now) {
            return None;
        }
        Some(ReadPlan { nonblocking: false, exact: true })
    }

    /// Return and zero the accumulated synchronous-drain delay.
    pub fn clear_delay(&mut self) -> (r: u128)
        requires
            old(self).wf(),
        ensures
            final(self).wf(),
            r == old(self).delay_view(),
            final(self).delay_view() == 0,
            final(self).pending_view() == old(self).pending_view(),
            final(self).flushed_view() == old(self).flushed_view(),
            final(self).broken_view() == old(self).broken_view(),
            final(self).ignore_view() == old(self).ignore_view(),
            final(self).conn_view() == old(self).conn_view(),
    {
        let r = self.accumulated_delay;
        self.accumulated_delay = 0;
        r
    }

    /// Extend the penalty window by `time` microseconds: from `now`
    /// when none is set or the old one already expired, from the old
    /// deadline otherwise, so rapid penalties never compound from a
    /// stale base.  A set deadline never moves backwards.
    pub fn punish(&mut self, now: u128, time: u128)
        requires
            old(self).wf(),
        ensures
            final(self).wf(),
            old(self).ignore_view() matches Some(t) ==> final(self).ignore_view()->0 >= t,
            ({
                let base = match old(self).ignore_view() {
                    Some(t) => if t > now {
                        t
                    } else {
                        now
                    },
                    None => now,
                };
                if time <= u128::MAX - base {
                    final(self).ignore_view() == Some((base + time) as u128)
                } else {
                    final(self).ignore_view() == Some(u128::MAX)
                }
            }),
            final(self).pending_view() == old(self).pending_view(),
            final(self).flushed_view() == old(self).flushed_view(),
            final(self).broken_view() == old(self).broken_view(),
            final(self).delay_view() == old(self).delay_view(),
            final(self).conn_view() == old(self).conn_view(),
    {
        let base = match self.ignore_until {
            Some(t) => if t > now {
                t
            } else {
                now
            },
            None => now,
        };
        if time > u128::MAX - base {
            self.ignore_until = Some(u128::MAX);
        } else {
            self.ignore_until = Some(base + time);
        }
    }

    /// Buffer compaction correctness: at every state the adapter can
    /// be in, the bytes handed to the transport are a prefix of the
    /// bytes submitted, and together with the pending bytes they are
    /// exactly the submitted bytes in order — nothing is lost,
    /// duplicated or reordered by compaction, drains or partial
    /// flushes.
    pub proof fn lemma_no_bytes_lost(self)
        requires
            self.wf(),
        ensures
            self.flushed_view() + self.pending_view() == self.submitted_view(),
            self.flushed_view().is_prefix_of(self.submitted_view()),
    {
        assert(self.flushed_view().is_prefix_of(self.flushed_view() + self.pending_view()));
    }

    /// Penalty reciprocity, local half: once `punish(now, delta)` has
    /// run, no I/O is allowed at any time before `now + delta`.
    pub proof fn lemma_penalty_blocks(pre: SocketAdapter, post: SocketAdapter, now: u128, delta: u128, t: u128)
        requires
            pre.wf(),
            now + delta <= u128::MAX,
            ({
                let base = match pre.ignore_view() {
                    Some(b) => if b > now {
                        b
                    } else {
                        now
                    },
                    None => now,
                };
                (base + delta <= u128::MAX && post.ignore_view() == Some((base + delta) as u128))
                    || post.ignore_view() == Some(u128::MAX)
            }),
            t < now + delta,
        ensures
            !post.gate_open_at(t),
    {
    }
}

} // verus!
