//! The transport as the protocol sees it.
//!
//! The real byte stream (TCP socket or serial port) lives with the
//! caller; this record tracks what the logic needs to know of it and
//! holds the decision rules that do not need the device: how an exact
//! read proceeds from each single read outcome, and when the
//! throughput meter emits a report.

use vstd::prelude::*;

use crate::IoErrorKind;

verus! {

/// State of one transport as the protocol logic sees it: which flavour
/// it is, the blocking mode it was last told to take, whether its
/// throughput report is enabled, and whether it was shut down.
#[derive(Clone, Copy, Debug, PartialEq, Eq, Structural)]
pub struct Connection {
    pub serial: bool,
    pub nonblocking: bool,
    pub print_enabled: bool,
    pub closed: bool,
}

impl Connection {
    /// A fresh transport: blocking, not closed.
    pub fn new(serial: bool, print_enabled: bool) -> (r: Connection)
        ensures
            r == (Connection { serial, nonblocking: false, print_enabled, closed: false }),
    {
        Connection { serial, nonblocking: false, print_enabled, closed: false }
    }

    /// The blocking mode the transport was last put in.
    pub fn is_nonblocking(&self) -> (r: bool)
        ensures
            r == self.nonblocking,
    {
        self.nonblocking
    }

    /// Record the blocking mode; the caller applies it to the real
    /// transport.
    pub fn set_nonblocking(&mut self, nonblocking: bool)
        ensures
            *final(self) == (Connection { nonblocking, ..*old(self) }),
    {
        self.nonblocking = nonblocking;
    }

    /// Record the shutdown; the caller performs it.
    pub fn close(&mut self)
        ensures
            *final(self) == (Connection { closed: true, ..*old(self) }),
    {
        self.closed = true;
    }

    /// Whether this is a serial link (whose non-blocking mode is
    /// emulated with a zero read timeout).
    pub fn is_serial(&self) -> (r: bool)
        ensures
            r == self.serial,
    {
        self.serial
    }

    /// Toggle throughput reporting, so a resync can go quiet.
    pub fn set_print(&mut self, print_enabled: bool)
        ensures
            *final(self) == (Connection { print_enabled, ..*old(self) }),
    {
        self.print_enabled = print_enabled;
    }
}

/// What an exact read should do after one raw read attempt, given the
/// blocking mode and how many bytes are still owed.
#[derive(Clone, Copy, Debug, PartialEq, Eq, Structural)]
pub enum ReadStep {
    Advance(usize),
    Retry,
    Fail(IoErrorKind),
}

/// One decision of the exact-read loop: a zero-byte read under
/// non-blocking mode would otherwise spin, so it becomes `WouldBlock`;
/// under blocking mode it is retried; an interrupted call is retried;
/// progress advances; any other error fails the read.
pub fn read_exact_step(nonblocking: bool, remaining: usize, outcome: Result<
    usize,
    IoErrorKind,
>) -> (r: ReadStep)
    requires
        outcome matches Ok(n) ==> n <= remaining,
    ensures
        match outcome {
            Ok(n) => if n == 0 && nonblocking {
                r == ReadStep::Fail(IoErrorKind::WouldBlock)
            } else if n == 0 {
                r == ReadStep::Retry
            } else {
                r == ReadStep::Advance(n)
            },
            Err(k) => if k == IoErrorKind::Interrupted {
                r == ReadStep::Retry
            } else {
                r == ReadStep::Fail(k)
            },
        },
{
    match outcome {
        Ok(0) => if nonblocking {
            ReadStep::Fail(IoErrorKind::WouldBlock)
        } else {
            ReadStep::Retry
        },
        Ok(n) => ReadStep::Advance(n),
        Err(IoErrorKind::Interrupted) => ReadStep::Retry,
        Err(k) => ReadStep::Fail(k),
    }
}

/// Microseconds between two throughput reports.
pub const REPORT_INTERVAL_MICROS: u128 = 1000000;

/// The moving byte count behind the once-a-second status line.
#[derive(Clone, Copy, Debug, PartialEq, Eq, Structural)]
pub struct ThroughputStat {
    pub bytes: u128,
    pub last_bytes: u128,
    pub last_report: u128,
}

impl ThroughputStat {
    /// The reported count never runs ahead of the total count.
    pub open spec fn wf(self) -> bool {
        self.last_bytes <= self.bytes
    }

    /// A meter started at time `now` with nothing counted.
    pub fn new(now: u128) -> (r: ThroughputStat)
        ensures
            r == (ThroughputStat { bytes: 0, last_bytes: 0, last_report: now }),
    {
        ThroughputStat { bytes: 0, last_bytes: 0, last_report: now }
    }

    /// Count `add` transferred bytes at time `now`.  Once at least a
    /// report interval has passed since the last report, the count
    /// since then and the total are handed back for display and the
    /// meter rolls over.
    pub fn record(&mut self, add: usize, now: u128) -> (r: Option<(u128, u128)>)
        requires
            old(self).wf(),
            add + old(self).bytes <= u128::MAX,
        ensures
            final(self).wf(),
            final(self).bytes == old(self).bytes + add,
            ({
                let total = (old(self).bytes + add) as u128;
                if now >= old(self).last_report + REPORT_INTERVAL_MICROS {
                    &&& r == Some(((total - old(self).last_bytes) as u128, total))
                    &&& final(self).last_bytes == total
                    &&& final(self).last_report == now
                    &&& old(self).last_bytes <= total
                } else {
                    &&& r is None
                    &&& final(self).last_bytes == old(self).last_bytes
                    &&& final(self).last_report == old(self).last_report
                }
            }),
    {
        self.bytes = self.bytes + (add as u128);
        if now < self.last_report {
            return None;
        }
        if now - self.last_report < REPORT_INTERVAL_MICROS {
            return None;
        }
        let diff = self.bytes - self.last_bytes;
        let total = self.bytes;
        self.last_bytes = total;
        self.last_report = now;
        Some((diff, total))
    }
}

} // verus!
