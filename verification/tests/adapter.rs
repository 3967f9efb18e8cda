use revpfw3::connection::Connection;
use revpfw3::socket_adapter::{FlushPlan, ReadPlan, SocketAdapter, WriteAttempt, WriteQueued,
    WriteStep, BUFFER_CAPACITY};
use revpfw3::IoErrorKind;

fn tcp_adapter() -> SocketAdapter {
    SocketAdapter::new(Connection::new(false, false))
}

#[test]
fn bytes_come_out_in_the_order_they_went_in() {
    let mut a = tcp_adapter();
    assert!(matches!(a.write_later(b"abc"), Ok(WriteQueued::Buffered)));
    assert!(matches!(a.write_later(b"defg"), Ok(WriteQueued::Buffered)));
    assert_eq!(a.pending_bytes(), b"abcdefg".to_vec());

    // A partial flush hands out a strict prefix and keeps the rest.
    let mut sink: Vec<u8> = Vec::new();
    let pending = a.pending_bytes();
    sink.extend_from_slice(&pending[..3]);
    a.update_done(WriteAttempt::Wrote(3)).unwrap();
    assert_eq!(a.pending_bytes(), b"defg".to_vec());

    assert!(matches!(a.write_later(b"hi"), Ok(WriteQueued::Buffered)));
    let pending = a.pending_bytes();
    sink.extend_from_slice(&pending);
    a.update_done(WriteAttempt::Wrote(pending.len())).unwrap();
    assert_eq!(a.pending_bytes(), Vec::<u8>::new());
    assert_eq!(sink, b"abcdefghi".to_vec());
}

#[test]
fn would_block_is_success_without_progress() {
    let mut a = tcp_adapter();
    a.write_later(b"abc").unwrap();
    a.update_done(WriteAttempt::WouldBlock).unwrap();
    assert_eq!(a.pending_bytes(), b"abc".to_vec());
}

#[test]
fn overflow_asks_for_a_drain_and_the_drain_is_observable() {
    let mut a = tcp_adapter();
    let big = vec![7u8; BUFFER_CAPACITY];
    assert!(matches!(a.write_later(&big), Ok(WriteQueued::Buffered)));
    // The buffer is exactly full: one more byte cannot fit.
    assert!(matches!(a.write_later(b"x"), Ok(WriteQueued::DrainFirst)));
    // Nothing changed; the caller drains and reports.
    assert_eq!(a.pending_bytes().len(), BUFFER_CAPACITY);
    a.drain_done(b"x", 1234, Ok(())).unwrap();
    assert_eq!(a.pending_bytes(), b"x".to_vec());
    // The forced drain is visible as accumulated delay, exactly once.
    assert_eq!(a.clear_delay(), 1234);
    assert_eq!(a.clear_delay(), 0);
}

#[test]
fn compaction_keeps_pending_bytes_intact() {
    let mut a = tcp_adapter();
    let chunk = vec![1u8; BUFFER_CAPACITY - 2];
    a.write_later(&chunk).unwrap();
    // Flush most of it so the pending region sits far from the front.
    a.update_done(WriteAttempt::Wrote(BUFFER_CAPACITY - 4)).unwrap();
    assert_eq!(a.pending_bytes(), vec![1u8, 1u8]);
    // This fits only after compaction.
    let tail = vec![2u8; BUFFER_CAPACITY - 4];
    assert!(matches!(a.write_later(&tail), Ok(WriteQueued::Buffered)));
    let mut expected = vec![1u8, 1u8];
    expected.extend_from_slice(&tail);
    assert_eq!(a.pending_bytes(), expected);
}

#[test]
fn failed_flush_latches_and_every_later_operation_fails() {
    let mut a = tcp_adapter();
    a.write_later(b"abc").unwrap();
    let e = a.update_done(WriteAttempt::Failed(IoErrorKind::ConnectionAborted));
    assert_eq!(e, Err(IoErrorKind::ConnectionAborted));
    assert_eq!(a.write_later(b"x"), Err(IoErrorKind::ConnectionAborted));
    assert_eq!(a.write_now(), Err(IoErrorKind::ConnectionAborted));
    assert_eq!(a.update(0), Err(IoErrorKind::ConnectionAborted));
}

#[test]
fn update_plans_one_nonblocking_write_only_when_needed() {
    let mut a = tcp_adapter();
    assert_eq!(a.update(0), Ok(None));
    a.write_later(b"abc").unwrap();
    assert_eq!(a.update(0), Ok(Some(FlushPlan { nonblocking: true })));
    let mut s = SocketAdapter::new(Connection::new(true, false));
    s.write_later(b"abc").unwrap();
    // A serial link keeps serial (blocking) semantics for its flush.
    assert_eq!(s.update(0), Ok(Some(FlushPlan { nonblocking: false })));
}

#[test]
fn write_combines_queueing_and_flush_planning() {
    let mut a = tcp_adapter();
    assert_eq!(
        a.write(b"abc", 0),
        Ok(WriteStep::Flush(FlushPlan { nonblocking: true }))
    );
    assert_eq!(a.pending_bytes(), b"abc".to_vec());
    let big = vec![0u8; BUFFER_CAPACITY];
    assert_eq!(a.write(&big, 0), Ok(WriteStep::Drain));
}

#[test]
fn write_now_flushes_everything_or_nothing() {
    let mut a = tcp_adapter();
    assert_eq!(a.write_now(), Ok(false));
    a.write_later(b"abc").unwrap();
    assert_eq!(a.write_now(), Ok(true));
    a.write_now_done(Ok(())).unwrap();
    assert_eq!(a.pending_bytes(), Vec::<u8>::new());

    a.write_later(b"xy").unwrap();
    assert_eq!(
        a.write_now_done(Err(IoErrorKind::TimedOut)),
        Err(IoErrorKind::TimedOut)
    );
    // The failure latched.
    assert_eq!(a.write_later(b"z"), Err(IoErrorKind::TimedOut));
}

#[test]
fn penalty_window_refuses_io_for_at_least_its_duration() {
    let now: u128 = 1_000_000;
    let delta: u128 = 500_000;
    let mut a = tcp_adapter();
    a.punish(now, delta);
    // No I/O anywhere inside the window.
    assert!(!a.io_allowed(now));
    assert!(a.poll(now).is_none());
    assert!(a.poll_exact(now + delta - 1).is_none());
    assert!(a.read_now(now + delta - 1).is_none());
    a.write_later(b"abc").unwrap();
    assert_eq!(a.update(now + delta - 1), Ok(None));
    // The first instant past the window is open again.
    assert!(a.io_allowed(now + delta));
    assert_eq!(
        a.poll(now + delta),
        Some(ReadPlan { nonblocking: true, exact: false })
    );
}

#[test]
fn repeated_punishments_extend_from_the_deadline_not_the_past() {
    let mut a = tcp_adapter();
    a.punish(100, 50);
    assert!(!a.io_allowed(149));
    assert!(a.io_allowed(150));
    // A second penalty while the first window runs extends the deadline.
    a.punish(120, 50);
    assert!(!a.io_allowed(199));
    assert!(a.io_allowed(200));
    // A penalty after expiry starts from now, not from the stale base.
    a.punish(1000, 50);
    assert!(!a.io_allowed(1049));
    assert!(a.io_allowed(1050));
}

#[test]
fn a_penalty_too_large_for_the_clock_pins_the_deadline_at_the_end_of_time() {
    let mut a = tcp_adapter();
    a.punish(u128::MAX - 10, 100);
    assert!(!a.io_allowed(u128::MAX - 1));
    // Only the last representable microsecond lies past the deadline.
    assert!(a.io_allowed(u128::MAX));
}

#[test]
fn read_plans_carry_the_mode_each_call_needs() {
    let a = tcp_adapter();
    assert_eq!(a.poll(0), Some(ReadPlan { nonblocking: true, exact: false }));
    assert_eq!(a.poll_exact(0), Some(ReadPlan { nonblocking: true, exact: true }));
    assert_eq!(a.read_now(0), Some(ReadPlan { nonblocking: false, exact: true }));
}
