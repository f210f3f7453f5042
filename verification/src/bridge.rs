use crate::errors::WsError;
use std::collections::VecDeque;
use std::sync::mpsc::Receiver;
use std::time::Instant;
use vstd::prelude::*;

verus! {

/// The poll interval of the consumer-side read loop: the longest a single
/// wait slice lasts, so cancellation and the deadline are observed with at
/// most this much added latency.
pub const POLL_INTERVAL_NS: u64 = 100000000;

/// The fixed capacity of the chunk channel between the receiver loop and the
/// stream bridge: it bounds memory use and makes the producer block (and so
/// stop receiving from the network) once the consumer falls this far behind.
pub const CHANNEL_CAPACITY: usize = 1024;

#[verifier::external_type_specification]
#[verifier::external_body]
#[verifier::reject_recursive_types(T)]
pub struct ExReceiver<T>(Receiver<T>);

#[verifier::external_type_specification]
#[verifier::external_body]
pub struct ExInstant(Instant);

#[verifier::external_type_specification]
#[verifier::external_body]
pub struct ExSignals(nu_protocol::Signals);

/// What one bounded wait on the chunk channel yielded.
pub enum RecvOutcome {
    /// One chunk arrived within the slice.
    Data(Vec<u8>),
    /// The slice elapsed with nothing to take; the producer may still send.
    TimedOut,
    /// The producer end is gone and nothing is left to take.
    Closed,
}

/// Relies on std::sync::mpsc::Receiver::recv_timeout: waits at most the given
/// slice for one chunk. Which outcome comes back depends on the producer
/// thread's pace, so nothing is promised of it.
#[verifier::external_body]
fn recv_chunk(rx: &Receiver<Vec<u8>>, wait_ns: u64) -> (r: RecvOutcome) {
    match rx.recv_timeout(std::time::Duration::from_nanos(wait_ns)) {
        Ok(chunk) => RecvOutcome::Data(chunk),
        Err(std::sync::mpsc::RecvTimeoutError::Timeout) => RecvOutcome::TimedOut,
        Err(std::sync::mpsc::RecvTimeoutError::Disconnected) => RecvOutcome::Closed,
    }
}

/// Relies on std::time::Instant::now for the current instant.
#[verifier::external_body]
fn instant_now() -> (r: Instant) {
    Instant::now()
}

/// Relies on std::time::Instant::checked_add: the instant the given number of
/// nanoseconds after `t`, or None when that is not representable.
#[verifier::external_body]
fn instant_add_ns(t: &Instant, ns: u64) -> (r: Option<Instant>) {
    t.checked_add(std::time::Duration::from_nanos(ns))
}

/// Relies on std::time::Instant::checked_duration_since: Some with the time
/// from `now` up to `deadline` (saturated to u64 nanoseconds), or None when
/// `deadline` is earlier than `now`.
#[verifier::external_body]
fn time_until(deadline: &Instant, now: &Instant) -> (r: Option<u64>) {
    deadline.checked_duration_since(*now).map(
        |d| u64::try_from(d.as_nanos()).unwrap_or(u64::MAX),
    )
}

/// Relies on nu_protocol::Signals::interrupted: whether cancellation has been
/// requested. Another thread may flip the signal at any time, so nothing is
/// promised of the outcome.
#[verifier::external_body]
fn signals_interrupted(signals: &nu_protocol::Signals) -> (r: bool) {
    signals.interrupted()
}

/// The deadline as one read iteration observes it.
pub enum DeadlineState {
    /// No deadline was configured: the read may wait indefinitely.
    NoDeadline,
    /// The deadline has already passed.
    Passed,
    /// This much time remains until the deadline.
    Remaining(u64),
}

/// What one poll iteration must do next.
pub enum PollStep {
    /// Cancellation was requested: fail with an interrupted-operation error.
    Fail,
    /// The deadline has passed: report the permanent end of the stream.
    Finish,
    /// Wait on the channel for at most this many nanoseconds.
    Wait(u64),
}

/// Decide one poll iteration. Cancellation is checked before the deadline and
/// before any wait, so a cancelled read fails rather than returning data,
/// end-of-stream, or blocking; an expired deadline ends the stream; otherwise
/// the wait slice is the poll interval, shortened to the time remaining.
pub fn poll_step(cancelled: bool, deadline: DeadlineState) -> (r: PollStep)
    ensures
        cancelled ==> r is Fail,
        !cancelled && deadline is Passed ==> r is Finish,
        (!cancelled ==> (deadline matches DeadlineState::Remaining(ns) ==> r == PollStep::Wait(
            if ns < POLL_INTERVAL_NS {
                ns
            } else {
                POLL_INTERVAL_NS
            },
        ))),
        !cancelled && deadline is NoDeadline ==> r == PollStep::Wait(POLL_INTERVAL_NS),
{
    if cancelled {
        PollStep::Fail
    } else {
        match deadline {
            DeadlineState::NoDeadline => PollStep::Wait(POLL_INTERVAL_NS),
            DeadlineState::Passed => PollStep::Finish,
            DeadlineState::Remaining(ns) => PollStep::Wait(
                if ns < POLL_INTERVAL_NS {
                    ns
                } else {
                    POLL_INTERVAL_NS
                },
            ),
        }
    }
}

/// The deadline as the bridge holds it: none was configured; a clock
/// instant; or a configured deadline the clock cannot represent, which
/// therefore lies beyond every observable instant and never passes.
enum DeadlineRep {
    Absent,
    At(Instant),
    BeyondClock,
}

/// The consumer-side stream bridge: serves pull-based byte reads by draining
/// the unconsumed tail of the most recently taken chunk first, then polling
/// the chunk channel under the deadline and the cancellation signal.
pub struct WebSocketClient {
    rx: Receiver<Vec<u8>>,
    deadline: DeadlineRep,
    buf_deque: VecDeque<u8>,
    signals: nu_protocol::Signals,
    done: bool,
}

impl WebSocketClient {
    /// The bytes already taken off the channel but not yet handed to the
    /// consumer, in arrival order.
    pub closed spec fn buffered(&self) -> Seq<u8> {
        self.buf_deque@
    }

    /// Whether a read has already observed the permanent end of the stream
    /// (deadline passed, or producer gone): every later read returns no bytes.
    pub closed spec fn is_done(&self) -> bool {
        self.done
    }

    /// Whether a deadline was configured.
    pub closed spec fn has_deadline(&self) -> bool {
        !(self.deadline is Absent)
    }

    /// Once the permanent end has been observed, nothing is left buffered:
    /// the end is only ever recorded with the buffer drained, so a done
    /// client has nothing more to serve. Constructors establish this and
    /// every read preserves it.
    pub open spec fn wf(&self) -> bool {
        self.is_done() ==> self.buffered().len() == 0
    }

    /// The channel, deadline and cancellation signal a read never changes.
    pub closed spec fn connection_unchanged(&self, other: &Self) -> bool {
        &&& self.rx == other.rx
        &&& self.deadline == other.deadline
        &&& self.signals == other.signals
    }

    /// Build a bridge over the receiving end of a chunk channel. The deadline
    /// is fixed here, once, relative to now, exactly when a timeout is given;
    /// one too large for the clock to represent is recorded as lying beyond
    /// the clock, and then never passes.
    pub fn new(rx: Receiver<Vec<u8>>, timeout_ns: Option<u64>, signals: nu_protocol::Signals) -> (r:
        Self)
        ensures
            r.buffered() =~= Seq::<u8>::empty(),
            !r.is_done(),
            r.wf(),
            r.has_deadline() <==> timeout_ns is Some,
    {
        let deadline = match timeout_ns {
            Some(ns) => {
                let now = instant_now();
                match instant_add_ns(&now, ns) {
                    Some(d) => DeadlineRep::At(d),
                    None => DeadlineRep::BeyondClock,
                }
            },
            None => DeadlineRep::Absent,
        };
        WebSocketClient { rx, deadline, buf_deque: VecDeque::new(), signals, done: false }
    }

    /// Copy out as many buffered bytes as the caller asked for, in arrival
    /// order, keeping the rest buffered.
    fn take_buffered(&mut self, max: usize) -> (out: Vec<u8>)
        ensures
            out@ == old(self).buffered().take(out@.len() as int),
            final(self).buffered() == old(self).buffered().skip(out@.len() as int),
            out@.len() == vstd::math::min(max as int, old(self).buffered().len() as int),
            final(self).is_done() == old(self).is_done(),
            final(self).connection_unchanged(old(self)),
    {
        let mut out: Vec<u8> = Vec::new();
        while out.len() < max && self.buf_deque.len() > 0
            invariant
                out@.len() <= max,
                out@.len() + self.buf_deque@.len() == old(self).buffered().len(),
                out@ == old(self).buffered().take(out@.len() as int),
                self.buf_deque@ == old(self).buffered().skip(out@.len() as int),
                self.done == old(self).done,
                self.rx == old(self).rx,
                self.deadline == old(self).deadline,
                self.signals == old(self).signals,
            decreases self.buf_deque@.len(),
        {
            let ghost k = out@.len() as int;
            proof {
                assert(old(self).buffered().skip(k)[0] == old(self).buffered()[k]);
            }
            let b = self.buf_deque.pop_front();
            match b {
                Some(byte) => {
                    out.push(byte);
                    proof {
                        assert(out@ =~= old(self).buffered().take(k + 1));
                        assert(self.buf_deque@ =~= old(self).buffered().skip(k + 1));
                    }
                },
                None => {
                    proof {
                        assert(false);
                    }
                },
            }
        }
        out
    }

    /// Buffer one freshly arrived chunk and serve the caller from its front:
    /// the bytes handed out are the chunk's first `min(max, len)` bytes, and
    /// exactly the rest stays buffered for later reads.
    pub fn accept_chunk(&mut self, chunk: Vec<u8>, max: usize) -> (out: Vec<u8>)
        requires
            old(self).buffered().len() == 0,
        ensures
            out@ == chunk@.take(out@.len() as int),
            final(self).buffered() == chunk@.skip(out@.len() as int),
            out@.len() == vstd::math::min(max as int, chunk@.len() as int),
            final(self).is_done() == old(self).is_done(),
            final(self).connection_unchanged(old(self)),
    {
        let n = chunk.len();
        let mut j: usize = 0;
        while j < n
            invariant
                j <= n,
                n == chunk@.len(),
                self.buf_deque@ == chunk@.take(j as int),
                self.done == old(self).done,
                self.rx == old(self).rx,
                self.deadline == old(self).deadline,
                self.signals == old(self).signals,
            decreases n - j,
        {
            self.buf_deque.push_back(chunk[j]);
            proof {
                assert(self.buf_deque@ =~= chunk@.take(j + 1));
            }
            j = j + 1;
        }
        proof {
            assert(self.buf_deque@ =~= chunk@);
        }
        self.take_buffered(max)
    }

    /// Observe the deadline: whether none was configured, it has passed, or
    /// some time remains. A deadline beyond the clock always has the longest
    /// representable time remaining.
    fn deadline_state(&self) -> (r: DeadlineState)
        ensures
            !self.has_deadline() <==> r is NoDeadline,
    {
        match &self.deadline {
            DeadlineRep::Absent => DeadlineState::NoDeadline,
            DeadlineRep::At(d) => {
                let now = instant_now();
                match time_until(d, &now) {
                    None => DeadlineState::Passed,
                    Some(ns) => DeadlineState::Remaining(ns),
                }
            },
            DeadlineRep::BeyondClock => DeadlineState::Remaining(u64::MAX),
        }
    }

    /// One pull-based read: take up to `max` bytes. Buffered bytes are served
    /// first, in arrival order, before the channel is touched, so repeated
    /// reads fully drain one chunk before any byte of the next. When nothing
    /// is buffered the read polls the channel in bounded slices, failing fast
    /// on cancellation and reporting a passed deadline or a gone producer as
    /// the permanent end. An empty result with `max > 0` marks the end, and
    /// every read after it returns empty again.
    pub fn read(&mut self, max: usize) -> (r: Result<Vec<u8>, WsError>)
        ensures
            old(self).wf() ==> final(self).wf(),
            final(self).connection_unchanged(old(self)),
            (old(self).is_done() ==> (r matches Ok(v)
                && v@.len() == 0
                && final(self).is_done()
                && final(self).buffered() == old(self).buffered())),
            (!old(self).is_done() && old(self).buffered().len() > 0 ==> (r matches Ok(v)
                && v@ == old(self).buffered().take(v@.len() as int)
                && v@.len() == vstd::math::min(max as int, old(self).buffered().len() as int)
                && final(self).buffered() == old(self).buffered().skip(v@.len() as int)
                && final(self).is_done() == old(self).is_done())),
            (r matches Err(e) ==> (e == WsError::ReadInterrupted
                && !old(self).is_done()
                && old(self).buffered().len() == 0
                && final(self).buffered() == old(self).buffered()
                && final(self).is_done() == old(self).is_done())),
            (!old(self).is_done() && old(self).buffered().len() == 0 ==> (r matches Ok(v) ==> {
                &&& v@.len() == vstd::math::min(max as int, v@.len() + final(self).buffered().len() as int)
                &&& (v@.len() == 0 && max > 0 ==> final(self).is_done()
                    && final(self).buffered().len() == 0)
                &&& (v@.len() > 0 ==> !final(self).is_done())
            })),
    {
        if self.done {
            return Ok(Vec::new());
        }
        if self.buf_deque.len() > 0 {
            return Ok(self.take_buffered(max));
        }
        // The loop is bounded only to make its termination checkable: at one
        // poll interval per iteration the bound is not reachable in practice,
        // so the read waits until data, close, deadline, or cancellation.
        let mut fuel: u64 = u64::MAX;
        while fuel > 0
            invariant
                self.buf_deque@.len() == 0,
                !self.done,
                !old(self).is_done(),
                old(self).buffered().len() == 0,
                self.buf_deque@ =~= old(self).buffered(),
                self.rx == old(self).rx,
                self.deadline == old(self).deadline,
                self.signals == old(self).signals,
            decreases fuel,
        {
            let cancelled = signals_interrupted(&self.signals);
            let state = self.deadline_state();
            match poll_step(cancelled, state) {
                PollStep::Fail => {
                    return Err(WsError::ReadInterrupted);
                },
                PollStep::Finish => {
                    self.done = true;
                    return Ok(Vec::new());
                },
                PollStep::Wait(wait_ns) => {
                    match recv_chunk(&self.rx, wait_ns) {
                        RecvOutcome::Data(chunk) => {
                            if chunk.len() > 0 {
                                return Ok(self.accept_chunk(chunk, max));
                            }
                            // A chunk always carries its trailing newline, so
                            // an empty vector on the channel is skipped rather
                            // than mistaken for end-of-data.
                        },
                        RecvOutcome::TimedOut => {},
                        RecvOutcome::Closed => {
                            self.done = true;
                            return Ok(Vec::new());
                        },
                    }
                },
            }
            fuel = fuel - 1;
        }
        self.done = true;
        Ok(Vec::new())
    }
}

/// Law: reading with an undersized buffer is restartable. A read serves
/// `min(max, len)` of the buffered bytes and leaves exactly the rest, so two
/// successive reads return consecutive segments of one chunk, and repeating
/// them drains the chunk completely, in order, with nothing lost or repeated
/// — and the read contract polls the channel only when nothing is buffered,
/// so no byte of a later chunk comes out before the buffered one is drained.
pub proof fn lemma_undersized_reads_drain_in_order(b: Seq<u8>, m1: int, m2: int)
    requires
        0 <= m1,
        0 <= m2,
    ensures
        b.take(vstd::math::min(m1, b.len() as int)) + b.skip(
            vstd::math::min(m1, b.len() as int),
        ).take(
            vstd::math::min(m2, b.len() as int - vstd::math::min(m1, b.len() as int)),
        ) == b.take(vstd::math::min(m1 + m2, b.len() as int)),
        b.take(vstd::math::min(m1, b.len() as int)) + b.skip(vstd::math::min(m1, b.len() as int))
            == b,
{
    assert(b.take(vstd::math::min(m1, b.len() as int)) + b.skip(
        vstd::math::min(m1, b.len() as int),
    ).take(vstd::math::min(m2, b.len() as int - vstd::math::min(m1, b.len() as int))) =~= b.take(
        vstd::math::min(m1 + m2, b.len() as int),
    ));
    assert(b.take(vstd::math::min(m1, b.len() as int)) + b.skip(
        vstd::math::min(m1, b.len() as int),
    ) =~= b);
}

} // verus!
