//! The push/pull cycle of one codec. A driver offers a frame to its codec,
//! pulls every packet that is ready after it and has each written to the
//! container. A codec that is busy has its output pulled and is offered the
//! same frame again, as often as it takes.

use crate::error::Error;
use crate::protocol::{encoding_abort, Reply, ReplyView, Request, Step, StepView};
use crate::settings::Rational;
use vstd::prelude::*;

verus! {

/// What a driver is waiting for.
#[derive(Clone, Copy, Debug, PartialEq, Eq, Structural)]
pub enum Phase {
    /// Nothing: the driver takes a new operation.
    Idle,
    /// The reply to `SendFrame`.
    Sending,
    /// The reply to `SendEof`.
    SendingEof,
    /// The reply to `ReceivePacket`.
    Receiving,
    /// The reply to `WritePacket`.
    Writing,
}

/// What a drain of the driver is followed by, and so when it ends.
#[derive(Clone, Copy, Debug, PartialEq, Eq, Structural)]
pub enum Pending {
    /// Nothing: the drain ends when no packet is ready.
    Nothing,
    /// The frame that found the codec busy is offered again.
    Frame,
    /// The end of input that found the codec busy is signalled again.
    Eof,
    /// The codec has taken the end of input: the drain ends only when the
    /// codec reports that it is exhausted.
    Exhaustion,
}

/// The driver of the codec that feeds one stream of the container.
#[derive(Clone, Copy, Debug, PartialEq, Eq, Structural)]
pub struct CodecDriver {
    /// The container stream that the codec's packets go to.
    pub stream: usize,
    /// The time base of the codec's timestamps.
    pub time_base: Rational,
    pub phase: Phase,
    pub pending: Pending,
}

/// The text that introduces the failure to send a frame.
pub const SEND_FAILED: &'static str = "Could not send frame to encoder: ";

/// The text that introduces the failure to signal the end of input.
pub const EOF_FAILED: &'static str = "Could not send EOF to encoder: ";

/// The text that introduces the failure to pull a packet.
pub const RECEIVE_FAILED: &'static str = "Could not receive packet: ";

/// The text that introduces the failure to write a packet.
pub const WRITE_FAILED: &'static str = "Could not write packet: ";

/// The message for a reply that does not answer the request asked for last.
pub const OUT_OF_TURN: &'static str = "Reply does not answer the encoder's request";

/// The message for an operation asked for in the middle of another.
pub const NOT_IDLE: &'static str = "Encoder is in the middle of an operation";

/// The empty literal denotes the empty sequence.
pub proof fn lemma_empty_literal()
    ensures
        ""@ == Seq::<char>::empty(),
{
    reveal_strlit("");
    assert(""@ =~= Seq::<char>::empty());
}

impl CodecDriver {
    /// The driver in the given phase, otherwise unchanged.
    pub open spec fn at(self, phase: Phase, pending: Pending) -> CodecDriver {
        CodecDriver { phase, pending, ..self }
    }

    /// The driver after it has given up its operation.
    pub open spec fn reset(self) -> CodecDriver {
        self.at(Phase::Idle, Pending::Nothing)
    }

    /// The transition taken when an operation is begun: the driver must be
    /// idle, and asks for `request`.
    pub open spec fn spec_begin(self, phase: Phase, request: Request) -> (CodecDriver, StepView) {
        if self.phase == Phase::Idle {
            (self.at(phase, Pending::Nothing), StepView::Perform(request))
        } else {
            (self, encoding_abort(NOT_IDLE@, Seq::empty()))
        }
    }

    /// The transition the driver takes on `reply`, and the step it asks for.
    ///
    /// * A frame or an end of input that the codec accepts is followed by a
    ///   drain; one that finds the codec busy is followed by a drain and then
    ///   offered again.
    /// * A drain pulls packets, has each written before it pulls the next,
    ///   and ends when the codec has none ready.
    /// * The drain that follows an accepted end of input goes on pulling
    ///   until the codec reports exhaustion.
    /// * A failure ends the operation with an encoding error that quotes it.
    pub open spec fn spec_step(self, reply: ReplyView) -> (CodecDriver, StepView) {
        let receive = StepView::Perform(Request::ReceivePacket { stream: self.stream });
        match (self.phase, reply) {
            (Phase::Sending, ReplyView::Done) => (
                self.at(Phase::Receiving, Pending::Nothing),
                receive,
            ),
            (Phase::Sending, ReplyView::Busy) => (self.at(Phase::Receiving, Pending::Frame), receive),
            (Phase::Sending, ReplyView::Failed(m)) => (
                self.reset(),
                encoding_abort(SEND_FAILED@, m),
            ),
            (Phase::SendingEof, ReplyView::Done) => (
                self.at(Phase::Receiving, Pending::Exhaustion),
                receive,
            ),
            (Phase::SendingEof, ReplyView::Busy) => (
                self.at(Phase::Receiving, Pending::Eof),
                receive,
            ),
            (Phase::SendingEof, ReplyView::Failed(m)) => (
                self.reset(),
                encoding_abort(EOF_FAILED@, m),
            ),
            (Phase::Receiving, ReplyView::Packet) => (
                self.at(Phase::Writing, self.pending),
                StepView::Perform(
                    Request::WritePacket { stream: self.stream, time_base: self.time_base },
                ),
            ),
            (Phase::Receiving, ReplyView::Empty) => if self.pending == Pending::Exhaustion {
                (self, receive)
            } else {
                self.spec_drained()
            },
            (Phase::Receiving, ReplyView::Exhausted) => self.spec_drained(),
            (Phase::Receiving, ReplyView::Failed(m)) => (
                self.reset(),
                encoding_abort(RECEIVE_FAILED@, m),
            ),
            (Phase::Writing, ReplyView::Done) => (self.at(Phase::Receiving, self.pending), receive),
            (Phase::Writing, ReplyView::Failed(m)) => (
                self.reset(),
                encoding_abort(WRITE_FAILED@, m),
            ),
            _ => (self.reset(), encoding_abort(OUT_OF_TURN@, Seq::empty())),
        }
    }

    /// The transition at the end of a drain: what is pending is offered
    /// again; with nothing pending the operation is complete.
    pub open spec fn spec_drained(self) -> (CodecDriver, StepView) {
        match self.pending {
            Pending::Nothing => (self.reset(), StepView::Complete),
            Pending::Exhaustion => (self.reset(), StepView::Complete),
            Pending::Frame => (
                self.at(Phase::Sending, Pending::Nothing),
                StepView::Perform(Request::SendFrame { stream: self.stream }),
            ),
            Pending::Eof => (
                self.at(Phase::SendingEof, Pending::Nothing),
                StepView::Perform(Request::SendEof { stream: self.stream }),
            ),
        }
    }

    /// An idle driver for the codec that feeds `stream` and stamps its
    /// packets in `time_base`.
    pub fn new(stream: usize, time_base: Rational) -> (d: CodecDriver)
        ensures
            d == (CodecDriver { stream, time_base, phase: Phase::Idle, pending: Pending::Nothing }),
    {
        CodecDriver { stream, time_base, phase: Phase::Idle, pending: Pending::Nothing }
    }

    /// Whether the driver takes a new operation.
    pub fn is_idle(&self) -> (b: bool)
        ensures
            b == (self.phase == Phase::Idle),
    {
        match self.phase {
            Phase::Idle => true,
            _ => false,
        }
    }

    fn begin(&mut self, phase: Phase, request: Request) -> (step: Step)
        ensures
            (*final(self), step@) == old(self).spec_begin(phase, request),
    {
        proof {
            lemma_empty_literal();
        }
        if self.is_idle() {
            self.phase = phase;
            self.pending = Pending::Nothing;
            Step::Perform(request)
        } else {
            Step::Abort(Error::encoding(NOT_IDLE, ""))
        }
    }

    /// Begins the submission of one frame: the frame is offered to the codec,
    /// and the operation is complete once the codec has accepted it and every
    /// packet that is ready has been written.
    pub fn submit(&mut self) -> (step: Step)
        ensures
            (*final(self), step@) == old(self).spec_begin(
                Phase::Sending,
                Request::SendFrame { stream: old(self).stream },
            ),
    {
        let request = Request::SendFrame { stream: self.stream };
        self.begin(Phase::Sending, request)
    }

    /// Begins a drain: every packet that is ready is pulled and written.
    pub fn drain(&mut self) -> (step: Step)
        ensures
            (*final(self), step@) == old(self).spec_begin(
                Phase::Receiving,
                Request::ReceivePacket { stream: old(self).stream },
            ),
    {
        let request = Request::ReceivePacket { stream: self.stream };
        self.begin(Phase::Receiving, request)
    }

    /// Begins the end of the stream: the end of input is signalled to the
    /// codec, and its packets are pulled and written until it reports that
    /// it is exhausted.
    pub fn flush_and_finish(&mut self) -> (step: Step)
        ensures
            (*final(self), step@) == old(self).spec_begin(
                Phase::SendingEof,
                Request::SendEof { stream: old(self).stream },
            ),
    {
        let request = Request::SendEof { stream: self.stream };
        self.begin(Phase::SendingEof, request)
    }

    fn fail(&mut self, context: &str, detail: &str) -> (step: Step)
        ensures
            *final(self) == old(self).reset(),
            step@ == encoding_abort(context@, detail@),
    {
        self.phase = Phase::Idle;
        self.pending = Pending::Nothing;
        Step::Abort(Error::encoding(context, detail))
    }

    fn receive(&mut self, pending: Pending) -> (step: Step)
        ensures
            *final(self) == old(self).at(Phase::Receiving, pending),
            step@ == StepView::Perform(Request::ReceivePacket { stream: old(self).stream }),
    {
        self.phase = Phase::Receiving;
        self.pending = pending;
        Step::Perform(Request::ReceivePacket { stream: self.stream })
    }

    fn drained(&mut self) -> (step: Step)
        ensures
            (*final(self), step@) == old(self).spec_drained(),
    {
        match self.pending {
            Pending::Nothing => {
                self.phase = Phase::Idle;
                Step::Complete
            },
            Pending::Exhaustion => {
                self.phase = Phase::Idle;
                self.pending = Pending::Nothing;
                Step::Complete
            },
            Pending::Frame => {
                self.phase = Phase::Sending;
                self.pending = Pending::Nothing;
                Step::Perform(Request::SendFrame { stream: self.stream })
            },
            Pending::Eof => {
                self.phase = Phase::SendingEof;
                self.pending = Pending::Nothing;
                Step::Perform(Request::SendEof { stream: self.stream })
            },
        }
    }

    /// Takes the reply to the request that the driver asked for last, and
    /// says what comes next.
    pub fn step(&mut self, reply: Reply) -> (step: Step)
        ensures
            (*final(self), step@) == old(self).spec_step(reply@),
    {
        proof {
            lemma_empty_literal();
        }
        match self.phase {
            Phase::Sending => match reply {
                Reply::Done => self.receive(Pending::Nothing),
                Reply::Busy => self.receive(Pending::Frame),
                Reply::Failed(m) => self.fail(SEND_FAILED, m.as_str()),
                _ => self.fail(OUT_OF_TURN, ""),
            },
            Phase::SendingEof => match reply {
                Reply::Done => self.receive(Pending::Exhaustion),
                Reply::Busy => self.receive(Pending::Eof),
                Reply::Failed(m) => self.fail(EOF_FAILED, m.as_str()),
                _ => self.fail(OUT_OF_TURN, ""),
            },
            Phase::Receiving => match reply {
                Reply::Packet => {
                    self.phase = Phase::Writing;
                    Step::Perform(
                        Request::WritePacket { stream: self.stream, time_base: self.time_base },
                    )
                },
                Reply::Empty => match self.pending {
                    Pending::Exhaustion => Step::Perform(
                        Request::ReceivePacket { stream: self.stream },
                    ),
                    _ => self.drained(),
                },
                Reply::Exhausted => self.drained(),
                Reply::Failed(m) => self.fail(RECEIVE_FAILED, m.as_str()),
                _ => self.fail(OUT_OF_TURN, ""),
            },
            Phase::Writing => match reply {
                Reply::Done => {
                    let pending = self.pending;
                    self.receive(pending)
                },
                Reply::Failed(m) => self.fail(WRITE_FAILED, m.as_str()),
                _ => self.fail(OUT_OF_TURN, ""),
            },
            Phase::Idle => self.fail(OUT_OF_TURN, ""),
        }
    }
}

/// The driver after it has taken `replies` in order, and the steps it asked
/// for in return.
pub open spec fn run(driver: CodecDriver, replies: Seq<ReplyView>) -> (CodecDriver, Seq<StepView>)
    decreases replies.len(),
{
    if replies.len() == 0 {
        (driver, Seq::empty())
    } else {
        let (next, step) = driver.spec_step(replies[0]);
        let (last, steps) = run(next, replies.drop_first());
        (last, seq![step] + steps)
    }
}

/// How often `step` occurs in `steps`.
pub open spec fn occurrences(steps: Seq<StepView>, step: StepView) -> nat
    decreases steps.len(),
{
    if steps.len() == 0 {
        0
    } else {
        occurrences(steps.drop_first(), step) + if steps[0] == step {
            1nat
        } else {
            0nat
        }
    }
}

/// What a codec with `packets` packets ready answers in the course of one
/// drain, every write succeeding.
pub open spec fn drain_replies(packets: nat) -> Seq<ReplyView>
    decreases packets,
{
    if packets == 0 {
        seq![ReplyView::Empty]
    } else {
        seq![ReplyView::Packet, ReplyView::Done] + drain_replies((packets - 1) as nat)
    }
}

/// What a codec answers in the course of one submission when it reports busy
/// `ready.len() - 1` times before it accepts the frame; `ready[i]` packets
/// are ready in the drain that follows its `i`-th answer.
pub open spec fn busy_then_accept(ready: Seq<nat>) -> Seq<ReplyView>
    decreases ready.len(),
{
    if ready.len() == 0 {
        Seq::empty()
    } else if ready.len() == 1 {
        seq![ReplyView::Done] + drain_replies(ready[0])
    } else {
        seq![ReplyView::Busy] + drain_replies(ready[0]) + busy_then_accept(ready.drop_first())
    }
}

/// The sum of `counts`.
pub open spec fn total(counts: Seq<nat>) -> nat
    decreases counts.len(),
{
    if counts.len() == 0 {
        0
    } else {
        counts[0] + total(counts.drop_first())
    }
}

/// Occurrences add up over a concatenation.
pub proof fn lemma_occurrences_concat(a: Seq<StepView>, b: Seq<StepView>, step: StepView)
    ensures
        occurrences(a + b, step) == occurrences(a, step) + occurrences(b, step),
    decreases a.len(),
{
    if a.len() == 0 {
        assert(a + b =~= b);
    } else {
        assert((a + b).drop_first() =~= a.drop_first() + b);
        lemma_occurrences_concat(a.drop_first(), b, step);
    }
}

proof fn lemma_run_concat(driver: CodecDriver, a: Seq<ReplyView>, b: Seq<ReplyView>)
    ensures
        run(driver, a + b) == ({
            let (mid, first) = run(driver, a);
            let (last, second) = run(mid, b);
            (last, first + second)
        }),
    decreases a.len(),
{
    if a.len() == 0 {
        assert(a + b =~= b);
        assert(Seq::<StepView>::empty() + run(driver, b).1 =~= run(driver, b).1);
    } else {
        let (next, step) = driver.spec_step(a[0]);
        assert((a + b).drop_first() =~= a.drop_first() + b);
        assert((a + b)[0] == a[0]);
        lemma_run_concat(next, a.drop_first(), b);
        let (mid, first) = run(next, a.drop_first());
        let (last, second) = run(mid, b);
        assert(seq![step] + (first + second) =~= (seq![step] + first) + second);
    }
}

proof fn lemma_run_one(driver: CodecDriver, reply: ReplyView)
    ensures
        run(driver, seq![reply]) == (driver.spec_step(reply).0, seq![driver.spec_step(reply).1]),
{
    let (next, step) = driver.spec_step(reply);
    assert(seq![reply].drop_first() =~= Seq::<ReplyView>::empty());
    assert(run(next, Seq::empty()) == (next, Seq::<StepView>::empty()));
    assert(seq![step] + Seq::<StepView>::empty() =~= seq![step]);
}

/// A single step occurs once in itself and not at all in any other.
pub proof fn lemma_occurrences_one(step: StepView, sought: StepView)
    ensures
        occurrences(seq![step], sought) == if step == sought {
            1nat
        } else {
            0nat
        },
{
    assert(seq![step].drop_first() =~= Seq::<StepView>::empty());
    assert(occurrences(Seq::<StepView>::empty(), sought) == 0);
}

/// A drain in which `packets` packets are ready has each of them written
/// before the next is pulled, and then ends as [`CodecDriver::spec_drained`]
/// says: after the pull that began it, it pulls `packets` times more and
/// writes `packets` times.
pub proof fn lemma_drain(driver: CodecDriver, packets: nat)
    requires
        driver.phase == Phase::Receiving,
        driver.pending != Pending::Exhaustion,
    ensures
        ({
            let (last, steps) = run(driver, drain_replies(packets));
            let receive = StepView::Perform(Request::ReceivePacket { stream: driver.stream });
            let write = StepView::Perform(
                Request::WritePacket { stream: driver.stream, time_base: driver.time_base },
            );
            let send = StepView::Perform(Request::SendFrame { stream: driver.stream });
            &&& last == driver.spec_drained().0
            &&& steps.len() == 2 * packets + 1
            &&& steps.last() == driver.spec_drained().1
            &&& occurrences(steps, write) == packets
            &&& occurrences(steps, receive) == packets
            &&& occurrences(steps, send) == if driver.pending == Pending::Frame {
                1nat
            } else {
                0nat
            }
        }),
    decreases packets,
{
    let receive = StepView::Perform(Request::ReceivePacket { stream: driver.stream });
    let write = StepView::Perform(
        Request::WritePacket { stream: driver.stream, time_base: driver.time_base },
    );
    let send = StepView::Perform(Request::SendFrame { stream: driver.stream });
    if packets == 0 {
        lemma_run_one(driver, ReplyView::Empty);
        let step = driver.spec_drained().1;
        lemma_occurrences_one(step, write);
        lemma_occurrences_one(step, receive);
        lemma_occurrences_one(step, send);
    } else {
        let rest = drain_replies((packets - 1) as nat);
        let writing = driver.at(Phase::Writing, driver.pending);
        assert(drain_replies(packets) =~= seq![ReplyView::Packet] + (seq![ReplyView::Done] + rest));
        lemma_run_concat(driver, seq![ReplyView::Packet], seq![ReplyView::Done] + rest);
        lemma_run_concat(writing, seq![ReplyView::Done], rest);
        lemma_run_one(driver, ReplyView::Packet);
        lemma_run_one(writing, ReplyView::Done);
        assert(writing.spec_step(ReplyView::Done).0 == driver);
        lemma_drain(driver, (packets - 1) as nat);
        let tail = run(driver, rest).1;
        let steps = run(driver, drain_replies(packets)).1;
        assert(steps == seq![write] + (seq![receive] + tail));
        lemma_occurrences_concat(seq![write], seq![receive] + tail, write);
        lemma_occurrences_concat(seq![write], seq![receive] + tail, receive);
        lemma_occurrences_concat(seq![write], seq![receive] + tail, send);
        lemma_occurrences_concat(seq![receive], tail, write);
        lemma_occurrences_concat(seq![receive], tail, receive);
        lemma_occurrences_concat(seq![receive], tail, send);
        lemma_occurrences_one(write, write);
        lemma_occurrences_one(write, receive);
        lemma_occurrences_one(write, send);
        lemma_occurrences_one(receive, write);
        lemma_occurrences_one(receive, receive);
        lemma_occurrences_one(receive, send);
    }
}

/// Busy-retry: a codec that reports busy `n` times before it accepts the
/// frame is offered the frame `n + 1` times in all (the offer that begins the
/// submission, and `n` more), has its output pulled after every one of its
/// answers, and the submission then completes with the driver idle again.
/// Every packet that was ready is written.
pub proof fn lemma_busy_retry(driver: CodecDriver, ready: Seq<nat>)
    requires
        driver.phase == Phase::Idle,
        ready.len() >= 1,
    ensures
        ({
            let send = Request::SendFrame { stream: driver.stream };
            let (sending, first) = driver.spec_begin(Phase::Sending, send);
            let (last, steps) = run(sending, busy_then_accept(ready));
            let receive = StepView::Perform(Request::ReceivePacket { stream: driver.stream });
            let write = StepView::Perform(
                Request::WritePacket { stream: driver.stream, time_base: driver.time_base },
            );
            &&& first == StepView::Perform(send)
            &&& occurrences(seq![first] + steps, first) == ready.len()
            &&& occurrences(steps, receive) == ready.len() + total(ready)
            &&& occurrences(steps, write) == total(ready)
            &&& steps.last() == StepView::Complete
            &&& last == driver.reset()
        }),
{
    let send = Request::SendFrame { stream: driver.stream };
    let (sending, first) = driver.spec_begin(Phase::Sending, send);
    lemma_retries(sending, ready);
    let steps = run(sending, busy_then_accept(ready)).1;
    lemma_occurrences_concat(seq![first], steps, first);
    lemma_occurrences_one(first, first);
}

proof fn lemma_retries(driver: CodecDriver, ready: Seq<nat>)
    requires
        driver.phase == Phase::Sending,
        driver.pending == Pending::Nothing,
        ready.len() >= 1,
    ensures
        ({
            let (last, steps) = run(driver, busy_then_accept(ready));
            let send = StepView::Perform(Request::SendFrame { stream: driver.stream });
            let receive = StepView::Perform(Request::ReceivePacket { stream: driver.stream });
            let write = StepView::Perform(
                Request::WritePacket { stream: driver.stream, time_base: driver.time_base },
            );
            &&& occurrences(steps, send) == ready.len() - 1
            &&& occurrences(steps, receive) == ready.len() + total(ready)
            &&& occurrences(steps, write) == total(ready)
            &&& steps.len() >= 1
            &&& steps.last() == StepView::Complete
            &&& last == driver.reset()
        }),
    decreases ready.len(),
{
    let send = StepView::Perform(Request::SendFrame { stream: driver.stream });
    let receive = StepView::Perform(Request::ReceivePacket { stream: driver.stream });
    let write = StepView::Perform(
        Request::WritePacket { stream: driver.stream, time_base: driver.time_base },
    );
    let answer = if ready.len() == 1 {
        ReplyView::Done
    } else {
        ReplyView::Busy
    };
    let pending = if ready.len() == 1 {
        Pending::Nothing
    } else {
        Pending::Frame
    };
    let draining = driver.at(Phase::Receiving, pending);
    let drain = drain_replies(ready[0]);
    assert(total(ready.drop_first()) + ready[0] == total(ready));
    lemma_run_one(driver, answer);
    lemma_drain(draining, ready[0]);
    let (drained, drain_steps) = run(draining, drain);
    lemma_occurrences_concat(seq![receive], drain_steps, send);
    lemma_occurrences_concat(seq![receive], drain_steps, receive);
    lemma_occurrences_concat(seq![receive], drain_steps, write);
    lemma_occurrences_one(receive, send);
    lemma_occurrences_one(receive, receive);
    lemma_occurrences_one(receive, write);
    let front = seq![receive] + drain_steps;
    if ready.len() == 1 {
        assert(ready.drop_first() =~= Seq::<nat>::empty());
        assert(total(ready.drop_first()) == 0);
        lemma_run_concat(driver, seq![answer], drain);
        assert(front.last() == drain_steps.last());
    } else {
        let rest = busy_then_accept(ready.drop_first());
        assert(drained == driver);
        lemma_retries(driver, ready.drop_first());
        let (last, rest_steps) = run(driver, rest);
        lemma_run_concat(driver, seq![answer] + drain, rest);
        lemma_run_concat(driver, seq![answer], drain);
        lemma_occurrences_concat(front, rest_steps, send);
        lemma_occurrences_concat(front, rest_steps, receive);
        lemma_occurrences_concat(front, rest_steps, write);
        assert((front + rest_steps).last() == rest_steps.last());
    }
}

/// Every step of `steps` asks for work: none of them ends the operation.
pub open spec fn ongoing(steps: Seq<StepView>) -> bool {
    forall|i: int| 0 <= i < steps.len() ==> (#[trigger] steps[i]) is Perform
}

/// A run asks for one step per reply.
pub proof fn lemma_run_length(driver: CodecDriver, replies: Seq<ReplyView>)
    ensures
        run(driver, replies).1.len() == replies.len(),
    decreases replies.len(),
{
    if replies.len() > 0 {
        lemma_run_length(driver.spec_step(replies[0]).0, replies.drop_first());
    }
}

proof fn lemma_idle_aborts(driver: CodecDriver, replies: Seq<ReplyView>)
    requires
        driver.phase == Phase::Idle,
        replies.len() >= 1,
    ensures
        run(driver, replies).1.last() is Abort,
    decreases replies.len(),
{
    let (next, step) = driver.spec_step(replies[0]);
    let rest = replies.drop_first();
    lemma_run_length(next, rest);
    if rest.len() > 0 {
        lemma_idle_aborts(next, rest);
        assert((seq![step] + run(next, rest).1).last() == run(next, rest).1.last());
    } else {
        assert(run(next, rest).1 =~= Seq::<StepView>::empty());
        assert((seq![step] + Seq::<StepView>::empty()).last() == step);
    }
}

/// An operation ends once: in a run whose last step completes the
/// operation or asks for more work, every step before the last asked for
/// work. A step that ends the operation leaves the driver idle, and an idle
/// driver answers every further reply with a failure.
pub proof fn lemma_ends_once(driver: CodecDriver, replies: Seq<ReplyView>)
    requires
        replies.len() >= 1,
        !(run(driver, replies).1.last() is Abort),
    ensures
        ongoing(run(driver, replies).1.drop_last()),
    decreases replies.len(),
{
    let (next, step) = driver.spec_step(replies[0]);
    let rest = replies.drop_first();
    let steps = run(driver, replies).1;
    let tail = run(next, rest).1;
    lemma_run_length(next, rest);
    if rest.len() == 0 {
        assert(tail =~= Seq::<StepView>::empty());
        assert(steps.drop_last() =~= Seq::<StepView>::empty());
    } else {
        assert(steps.last() == tail.last());
        if step is Perform {
            lemma_ends_once(next, rest);
            assert(steps.drop_last() =~= seq![step] + tail.drop_last());
            assert forall|i: int| 0 <= i < steps.drop_last().len() implies (
            #[trigger] steps.drop_last()[i]) is Perform by {
                if i > 0 {
                    assert(steps.drop_last()[i] == tail.drop_last()[i - 1]);
                }
            }
        } else {
            assert(next.phase == Phase::Idle);
            lemma_idle_aborts(next, rest);
        }
    }
}

/// A driver asks for nothing but the work of its codec: to send, to pull
/// and to write.
pub proof fn lemma_codec_requests_only(driver: CodecDriver, replies: Seq<ReplyView>)
    ensures
        forall|i: int|
            0 <= i < run(driver, replies).1.len() ==> (#[trigger] run(driver, replies).1[i]
                matches StepView::Perform(r) ==> r is SendFrame || r is SendEof || r
                is ReceivePacket || r is WritePacket),
    decreases replies.len(),
{
    if replies.len() > 0 {
        let (next, step) = driver.spec_step(replies[0]);
        let tail = run(next, replies.drop_first()).1;
        let steps = run(driver, replies).1;
        lemma_codec_requests_only(next, replies.drop_first());
        assert forall|i: int| 0 <= i < steps.len() implies (#[trigger] steps[i]
            matches StepView::Perform(r) ==> r is SendFrame || r is SendEof || r is ReceivePacket
            || r is WritePacket) by {
            if i > 0 {
                assert(steps[i] == tail[i - 1]);
            }
        }
    }
}

/// Order of writing: a packet that the codec hands out is written before
/// the next is pulled. On a packet the driver asks for nothing but its
/// writing, tagged with the driver's stream and rescaled from the driver's
/// time base; and while that is outstanding, the only reply that lets the
/// driver go on is the success of the write, after which it pulls again.
pub proof fn lemma_written_in_order(driver: CodecDriver, reply: ReplyView)
    requires
        driver.phase == Phase::Receiving,
    ensures
        ({
            let (writing, step) = driver.spec_step(ReplyView::Packet);
            let (next, after) = writing.spec_step(reply);
            &&& step == StepView::Perform(
                Request::WritePacket { stream: driver.stream, time_base: driver.time_base },
            )
            &&& writing.phase == Phase::Writing
            &&& (reply is Done ==> after == StepView::Perform(
                Request::ReceivePacket { stream: driver.stream },
            ) && next == driver)
            &&& (!(reply is Done) ==> after is Abort && next.phase == Phase::Idle)
        }),
{
}

/// End of stream: once the codec has taken the end of input, the drain
/// that follows is complete when the codec reports exhaustion, and not
/// before. A codec that has no packet ready is pulled again, with the driver
/// as it was; a packet is written and the drain goes on.
pub proof fn lemma_flush_until_exhausted(driver: CodecDriver, reply: ReplyView)
    requires
        driver.phase == Phase::Idle,
    ensures
        ({
            let eof = Request::SendEof { stream: driver.stream };
            let receive = StepView::Perform(Request::ReceivePacket { stream: driver.stream });
            let (sending, first) = driver.spec_begin(Phase::SendingEof, eof);
            let (draining, second) = sending.spec_step(ReplyView::Done);
            let (next, step) = draining.spec_step(reply);
            &&& first == StepView::Perform(eof)
            &&& second == receive
            &&& draining == driver.at(Phase::Receiving, Pending::Exhaustion)
            &&& (step is Complete <==> reply is Exhausted)
            &&& (reply is Exhausted ==> next == driver.reset())
            &&& (reply is Empty ==> next == draining && step == receive)
            &&& (reply is Packet ==> next == draining.at(Phase::Writing, Pending::Exhaustion)
                && next.spec_step(ReplyView::Done) == (draining, receive))
        }),
{
}

} // verus!
