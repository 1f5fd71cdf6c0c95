//! Whole operations of the writer, for codecs and a container that do as
//! they are asked: a frame from its conversion to the advance of the frame
//! index, and the end of a recording from the end of input to the last
//! release.

use crate::driver::{
    busy_then_accept,
    lemma_ends_once,
    lemma_run_length,
    ongoing,
    CodecDriver,
    Pending,
    Phase,
};
use crate::conversion::ConversionView;
use crate::encoder::{created, fresh_driver, Activity, EncoderView};
use crate::profile::{lemma_stage_after, start_plan};
use crate::protocol::{ReplyView, Request, StartStage, StepView, AUDIO_STREAM, VIDEO_STREAM};
use crate::retry::{lemma_audio_frame_busy_retry, lemma_video_frame_busy_retry};
use crate::writer::{
    acceptable,
    frame_limit,
    lemma_trailer_is_last,
    overrides,
    release_requests,
    Outcome,
    StateView,
    Status,
    Task,
    WriterView,
};
use vstd::prelude::*;

verus! {

/// What a codec that has taken the end of input answers in the course of
/// the drain that follows, when it still holds `packets` packets and every
/// write succeeds: each packet in turn, and then that it is exhausted.
pub open spec fn final_drain_replies(packets: nat) -> Seq<ReplyView>
    decreases packets,
{
    if packets == 0 {
        seq![ReplyView::Exhausted]
    } else {
        seq![ReplyView::Packet, ReplyView::Done] + final_drain_replies((packets - 1) as nat)
    }
}

/// The steps that have `packets` packets written for `driver`, each
/// followed by the next pull.
pub open spec fn writes(driver: CodecDriver, packets: nat) -> Seq<StepView>
    decreases packets,
{
    if packets == 0 {
        Seq::empty()
    } else {
        seq![
            StepView::Perform(
                Request::WritePacket { stream: driver.stream, time_base: driver.time_base },
            ),
            StepView::Perform(Request::ReceivePacket { stream: driver.stream }),
        ] + writes(driver, (packets - 1) as nat)
    }
}

/// The requests of `steps`, as a writer passes them on.
pub open spec fn asked(steps: Seq<StepView>) -> Seq<Outcome> {
    Seq::new(steps.len(), |i: int| Outcome::Perform(steps[i]->Perform_0))
}

/// The final drain of a driver writes every packet that the codec still
/// holds, in the order in which they are handed out, and is complete when
/// the codec reports exhaustion.
pub proof fn lemma_final_drain(driver: CodecDriver, packets: nat)
    requires
        driver.phase == Phase::Receiving,
        driver.pending == Pending::Exhaustion,
    ensures
        crate::driver::run(driver, final_drain_replies(packets)) == (
            driver.reset(),
            writes(driver, packets) + seq![StepView::Complete],
        ),
    decreases packets,
{
    let replies = final_drain_replies(packets);
    if packets == 0 {
        assert(replies.drop_first() =~= Seq::<ReplyView>::empty());
        assert(crate::driver::run(driver.reset(), Seq::empty()).1 =~= Seq::<StepView>::empty());
        assert(seq![StepView::Complete] + Seq::<StepView>::empty() =~= writes(driver, 0) + seq![
            StepView::Complete,
        ]);
    } else {
        let rest = final_drain_replies((packets - 1) as nat);
        let writing = driver.at(Phase::Writing, Pending::Exhaustion);
        let write = StepView::Perform(
            Request::WritePacket { stream: driver.stream, time_base: driver.time_base },
        );
        let receive = StepView::Perform(Request::ReceivePacket { stream: driver.stream });
        assert(replies.drop_first() =~= seq![ReplyView::Done] + rest);
        assert(replies.drop_first().drop_first() =~= rest);
        assert(driver.spec_step(ReplyView::Packet) == (writing, write));
        assert(writing.spec_step(ReplyView::Done) == (driver, receive));
        lemma_final_drain(driver, (packets - 1) as nat);
        let tail = writes(driver, (packets - 1) as nat) + seq![StepView::Complete];
        assert(crate::driver::run(writing, replies.drop_first()).1 == seq![receive] + tail);
        assert(seq![write] + (seq![receive] + tail) =~= writes(driver, packets) + seq![
            StepView::Complete,
        ]);
    }
}

proof fn lemma_finishing_video_follows(encoder: EncoderView, replies: Seq<ReplyView>)
    requires
        encoder.activity == Activity::FinishingVideo,
        encoder.video_encoder is Some,
        replies.len() >= 1,
        crate::driver::run(encoder.video_encoder->0, replies).1.last() == StepView::Complete,
        ongoing(crate::driver::run(encoder.video_encoder->0, replies).1.drop_last()),
    ensures
        crate::retry::run(encoder, replies) == ({
            let (driver, steps) = crate::driver::run(encoder.video_encoder->0, replies);
            let (next, step) = encoder.with_video(driver).spec_finish_audio();
            (next, steps.drop_last() + seq![step])
        }),
    decreases replies.len(),
{
    let driver = encoder.video_encoder->0;
    let (moved, step) = driver.spec_step(replies[0]);
    let rest = replies.drop_first();
    let (last, tail) = crate::driver::run(moved, rest);
    let steps = crate::driver::run(driver, replies).1;
    lemma_run_length(moved, rest);
    assert(steps == seq![step] + tail);
    if rest.len() == 0 {
        assert(tail =~= Seq::<StepView>::empty());
        assert(steps.last() == step);
        let (next, then) = encoder.with_video(moved).spec_finish_audio();
        assert(encoder.spec_step(replies[0]) == (next, then));
        assert(crate::retry::run(next, rest) == (next, Seq::<StepView>::empty()));
        assert(seq![then] + Seq::<StepView>::empty() =~= steps.drop_last() + seq![then]);
    } else {
        assert(steps.drop_last() =~= seq![step] + tail.drop_last());
        assert(steps.drop_last()[0] is Perform);
        let next = encoder.with_video(moved);
        assert(encoder.spec_step(replies[0]) == (next, step));
        assert forall|i: int| 0 <= i < tail.drop_last().len() implies (#[trigger] tail.drop_last()[i])
            is Perform by {
            assert(tail.drop_last()[i] == steps.drop_last()[i + 1]);
        }
        assert(steps.last() == tail.last());
        lemma_finishing_video_follows(next, rest);
        assert(next.with_video(last) == encoder.with_video(last));
        let then = encoder.with_video(last).spec_finish_audio().1;
        assert(seq![step] + (tail.drop_last() + seq![then]) =~= steps.drop_last() + seq![then]);
    }
}

proof fn lemma_finishing_audio_follows(encoder: EncoderView, replies: Seq<ReplyView>)
    requires
        encoder.activity == Activity::FinishingAudio,
        encoder.audio_encoder is Some,
        replies.len() >= 1,
        crate::driver::run(encoder.audio_encoder->0, replies).1.last() == StepView::Complete,
        ongoing(crate::driver::run(encoder.audio_encoder->0, replies).1.drop_last()),
    ensures
        crate::retry::run(encoder, replies) == ({
            let (driver, steps) = crate::driver::run(encoder.audio_encoder->0, replies);
            (
                encoder.with_audio(driver).doing(Activity::Trailer),
                steps.drop_last() + seq![StepView::Perform(Request::WriteTrailer)],
            )
        }),
    decreases replies.len(),
{
    let driver = encoder.audio_encoder->0;
    let (moved, step) = driver.spec_step(replies[0]);
    let rest = replies.drop_first();
    let (last, tail) = crate::driver::run(moved, rest);
    let steps = crate::driver::run(driver, replies).1;
    let trailer = StepView::Perform(Request::WriteTrailer);
    lemma_run_length(moved, rest);
    assert(steps == seq![step] + tail);
    if rest.len() == 0 {
        assert(tail =~= Seq::<StepView>::empty());
        assert(steps.last() == step);
        let next = encoder.with_audio(moved).doing(Activity::Trailer);
        assert(encoder.spec_step(replies[0]) == (next, trailer));
        assert(crate::retry::run(next, rest) == (next, Seq::<StepView>::empty()));
        assert(seq![trailer] + Seq::<StepView>::empty() =~= steps.drop_last() + seq![trailer]);
    } else {
        assert(steps.drop_last() =~= seq![step] + tail.drop_last());
        assert(steps.drop_last()[0] is Perform);
        let next = encoder.with_audio(moved);
        assert(encoder.spec_step(replies[0]) == (next, step));
        assert forall|i: int| 0 <= i < tail.drop_last().len() implies (#[trigger] tail.drop_last()[i])
            is Perform by {
            assert(tail.drop_last()[i] == steps.drop_last()[i + 1]);
        }
        assert(steps.last() == tail.last());
        lemma_finishing_audio_follows(next, rest);
        assert(next.with_audio(last) == encoder.with_audio(last));
        assert(seq![step] + (tail.drop_last() + seq![trailer]) =~= steps.drop_last() + seq![
            trailer,
        ]);
    }
}

proof fn lemma_encoder_run_concat(encoder: EncoderView, a: Seq<ReplyView>, b: Seq<ReplyView>)
    ensures
        crate::retry::run(encoder, a + b) == ({
            let (mid, first) = crate::retry::run(encoder, a);
            let (last, second) = crate::retry::run(mid, b);
            (last, first + second)
        }),
    decreases a.len(),
{
    if a.len() == 0 {
        assert(a + b =~= b);
        assert(Seq::<StepView>::empty() + crate::retry::run(encoder, b).1 =~= crate::retry::run(
            encoder,
            b,
        ).1);
    } else {
        let (next, step) = encoder.spec_step(a[0]);
        assert((a + b).drop_first() =~= a.drop_first() + b);
        assert((a + b)[0] == a[0]);
        lemma_encoder_run_concat(next, a.drop_first(), b);
        let (mid, first) = crate::retry::run(next, a.drop_first());
        let (last, second) = crate::retry::run(mid, b);
        assert(seq![step] + (first + second) =~= (seq![step] + first) + second);
    }
}

/// The course of one driver at the end of a recording: the end of input is
/// taken, and the final drain follows.
proof fn lemma_final_course(driver: CodecDriver, packets: nat)
    requires
        driver.phase == Phase::Idle,
    ensures
        ({
            let sending = driver.at(Phase::SendingEof, Pending::Nothing);
            let course = flush_replies(packets);
            let (last, steps) = crate::driver::run(sending, course);
            &&& course.len() >= 1
            &&& last == driver.reset()
            &&& steps == seq![
                StepView::Perform(Request::ReceivePacket { stream: driver.stream }),
            ] + writes(driver, packets) + seq![StepView::Complete]
            &&& steps.last() == StepView::Complete
            &&& ongoing(steps.drop_last())
        }),
{
    let sending = driver.at(Phase::SendingEof, Pending::Nothing);
    let draining = driver.at(Phase::Receiving, Pending::Exhaustion);
    let receive = StepView::Perform(Request::ReceivePacket { stream: driver.stream });
    let course = flush_replies(packets);
    assert(course.drop_first() =~= final_drain_replies(packets));
    assert(course[0] == ReplyView::Done);
    assert(sending.spec_step(ReplyView::Done) == (draining, receive));
    lemma_final_drain(draining, packets);
    lemma_same_writes(draining, driver, packets);
    let steps = seq![receive] + (writes(driver, packets) + seq![StepView::Complete]);
    assert(crate::driver::run(sending, course) == (draining.reset(), steps));
    assert(steps =~= seq![receive] + writes(driver, packets) + seq![StepView::Complete]);
    lemma_ends_once(sending, course);
}

/// While its encoder asks for work the writer passes every request on;
/// the step with which the encoder ends its part is settled as the writer's
/// task says.
proof fn lemma_writer_settles(writer: WriterView, replies: Seq<ReplyView>)
    requires
        writer.state is Recording,
        writer.task == Task::Opening || writer.task == Task::Starting || writer.task == Task::Video
            || writer.task == Task::Audio || writer.task == Task::Finishing,
        replies.len() >= 1,
        ongoing(crate::retry::run(writer.encoder(), replies).1.drop_last()),
    ensures
        crate::writer::run(writer, replies) == ({
            let (encoder, steps) = crate::retry::run(writer.encoder(), replies);
            let (last, outcome) = writer.settle(writer.task, (encoder, steps.last()));
            (last, asked(steps.drop_last()) + seq![outcome])
        }),
    decreases replies.len(),
{
    let (encoder, steps) = crate::retry::run(writer.encoder(), replies);
    let (moved, step) = writer.encoder().spec_step(replies[0]);
    let rest = replies.drop_first();
    let tail = crate::retry::run(moved, rest).1;
    lemma_encoder_run_length(moved, rest);
    assert(steps == seq![step] + tail);
    assert(writer.spec_resume(replies[0]) == writer.settle(writer.task, (moved, step)));
    if rest.len() == 0 {
        assert(tail =~= Seq::<StepView>::empty());
        assert(steps.last() == step);
        assert(steps.drop_last() =~= Seq::<StepView>::empty());
        let (last, outcome) = writer.settle(writer.task, (moved, step));
        assert(crate::writer::run(last, rest) == (last, Seq::<Outcome>::empty()));
        assert(seq![outcome] + Seq::<Outcome>::empty() =~= asked(steps.drop_last()) + seq![
            outcome,
        ]);
    } else {
        assert(steps.drop_last() =~= seq![step] + tail.drop_last());
        assert(steps.drop_last()[0] is Perform);
        let next = writer.with_encoder(moved);
        assert(writer.spec_resume(replies[0]) == (next, Outcome::Perform(step->Perform_0)));
        assert forall|i: int| 0 <= i < tail.drop_last().len() implies (#[trigger] tail.drop_last()[i])
            is Perform by {
            assert(tail.drop_last()[i] == steps.drop_last()[i + 1]);
        }
        lemma_writer_settles(next, rest);
        assert(steps.last() == tail.last());
        assert(next.settle(next.task, (encoder, tail.last())) == writer.settle(
            writer.task,
            (encoder, steps.last()),
        ));
        let outcome = writer.settle(writer.task, (encoder, steps.last())).1;
        assert(seq![Outcome::Perform(step->Perform_0)] + (asked(tail.drop_last()) + seq![outcome])
            =~= asked(steps.drop_last()) + seq![outcome]);
    }
}

proof fn lemma_encoder_run_length(encoder: EncoderView, replies: Seq<ReplyView>)
    ensures
        crate::retry::run(encoder, replies).1.len() == replies.len(),
    decreases replies.len(),
{
    if replies.len() > 0 {
        lemma_encoder_run_length(encoder.spec_step(replies[0]).0, replies.drop_first());
    }
}

/// The number of steps in the construction of a conversion context: the
/// device, the kernel, and nine handles.
pub open spec fn allocation_count() -> int {
    11
}

/// The conversion context after `done` steps of its construction have
/// succeeded, the steps that yield a handle with those of `handles` in
/// order.
pub open spec fn built(converter: ConversionView, handles: Seq<u64>, done: int) -> ConversionView {
    ConversionView {
        device: done >= 1,
        kernel: done >= 2,
        handles: handles.subrange(
            0,
            if done > 2 {
                done - 2
            } else {
                0
            },
        ),
        ..converter
    }
}

/// The successes of the steps of construction from step `from` on.
pub open spec fn allocation_replies(handles: Seq<u64>, from: int) -> Seq<ReplyView> {
    Seq::new(
        (allocation_count() - from) as nat,
        |i: int|
            if from + i < 2 {
                ReplyView::Done
            } else {
                ReplyView::Handle(handles[from + i - 2])
            },
    )
}

/// What the encoder asks for upon those successes: the next allocation
/// each time, and the end of the opening after the last.
pub open spec fn allocation_steps(converter: ConversionView, handles: Seq<u64>, from: int) -> Seq<
    StepView,
> {
    Seq::new(
        (allocation_count() - from) as nat,
        |i: int|
            match built(converter, handles, from + i + 1).next_allocation() {
                Some(a) => StepView::Perform(Request::Allocate(a)),
                None => StepView::Complete,
            },
    )
}

/// The encoder once the container is open and the conversion context is
/// built with `handles`.
pub open spec fn opened(encoder: EncoderView, global_header: bool, handles: Seq<u64>) -> EncoderView {
    EncoderView {
        global_header,
        opened: true,
        converter: built(encoder.converter, handles, allocation_count()),
        ..encoder.doing(Activity::Idle)
    }
}

proof fn lemma_allocate_from(encoder: EncoderView, handles: Seq<u64>, done: int)
    requires
        0 <= done < allocation_count(),
        encoder.activity == Activity::Allocating,
        encoder.converter == built(encoder.converter, handles, done),
        handles.len() == 9,
        handles.no_duplicates(),
        forall|i: int| 0 <= i < handles.len() ==> handles[i] != 0,
    ensures
        crate::retry::run(encoder, allocation_replies(handles, done)) == (
            opened(encoder, encoder.global_header, handles),
            allocation_steps(encoder.converter, handles, done),
        ),
    decreases allocation_count() - done,
{
    let replies = allocation_replies(handles, done);
    let converter = encoder.converter;
    let after = built(converter, handles, done + 1);
    if done >= 2 {
        let held = handles.subrange(0, done - 2);
        let h = handles[done - 2];
        assert(!held.contains(h)) by {
            if held.contains(h) {
                let j = choose|j: int| 0 <= j < held.len() && held[j] == h;
                assert(handles[j] == h);
            }
        }
        assert(held.push(h) =~= handles.subrange(0, done - 1));
        assert(converter.next_allocation() is Some);
        assert(!(converter.next_allocation() matches Some(crate::protocol::Allocation::Device)));
        assert(!(converter.next_allocation() matches Some(crate::protocol::Allocation::Kernel)));
    }
    assert(converter.allocated(replies[0]) == Some(after));
    let (next, step) = encoder.spec_step(replies[0]);
    assert((next, step) == (EncoderView { converter: after, ..encoder }).spec_allocate_next());
    if done + 1 < allocation_count() {
        assert(after.next_allocation() is Some);
        assert(replies.drop_first() =~= allocation_replies(handles, done + 1));
        assert(built(after, handles, done + 1) == after);
        lemma_allocate_from(next, handles, done + 1);
        assert(built(after, handles, allocation_count()) == built(
            converter,
            handles,
            allocation_count(),
        ));
        assert(seq![step] + allocation_steps(after, handles, done + 1) =~= allocation_steps(
            converter,
            handles,
            done,
        ));
    } else {
        assert(handles.subrange(0, 9) =~= handles);
        assert(after.next_allocation() is None);
        assert(replies.drop_first() =~= Seq::<ReplyView>::empty());
        assert(crate::retry::run(next, Seq::empty()) == (next, Seq::<StepView>::empty()));
        assert(seq![step] + Seq::<StepView>::empty() =~= allocation_steps(converter, handles, done));
    }
}

/// The opening of an encoder, everything succeeding. The container is
/// opened, then the conversion context is built step by step: the device,
/// the kernel, and the nine GPU objects, each asked for once, each with the
/// handles of those it depends on. The encoder is then open, and holds
/// exactly the handles it was given, in the order in which it was given
/// them.
pub proof fn lemma_open_course(encoder: EncoderView, global_header: bool, handles: Seq<u64>)
    requires
        encoder.activity == Activity::Idle,
        !encoder.opened,
        !encoder.closed,
        encoder.converter == built(encoder.converter, handles, 0),
        handles.len() == 9,
        handles.no_duplicates(),
        forall|i: int| 0 <= i < handles.len() ==> handles[i] != 0,
    ensures
        ({
            let replies = seq![ReplyView::Opened { global_header }] + allocation_replies(handles, 0);
            let (opening, first) = encoder.spec_open();
            let (last, steps) = crate::retry::run(opening, replies);
            &&& first == StepView::Perform(Request::OpenOutput)
            &&& steps == seq![
                StepView::Perform(Request::Allocate(crate::protocol::Allocation::Device)),
            ] + allocation_steps(encoder.converter, handles, 0)
            &&& steps.last() == StepView::Complete
            &&& ongoing(steps.drop_last())
            &&& last == opened(encoder, global_header, handles)
            &&& last.converter.handles == handles
            &&& last.converter.ready()
        }),
{
    let replies = seq![ReplyView::Opened { global_header }] + allocation_replies(handles, 0);
    let (opening, first) = encoder.spec_open();
    let allocating = EncoderView { global_header, ..encoder.doing(Activity::Allocating) };
    let device = StepView::Perform(Request::Allocate(crate::protocol::Allocation::Device));
    assert(opening.spec_step(replies[0]) == (allocating, device));
    assert(replies.drop_first() =~= allocation_replies(handles, 0));
    lemma_allocate_from(allocating, handles, 0);
    let tail = allocation_steps(encoder.converter, handles, 0);
    let steps = seq![device] + tail;
    assert(handles.subrange(0, 9) =~= handles);
    assert(opened(allocating, global_header, handles) == opened(encoder, global_header, handles));
    assert(steps.last() == tail[10]);
    assert forall|i: int| 0 <= i < steps.drop_last().len() implies (#[trigger] steps.drop_last()[i])
        is Perform by {
        if i > 0 {
            assert(steps.drop_last()[i] == tail[i - 1]);
            assert(built(encoder.converter, handles, i).next_allocation() is Some);
        }
    }
}

/// The steps of a start from the stage at position `k` of the plan on, every
/// stage succeeding: the stages that follow, and then the end of the start.
pub open spec fn start_steps(audio: bool, k: int) -> Seq<StepView> {
    let plan = start_plan(audio);
    Seq::new(
        (plan.len() - k) as nat,
        |i: int|
            if k + i + 1 < plan.len() {
                StepView::Perform(Request::Start(plan[k + i + 1]))
            } else {
                StepView::Complete
            },
    )
}

/// As many successes as the plan has stages from position `k` on.
pub open spec fn start_replies(audio: bool, k: int) -> Seq<ReplyView> {
    Seq::new((start_plan(audio).len() - k) as nat, |i: int| ReplyView::Done)
}

proof fn lemma_start_from(encoder: EncoderView, k: int)
    requires
        0 <= k < start_plan(encoder.settings.audio_enabled).len(),
        encoder.activity == Activity::Starting(start_plan(encoder.settings.audio_enabled)[k]),
    ensures
        crate::retry::run(encoder, start_replies(encoder.settings.audio_enabled, k)) == (
            encoder.spec_advance(StartStage::WriteHeader).0,
            start_steps(encoder.settings.audio_enabled, k),
        ),
    decreases start_plan(encoder.settings.audio_enabled).len() - k,
{
    let audio = encoder.settings.audio_enabled;
    let plan = start_plan(audio);
    let replies = start_replies(audio, k);
    let (next, step) = encoder.spec_step(replies[0]);
    lemma_stage_after(audio, k);
    lemma_stage_after(audio, plan.len() - 1);
    assert(plan[plan.len() - 1] == StartStage::WriteHeader);
    if k + 1 < plan.len() {
        assert(replies.drop_first() =~= start_replies(audio, k + 1));
        lemma_start_from(next, k + 1);
        assert(next.spec_advance(StartStage::WriteHeader).0 == encoder.spec_advance(
            StartStage::WriteHeader,
        ).0);
        assert(seq![step] + start_steps(audio, k + 1) =~= start_steps(audio, k));
    } else {
        assert(replies.drop_first() =~= Seq::<ReplyView>::empty());
        assert(crate::retry::run(next, Seq::empty()) == (next, Seq::<StepView>::empty()));
        assert(seq![step] + Seq::<StepView>::empty() =~= start_steps(audio, k));
    }
}

/// The start of an encoder, every stage succeeding. The encoder asks for
/// the stages of its plan, each once and in the order of the plan, so that
/// each stream is added once, the video stream first, and the header is
/// written once, after the streams and as the last stage. The encoder has
/// then started: its video driver exists, idle, for stream 0, and its audio
/// driver for stream 1 where audio is enabled.
pub proof fn lemma_start_course(encoder: EncoderView)
    requires
        encoder.activity == Activity::Idle,
        encoder.opened,
        !encoder.closed,
        encoder.video_encoder is None,
    ensures
        ({
            let audio = encoder.settings.audio_enabled;
            let (starting, first) = encoder.spec_start();
            let (last, steps) = crate::retry::run(starting, start_replies(audio, 0));
            &&& first == StepView::Perform(Request::Start(start_plan(audio)[0]))
            &&& steps == start_steps(audio, 0)
            &&& steps.last() == StepView::Complete
            &&& ongoing(steps.drop_last())
            &&& last.activity == Activity::Idle
            &&& last.video_encoder == Some(fresh_driver(VIDEO_STREAM, encoder.settings))
            &&& last.audio_encoder == if audio {
                Some(fresh_driver(AUDIO_STREAM, encoder.settings))
            } else {
                None
            }
            &&& last == encoder.spec_advance(StartStage::WriteHeader).0
        }),
{
    let audio = encoder.settings.audio_enabled;
    let (starting, first) = encoder.spec_start();
    lemma_start_from(starting, 0);
    assert(starting.spec_advance(StartStage::WriteHeader).0 == encoder.spec_advance(
        StartStage::WriteHeader,
    ).0);
    lemma_stage_after(audio, start_plan(audio).len() - 1);
}

/// The beginning of a recording, everything succeeding. The writer asks
/// for the container to be opened and the conversion context to be built,
/// as [`lemma_open_course`] says, and then for the stages of the start, as
/// [`lemma_start_course`] says: every allocation once, every stream added
/// once, the header written once and last. It asks for nothing else. The
/// operation returns `OK`, and the writer records, unpaused, from frame 0,
/// with an encoder that has started and holds the handles it was given.
pub proof fn lemma_begin_course(
    writer: WriterView,
    width: i32,
    height: i32,
    fps: u32,
    path: Seq<char>,
    global_header: bool,
    handles: Seq<u64>,
)
    requires
        writer.task == Task::Idle,
        !(writer.state is Recording),
        writer.library_ready,
        acceptable(writer.profile, width, height, fps, path),
        handles.len() == 9,
        handles.no_duplicates(),
        forall|i: int| 0 <= i < handles.len() ==> handles[i] != 0,
    ensures
        ({
            let encoder = created(writer.profile, width as u32, height as u32, path, overrides(fps));
            let audio = encoder.settings.audio_enabled;
            let opening = seq![ReplyView::Opened { global_header }] + allocation_replies(handles, 0);
            let allocations = seq![
                StepView::Perform(Request::Allocate(crate::protocol::Allocation::Device)),
            ] + allocation_steps(encoder.converter, handles, 0);
            let (recording, first) = writer.spec_write_begin(width, height, fps, path);
            let (last, outcomes) = crate::writer::run(recording, opening + start_replies(audio, 0));
            &&& first == Outcome::Perform(Request::OpenOutput)
            &&& outcomes == asked(allocations.drop_last()) + seq![
                Outcome::Perform(Request::Start(start_plan(audio)[0])),
            ] + asked(start_steps(audio, 0).drop_last()) + seq![Outcome::Return(Status::OK)]
            &&& last.state == (StateView::Recording {
                paused: false,
                current_frame: 0,
                encoder: opened(encoder, global_header, handles).spec_advance(
                    StartStage::WriteHeader,
                ).0,
            })
            &&& last.encoder().video_encoder is Some
            &&& last.encoder().converter.handles == handles
            &&& last.task == Task::Idle
        }),
{
    let encoder = created(writer.profile, width as u32, height as u32, path, overrides(fps));
    let audio = encoder.settings.audio_enabled;
    let opening = seq![ReplyView::Opened { global_header }] + allocation_replies(handles, 0);
    let starting = start_replies(audio, 0);
    let (recording, first) = writer.spec_write_begin(width, height, fps, path);
    assert(encoder.converter.handles =~= handles.subrange(0, 0));
    assert(encoder.converter == built(encoder.converter, handles, 0));
    lemma_open_course(encoder, global_header, handles);
    assert(recording.encoder() == encoder.spec_open().0);
    lemma_writer_settles(recording, opening);
    let open = opened(encoder, global_header, handles);
    lemma_start_course(open);
    let (started, first_part) = crate::writer::run(recording, opening);
    assert(started == recording.with_encoder(open.spec_start().0).doing(Task::Starting));
    lemma_writer_settles(started, starting);
    lemma_run_concat(recording, opening, starting);
    assert(handles.subrange(0, 9) =~= handles);
    let done = seq![Outcome::Return(Status::OK)];
    let allocations = seq![
        StepView::Perform(Request::Allocate(crate::protocol::Allocation::Device)),
    ] + allocation_steps(encoder.converter, handles, 0);
    let begun = seq![Outcome::Perform(Request::Start(start_plan(audio)[0]))];
    assert((asked(allocations.drop_last()) + begun) + (asked(start_steps(audio, 0).drop_last())
        + done) =~= asked(allocations.drop_last()) + begun + asked(
        start_steps(audio, 0).drop_last(),
    ) + done);
}

/// A frame of a recording without audio. When the conversion succeeds and
/// the video codec reports busy `ready.len() - 1` times before it accepts
/// the frame, the writer passes on what its encoder asks for, the frame
/// ends with `OK`, and the frame index has advanced by exactly one.
/// [`lemma_video_frame_busy_retry`] says what the encoder asks for.
pub proof fn lemma_recorded_frame(writer: WriterView, ready: Seq<nat>)
    requires
        writer.wf(),
        writer.task == Task::Idle,
        writer.state matches StateView::Recording { paused, .. } && !paused,
        writer.encoder().video_encoder is Some,
        writer.encoder().audio_encoder is None,
        !writer.encoder().settings.audio_enabled,
        !writer.encoder().closed,
        writer.current_frame() < frame_limit(),
        ready.len() >= 1,
    ensures
        ({
            let replies = seq![ReplyView::Done] + busy_then_accept(ready);
            let encoder = writer.encoder();
            let index = writer.current_frame() as usize;
            let (converting, convert) = encoder.spec_push_video_frame(index);
            let steps = crate::retry::run(converting, replies).1;
            let (recording, first) = writer.spec_write_frame();
            let (last, outcomes) = crate::writer::run(recording, replies);
            &&& first == Outcome::Perform(Request::Convert { pts: encoder.pts(index as int) })
            &&& outcomes == asked(steps.drop_last()) + seq![Outcome::Return(Status::OK)]
            &&& last.state == (StateView::Recording {
                paused: false,
                current_frame: (writer.current_frame() + 1) as i64,
                encoder: encoder.with_video(encoder.video_encoder->0.reset()),
            })
            &&& last.task == Task::Idle
        }),
{
    let replies = seq![ReplyView::Done] + busy_then_accept(ready);
    let encoder = writer.encoder();
    let index = writer.current_frame() as usize;
    let (recording, first) = writer.spec_write_frame();
    lemma_video_frame_busy_retry(encoder, index, ready);
    lemma_writer_settles(recording, replies);
}

/// A frame of a recording with audio. When the conversion succeeds and the
/// video codec accepts the frame after `video.len() - 1` busy answers, the
/// audio block follows, stamped as the picture was; when the audio codec
/// accepts it after `audio.len() - 1` busy answers, the frame ends with
/// `OK`, and the frame index has advanced by exactly one.
/// [`lemma_video_frame_busy_retry`] and [`lemma_audio_frame_busy_retry`]
/// say what the encoder asks for in the two parts.
pub proof fn lemma_recorded_frame_with_audio(writer: WriterView, video: Seq<nat>, audio: Seq<nat>)
    requires
        writer.wf(),
        writer.task == Task::Idle,
        writer.state matches StateView::Recording { paused, .. } && !paused,
        writer.encoder().video_encoder is Some,
        writer.encoder().audio_encoder is Some,
        !writer.encoder().closed,
        writer.current_frame() < frame_limit(),
        video.len() >= 1,
        audio.len() >= 1,
    ensures
        ({
            let picture = seq![ReplyView::Done] + busy_then_accept(video);
            let sound = seq![ReplyView::Done] + busy_then_accept(audio);
            let encoder = writer.encoder();
            let index = writer.current_frame() as usize;
            let (converting, convert) = encoder.spec_push_video_frame(index);
            let (between, first_part) = crate::retry::run(converting, picture);
            let (preparing, prepare) = between.spec_push_audio_frame(index);
            let (after, second_part) = crate::retry::run(preparing, sound);
            let (recording, first) = writer.spec_write_frame();
            let (last, outcomes) = crate::writer::run(recording, picture + sound);
            &&& first == Outcome::Perform(Request::Convert { pts: encoder.pts(index as int) })
            &&& prepare matches StepView::Perform(Request::PrepareAudio { pts, .. }) && pts
                == encoder.pts(index as int)
            &&& outcomes == asked(first_part.drop_last()) + asked(seq![prepare]) + asked(
                second_part.drop_last(),
            ) + seq![Outcome::Return(Status::OK)]
            &&& last.state == (StateView::Recording {
                paused: false,
                current_frame: (writer.current_frame() + 1) as i64,
                encoder: after,
            })
            &&& after.activity == Activity::Idle
            &&& last.task == Task::Idle
        }),
{
    let picture = seq![ReplyView::Done] + busy_then_accept(video);
    let sound = seq![ReplyView::Done] + busy_then_accept(audio);
    let encoder = writer.encoder();
    let index = writer.current_frame() as usize;
    let (converting, convert) = encoder.spec_push_video_frame(index);
    let (between, first_part) = crate::retry::run(converting, picture);
    let (preparing, prepare) = between.spec_push_audio_frame(index);
    let (after, second_part) = crate::retry::run(preparing, sound);
    let (recording, first) = writer.spec_write_frame();
    lemma_video_frame_busy_retry(encoder, index, video);
    lemma_writer_settles(recording, picture);
    assert(between.wf());
    lemma_audio_frame_busy_retry(between, index, audio);
    let (sounding, second) = crate::writer::run(recording, picture);
    assert(sounding == recording.with_encoder(preparing).doing(Task::Audio));
    lemma_writer_settles(sounding, sound);
    lemma_run_concat(recording, picture, sound);
    assert(asked(seq![prepare]) =~= seq![Outcome::Perform(prepare->Perform_0)]);
    let done = seq![Outcome::Return(Status::OK)];
    assert((asked(first_part.drop_last()) + asked(seq![prepare])) + (asked(
        second_part.drop_last(),
    ) + done) =~= asked(first_part.drop_last()) + asked(seq![prepare]) + asked(
        second_part.drop_last(),
    ) + done);
}

proof fn lemma_run_concat(writer: WriterView, a: Seq<ReplyView>, b: Seq<ReplyView>)
    ensures
        crate::writer::run(writer, a + b) == ({
            let (mid, first) = crate::writer::run(writer, a);
            let (last, second) = crate::writer::run(mid, b);
            (last, first + second)
        }),
    decreases a.len(),
{
    if a.len() == 0 {
        assert(a + b =~= b);
        assert(Seq::<Outcome>::empty() + crate::writer::run(writer, b).1 =~= crate::writer::run(
            writer,
            b,
        ).1);
    } else {
        let (next, outcome) = writer.spec_resume(a[0]);
        assert((a + b).drop_first() =~= a.drop_first() + b);
        assert((a + b)[0] == a[0]);
        lemma_run_concat(next, a.drop_first(), b);
        let (mid, first) = crate::writer::run(next, a.drop_first());
        let (last, second) = crate::writer::run(mid, b);
        assert(seq![outcome] + (first + second) =~= (seq![outcome] + first) + second);
    }
}

/// What the encoder of a recording asks of its codecs and of the
/// container at the end: of the video codec the end of input and the final
/// drain, then the same of the audio codec where there is one, and at last
/// the trailer.
pub open spec fn end_requests(encoder: EncoderView, video: nat, audio: nat) -> Seq<StepView> {
    let first = flush_requests(encoder.video_encoder->0, video);
    let second = if encoder.audio_encoder is Some {
        flush_requests(encoder.audio_encoder->0, audio)
    } else {
        Seq::empty()
    };
    first + second + seq![StepView::Perform(Request::WriteTrailer)]
}

/// The end of input and the final drain of one driver, as requests.
pub open spec fn flush_requests(driver: CodecDriver, packets: nat) -> Seq<StepView> {
    seq![
        StepView::Perform(Request::SendEof { stream: driver.stream }),
        StepView::Perform(Request::ReceivePacket { stream: driver.stream }),
    ] + writes(driver, packets)
}

/// What one codec answers at the end: it takes the end of input, hands out
/// the `packets` packets it still holds, and reports exhaustion.
pub open spec fn flush_replies(packets: nat) -> Seq<ReplyView> {
    seq![ReplyView::Done] + final_drain_replies(packets)
}

/// What the codecs and the container answer at the end of a recording
/// when they do as they are asked, and what the releases are answered with.
pub open spec fn end_replies(encoder: EncoderView, video: nat, audio: nat, releases: Seq<ReplyView>) -> Seq<
    ReplyView,
> {
    let second = if encoder.audio_encoder is Some {
        flush_replies(audio)
    } else {
        Seq::empty()
    };
    flush_replies(video) + second + seq![ReplyView::Done] + releases
}

/// The end of a recording. When each codec takes the end of input, hands
/// out the packets it still holds (`video` and `audio` of them) and reports
/// exhaustion, and the container takes every packet and its trailer, then
/// the requests of the whole operation are, in this order and no others:
/// for the video codec the end of input, once, and the pulls, with every
/// packet written before the next is pulled; the same for the audio codec
/// where there is one; the trailer, once and as the last request to the
/// container; and the release of every handle that the encoder holds,
/// whatever the releases are answered with. The operation returns `OK`, and
/// the writer is idle before a recording, so that a new one can begin.
pub proof fn lemma_end_of_recording(
    writer: WriterView,
    video: nat,
    audio: nat,
    releases: Seq<ReplyView>,
)
    requires
        writer.wf(),
        writer.task == Task::Idle,
        writer.state is Recording,
        writer.encoder().video_encoder is Some,
        !writer.encoder().closed,
        releases.len() == writer.held().len(),
    ensures
        ({
            let encoder = writer.encoder();
            let (ending, first) = writer.spec_write_end();
            let (last, outcomes) = crate::writer::run(
                ending,
                end_replies(encoder, video, audio, releases),
            );
            &&& encoder.video_encoder->0.stream == VIDEO_STREAM
            &&& encoder.video_encoder->0.time_base == encoder.settings.time_base
            &&& (encoder.audio_encoder matches Some(d) ==> d.stream == AUDIO_STREAM && d.time_base
                == encoder.settings.time_base)
            &&& seq![first] + outcomes == asked(end_requests(encoder, video, audio))
                + release_requests(writer.held()) + seq![Outcome::Return(Status::OK)]
            &&& last.state is PreRecording
            &&& last.task == Task::Idle
            &&& last.releasing.len() == 0
        }),
{
    let encoder = writer.encoder();
    let driver = encoder.video_encoder->0;
    let eof = StepView::Perform(Request::SendEof { stream: driver.stream });
    let trailer = StepView::Perform(Request::WriteTrailer);
    let sending = driver.at(Phase::SendingEof, Pending::Nothing);
    let finishing = encoder.with_video(sending).doing(Activity::FinishingVideo);
    let (ending, first) = writer.spec_write_end();
    assert(encoder.spec_finish() == (finishing, eof));
    assert(ending == writer.with_encoder(finishing).doing(Task::Finishing));

    // The video codec's course, which the encoder follows.
    let course_v = flush_replies(video);
    lemma_final_course(driver, video);
    let steps_v = crate::driver::run(sending, course_v).1;
    lemma_finishing_video_follows(finishing, course_v);
    let (after_video, then) = finishing.with_video(driver.reset()).spec_finish_audio();
    let asked_v = steps_v.drop_last() + seq![then];
    assert(crate::retry::run(finishing, course_v) == (after_video, asked_v));
    assert(steps_v.drop_last() =~= seq![
        StepView::Perform(Request::ReceivePacket { stream: driver.stream }),
    ] + writes(driver, video));

    // The audio codec's course where there is one, up to the trailer.
    let course = if encoder.audio_encoder is Some {
        course_v + flush_replies(audio)
    } else {
        course_v
    };
    let (at_trailer, asked_of_codec) = crate::retry::run(finishing, course);
    if encoder.audio_encoder is Some {
        let second = encoder.audio_encoder->0;
        let sending_a = second.at(Phase::SendingEof, Pending::Nothing);
        let course_a = flush_replies(audio);
        assert(then == StepView::Perform(Request::SendEof { stream: second.stream }));
        assert(after_video == finishing.with_video(driver.reset()).with_audio(sending_a).doing(
            Activity::FinishingAudio,
        ));
        lemma_final_course(second, audio);
        let steps_a = crate::driver::run(sending_a, course_a).1;
        lemma_finishing_audio_follows(after_video, course_a);
        lemma_encoder_run_concat(finishing, course_v, course_a);
        assert(steps_a.drop_last() =~= seq![
            StepView::Perform(Request::ReceivePacket { stream: second.stream }),
        ] + writes(second, audio));
        assert(asked_of_codec == asked_v + (steps_a.drop_last() + seq![trailer]));
        assert(seq![eof] + asked_of_codec =~= end_requests(encoder, video, audio));
    } else {
        assert(then == trailer);
        assert(seq![eof] + asked_of_codec =~= end_requests(encoder, video, audio));
    }
    assert(at_trailer.activity == Activity::Trailer);
    assert(at_trailer.converter == encoder.converter);
    assert(asked_of_codec.len() >= 1);
    assert(asked_of_codec.last() == trailer);
    assert forall|i: int| 0 <= i < asked_of_codec.len() implies (#[trigger] asked_of_codec[i])
        is Perform by {
        let all = seq![eof] + asked_of_codec;
        assert(asked_of_codec[i] == all[i + 1]);
        lemma_requests_ask(encoder, video, audio, i + 1);
    }

    // The writer passes every request on, then releases.
    lemma_encoder_run_length(finishing, course);
    lemma_writer_settles(ending, course);
    let waiting = ending.with_encoder(at_trailer);
    assert(crate::writer::run(ending, course) == (
        waiting,
        asked(asked_of_codec.drop_last()) + seq![Outcome::Perform(Request::WriteTrailer)],
    ));
    assert(asked(asked_of_codec.drop_last()) + seq![Outcome::Perform(Request::WriteTrailer)]
        =~= asked(asked_of_codec));
    assert(waiting.held() == writer.held());
    let rest = seq![ReplyView::Done] + releases;
    assert(rest.drop_first() =~= releases);
    lemma_trailer_is_last(waiting, releases);
    assert(end_replies(encoder, video, audio, releases) =~= course + rest);
    lemma_run_concat(ending, course, rest);
    assert(seq![first] + asked(asked_of_codec) =~= asked(seq![eof] + asked_of_codec));
    let tail = crate::writer::run(waiting, rest).1;
    assert(seq![first] + (asked(asked_of_codec) + tail) =~= asked(
        end_requests(encoder, video, audio),
    ) + release_requests(writer.held()) + seq![Outcome::Return(Status::OK)]);
}

/// Every one of the requests of the end asks for work.
proof fn lemma_requests_ask(encoder: EncoderView, video: nat, audio: nat, i: int)
    requires
        0 <= i < end_requests(encoder, video, audio).len(),
    ensures
        end_requests(encoder, video, audio)[i] is Perform,
{
    lemma_writes_ask(encoder.video_encoder->0, video);
    if encoder.audio_encoder is Some {
        lemma_writes_ask(encoder.audio_encoder->0, audio);
    }
}

proof fn lemma_writes_ask(driver: CodecDriver, packets: nat)
    ensures
        ongoing(writes(driver, packets)),
    decreases packets,
{
    if packets > 0 {
        lemma_writes_ask(driver, (packets - 1) as nat);
        let rest = writes(driver, (packets - 1) as nat);
        assert forall|i: int| 0 <= i < writes(driver, packets).len() implies (
        #[trigger] writes(driver, packets)[i]) is Perform by {
            if i >= 2 {
                assert(writes(driver, packets)[i] == rest[i - 2]);
            }
        }
    }
}

proof fn lemma_same_writes(a: CodecDriver, b: CodecDriver, packets: nat)
    requires
        a.stream == b.stream,
        a.time_base == b.time_base,
    ensures
        writes(a, packets) == writes(b, packets),
    decreases packets,
{
    if packets > 0 {
        lemma_same_writes(a, b, (packets - 1) as nat);
    }
}

} // verus!
