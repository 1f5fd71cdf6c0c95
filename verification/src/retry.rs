//! Busy-retry through the encoder: what holds of one codec driver holds of
//! the frames that an encoder pushes, for its video and for its audio
//! codec.

use crate::audio::spec_audio_frame_size;
use crate::driver::{
    busy_then_accept,
    lemma_busy_retry,
    lemma_codec_requests_only,
    lemma_ends_once,
    lemma_occurrences_concat,
    lemma_occurrences_one,
    lemma_run_length,
    occurrences,
    ongoing,
    total,
    CodecDriver,
    Phase,
};
use crate::encoder::{Activity, EncoderView};
use crate::protocol::{ReplyView, Request, StepView, AUDIO_STREAM, VIDEO_STREAM};
use vstd::prelude::*;

verus! {

/// The encoder after it has taken `replies` in order, and the steps it asked
/// for in return.
pub open spec fn run(encoder: EncoderView, replies: Seq<ReplyView>) -> (EncoderView, Seq<StepView>)
    decreases replies.len(),
{
    if replies.len() == 0 {
        (encoder, Seq::empty())
    } else {
        let (next, step) = encoder.spec_step(replies[0]);
        let (last, steps) = run(next, replies.drop_first());
        (last, seq![step] + steps)
    }
}

proof fn lemma_follows_video(encoder: EncoderView, replies: Seq<ReplyView>)
    requires
        encoder.activity == Activity::Video,
        encoder.video_encoder is Some,
        replies.len() >= 1,
        ongoing(crate::driver::run(encoder.video_encoder->0, replies).1.drop_last()),
    ensures
        run(encoder, replies) == ({
            let (driver, steps) = crate::driver::run(encoder.video_encoder->0, replies);
            (encoder.follow_video((driver, steps.last())).0, steps)
        }),
    decreases replies.len(),
{
    let driver = encoder.video_encoder->0;
    let (moved, step) = driver.spec_step(replies[0]);
    let next = encoder.follow_video((moved, step)).0;
    let rest = replies.drop_first();
    let (last, tail) = crate::driver::run(moved, rest);
    let steps = crate::driver::run(driver, replies).1;
    lemma_run_length(moved, rest);
    assert(steps == seq![step] + tail);
    if rest.len() == 0 {
        assert(tail =~= Seq::<StepView>::empty());
        assert(run(next, rest) == (next, Seq::<StepView>::empty()));
        assert(steps.last() == step);
    } else {
        assert(steps.drop_last() =~= seq![step] + tail.drop_last());
        assert(steps.drop_last()[0] is Perform);
        assert forall|i: int| 0 <= i < tail.drop_last().len() implies (#[trigger] tail.drop_last()[i])
            is Perform by {
            assert(tail.drop_last()[i] == steps.drop_last()[i + 1]);
        }
        lemma_follows_video(next, rest);
        assert(steps.last() == tail.last());
        assert(next.follow_video((last, tail.last())).0 == encoder.follow_video(
            (last, tail.last()),
        ).0);
    }
}

proof fn lemma_follows_audio(encoder: EncoderView, replies: Seq<ReplyView>)
    requires
        encoder.activity == Activity::Audio,
        encoder.audio_encoder is Some,
        replies.len() >= 1,
        ongoing(crate::driver::run(encoder.audio_encoder->0, replies).1.drop_last()),
    ensures
        run(encoder, replies) == ({
            let (driver, steps) = crate::driver::run(encoder.audio_encoder->0, replies);
            (encoder.follow_audio((driver, steps.last())).0, steps)
        }),
    decreases replies.len(),
{
    let driver = encoder.audio_encoder->0;
    let (moved, step) = driver.spec_step(replies[0]);
    let next = encoder.follow_audio((moved, step)).0;
    let rest = replies.drop_first();
    let (last, tail) = crate::driver::run(moved, rest);
    let steps = crate::driver::run(driver, replies).1;
    lemma_run_length(moved, rest);
    assert(steps == seq![step] + tail);
    if rest.len() == 0 {
        assert(tail =~= Seq::<StepView>::empty());
        assert(run(next, rest) == (next, Seq::<StepView>::empty()));
        assert(steps.last() == step);
    } else {
        assert(steps.drop_last() =~= seq![step] + tail.drop_last());
        assert(steps.drop_last()[0] is Perform);
        assert forall|i: int| 0 <= i < tail.drop_last().len() implies (#[trigger] tail.drop_last()[i])
            is Perform by {
            assert(tail.drop_last()[i] == steps.drop_last()[i + 1]);
        }
        lemma_follows_audio(next, rest);
        assert(steps.last() == tail.last());
        assert(next.follow_audio((last, tail.last())).0 == encoder.follow_audio(
            (last, tail.last()),
        ).0);
    }
}

/// What is counted of the steps of one frame: the steps themselves, and the
/// offers, pulls and writes for `driver` among them.
proof fn lemma_frame_counts(driver: CodecDriver, ready: Seq<nat>)
    requires
        driver.phase == Phase::Idle,
        ready.len() >= 1,
    ensures
        ({
            let send = StepView::Perform(Request::SendFrame { stream: driver.stream });
            let receive = StepView::Perform(Request::ReceivePacket { stream: driver.stream });
            let write = StepView::Perform(
                Request::WritePacket { stream: driver.stream, time_base: driver.time_base },
            );
            let sending = driver.at(Phase::Sending, crate::driver::Pending::Nothing);
            let (last, tail) = crate::driver::run(sending, busy_then_accept(ready));
            let steps = seq![send] + tail;
            &&& occurrences(steps, send) == ready.len()
            &&& occurrences(steps, receive) == ready.len() + total(ready)
            &&& occurrences(steps, write) == total(ready)
            &&& tail.len() >= 1
            &&& steps.last() == StepView::Complete
            &&& last == driver.reset()
            &&& ongoing(tail.drop_last())
        }),
{
    let send = StepView::Perform(Request::SendFrame { stream: driver.stream });
    let receive = StepView::Perform(Request::ReceivePacket { stream: driver.stream });
    let write = StepView::Perform(
        Request::WritePacket { stream: driver.stream, time_base: driver.time_base },
    );
    let sending = driver.at(Phase::Sending, crate::driver::Pending::Nothing);
    let script = busy_then_accept(ready);
    let tail = crate::driver::run(sending, script).1;
    lemma_busy_retry(driver, ready);
    lemma_run_length(sending, script);
    assert(script.len() >= 1) by {
        if ready.len() == 1 {
            assert(script[0] == ReplyView::Done);
        } else {
            assert(script[0] == ReplyView::Busy);
        }
    }
    lemma_ends_once(sending, script);
    lemma_occurrences_concat(seq![send], tail, receive);
    lemma_occurrences_concat(seq![send], tail, write);
    lemma_occurrences_one(send, receive);
    lemma_occurrences_one(send, write);
}

/// Busy-retry of a video frame: an encoder that has started, and whose
/// video codec reports busy `n` times before it accepts the frame of
/// `index`, converts the image once, offers the frame `n + 1` times, pulls
/// the codec's output after every one of its answers and has every packet
/// written; the frame is then complete and the encoder idle again.
/// (`ready[i]` packets are ready after the codec's `i`-th answer, and
/// `ready.len() == n + 1`.)
pub proof fn lemma_video_frame_busy_retry(encoder: EncoderView, index: usize, ready: Seq<nat>)
    requires
        encoder.wf(),
        encoder.activity == Activity::Idle,
        !encoder.closed,
        encoder.video_encoder is Some,
        index <= i64::MAX,
        ready.len() >= 1,
    ensures
        ({
            let (converting, first) = encoder.spec_push_video_frame(index);
            let (last, steps) = run(converting, seq![ReplyView::Done] + busy_then_accept(ready));
            let send = StepView::Perform(Request::SendFrame { stream: VIDEO_STREAM });
            let receive = StepView::Perform(Request::ReceivePacket { stream: VIDEO_STREAM });
            let write = StepView::Perform(
                Request::WritePacket { stream: VIDEO_STREAM, time_base: encoder.settings.time_base },
            );
            &&& first == StepView::Perform(Request::Convert { pts: encoder.pts(index as int) })
            &&& occurrences(steps, first) == 0
            &&& occurrences(steps, send) == ready.len()
            &&& occurrences(steps, receive) == ready.len() + total(ready)
            &&& occurrences(steps, write) == total(ready)
            &&& steps.last() == StepView::Complete
            &&& ongoing(steps.drop_last())
            &&& last == encoder.with_video(encoder.video_encoder->0.reset())
        }),
{
    let driver = encoder.video_encoder->0;
    let (converting, first) = encoder.spec_push_video_frame(index);
    let script = busy_then_accept(ready);
    let replies = seq![ReplyView::Done] + script;
    let send = StepView::Perform(Request::SendFrame { stream: VIDEO_STREAM });
    let sending = driver.at(Phase::Sending, crate::driver::Pending::Nothing);
    let offered = encoder.with_video(sending).doing(Activity::Video);
    assert(converting.spec_step(ReplyView::Done) == (offered, send));
    assert(replies.drop_first() =~= script);
    assert(replies[0] == ReplyView::Done);
    lemma_frame_counts(driver, ready);
    lemma_run_length(sending, script);
    lemma_follows_video(offered, script);
    let tail = crate::driver::run(sending, script).1;
    let steps = run(converting, replies).1;
    assert(steps == seq![send] + tail);
    assert(steps.last() == tail.last());
    assert(steps.drop_last() =~= seq![send] + tail.drop_last());
    assert forall|i: int| 0 <= i < steps.drop_last().len() implies (#[trigger] steps.drop_last()[i])
        is Perform by {
        if i > 0 {
            assert(steps.drop_last()[i] == tail.drop_last()[i - 1]);
        }
    }
    lemma_codec_requests_only(sending, script);
    assert forall|i: int| 0 <= i < steps.len() implies !(#[trigger] steps[i]
        matches StepView::Perform(r) && (r is Convert || r is PrepareAudio)) by {
        if i > 0 {
            assert(steps[i] == tail[i - 1]);
        }
    }
    lemma_no_convert(steps, first);
}

/// Busy-retry of an audio frame: an encoder that has started with audio,
/// and whose audio codec reports busy `n` times before it accepts the frame
/// of `index`, fills the frame once, stamped as the video frame of the same
/// index is, offers it `n + 1` times, pulls the codec's output after every
/// one of its answers and has every packet written; the frame is then
/// complete and the encoder idle again.
pub proof fn lemma_audio_frame_busy_retry(encoder: EncoderView, index: usize, ready: Seq<nat>)
    requires
        encoder.wf(),
        encoder.activity == Activity::Idle,
        !encoder.closed,
        encoder.audio_encoder is Some,
        index <= i64::MAX,
        ready.len() >= 1,
    ensures
        ({
            let (preparing, first) = encoder.spec_push_audio_frame(index);
            let (last, steps) = run(preparing, seq![ReplyView::Done] + busy_then_accept(ready));
            let send = StepView::Perform(Request::SendFrame { stream: AUDIO_STREAM });
            let receive = StepView::Perform(Request::ReceivePacket { stream: AUDIO_STREAM });
            let write = StepView::Perform(
                Request::WritePacket { stream: AUDIO_STREAM, time_base: encoder.settings.time_base },
            );
            &&& first == StepView::Perform(
                Request::PrepareAudio {
                    pts: encoder.pts(index as int),
                    samples: spec_audio_frame_size(encoder.audio_codec),
                },
            )
            &&& first matches StepView::Perform(Request::PrepareAudio { pts, .. })
                && encoder.spec_push_video_frame(index).1 == StepView::Perform(
                Request::Convert { pts },
            )
            &&& occurrences(steps, first) == 0
            &&& occurrences(steps, send) == ready.len()
            &&& occurrences(steps, receive) == ready.len() + total(ready)
            &&& occurrences(steps, write) == total(ready)
            &&& steps.last() == StepView::Complete
            &&& ongoing(steps.drop_last())
            &&& last == encoder.with_audio(encoder.audio_encoder->0.reset())
        }),
{
    let driver = encoder.audio_encoder->0;
    let (preparing, first) = encoder.spec_push_audio_frame(index);
    let script = busy_then_accept(ready);
    let replies = seq![ReplyView::Done] + script;
    let send = StepView::Perform(Request::SendFrame { stream: AUDIO_STREAM });
    let sending = driver.at(Phase::Sending, crate::driver::Pending::Nothing);
    let offered = encoder.with_audio(sending).doing(Activity::Audio);
    assert(preparing.spec_step(ReplyView::Done) == (offered, send));
    assert(replies.drop_first() =~= script);
    assert(replies[0] == ReplyView::Done);
    lemma_frame_counts(driver, ready);
    lemma_run_length(sending, script);
    lemma_follows_audio(offered, script);
    let tail = crate::driver::run(sending, script).1;
    let steps = run(preparing, replies).1;
    assert(steps == seq![send] + tail);
    assert(steps.last() == tail.last());
    assert(steps.drop_last() =~= seq![send] + tail.drop_last());
    assert forall|i: int| 0 <= i < steps.drop_last().len() implies (#[trigger] steps.drop_last()[i])
        is Perform by {
        if i > 0 {
            assert(steps.drop_last()[i] == tail.drop_last()[i - 1]);
        }
    }
    lemma_codec_requests_only(sending, script);
    assert forall|i: int| 0 <= i < steps.len() implies !(#[trigger] steps[i]
        matches StepView::Perform(r) && (r is Convert || r is PrepareAudio)) by {
        if i > 0 {
            assert(steps[i] == tail[i - 1]);
        }
    }
    lemma_no_convert(steps, first);
}

/// A step that prepares a frame does not occur among steps that are asked
/// of a codec or end the operation.
proof fn lemma_no_convert(steps: Seq<StepView>, first: StepView)
    requires
        first matches StepView::Perform(r) && (r is Convert || r is PrepareAudio),
        forall|i: int|
            0 <= i < steps.len() ==> !(#[trigger] steps[i] matches StepView::Perform(r) && (r
                is Convert || r is PrepareAudio)),
    ensures
        occurrences(steps, first) == 0,
    decreases steps.len(),
{
    if steps.len() > 0 {
        assert(steps[0] != first);
        assert forall|i: int| 0 <= i < steps.drop_first().len() implies !(
        #[trigger] steps.drop_first()[i] matches StepView::Perform(r) && (r is Convert || r
            is PrepareAudio)) by {
            assert(steps.drop_first()[i] == steps[i + 1]);
        }
        lemma_no_convert(steps.drop_first(), first);
    }
}

} // verus!
