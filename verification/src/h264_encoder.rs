//! The widely compatible profile: H.264 video, FLAC audio.

use crate::audio::spec_audio_frame_size;
use crate::conversion::release_order;
use crate::encoder::{created, rejection, Encoder, EncoderView};
use crate::error::Error;
use crate::profile::Profile;
use crate::protocol::{Reply, Step};
use crate::settings::{ConcreteEncoderSettings, EncoderSettings};
use vstd::prelude::*;

verus! {

/// An encoder bound to the H.264 profile.
#[derive(Debug)]
pub struct H264Encoder {
    encoder: Encoder,
}

impl View for H264Encoder {
    type V = EncoderView;

    closed spec fn view(&self) -> EncoderView {
        self.encoder@
    }
}

impl H264Encoder {
    /// The invariant: that of an encoder, and the profile is H.264.
    pub open spec fn wf(&self) -> bool {
        self@.wf() && self@.profile == Profile::H264
    }

    /// An encoder of this profile for frames of `width` by `height`
    /// pixels, written to `path`, with the profile's defaults overridden by
    /// `settings`. [`rejection`] says which arguments are refused and how.
    pub fn new(width: u32, height: u32, path: &str, settings: EncoderSettings) -> (made: Result<
        Self,
        Error,
    >)
        ensures
            match made {
                Ok(made) => {
                    &&& rejection(Profile::H264, path@, settings) is None
                    &&& made.wf()
                    &&& made@ == created(Profile::H264, width, height, path@, settings)
                },
                Err(e) => rejection(Profile::H264, path@, settings) == Some(
                    (e.spec_kind(), e.detail()),
                ),
            },
    {
        match Encoder::new(Profile::H264, width, height, path, settings) {
            Ok(encoder) => Ok(H264Encoder { encoder }),
            Err(e) => Err(e),
        }
    }

    /// The encoder behind the profile.
    pub fn encoder(&self) -> (e: &Encoder)
        ensures
            e@ == self@,
    {
        &self.encoder
    }

    /// The settings the encoder records with.
    pub fn settings(&self) -> (s: &ConcreteEncoderSettings)
        ensures
            *s == self@.settings,
    {
        self.encoder.settings()
    }

    /// The number of samples per channel that the caller must deliver per
    /// audio frame.
    pub fn audio_frame_size(&self) -> (size: u32)
        ensures
            size == spec_audio_frame_size(self@.audio_codec),
    {
        self.encoder.audio_frame_size()
    }

    /// Begins the opening of the encoder; see [`Encoder::open`].
    pub fn open(&mut self) -> (step: Step)
        requires
            old(self).wf(),
        ensures
            final(self).wf(),
            (final(self)@, step@) == old(self)@.spec_open(),
    {
        self.encoder.open()
    }

    /// Begins the start of the encoder; see [`Encoder::start`].
    pub fn start(&mut self) -> (step: Step)
        requires
            old(self).wf(),
        ensures
            final(self).wf(),
            (final(self)@, step@) == old(self)@.spec_start(),
    {
        self.encoder.start()
    }

    /// Begins the encoding of one video frame; see
    /// [`Encoder::push_video_frame`].
    pub fn push_video_frame(&mut self, index: usize) -> (step: Step)
        requires
            old(self).wf(),
        ensures
            final(self).wf(),
            (final(self)@, step@) == old(self)@.spec_push_video_frame(index),
    {
        self.encoder.push_video_frame(index)
    }

    /// Begins the encoding of one audio frame; see
    /// [`Encoder::push_audio_frame`].
    pub fn push_audio_frame(&mut self, index: usize) -> (step: Step)
        requires
            old(self).wf(),
        ensures
            final(self).wf(),
            (final(self)@, step@) == old(self)@.spec_push_audio_frame(index),
    {
        self.encoder.push_audio_frame(index)
    }

    /// Begins the end of the session; see [`Encoder::finish`].
    pub fn finish(&mut self) -> (step: Step)
        requires
            old(self).wf(),
        ensures
            final(self).wf(),
            (final(self)@, step@) == old(self)@.spec_finish(),
    {
        self.encoder.finish()
    }

    /// Begins a drain of `stream`: every packet that its codec has ready is
    /// pulled, tagged with the stream, rescaled to the stream's time base
    /// and written.
    pub fn flush(&mut self, stream: usize) -> (step: Step)
        requires
            old(self).wf(),
        ensures
            final(self).wf(),
            (final(self)@, step@) == old(self)@.spec_flush(stream),
    {
        self.encoder.flush(stream)
    }

    /// Takes the reply to the request asked for last, and says what comes
    /// next.
    pub fn step(&mut self, reply: Reply) -> (step: Step)
        requires
            old(self).wf(),
        ensures
            final(self).wf(),
            (final(self)@, step@) == old(self)@.spec_step(reply@),
    {
        self.encoder.step(reply)
    }

    /// Gives up the encoder's GPU handles; see [`Encoder::teardown`].
    pub fn teardown(&mut self) -> (freed: Vec<u64>)
        requires
            old(self).wf(),
        ensures
            final(self).wf(),
            final(self)@ == old(self)@.torn_down(),
            freed@ == release_order(old(self)@.converter.handles),
            freed@.len() == old(self)@.converter.handles.len(),
            freed@.no_duplicates(),
            forall|h: u64| freed@.contains(h) <==> old(self)@.converter.handles.contains(h),
    {
        self.encoder.teardown()
    }
}

} // verus!
