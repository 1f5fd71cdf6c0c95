//! The closed set of encoder profiles behind one interface: the session
//! drives whichever profile is active through [`EncoderKind`] and holds no
//! per-codec decisions of its own.

use crate::audio::spec_audio_frame_size;
use crate::av1_encoder::Av1Encoder;
use crate::container::Container;
use crate::conversion::release_order;
use crate::encoder::{created, rejection, Encoder, EncoderView};
use crate::error::Error;
use crate::h264_encoder::H264Encoder;
use crate::profile::Profile;
use crate::protocol::{CodecId, Reply, Step};
use crate::settings::{ConcreteEncoderSettings, EncoderSettings};
use vstd::prelude::*;

verus! {

/// The encoder of a session, by profile.
#[derive(Debug)]
pub enum EncoderKind {
    H264(H264Encoder),
    Av1(Av1Encoder),
}

impl View for EncoderKind {
    type V = EncoderView;

    open spec fn view(&self) -> EncoderView {
        match *self {
            EncoderKind::H264(h264) => h264@,
            EncoderKind::Av1(av1) => av1@,
        }
    }
}

impl EncoderKind {
    /// The invariant: that of the encoder of the active profile.
    pub open spec fn wf(&self) -> bool {
        match *self {
            EncoderKind::H264(h264) => h264.wf(),
            EncoderKind::Av1(av1) => av1.wf(),
        }
    }

    /// An encoder of `profile`; see [`Encoder::new`].
    pub fn new(profile: Profile, width: u32, height: u32, path: &str, settings: EncoderSettings) -> (made:
        Result<Self, Error>)
        ensures
            match made {
                Ok(made) => {
                    &&& rejection(profile, path@, settings) is None
                    &&& made.wf()
                    &&& made@ == created(profile, width, height, path@, settings)
                },
                Err(e) => rejection(profile, path@, settings) == Some((e.spec_kind(), e.detail())),
            },
    {
        match profile {
            Profile::H264 => match H264Encoder::new(width, height, path, settings) {
                Ok(h264) => Ok(EncoderKind::H264(h264)),
                Err(e) => Err(e),
            },
            Profile::Av1 => match Av1Encoder::new(width, height, path, settings) {
                Ok(av1) => Ok(EncoderKind::Av1(av1)),
                Err(e) => Err(e),
            },
        }
    }

    /// The encoder of the active profile.
    pub fn encoder(&self) -> (e: &Encoder)
        ensures
            e@ == self@,
    {
        match self {
            EncoderKind::H264(h264) => h264.encoder(),
            EncoderKind::Av1(av1) => av1.encoder(),
        }
    }

    /// The video codec of the active profile.
    pub fn codec(&self) -> (id: CodecId)
        ensures
            id == self@.profile.spec_video_codec(),
    {
        self.encoder().profile().video_codec()
    }

    /// The settings the encoder records with.
    pub fn settings(&self) -> (s: &ConcreteEncoderSettings)
        ensures
            *s == self@.settings,
    {
        match self {
            EncoderKind::H264(h264) => h264.settings(),
            EncoderKind::Av1(av1) => av1.settings(),
        }
    }

    /// The number of samples per channel that the caller must deliver per
    /// audio frame.
    pub fn audio_frame_size(&self) -> (size: u32)
        ensures
            size == spec_audio_frame_size(self@.audio_codec),
    {
        match self {
            EncoderKind::H264(h264_encoder) => h264_encoder.audio_frame_size(),
            EncoderKind::Av1(av1_enc) => av1_enc.audio_frame_size(),
        }
    }

    /// The containers the active profile can be written to.
    pub fn supported_containers(&self) -> (list: Vec<Container>)
        ensures
            list@ == self@.profile.spec_supported_containers(),
            forall|c: Container| list@.contains(c) <==> self@.profile.spec_supports(c),
    {
        self.encoder().profile().supported_containers()
    }

    /// Begins the opening of the encoder; see [`Encoder::open`].
    pub fn open(&mut self) -> (step: Step)
        requires
            old(self).wf(),
        ensures
            final(self).wf(),
            (final(self)@, step@) == old(self)@.spec_open(),
    {
        match self {
            EncoderKind::H264(h264) => h264.open(),
            EncoderKind::Av1(av1) => av1.open(),
        }
    }

    /// Begins the start of the encoder; see [`Encoder::start`].
    pub fn start(&mut self) -> (step: Step)
        requires
            old(self).wf(),
        ensures
            final(self).wf(),
            (final(self)@, step@) == old(self)@.spec_start(),
    {
        match self {
            EncoderKind::H264(h264) => h264.start(),
            EncoderKind::Av1(av1) => av1.start(),
        }
    }

    /// Begins the end of the session; see [`Encoder::finish`].
    pub fn finish(&mut self) -> (step: Step)
        requires
            old(self).wf(),
        ensures
            final(self).wf(),
            (final(self)@, step@) == old(self)@.spec_finish(),
    {
        match self {
            EncoderKind::H264(h264) => h264.finish(),
            EncoderKind::Av1(av1) => av1.finish(),
        }
    }

    /// Begins the encoding of one video frame; see
    /// [`Encoder::push_video_frame`].
    pub fn push_video_frame(&mut self, index: usize) -> (step: Step)
        requires
            old(self).wf(),
        ensures
            final(self).wf(),
            (final(self)@, step@) == old(self)@.spec_push_video_frame(index),
    {
        match self {
            EncoderKind::H264(h264) => h264.push_video_frame(index),
            EncoderKind::Av1(av1) => av1.push_video_frame(index),
        }
    }

    /// Begins the encoding of one audio frame; see
    /// [`Encoder::push_audio_frame`].
    pub fn push_audio_frame(&mut self, index: usize) -> (step: Step)
        requires
            old(self).wf(),
        ensures
            final(self).wf(),
            (final(self)@, step@) == old(self)@.spec_push_audio_frame(index),
    {
        match self {
            EncoderKind::H264(h264) => h264.push_audio_frame(index),
            EncoderKind::Av1(av1) => av1.push_audio_frame(index),
        }
    }

    /// Takes the reply to the request asked for last, and says what comes
    /// next.
    pub fn step(&mut self, reply: Reply) -> (step: Step)
        requires
            old(self).wf(),
        ensures
            final(self).wf(),
            (final(self)@, step@) == old(self)@.spec_step(reply@),
    {
        match self {
            EncoderKind::H264(h264) => h264.step(reply),
            EncoderKind::Av1(av1) => av1.step(reply),
        }
    }

    /// Gives up the encoder's GPU handles; see [`Encoder::teardown`].
    pub fn teardown(&mut self) -> (freed: Vec<u64>)
        requires
            old(self).wf(),
        ensures
            final(self).wf(),
            final(self)@ == old(self)@.torn_down(),
            freed@ == release_order(old(self)@.converter.handles),
            freed@.len() == old(self)@.converter.handles.len(),
            freed@.no_duplicates(),
            forall|h: u64| freed@.contains(h) <==> old(self)@.converter.handles.contains(h),
    {
        match self {
            EncoderKind::H264(h264) => h264.teardown(),
            EncoderKind::Av1(av1) => av1.teardown(),
        }
    }
}

} // verus!
