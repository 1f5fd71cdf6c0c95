//! The encoder of one session: a colour conversion context, a video driver
//! and an optional audio driver behind one interface. It decides what is
//! done for each frame and in which order, and hands the work itself out as
//! requests.

use crate::audio::{audio_frame_size, spec_audio_frame_size, AudioCodec};
use crate::container::{container_of, Container};
use crate::conversion::{
    allocation_failure,
    unsupported_conversion,
    ConversionContext,
    ConversionView,
    Format,
};
use crate::driver::{lemma_empty_literal, NOT_IDLE, OUT_OF_TURN, CodecDriver, Pending, Phase};
use crate::error::{Error, ErrorKind};
use crate::profile::{
    first_stage,
    next_stage,
    stage_after,
    stage_context,
    stage_failure,
    start_plan,
    AudioConfig,
    Profile,
    VideoConfig,
};
use crate::protocol::{
    Reply,
    ReplyView,
    Request,
    StartStage,
    Step,
    StepView,
    AUDIO_STREAM,
    VIDEO_STREAM,
};
use crate::settings::{ConcreteEncoderSettings, EncoderSettings};
use crate::timing::clamp_i64;
use vstd::prelude::*;

verus! {

/// What an encoder is in the middle of.
#[derive(Clone, Copy, Debug, PartialEq, Eq, Structural)]
pub enum Activity {
    /// Nothing: the encoder takes a new operation.
    Idle,
    /// Opening the container.
    Opening,
    /// Constructing the conversion context.
    Allocating,
    /// Starting, at the given stage.
    Starting(StartStage),
    /// Converting an image.
    Converting,
    /// Running the video driver for a frame or a drain.
    Video,
    /// Filling an audio frame.
    PreparingAudio,
    /// Running the audio driver for a frame or a drain.
    Audio,
    /// Ending the video stream.
    FinishingVideo,
    /// Ending the audio stream.
    FinishingAudio,
    /// Finalising the container.
    Trailer,
}

/// The mathematical content of an [`Encoder`].
pub struct EncoderView {
    pub profile: Profile,
    pub width: u32,
    pub height: u32,
    pub converter: ConversionView,
    pub settings: ConcreteEncoderSettings,
    pub container: Container,
    /// The container wants the codecs' configuration in its header.
    pub global_header: bool,
    /// The container is open and the conversion context is ready.
    pub opened: bool,
    /// The container has been finalised.
    pub closed: bool,
    /// The video driver; none before the encoder has started.
    pub video_encoder: Option<CodecDriver>,
    /// The audio driver; none before the encoder has started, and none
    /// where audio is disabled.
    pub audio_encoder: Option<CodecDriver>,
    /// What the opened audio codec said of its frames.
    pub audio_codec: Option<AudioCodec>,
    pub activity: Activity,
}

/// The message for an operation that the encoder cannot begin as it is.
pub const OUT_OF_ORDER: &'static str = "Encoder is not ready for this operation";

/// The message for a frame or a drain before the encoder has started.
pub const VIDEO_NOT_INITIALIZED: &'static str = "Encoder not initialized";

/// The message for an audio frame before the audio encoder has started.
pub const AUDIO_NOT_INITIALIZED: &'static str = "audio Encoder not initialized";

/// The text that introduces the failure to fill an audio frame.
pub const PREPARE_FAILED: &'static str = "Could not prepare audio frame: ";

/// The text that introduces the failure to finalise the container.
pub const TRAILER_FAILED: &'static str = "Could not write trailer: ";

/// The text that introduces a path whose container is not supported.
pub const UNSUPPORTED_CONTAINER: &'static str = "Unsupported container for ";

/// The message for a frame rate or time base that is not positive.
pub const INVALID_TIMING: &'static str = "Frame rate and time base must be positive";

/// The message for a sample rate that does not fit a signed 32-bit number.
pub const INVALID_SAMPLE_RATE: &'static str = "Audio sample rate is out of range";

/// An idle driver for `stream` under `settings`.
pub open spec fn fresh_driver(stream: usize, settings: ConcreteEncoderSettings) -> CodecDriver {
    CodecDriver { stream, time_base: settings.time_base, phase: Phase::Idle, pending: Pending::Nothing }
}

/// Why an encoder of `profile` cannot be made for `path` with the overrides
/// `overrides`; `None` where it can. The path must name a container that
/// the profile supports; frame rate and time base must be positive; the
/// sample rate must fit a signed 32-bit number; the pixel format must be one
/// that the conversion has a kernel for.
pub open spec fn rejection(profile: Profile, path: Seq<char>, overrides: EncoderSettings) -> Option<
    (ErrorKind, Seq<char>),
> {
    let settings = profile.spec_default_settings().spec_update(overrides);
    let container = container_of(path);
    if container is None || !profile.spec_supports(container->0) {
        Some((ErrorKind::Validation, UNSUPPORTED_CONTAINER@ + path))
    } else if !settings.valid() {
        Some((ErrorKind::Validation, INVALID_TIMING@))
    } else if settings.audio_sample_rate > i32::MAX {
        Some((ErrorKind::Validation, INVALID_SAMPLE_RATE@))
    } else if !settings.pixel_format.spec_is_planar_420() {
        Some(
            (
                ErrorKind::ConversionError,
                unsupported_conversion(Format::RGBA8, settings.pixel_format),
            ),
        )
    } else {
        None
    }
}

/// The encoder that is made for the given arguments where they are not
/// rejected: it has the profile's defaults with the overrides laid over
/// them, and has opened nothing.
pub open spec fn created(
    profile: Profile,
    width: u32,
    height: u32,
    path: Seq<char>,
    overrides: EncoderSettings,
) -> EncoderView {
    let settings = profile.spec_default_settings().spec_update(overrides);
    EncoderView {
        profile,
        width,
        height,
        converter: ConversionView {
            width,
            height,
            layout: settings.pixel_format,
            device: false,
            kernel: false,
            handles: Seq::empty(),
        },
        settings,
        container: container_of(path)->0,
        global_header: false,
        opened: false,
        closed: false,
        video_encoder: None,
        audio_encoder: None,
        audio_codec: None,
        activity: Activity::Idle,
    }
}

impl EncoderView {
    /// The invariant of an encoder.
    pub open spec fn wf(&self) -> bool {
        &&& self.converter.wf()
        &&& self.converter.width == self.width
        &&& self.converter.height == self.height
        &&& self.converter.layout == self.settings.pixel_format
        &&& self.settings.valid()
        &&& self.settings.audio_sample_rate <= i32::MAX
        &&& self.profile.spec_supports(self.container)
        &&& (self.opened ==> self.converter.ready())
        &&& (self.video_encoder is Some ==> self.opened)
        &&& (self.audio_encoder is Some ==> self.video_encoder is Some && self.settings.audio_enabled)
        &&& (self.video_encoder matches Some(d) ==> {
            &&& d.stream == VIDEO_STREAM
            &&& d.time_base == self.settings.time_base
            &&& (d.phase == Phase::Idle || self.activity == Activity::Video || self.activity
                == Activity::FinishingVideo)
        })
        &&& (self.audio_encoder matches Some(d) ==> {
            &&& d.stream == AUDIO_STREAM
            &&& d.time_base == self.settings.time_base
            &&& (d.phase == Phase::Idle || self.activity == Activity::Audio || self.activity
                == Activity::FinishingAudio)
        })
        &&& (self.activity == Activity::Video || self.activity == Activity::FinishingVideo
            ==> self.video_encoder is Some)
        &&& (self.activity == Activity::Audio || self.activity == Activity::FinishingAudio
            ==> self.audio_encoder is Some)
        &&& (self.activity == Activity::Converting ==> self.video_encoder is Some)
        &&& (self.activity == Activity::PreparingAudio ==> self.audio_encoder is Some)
        &&& (self.activity is Starting ==> self.opened && self.video_encoder is None)
    }

    /// The encoder in the given activity, otherwise unchanged.
    pub open spec fn doing(self, activity: Activity) -> EncoderView {
        EncoderView { activity, ..self }
    }

    /// The encoder gives up its operation with the given failure.
    pub open spec fn abort(self, kind: ErrorKind, text: Seq<char>) -> (EncoderView, StepView) {
        (self.doing(Activity::Idle), StepView::Abort(kind, text))
    }

    /// An operation was asked for that the encoder cannot begin as it is:
    /// the encoder stays as it is.
    pub open spec fn refuse(self) -> (EncoderView, StepView) {
        if self.activity != Activity::Idle {
            (self, StepView::Abort(ErrorKind::Encoding, NOT_IDLE@))
        } else {
            (self, StepView::Abort(ErrorKind::Encoding, OUT_OF_ORDER@))
        }
    }

    /// Opening begins with the container.
    pub open spec fn spec_open(self) -> (EncoderView, StepView) {
        if self.activity == Activity::Idle && !self.opened && !self.closed {
            (self.doing(Activity::Opening), StepView::Perform(Request::OpenOutput))
        } else {
            self.refuse()
        }
    }

    /// The conversion context asks for its next allocation; once it is
    /// ready, the encoder is open.
    pub open spec fn spec_allocate_next(self) -> (EncoderView, StepView) {
        match self.converter.next_allocation() {
            Some(a) => (self.doing(Activity::Allocating), StepView::Perform(Request::Allocate(a))),
            None => (EncoderView { opened: true, ..self.doing(Activity::Idle) }, StepView::Complete),
        }
    }

    /// Starting begins with the first stage of the plan.
    pub open spec fn spec_start(self) -> (EncoderView, StepView) {
        if self.activity == Activity::Idle && self.opened && !self.closed
            && self.video_encoder is None {
            let stage = start_plan(self.settings.audio_enabled)[0];
            (self.doing(Activity::Starting(stage)), StepView::Perform(Request::Start(stage)))
        } else {
            self.refuse()
        }
    }

    /// After `stage` has succeeded the next stage is asked for; after the
    /// last, the drivers exist: video for stream 0, and audio for stream 1
    /// where audio is enabled.
    pub open spec fn spec_advance(self, stage: StartStage) -> (EncoderView, StepView) {
        match stage_after(stage, self.settings.audio_enabled) {
            Some(next) => (
                self.doing(Activity::Starting(next)),
                StepView::Perform(Request::Start(next)),
            ),
            None => (
                EncoderView {
                    video_encoder: Some(fresh_driver(VIDEO_STREAM, self.settings)),
                    audio_encoder: if self.settings.audio_enabled {
                        Some(fresh_driver(AUDIO_STREAM, self.settings))
                    } else {
                        None
                    },
                    ..self.doing(Activity::Idle)
                },
                StepView::Complete,
            ),
        }
    }

    /// The timestamp of frame `index`.
    pub open spec fn pts(self, index: int) -> i64 {
        clamp_i64(self.settings.spec_pts(index)) as i64
    }

    /// A video frame begins with the conversion of its image, stamped with
    /// the timestamp of `index`.
    pub open spec fn spec_push_video_frame(self, index: usize) -> (EncoderView, StepView) {
        if self.activity != Activity::Idle || self.closed {
            self.refuse()
        } else if self.video_encoder is None {
            (self, StepView::Abort(ErrorKind::Encoding, VIDEO_NOT_INITIALIZED@))
        } else if index > i64::MAX {
            (self, StepView::Abort(ErrorKind::LimitReached, Seq::empty()))
        } else {
            (
                self.doing(Activity::Converting),
                StepView::Perform(Request::Convert { pts: self.pts(index as int) }),
            )
        }
    }

    /// An audio frame is skipped where audio is disabled. Otherwise it
    /// begins with the filling of the frame, stamped with the timestamp of
    /// `index`: audio and video share the frame index as their time axis.
    pub open spec fn spec_push_audio_frame(self, index: usize) -> (EncoderView, StepView) {
        if self.activity != Activity::Idle || self.closed {
            self.refuse()
        } else if !self.settings.audio_enabled {
            (self, StepView::Complete)
        } else if self.audio_encoder is None {
            (self, StepView::Abort(ErrorKind::Encoding, AUDIO_NOT_INITIALIZED@))
        } else if index > i64::MAX {
            (self, StepView::Abort(ErrorKind::LimitReached, Seq::empty()))
        } else {
            (
                self.doing(Activity::PreparingAudio),
                StepView::Perform(
                    Request::PrepareAudio {
                        pts: self.pts(index as int),
                        samples: spec_audio_frame_size(self.audio_codec),
                    },
                ),
            )
        }
    }

    /// The encoder with its video driver replaced.
    pub open spec fn with_video(self, driver: CodecDriver) -> EncoderView {
        EncoderView { video_encoder: Some(driver), ..self }
    }

    /// The encoder with its audio driver replaced.
    pub open spec fn with_audio(self, driver: CodecDriver) -> EncoderView {
        EncoderView { audio_encoder: Some(driver), ..self }
    }

    /// The encoder carries on with what its video driver asks for; when the
    /// driver is done or has failed, so is the encoder.
    pub open spec fn follow_video(self, out: (CodecDriver, StepView)) -> (EncoderView, StepView) {
        match out.1 {
            StepView::Perform(r) => (self.with_video(out.0).doing(Activity::Video), out.1),
            _ => (self.with_video(out.0).doing(Activity::Idle), out.1),
        }
    }

    /// The encoder carries on with what its audio driver asks for; when the
    /// driver is done or has failed, so is the encoder.
    pub open spec fn follow_audio(self, out: (CodecDriver, StepView)) -> (EncoderView, StepView) {
        match out.1 {
            StepView::Perform(r) => (self.with_audio(out.0).doing(Activity::Audio), out.1),
            _ => (self.with_audio(out.0).doing(Activity::Idle), out.1),
        }
    }

    /// A drain of `stream`: of the audio driver for the audio stream, of the
    /// video driver for any other. Once the container is finalised nothing
    /// is drained into it.
    pub open spec fn spec_flush(self, stream: usize) -> (EncoderView, StepView) {
        if self.activity != Activity::Idle || self.closed {
            self.refuse()
        } else if stream == AUDIO_STREAM {
            match self.audio_encoder {
                Some(d) => self.follow_audio(
                    d.spec_begin(Phase::Receiving, Request::ReceivePacket { stream: d.stream }),
                ),
                None => (self, StepView::Abort(ErrorKind::Encoding, VIDEO_NOT_INITIALIZED@)),
            }
        } else {
            match self.video_encoder {
                Some(d) => self.follow_video(
                    d.spec_begin(Phase::Receiving, Request::ReceivePacket { stream: d.stream }),
                ),
                None => (self, StepView::Abort(ErrorKind::Encoding, VIDEO_NOT_INITIALIZED@)),
            }
        }
    }

    /// The container is finalised.
    pub open spec fn spec_trailer(self) -> (EncoderView, StepView) {
        (self.doing(Activity::Trailer), StepView::Perform(Request::WriteTrailer))
    }

    /// After the video stream has ended, the audio stream is ended where
    /// there is one; then the container is finalised.
    pub open spec fn spec_finish_audio(self) -> (EncoderView, StepView) {
        match self.audio_encoder {
            Some(d) => {
                let out = d.spec_begin(Phase::SendingEof, Request::SendEof { stream: d.stream });
                match out.1 {
                    StepView::Perform(r) => (
                        self.with_audio(out.0).doing(Activity::FinishingAudio),
                        out.1,
                    ),
                    _ => (self.with_audio(out.0).doing(Activity::Idle), out.1),
                }
            },
            None => self.spec_trailer(),
        }
    }

    /// Finishing ends the video stream first; an encoder that never started
    /// has only its container to finalise.
    pub open spec fn spec_finish(self) -> (EncoderView, StepView) {
        if self.activity != Activity::Idle || self.closed {
            self.refuse()
        } else {
            match self.video_encoder {
                Some(d) => {
                    let out = d.spec_begin(Phase::SendingEof, Request::SendEof { stream: d.stream });
                    match out.1 {
                        StepView::Perform(r) => (
                            self.with_video(out.0).doing(Activity::FinishingVideo),
                            out.1,
                        ),
                        _ => (self.with_video(out.0).doing(Activity::Idle), out.1),
                    }
                },
                None => self.spec_trailer(),
            }
        }
    }

    /// The transition the encoder takes on `reply`, and the step it asks for.
    pub open spec fn spec_step(self, reply: ReplyView) -> (EncoderView, StepView) {
        match self.activity {
            Activity::Idle => self.abort(ErrorKind::Encoding, OUT_OF_TURN@),
            Activity::Opening => match reply {
                ReplyView::Opened { global_header } => (EncoderView {
                    global_header,
                    ..self
                }).spec_allocate_next(),
                ReplyView::Failed(m) => self.abort(ErrorKind::Setup, Seq::empty()),
                _ => self.abort(ErrorKind::Encoding, OUT_OF_TURN@),
            },
            Activity::Allocating => match self.converter.allocated(reply) {
                Some(converter) => (EncoderView { converter, ..self }).spec_allocate_next(),
                None => self.abort(
                    ErrorKind::ConversionError,
                    allocation_failure(self.converter.next_allocation(), reply),
                ),
            },
            Activity::Starting(stage) => match reply {
                ReplyView::Done => self.spec_advance(stage),
                ReplyView::AudioOpened { frame_size, variable_frame_size } => if stage
                    == StartStage::OpenAudioEncoder {
                    (EncoderView {
                        audio_codec: Some(AudioCodec { frame_size, variable_frame_size }),
                        ..self
                    }).spec_advance(stage)
                } else {
                    self.abort(ErrorKind::Encoding, OUT_OF_TURN@)
                },
                ReplyView::Failed(m) => self.abort(ErrorKind::Encoding, stage_context(stage) + m),
                _ => self.abort(ErrorKind::Encoding, OUT_OF_TURN@),
            },
            Activity::Converting => match reply {
                ReplyView::Done => {
                    let d = self.video_encoder->0;
                    self.follow_video(
                        d.spec_begin(Phase::Sending, Request::SendFrame { stream: d.stream }),
                    )
                },
                ReplyView::Failed(m) => self.abort(ErrorKind::ConversionError, m),
                _ => self.abort(ErrorKind::Encoding, OUT_OF_TURN@),
            },
            Activity::Video => self.follow_video(self.video_encoder->0.spec_step(reply)),
            Activity::PreparingAudio => match reply {
                ReplyView::Done => {
                    let d = self.audio_encoder->0;
                    self.follow_audio(
                        d.spec_begin(Phase::Sending, Request::SendFrame { stream: d.stream }),
                    )
                },
                ReplyView::Failed(m) => self.abort(ErrorKind::Encoding, PREPARE_FAILED@ + m),
                _ => self.abort(ErrorKind::Encoding, OUT_OF_TURN@),
            },
            Activity::Audio => self.follow_audio(self.audio_encoder->0.spec_step(reply)),
            Activity::FinishingVideo => {
                let out = self.video_encoder->0.spec_step(reply);
                match out.1 {
                    StepView::Perform(r) => (self.with_video(out.0), out.1),
                    StepView::Complete => self.with_video(out.0).spec_finish_audio(),
                    StepView::Abort(k, t) => (self.with_video(out.0).doing(Activity::Idle), out.1),
                }
            },
            Activity::FinishingAudio => {
                let out = self.audio_encoder->0.spec_step(reply);
                match out.1 {
                    StepView::Perform(r) => (self.with_audio(out.0), out.1),
                    StepView::Complete => self.with_audio(out.0).spec_trailer(),
                    StepView::Abort(k, t) => (self.with_audio(out.0).doing(Activity::Idle), out.1),
                }
            },
            Activity::Trailer => match reply {
                ReplyView::Done => (
                    EncoderView { closed: true, ..self.doing(Activity::Idle) },
                    StepView::Complete,
                ),
                ReplyView::Failed(m) => self.abort(ErrorKind::Encoding, TRAILER_FAILED@ + m),
                _ => self.abort(ErrorKind::Encoding, OUT_OF_TURN@),
            },
        }
    }

    /// The encoder after it has given up its GPU handles.
    pub open spec fn torn_down(self) -> EncoderView {
        EncoderView {
            converter: self.converter.released(),
            opened: false,
            video_encoder: None,
            audio_encoder: None,
            ..self.doing(Activity::Idle)
        }
    }
}

/// The encoder of one session.
#[derive(Debug)]
pub struct Encoder {
    profile: Profile,
    width: u32,
    height: u32,
    converter: ConversionContext,
    settings: ConcreteEncoderSettings,
    container: Container,
    global_header: bool,
    opened: bool,
    closed: bool,
    video_encoder: Option<CodecDriver>,
    audio_encoder: Option<CodecDriver>,
    audio_codec: Option<AudioCodec>,
    activity: Activity,
}

impl View for Encoder {
    type V = EncoderView;

    closed spec fn view(&self) -> EncoderView {
        EncoderView {
            profile: self.profile,
            width: self.width,
            height: self.height,
            converter: self.converter@,
            settings: self.settings,
            container: self.container,
            global_header: self.global_header,
            opened: self.opened,
            closed: self.closed,
            video_encoder: self.video_encoder,
            audio_encoder: self.audio_encoder,
            audio_codec: self.audio_codec,
            activity: self.activity,
        }
    }
}

impl Encoder {
    /// The invariant of the encoder.
    pub open spec fn wf(&self) -> bool {
        self@.wf()
    }

    /// An encoder of `profile` for frames of `width` by `height` pixels,
    /// written to `path`, with the profile's defaults overridden by
    /// `settings`. It has opened nothing yet. [`rejection`] says which
    /// arguments are refused and how.
    pub fn new(profile: Profile, width: u32, height: u32, path: &str, settings: EncoderSettings) -> (made:
        Result<Self, Error>)
        ensures
            match made {
                Ok(encoder) => {
                    &&& rejection(profile, path@, settings) is None
                    &&& encoder.wf()
                    &&& encoder@ == created(profile, width, height, path@, settings)
                },
                Err(e) => rejection(profile, path@, settings) == Some((e.spec_kind(), e.detail())),
            },
    {
        proof {
            lemma_empty_literal();
        }
        let settings = profile.default_settings().update(settings);
        let container = match Container::of_path(path) {
            Some(c) => c,
            None => {
                return Err(Error::validation(UNSUPPORTED_CONTAINER, path));
            },
        };
        if !profile.supports(container) {
            return Err(Error::validation(UNSUPPORTED_CONTAINER, path));
        }
        if !settings.is_valid() {
            return Err(Error::validation(INVALID_TIMING, ""));
        }
        if settings.audio_sample_rate > i32::MAX as u32 {
            return Err(Error::validation(INVALID_SAMPLE_RATE, ""));
        }
        let converter = match ConversionContext::new(
            Format::RGBA8,
            settings.pixel_format,
            width,
            height,
        ) {
            Ok(c) => c,
            Err(e) => {
                return Err(e);
            },
        };
        Ok(
            Encoder {
                profile,
                width,
                height,
                converter,
                settings,
                container,
                global_header: false,
                opened: false,
                closed: false,
                video_encoder: None,
                audio_encoder: None,
                audio_codec: None,
                activity: Activity::Idle,
            },
        )
    }

    /// The profile of the encoder.
    pub fn profile(&self) -> (p: Profile)
        ensures
            p == self@.profile,
    {
        self.profile
    }

    /// The settings the encoder records with.
    pub fn settings(&self) -> (s: &ConcreteEncoderSettings)
        ensures
            *s == self@.settings,
    {
        &self.settings
    }

    /// The container the encoder writes.
    pub fn container(&self) -> (c: Container)
        ensures
            c == self@.container,
    {
        self.container
    }

    /// The conversion context of the encoder.
    pub fn converter(&self) -> (c: &ConversionContext)
        ensures
            c@ == self@.converter,
    {
        &self.converter
    }

    /// Whether the encoder takes a new operation.
    pub fn is_idle(&self) -> (b: bool)
        ensures
            b == (self@.activity == Activity::Idle),
    {
        match self.activity {
            Activity::Idle => true,
            _ => false,
        }
    }

    /// Whether the encoder has started: its drivers exist.
    pub fn is_started(&self) -> (b: bool)
        ensures
            b == (self@.video_encoder is Some),
    {
        self.video_encoder.is_some()
    }

    /// Whether the container has been finalised.
    pub fn is_closed(&self) -> (b: bool)
        ensures
            b == self@.closed,
    {
        self.closed
    }

    /// The number of samples per channel that the caller must deliver per
    /// audio frame: the audio codec's frame size, or 1024 where no codec is
    /// open or the codec takes frames of any size.
    pub fn audio_frame_size(&self) -> (size: u32)
        ensures
            size == spec_audio_frame_size(self@.audio_codec),
    {
        audio_frame_size(self.audio_codec)
    }

    /// The configuration of the video encoder.
    pub fn video_config(&self) -> (config: VideoConfig)
        ensures
            config == self@.profile.spec_video_config(
                self@.width,
                self@.height,
                self@.settings,
                self@.global_header,
            ),
    {
        self.profile.video_config(self.width, self.height, self.settings, self.global_header)
    }

    /// The configuration of the audio encoder.
    pub fn audio_config(&self) -> (config: AudioConfig)
        requires
            self.wf(),
        ensures
            config == self@.profile.spec_audio_config(self@.settings, self@.global_header),
    {
        self.profile.audio_config(self.settings, self.global_header)
    }

    fn refuse(&self) -> (step: Step)
        ensures
            step@ == self@.refuse().1,
    {
        if self.is_idle() {
            Step::Abort(
                Error::Encoding(String::from_str(OUT_OF_ORDER)),
            )
        } else {
            Step::Abort(
                Error::Encoding(String::from_str(NOT_IDLE)),
            )
        }
    }

    fn abort(&mut self, error: Error) -> (step: Step)
        ensures
            (final(self)@, step@) == old(self)@.abort(error.spec_kind(), error.detail()),
    {
        self.activity = Activity::Idle;
        Step::Abort(error)
    }

    fn out_of_turn(&mut self) -> (step: Step)
        ensures
            (final(self)@, step@) == old(self)@.abort(ErrorKind::Encoding, OUT_OF_TURN@),
    {
        self.abort(Error::Encoding(String::from_str(OUT_OF_TURN)))
    }

    /// Begins the opening of the encoder: the container is opened, then the
    /// conversion context is constructed step by step. The operation is
    /// complete once the context is ready.
    pub fn open(&mut self) -> (step: Step)
        requires
            old(self).wf(),
        ensures
            final(self).wf(),
            (final(self)@, step@) == old(self)@.spec_open(),
    {
        if self.is_idle() && !self.opened && !self.closed {
            self.activity = Activity::Opening;
            Step::Perform(Request::OpenOutput)
        } else {
            self.refuse()
        }
    }

    fn allocate_next(&mut self) -> (step: Step)
        requires
            old(self).wf(),
            old(self)@.activity == Activity::Opening || old(self)@.activity == Activity::Allocating,
        ensures
            final(self).wf(),
            (final(self)@, step@) == old(self)@.spec_allocate_next(),
    {
        match self.converter.next_allocation() {
            Some(a) => {
                self.activity = Activity::Allocating;
                Step::Perform(Request::Allocate(a))
            },
            None => {
                self.activity = Activity::Idle;
                self.opened = true;
                Step::Complete
            },
        }
    }

    /// Begins the start of the encoder: the codecs are found, configured
    /// and opened, their streams are added to the container, and the header
    /// is written, in the order of [`start_plan`].
    pub fn start(&mut self) -> (step: Step)
        requires
            old(self).wf(),
        ensures
            final(self).wf(),
            (final(self)@, step@) == old(self)@.spec_start(),
    {
        if self.is_idle() && self.opened && !self.closed && self.video_encoder.is_none() {
            let stage = first_stage(self.settings.audio_enabled);
            self.activity = Activity::Starting(stage);
            Step::Perform(Request::Start(stage))
        } else {
            self.refuse()
        }
    }

    fn advance(&mut self, stage: StartStage) -> (step: Step)
        requires
            old(self).wf(),
            old(self)@.activity == Activity::Starting(stage),
            old(self)@.opened,
            old(self)@.video_encoder is None,
        ensures
            final(self).wf(),
            (final(self)@, step@) == old(self)@.spec_advance(stage),
    {
        match next_stage(stage, self.settings.audio_enabled) {
            Some(next) => {
                self.activity = Activity::Starting(next);
                Step::Perform(Request::Start(next))
            },
            None => {
                self.activity = Activity::Idle;
                self.video_encoder = Some(CodecDriver::new(VIDEO_STREAM, self.settings.time_base));
                self.audio_encoder = if self.settings.audio_enabled {
                    Some(CodecDriver::new(AUDIO_STREAM, self.settings.time_base))
                } else {
                    None
                };
                Step::Complete
            },
        }
    }

    /// Begins the encoding of one video frame: the image is converted into
    /// a frame stamped with the timestamp of `index`, the frame is
    /// submitted to the video codec, and every packet that is ready is
    /// written.
    pub fn push_video_frame(&mut self, index: usize) -> (step: Step)
        requires
            old(self).wf(),
        ensures
            final(self).wf(),
            (final(self)@, step@) == old(self)@.spec_push_video_frame(index),
    {
        proof {
            lemma_empty_literal();
        }
        if !self.is_idle() || self.closed {
            self.refuse()
        } else if self.video_encoder.is_none() {
            Step::Abort(Error::Encoding(String::from_str(VIDEO_NOT_INITIALIZED)))
        } else if index as u64 > i64::MAX as u64 {
            Step::Abort(Error::LimitReached)
        } else {
            let pts = self.settings.pts(index as i64);
            self.activity = Activity::Converting;
            Step::Perform(Request::Convert { pts })
        }
    }

    /// Begins the encoding of one audio frame, on the same time axis as the
    /// video frame of `index`. Where audio is disabled the frame is skipped
    /// and the operation is complete at once.
    pub fn push_audio_frame(&mut self, index: usize) -> (step: Step)
        requires
            old(self).wf(),
        ensures
            final(self).wf(),
            (final(self)@, step@) == old(self)@.spec_push_audio_frame(index),
    {
        proof {
            lemma_empty_literal();
        }
        if !self.is_idle() || self.closed {
            self.refuse()
        } else if !self.settings.audio_enabled {
            Step::Complete
        } else if self.audio_encoder.is_none() {
            Step::Abort(Error::Encoding(String::from_str(AUDIO_NOT_INITIALIZED)))
        } else if index as u64 > i64::MAX as u64 {
            Step::Abort(Error::LimitReached)
        } else {
            let pts = self.settings.pts(index as i64);
            let samples = self.audio_frame_size();
            self.activity = Activity::PreparingAudio;
            Step::Perform(Request::PrepareAudio { pts, samples })
        }
    }

    fn follow_video(&mut self, driver: CodecDriver, step: Step) -> (out: Step)
        ensures
            out == step,
            (final(self)@, out@) == old(self)@.follow_video((driver, step@)),
    {
        self.video_encoder = Some(driver);
        self.activity = match step {
            Step::Perform(_) => Activity::Video,
            _ => Activity::Idle,
        };
        step
    }

    fn follow_audio(&mut self, driver: CodecDriver, step: Step) -> (out: Step)
        ensures
            out == step,
            (final(self)@, out@) == old(self)@.follow_audio((driver, step@)),
    {
        self.audio_encoder = Some(driver);
        self.activity = match step {
            Step::Perform(_) => Activity::Audio,
            _ => Activity::Idle,
        };
        step
    }

    /// Begins a drain of `stream`: every packet that its codec has ready is
    /// pulled and written.
    pub fn flush(&mut self, stream: usize) -> (step: Step)
        requires
            old(self).wf(),
        ensures
            final(self).wf(),
            (final(self)@, step@) == old(self)@.spec_flush(stream),
    {
        if !self.is_idle() || self.closed {
            self.refuse()
        } else if stream == AUDIO_STREAM {
            match self.audio_encoder {
                Some(d) => {
                    let mut driver = d;
                    let step = driver.drain();
                    self.follow_audio(driver, step)
                },
                None => Step::Abort(Error::Encoding(String::from_str(VIDEO_NOT_INITIALIZED))),
            }
        } else {
            match self.video_encoder {
                Some(d) => {
                    let mut driver = d;
                    let step = driver.drain();
                    self.follow_video(driver, step)
                },
                None => Step::Abort(Error::Encoding(String::from_str(VIDEO_NOT_INITIALIZED))),
            }
        }
    }

    fn trailer(&mut self) -> (step: Step)
        ensures
            (final(self)@, step@) == old(self)@.spec_trailer(),
    {
        self.activity = Activity::Trailer;
        Step::Perform(Request::WriteTrailer)
    }

    fn finish_audio(&mut self) -> (step: Step)
        requires
            old(self).wf(),
            old(self)@.activity == Activity::FinishingVideo,
            old(self)@.video_encoder matches Some(d) && d.phase == Phase::Idle,
        ensures
            final(self).wf(),
            (final(self)@, step@) == old(self)@.spec_finish_audio(),
    {
        match self.audio_encoder {
            Some(d) => {
                let mut driver = d;
                let step = driver.flush_and_finish();
                self.audio_encoder = Some(driver);
                self.activity = match step {
                    Step::Perform(_) => Activity::FinishingAudio,
                    _ => Activity::Idle,
                };
                step
            },
            None => self.trailer(),
        }
    }

    /// Begins the end of the session: the end of input is signalled to the
    /// video codec and its remaining packets are written, then the same is
    /// done for the audio codec where there is one, and at last the
    /// container is finalised.
    pub fn finish(&mut self) -> (step: Step)
        requires
            old(self).wf(),
        ensures
            final(self).wf(),
            (final(self)@, step@) == old(self)@.spec_finish(),
    {
        if !self.is_idle() || self.closed {
            self.refuse()
        } else {
            match self.video_encoder {
                Some(d) => {
                    let mut driver = d;
                    let step = driver.flush_and_finish();
                    self.video_encoder = Some(driver);
                    self.activity = match step {
                        Step::Perform(_) => Activity::FinishingVideo,
                        _ => Activity::Idle,
                    };
                    step
                },
                None => self.trailer(),
            }
        }
    }

    fn step_opening(&mut self, reply: Reply) -> (step: Step)
        requires
            old(self).wf(),
            old(self)@.activity == Activity::Opening,
        ensures
            final(self).wf(),
            (final(self)@, step@) == old(self)@.spec_step(reply@),
    {
        proof {
            lemma_empty_literal();
        }
        match reply {
            Reply::Opened { global_header } => {
                self.global_header = global_header;
                self.allocate_next()
            },
            Reply::Failed(_) => self.abort(Error::Setup),
            _ => self.out_of_turn(),
        }
    }

    fn step_allocating(&mut self, reply: Reply) -> (step: Step)
        requires
            old(self).wf(),
            old(self)@.activity == Activity::Allocating,
        ensures
            final(self).wf(),
            (final(self)@, step@) == old(self)@.spec_step(reply@),
    {
        proof {
            lemma_empty_literal();
        }
        match self.converter.allocated(reply) {
            Ok(()) => self.allocate_next(),
            Err(e) => self.abort(e),
        }
    }

    fn step_starting(&mut self, stage: StartStage, reply: Reply) -> (step: Step)
        requires
            old(self).wf(),
            old(self)@.activity == Activity::Starting(stage),
        ensures
            final(self).wf(),
            (final(self)@, step@) == old(self)@.spec_step(reply@),
    {
        proof {
            lemma_empty_literal();
        }
        match reply {
            Reply::Done => self.advance(stage),
            Reply::AudioOpened { frame_size, variable_frame_size } => match stage {
                StartStage::OpenAudioEncoder => {
                    self.audio_codec = Some(AudioCodec { frame_size, variable_frame_size });
                    self.advance(stage)
                },
                _ => self.out_of_turn(),
            },
            Reply::Failed(m) => self.abort(Error::encoding(stage_failure(stage), m.as_str())),
            _ => self.out_of_turn(),
        }
    }

    fn step_converting(&mut self, reply: Reply) -> (step: Step)
        requires
            old(self).wf(),
            old(self)@.activity == Activity::Converting,
        ensures
            final(self).wf(),
            (final(self)@, step@) == old(self)@.spec_step(reply@),
    {
        proof {
            lemma_empty_literal();
        }
        match reply {
            Reply::Done => match self.video_encoder {
                Some(d) => {
                    let mut driver = d;
                    let step = driver.submit();
                    self.follow_video(driver, step)
                },
                None => self.out_of_turn(),
            },
            Reply::Failed(m) => self.abort(Error::ConversionError(m)),
            _ => self.out_of_turn(),
        }
    }

    fn step_video(&mut self, reply: Reply) -> (step: Step)
        requires
            old(self).wf(),
            old(self)@.activity == Activity::Video,
        ensures
            final(self).wf(),
            (final(self)@, step@) == old(self)@.spec_step(reply@),
    {
        proof {
            lemma_empty_literal();
        }
        match self.video_encoder {
            Some(d) => {
                let mut driver = d;
                let step = driver.step(reply);
                self.follow_video(driver, step)
            },
            None => self.out_of_turn(),
        }
    }

    fn step_preparing_audio(&mut self, reply: Reply) -> (step: Step)
        requires
            old(self).wf(),
            old(self)@.activity == Activity::PreparingAudio,
        ensures
            final(self).wf(),
            (final(self)@, step@) == old(self)@.spec_step(reply@),
    {
        proof {
            lemma_empty_literal();
        }
        match reply {
            Reply::Done => match self.audio_encoder {
                Some(d) => {
                    let mut driver = d;
                    let step = driver.submit();
                    self.follow_audio(driver, step)
                },
                None => self.out_of_turn(),
            },
            Reply::Failed(m) => self.abort(
                Error::encoding(PREPARE_FAILED, m.as_str()),
            ),
            _ => self.out_of_turn(),
        }
    }

    fn step_audio(&mut self, reply: Reply) -> (step: Step)
        requires
            old(self).wf(),
            old(self)@.activity == Activity::Audio,
        ensures
            final(self).wf(),
            (final(self)@, step@) == old(self)@.spec_step(reply@),
    {
        proof {
            lemma_empty_literal();
        }
        match self.audio_encoder {
            Some(d) => {
                let mut driver = d;
                let step = driver.step(reply);
                self.follow_audio(driver, step)
            },
            None => self.out_of_turn(),
        }
    }

    fn step_finishing_video(&mut self, reply: Reply) -> (step: Step)
        requires
            old(self).wf(),
            old(self)@.activity == Activity::FinishingVideo,
        ensures
            final(self).wf(),
            (final(self)@, step@) == old(self)@.spec_step(reply@),
    {
        proof {
            lemma_empty_literal();
        }
        match self.video_encoder {
            Some(d) => {
                let mut driver = d;
                let step = driver.step(reply);
                self.video_encoder = Some(driver);
                match step {
                    Step::Perform(_) => step,
                    Step::Complete => self.finish_audio(),
                    Step::Abort(_) => {
                        self.activity = Activity::Idle;
                        step
                    },
                }
            },
            None => self.out_of_turn(),
        }
    }

    fn step_finishing_audio(&mut self, reply: Reply) -> (step: Step)
        requires
            old(self).wf(),
            old(self)@.activity == Activity::FinishingAudio,
        ensures
            final(self).wf(),
            (final(self)@, step@) == old(self)@.spec_step(reply@),
    {
        proof {
            lemma_empty_literal();
        }
        match self.audio_encoder {
            Some(d) => {
                let mut driver = d;
                let step = driver.step(reply);
                self.audio_encoder = Some(driver);
                match step {
                    Step::Perform(_) => step,
                    Step::Complete => self.trailer(),
                    Step::Abort(_) => {
                        self.activity = Activity::Idle;
                        step
                    },
                }
            },
            None => self.out_of_turn(),
        }
    }

    fn step_trailer(&mut self, reply: Reply) -> (step: Step)
        requires
            old(self).wf(),
            old(self)@.activity == Activity::Trailer,
        ensures
            final(self).wf(),
            (final(self)@, step@) == old(self)@.spec_step(reply@),
    {
        proof {
            lemma_empty_literal();
        }
        match reply {
            Reply::Done => {
                self.activity = Activity::Idle;
                self.closed = true;
                Step::Complete
            },
            Reply::Failed(m) => self.abort(
                Error::encoding(TRAILER_FAILED, m.as_str()),
            ),
            _ => self.out_of_turn(),
        }
    }

    /// Takes the reply to the request that the encoder asked for last, and
    /// says what comes next.
    pub fn step(&mut self, reply: Reply) -> (step: Step)
        requires
            old(self).wf(),
        ensures
            final(self).wf(),
            (final(self)@, step@) == old(self)@.spec_step(reply@),
    {
        match self.activity {
            Activity::Idle => self.out_of_turn(),
            Activity::Opening => self.step_opening(reply),
            Activity::Allocating => self.step_allocating(reply),
            Activity::Starting(stage) => self.step_starting(stage, reply),
            Activity::Converting => self.step_converting(reply),
            Activity::Video => self.step_video(reply),
            Activity::PreparingAudio => self.step_preparing_audio(reply),
            Activity::Audio => self.step_audio(reply),
            Activity::FinishingVideo => self.step_finishing_video(reply),
            Activity::FinishingAudio => self.step_finishing_audio(reply),
            Activity::Trailer => self.step_trailer(reply),
        }
    }

    /// Gives up the encoder's GPU handles, in the order in which they are
    /// to be released; each handle that was acquired is in the result
    /// exactly once. The encoder is left without drivers and without
    /// handles: tearing down again yields nothing.
    pub fn teardown(&mut self) -> (freed: Vec<u64>)
        requires
            old(self).wf(),
        ensures
            final(self).wf(),
            final(self)@ == old(self)@.torn_down(),
            freed@ == crate::conversion::release_order(old(self)@.converter.handles),
            freed@.len() == old(self)@.converter.handles.len(),
            freed@.no_duplicates(),
            forall|h: u64| freed@.contains(h) <==> old(self)@.converter.handles.contains(h),
    {
        let freed = self.converter.release();
        self.opened = false;
        self.video_encoder = None;
        self.audio_encoder = None;
        self.activity = Activity::Idle;
        freed
    }
}

} // verus!
