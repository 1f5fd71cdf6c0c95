//! The recording session. A writer is idle before a recording, records
//! between `write_begin` and `write_end`, and is failed after an error until
//! a new recording begins. Every operation of the host either returns a
//! status at once or asks for outside work and goes on with
//! [`FelliniWriter::resume`] until it returns one.

use crate::audio::SpeakerMode;
use crate::container::{container_of, Container};
use crate::conversion::release_order;
use crate::encoder::{created, rejection, Activity, EncoderView};
use crate::error::{Error, ErrorKind};
use crate::kind::EncoderKind;
use crate::profile::Profile;
use crate::protocol::{Reply, ReplyView, Request, Step, StepView};
use crate::settings::{EncoderSettings, Rational};
use vstd::prelude::*;

verus! {

/// The settings that all profiles share.
#[derive(Clone, Copy, Debug, PartialEq, Eq, Structural)]
pub struct CommonSettings {}

impl Default for CommonSettings {
    fn default() -> (s: Self)
        ensures
            s == (CommonSettings {  }),
    {
        CommonSettings {  }
    }
}

/// The sample rate the host mixes audio at while nothing is recorded, in Hz.
pub const DEFAULT_MIX_RATE_HZ: u32 = 44_100;

/// What the host is told of an operation.
#[allow(non_camel_case_types)]
#[derive(Clone, Copy, Debug, PartialEq, Eq, Structural)]
pub enum Status {
    OK,
    FAILED,
}

/// What an operation of the writer asks of its caller.
#[derive(Clone, Copy, Debug, PartialEq, Eq, Structural)]
pub enum Outcome {
    /// Perform the request and hand its reply to [`FelliniWriter::resume`].
    Perform(Request),
    /// The operation has ended; this is its status.
    Return(Status),
}

/// The operation a writer is in the middle of.
#[derive(Clone, Copy, Debug, PartialEq, Eq, Structural)]
pub enum Task {
    /// None: the writer takes a new operation.
    Idle,
    /// Beginning: the codec library is initialised.
    InitLibrary,
    /// Beginning: the encoder is opened.
    Opening,
    /// Beginning: the encoder is started.
    Starting,
    /// A frame: its picture is encoded.
    Video,
    /// A frame: its audio block is encoded.
    Audio,
    /// Ending: the encoder is finished.
    Finishing,
    /// GPU handles are released; the operation then ends with this status.
    Releasing(Status),
}

/// The state of a session.
#[derive(Debug)]
pub enum FelliniState {
    /// No recording; no resources are held.
    PreRecording,
    /// A recording. `current_frame` is the index of the next frame.
    Recording { paused: bool, current_frame: i64, encoder_kind: EncoderKind },
    /// The recording failed. Frames are ignored until a new one begins.
    Failed { error: Error },
}

/// A [`FelliniState`] as a mathematical value.
pub enum StateView {
    PreRecording,
    Recording { paused: bool, current_frame: i64, encoder: EncoderView },
    Failed { kind: ErrorKind, detail: Seq<char> },
}

impl View for FelliniState {
    type V = StateView;

    open spec fn view(&self) -> StateView {
        match *self {
            FelliniState::PreRecording => StateView::PreRecording,
            FelliniState::Recording { paused, current_frame, encoder_kind } => StateView::Recording {
                paused,
                current_frame,
                encoder: encoder_kind@,
            },
            FelliniState::Failed { error } => StateView::Failed {
                kind: error.spec_kind(),
                detail: error.detail(),
            },
        }
    }
}

/// The mathematical content of a [`FelliniWriter`].
pub struct WriterView {
    pub state: StateView,
    /// The profile that the next recording is made with.
    pub profile: Profile,
    /// The codec library has been initialised in this process.
    pub library_ready: bool,
    pub task: Task,
    /// The GPU handles that are still to be released, the next one first.
    pub releasing: Seq<u64>,
}

/// The overrides of a recording at `fps` frames per second.
pub open spec fn overrides(fps: u32) -> EncoderSettings {
    EncoderSettings {
        frame_rate: Some(Rational(fps as i32, 1)),
        time_base: None,
        pixel_format: None,
        audio_sample_rate: None,
    }
}

/// A recording of `width` by `height` pixels at `fps` frames per second to
/// `path` can begin with `profile`: the size and the rate are positive, the
/// rate fits a signed 32-bit number, and the encoder does not reject the
/// path, whose extension must name a container that the profile supports.
pub open spec fn acceptable(profile: Profile, width: i32, height: i32, fps: u32, path: Seq<char>) -> bool {
    &&& width > 0
    &&& height > 0
    &&& 0 < fps <= i32::MAX
    &&& rejection(profile, path, overrides(fps)) is None
}

/// The greatest frame index a recording can reach.
pub open spec fn frame_limit() -> int {
    if usize::MAX < i64::MAX {
        usize::MAX as int
    } else {
        i64::MAX as int
    }
}

impl WriterView {
    /// The invariant of a writer.
    pub open spec fn wf(&self) -> bool {
        &&& self.sound()
        &&& (self.state matches StateView::Recording { encoder, .. } ==> (self.task == Task::Idle
            ==> encoder.activity == Activity::Idle))
        &&& (self.task != Task::Idle && !(self.task is Releasing) ==> self.state is Recording)
        &&& (self.task is Releasing ==> !(self.state is Recording))
        &&& (!(self.task is Releasing) ==> self.releasing.len() == 0)
        &&& self.releasing.no_duplicates()
    }

    /// The part of the invariant that holds in the middle of a transition
    /// too: the encoder of a recording is well-formed, and the frame index
    /// is within its limit.
    pub open spec fn sound(&self) -> bool {
        self.state matches StateView::Recording { current_frame, encoder, .. } ==> {
            &&& encoder.wf()
            &&& 0 <= current_frame <= frame_limit()
        }
    }

    /// The encoder of the recording.
    pub open spec fn encoder(self) -> EncoderView
        recommends
            self.state is Recording,
    {
        self.state->encoder
    }

    /// The index of the next frame.
    pub open spec fn current_frame(self) -> i64
        recommends
            self.state is Recording,
    {
        self.state->current_frame
    }

    /// The writer in the middle of `task`, otherwise unchanged.
    pub open spec fn doing(self, task: Task) -> WriterView {
        WriterView { task, ..self }
    }

    /// The recording with its encoder replaced.
    pub open spec fn with_encoder(self, encoder: EncoderView) -> WriterView {
        match self.state {
            StateView::Recording { paused, current_frame, .. } => WriterView {
                state: StateView::Recording { paused, current_frame, encoder },
                ..self
            },
            _ => self,
        }
    }

    /// The handles that the recording's encoder holds, in the order in
    /// which they are released; none where nothing is recorded.
    pub open spec fn held(self) -> Seq<u64> {
        match self.state {
            StateView::Recording { encoder, .. } => release_order(encoder.converter.handles),
            _ => Seq::empty(),
        }
    }

    /// The release of `handles`, one request each, after which the
    /// operation ends with `status`.
    pub open spec fn release(self, handles: Seq<u64>, status: Status) -> (WriterView, Outcome) {
        if handles.len() == 0 {
            (
                WriterView { releasing: Seq::empty(), ..self.doing(Task::Idle) },
                Outcome::Return(status),
            )
        } else {
            (
                WriterView { releasing: handles.drop_first(), ..self.doing(Task::Releasing(status)) },
                Outcome::Perform(Request::Release(handles[0])),
            )
        }
    }

    /// The recording fails: the session is failed with the given error,
    /// every handle its encoder holds is released, and the operation ends
    /// with the status `FAILED`.
    pub open spec fn fail(self, kind: ErrorKind, detail: Seq<char>) -> (WriterView, Outcome) {
        (WriterView { state: StateView::Failed { kind, detail }, ..self }).release(
            self.held(),
            Status::FAILED,
        )
    }

    /// The recording ends: the session is idle again, every handle its
    /// encoder holds is released, and the operation ends with the status
    /// `OK`.
    pub open spec fn close(self) -> (WriterView, Outcome) {
        (WriterView { state: StateView::PreRecording, ..self }).release(self.held(), Status::OK)
    }

    /// A frame has been dealt with: the frame index advances by one. A
    /// recording whose index cannot advance has reached its limit and
    /// fails.
    pub open spec fn frame_done(self) -> (WriterView, Outcome) {
        match self.state {
            StateView::Recording { paused, current_frame, encoder } => if current_frame
                < frame_limit() {
                (
                    WriterView {
                        state: StateView::Recording {
                            paused,
                            current_frame: (current_frame + 1) as i64,
                            encoder,
                        },
                        ..self.doing(Task::Idle)
                    },
                    Outcome::Return(Status::OK),
                )
            } else {
                self.fail(ErrorKind::LimitReached, Seq::empty())
            },
            _ => (self.doing(Task::Idle), Outcome::Return(Status::OK)),
        }
    }

    /// What follows when the last part of an operation is complete.
    pub open spec fn finished(self, task: Task) -> (WriterView, Outcome) {
        match task {
            Task::Audio => self.frame_done(),
            Task::Finishing => self.close(),
            _ => (self.doing(Task::Idle), Outcome::Return(Status::OK)),
        }
    }

    /// The writer takes the step `out` of its encoder in the last part
    /// `task` of an operation: it passes a request on, ends the operation
    /// when the encoder is done, and fails when the encoder failed.
    pub open spec fn conclude(self, task: Task, out: (EncoderView, StepView)) -> (WriterView, Outcome) {
        match out.1 {
            StepView::Perform(r) => (self.with_encoder(out.0).doing(task), Outcome::Perform(r)),
            StepView::Complete => self.with_encoder(out.0).finished(task),
            StepView::Abort(kind, detail) => self.with_encoder(out.0).fail(kind, detail),
        }
    }

    /// What follows when the first part of an operation is complete: an
    /// opened encoder is started, and the audio block of a frame follows
    /// its picture.
    pub open spec fn proceed(self, task: Task) -> (WriterView, Outcome) {
        match task {
            Task::Opening => self.conclude(Task::Starting, self.encoder().spec_start()),
            Task::Video => self.conclude(
                Task::Audio,
                self.encoder().spec_push_audio_frame(self.current_frame() as usize),
            ),
            _ => self.finished(task),
        }
    }

    /// The writer takes the step `out` of its encoder while it is doing
    /// `task`.
    pub open spec fn follow(self, task: Task, out: (EncoderView, StepView)) -> (WriterView, Outcome) {
        match out.1 {
            StepView::Perform(r) => (self.with_encoder(out.0).doing(task), Outcome::Perform(r)),
            StepView::Complete => self.with_encoder(out.0).proceed(task),
            StepView::Abort(kind, detail) => self.with_encoder(out.0).fail(kind, detail),
        }
    }

    /// The writer takes the step `out` of its encoder while it is doing
    /// `task`, the first or the last part of an operation.
    pub open spec fn settle(self, task: Task, out: (EncoderView, StepView)) -> (WriterView, Outcome) {
        if task == Task::Opening || task == Task::Video {
            self.follow(task, out)
        } else {
            self.conclude(task, out)
        }
    }

    /// The beginning of a recording. A writer that is recording or in the
    /// middle of an operation, and arguments that are not
    /// [`acceptable`], are refused with the status `FAILED` and leave the
    /// writer as it is. Otherwise the writer records, unpaused, from frame
    /// 0, and sets its encoder up: the codec library is initialised unless
    /// it is already, then the encoder is opened and started.
    pub open spec fn spec_write_begin(self, width: i32, height: i32, fps: u32, path: Seq<char>) -> (
        WriterView,
        Outcome,
    ) {
        if self.task != Task::Idle || self.state is Recording || !acceptable(
            self.profile,
            width,
            height,
            fps,
            path,
        ) {
            (self, Outcome::Return(Status::FAILED))
        } else {
            let recording = WriterView {
                state: StateView::Recording {
                    paused: false,
                    current_frame: 0,
                    encoder: created(self.profile, width as u32, height as u32, path, overrides(fps)),
                },
                ..self
            };
            if self.library_ready {
                recording.follow(Task::Opening, recording.encoder().spec_open())
            } else {
                (recording.doing(Task::InitLibrary), Outcome::Perform(Request::InitLibrary))
            }
        }
    }

    /// One frame of the host. While nothing is recorded the frame is
    /// ignored. While the recording is paused the frame reaches no codec,
    /// and the frame index advances all the same. Otherwise the picture is
    /// encoded, then the audio block, and the frame index advances.
    pub open spec fn spec_write_frame(self) -> (WriterView, Outcome) {
        if self.task != Task::Idle {
            (self, Outcome::Return(Status::FAILED))
        } else {
            match self.state {
                StateView::Recording { paused, current_frame, encoder } => if paused {
                    self.frame_done()
                } else {
                    self.follow(Task::Video, encoder.spec_push_video_frame(current_frame as usize))
                },
                _ => (self, Outcome::Return(Status::OK)),
            }
        }
    }

    /// The end of a recording: the encoder is finished, its handles are
    /// released, and the writer is idle again. Without a recording there is
    /// nothing to end; the status tells whether the session had failed.
    pub open spec fn spec_write_end(self) -> (WriterView, Outcome) {
        if self.task != Task::Idle {
            (self, Outcome::Return(Status::FAILED))
        } else {
            match self.state {
                StateView::Recording { encoder, .. } => self.conclude(
                    Task::Finishing,
                    encoder.spec_finish(),
                ),
                StateView::Failed { .. } => (self, Outcome::Return(Status::FAILED)),
                StateView::PreRecording => (self, Outcome::Return(Status::OK)),
            }
        }
    }

    /// The transition the writer takes on `reply`, and what it asks for.
    pub open spec fn spec_resume(self, reply: ReplyView) -> (WriterView, Outcome) {
        match self.task {
            Task::Idle => (self, Outcome::Return(Status::FAILED)),
            Task::InitLibrary => match reply {
                ReplyView::Done => {
                    let ready = WriterView { library_ready: true, ..self };
                    ready.follow(Task::Opening, ready.encoder().spec_open())
                },
                _ => self.fail(ErrorKind::Setup, Seq::empty()),
            },
            Task::Releasing(status) => self.release(self.releasing, status),
            task => self.settle(task, self.encoder().spec_step(reply)),
        }
    }

    /// The sample rate the host mixes audio at: that of the recording, or
    /// the default while nothing is recorded.
    pub open spec fn audio_mix_rate(self) -> u32 {
        match self.state {
            StateView::Recording { encoder, .. } => encoder.settings.audio_sample_rate,
            _ => DEFAULT_MIX_RATE_HZ,
        }
    }
}

/// The message for a movie size that is not positive.
pub const BAD_SIZE: &'static str = "Movie size must be positive";

/// The message for a frame rate that is zero or too large.
pub const BAD_RATE: &'static str = "Frame rate is out of range";

/// Why a recording with the given arguments cannot begin; `None` where the
/// arguments are [`acceptable`].
pub open spec fn refusal(profile: Profile, width: i32, height: i32, fps: u32, path: Seq<char>) -> Option<
    (ErrorKind, Seq<char>),
> {
    if width <= 0 || height <= 0 {
        Some((ErrorKind::Validation, BAD_SIZE@))
    } else if fps == 0 || fps > i32::MAX {
        Some((ErrorKind::Validation, BAD_RATE@))
    } else {
        rejection(profile, path, overrides(fps))
    }
}

/// The recording session of the host.
#[derive(Debug)]
pub struct FelliniWriter {
    state: FelliniState,
    profile: Profile,
    library_ready: bool,
    task: Task,
    releasing: Vec<u64>,
}

impl View for FelliniWriter {
    type V = WriterView;

    closed spec fn view(&self) -> WriterView {
        WriterView {
            state: self.state@,
            profile: self.profile,
            library_ready: self.library_ready,
            task: self.task,
            releasing: self.releasing@,
        }
    }
}

impl FelliniWriter {
    /// The invariant of the writer: that of its content, and the encoder of
    /// a recording is the one of its profile.
    pub closed spec fn wf(&self) -> bool {
        &&& self@.wf()
        &&& (self.state matches FelliniState::Recording { encoder_kind, .. } ==> encoder_kind.wf())
    }

    /// The content of a well-formed writer is well-formed.
    pub proof fn lemma_wf_content(&self)
        requires
            self.wf(),
        ensures
            self@.wf(),
    {
    }

    /// A writer for the AV1 profile. `library_ready` tells whether the
    /// codec library could be initialised; where it could not, the writer
    /// is failed from the start.
    pub fn init(library_ready: bool) -> (writer: Self)
        ensures
            writer.wf(),
            writer@ == (WriterView {
                state: if library_ready {
                    StateView::PreRecording
                } else {
                    StateView::Failed { kind: ErrorKind::Setup, detail: Seq::empty() }
                },
                profile: Profile::Av1,
                library_ready,
                task: Task::Idle,
                releasing: Seq::empty(),
            }),
    {
        let state = if library_ready {
            FelliniState::PreRecording
        } else {
            FelliniState::Failed { error: Error::Setup }
        };
        FelliniWriter {
            state,
            profile: Profile::Av1,
            library_ready,
            task: Task::Idle,
            releasing: Vec::new(),
        }
    }

    /// The state of the session.
    pub fn state(&self) -> (state: &FelliniState)
        ensures
            state@ == self@.state,
    {
        &self.state
    }

    /// The encoder of the recording, if there is one.
    pub fn encoder(&self) -> (encoder: Option<&EncoderKind>)
        ensures
            match encoder {
                Some(e) => self@.state is Recording && e@ == self@.encoder(),
                None => !(self@.state is Recording),
            },
    {
        match &self.state {
            FelliniState::Recording { encoder_kind, .. } => Some(encoder_kind),
            _ => None,
        }
    }

    /// Whether a recording is under way.
    pub fn is_recording(&self) -> (b: bool)
        ensures
            b == (self@.state is Recording),
    {
        match &self.state {
            FelliniState::Recording { .. } => true,
            _ => false,
        }
    }

    /// Whether the recording has failed.
    pub fn is_failed(&self) -> (b: bool)
        ensures
            b == (self@.state is Failed),
    {
        match &self.state {
            FelliniState::Failed { .. } => true,
            _ => false,
        }
    }

    /// Whether the writer takes a new operation.
    pub fn is_idle(&self) -> (b: bool)
        ensures
            b == (self@.task == Task::Idle),
    {
        match self.task {
            Task::Idle => true,
            _ => false,
        }
    }

    /// The index of the next frame of the recording, if there is one.
    pub fn current_frame(&self) -> (index: Option<i64>)
        ensures
            match index {
                Some(i) => self@.state is Recording && i == self@.current_frame(),
                None => !(self@.state is Recording),
            },
    {
        match &self.state {
            FelliniState::Recording { current_frame, .. } => Some(*current_frame),
            _ => None,
        }
    }

    /// Whether the recording is paused; `false` where nothing is recorded.
    pub fn is_paused(&self) -> (b: bool)
        ensures
            b == (self@.state matches StateView::Recording { paused, .. } && paused),
    {
        match &self.state {
            FelliniState::Recording { paused, .. } => *paused,
            _ => false,
        }
    }

    /// The profile that the next recording is made with.
    pub fn profile(&self) -> (p: Profile)
        ensures
            p == self@.profile,
    {
        self.profile
    }

    /// Chooses the profile that the next recording is made with. A
    /// recording that is under way keeps its own.
    pub fn select_profile(&mut self, profile: Profile)
        requires
            old(self).wf(),
        ensures
            final(self).wf(),
            final(self)@ == (WriterView { profile, ..old(self)@ }),
    {
        self.profile = profile;
    }

    /// Pauses or resumes the recording. While it is paused, frames reach no
    /// codec. Without a recording this does nothing.
    pub fn set_paused(&mut self, paused: bool)
        requires
            old(self).wf(),
        ensures
            final(self).wf(),
            final(self)@ == (match old(self)@.state {
                StateView::Recording { current_frame, encoder, .. } => WriterView {
                    state: StateView::Recording { paused, current_frame, encoder },
                    ..old(self)@
                },
                _ => old(self)@,
            }),
    {
        match &mut self.state {
            FelliniState::Recording { paused: flag, .. } => {
                *flag = paused;
            },
            _ => {},
        }
    }

    /// The sample rate the host is to mix audio at, in Hz.
    pub fn get_audio_mix_rate(&self) -> (rate: u32)
        ensures
            rate == self@.audio_mix_rate(),
    {
        match &self.state {
            FelliniState::Recording { encoder_kind, .. } => encoder_kind.settings().audio_sample_rate,
            _ => DEFAULT_MIX_RATE_HZ,
        }
    }

    /// The speaker arrangement the host is to mix audio for.
    pub fn get_audio_speaker_mode(&self) -> (mode: SpeakerMode)
        ensures
            mode == SpeakerMode::STEREO,
    {
        SpeakerMode::STEREO
    }

    /// Whether the writer writes files of this path: those whose extension
    /// is `mp4`, `webm`, `mov` or `mkv`.
    pub fn handles_file(&self, path: &str) -> (b: bool)
        ensures
            b == (container_of(path@) is Some),
    {
        Container::of_path(path).is_some()
    }

    /// The encoder for a recording with the given arguments, or the reason
    /// why such a recording cannot begin.
    pub fn prepare(profile: Profile, width: i32, height: i32, fps: u32, path: &str) -> (made: Result<
        EncoderKind,
        Error,
    >)
        ensures
            match made {
                Ok(encoder) => {
                    &&& acceptable(profile, width, height, fps, path@)
                    &&& encoder.wf()
                    &&& encoder@ == created(profile, width as u32, height as u32, path@, overrides(fps))
                },
                Err(e) => {
                    &&& !acceptable(profile, width, height, fps, path@)
                    &&& refusal(profile, width, height, fps, path@) == Some(
                        (e.spec_kind(), e.detail()),
                    )
                },
            },
    {
        proof {
            crate::driver::lemma_empty_literal();
        }
        if width <= 0 || height <= 0 {
            return Err(Error::validation(BAD_SIZE, ""));
        }
        if fps == 0 || fps > i32::MAX as u32 {
            return Err(Error::validation(BAD_RATE, ""));
        }
        let settings = EncoderSettings {
            frame_rate: Some(Rational(fps as i32, 1)),
            time_base: None,
            pixel_format: None,
            audio_sample_rate: None,
        };
        EncoderKind::new(profile, width as u32, height as u32, path, settings)
    }

    /// The part of the invariant that holds in the middle of a transition
    /// too.
    closed spec fn sound(&self) -> bool {
        &&& self@.sound()
        &&& (self.state matches FelliniState::Recording { encoder_kind, .. } ==> encoder_kind.wf())
        &&& self.releasing@.len() == 0
    }

    fn release(&mut self, handles: Vec<u64>, status: Status) -> (out: Outcome)
        requires
            !(old(self)@.state is Recording),
            handles@.no_duplicates(),
        ensures
            final(self).wf(),
            (final(self)@, out) == old(self)@.release(handles@, status),
    {
        let mut rest = handles;
        if rest.len() == 0 {
            self.releasing = rest;
            self.task = Task::Idle;
            assert(self.releasing@ =~= Seq::<u64>::empty());
            Outcome::Return(status)
        } else {
            let first = rest.remove(0);
            assert(rest@ =~= handles@.drop_first());
            self.releasing = rest;
            self.task = Task::Releasing(status);
            Outcome::Perform(Request::Release(first))
        }
    }

    fn give_up_handles(&mut self) -> (freed: Vec<u64>)
        requires
            old(self).sound(),
        ensures
            freed@ == old(self)@.held(),
            freed@.no_duplicates(),
            final(self).profile == old(self).profile,
            final(self).library_ready == old(self).library_ready,
            final(self).task == old(self).task,
            final(self).releasing == old(self).releasing,
    {
        match &mut self.state {
            FelliniState::Recording { encoder_kind, .. } => encoder_kind.teardown(),
            _ => {
                let freed: Vec<u64> = Vec::new();
                assert(freed@ =~= Seq::<u64>::empty());
                freed
            },
        }
    }

    fn fail(&mut self, error: Error) -> (out: Outcome)
        requires
            old(self).sound(),
        ensures
            final(self).wf(),
            (final(self)@, out) == old(self)@.fail(error.spec_kind(), error.detail()),
    {
        let freed = self.give_up_handles();
        self.state = FelliniState::Failed { error };
        self.release(freed, Status::FAILED)
    }

    fn close(&mut self) -> (out: Outcome)
        requires
            old(self).sound(),
        ensures
            final(self).wf(),
            (final(self)@, out) == old(self)@.close(),
    {
        let freed = self.give_up_handles();
        self.state = FelliniState::PreRecording;
        self.release(freed, Status::OK)
    }

    fn frame_done(&mut self) -> (out: Outcome)
        requires
            old(self).sound(),
            old(self)@.state matches StateView::Recording { encoder, .. } && encoder.activity
                == Activity::Idle,
        ensures
            final(self).wf(),
            (final(self)@, out) == old(self)@.frame_done(),
    {
        let advanced = match &mut self.state {
            FelliniState::Recording { current_frame, .. } => {
                if *current_frame < i64::MAX && (*current_frame as u64) < usize::MAX as u64 {
                    *current_frame = *current_frame + 1;
                    true
                } else {
                    false
                }
            },
            _ => true,
        };
        if advanced {
            self.task = Task::Idle;
            Outcome::Return(Status::OK)
        } else {
            proof {
                crate::driver::lemma_empty_literal();
            }
            self.fail(Error::LimitReached)
        }
    }

    fn finished(&mut self, task: Task) -> (out: Outcome)
        requires
            old(self).sound(),
            old(self)@.state matches StateView::Recording { encoder, .. } && encoder.activity
                == Activity::Idle,
        ensures
            final(self).wf(),
            (final(self)@, out) == old(self)@.finished(task),
    {
        match task {
            Task::Audio => self.frame_done(),
            Task::Finishing => self.close(),
            _ => {
                self.task = Task::Idle;
                Outcome::Return(Status::OK)
            },
        }
    }

    fn conclude(&mut self, task: Task, step: Step) -> (out: Outcome)
        requires
            old(self).sound(),
            old(self)@.state is Recording,
            task != Task::Idle,
            !(task is Releasing),
            step@ is Complete ==> old(self)@.encoder().activity == Activity::Idle,
        ensures
            final(self).wf(),
            (final(self)@, out) == old(self)@.conclude(task, (old(self)@.encoder(), step@)),
    {
        match step {
            Step::Perform(r) => {
                self.task = task;
                Outcome::Perform(r)
            },
            Step::Complete => self.finished(task),
            Step::Abort(e) => self.fail(e),
        }
    }

    fn start_encoder(&mut self) -> (step: Step)
        requires
            old(self).sound(),
            old(self)@.state is Recording,
        ensures
            final(self).sound(),
            final(self)@ == old(self)@.with_encoder(old(self)@.encoder().spec_start().0),
            step@ == old(self)@.encoder().spec_start().1,
    {
        match &mut self.state {
            FelliniState::Recording { encoder_kind, .. } => encoder_kind.start(),
            _ => Step::Complete,
        }
    }

    fn push_audio(&mut self) -> (step: Step)
        requires
            old(self).sound(),
            old(self)@.state is Recording,
        ensures
            final(self).sound(),
            final(self)@ == old(self)@.with_encoder(
                old(self)@.encoder().spec_push_audio_frame(old(self)@.current_frame() as usize).0,
            ),
            step@ == old(self)@.encoder().spec_push_audio_frame(
                old(self)@.current_frame() as usize,
            ).1,
    {
        match &mut self.state {
            FelliniState::Recording { encoder_kind, current_frame, .. } => {
                encoder_kind.push_audio_frame(*current_frame as usize)
            },
            _ => Step::Complete,
        }
    }

    fn push_video(&mut self) -> (step: Step)
        requires
            old(self).sound(),
            old(self)@.state is Recording,
        ensures
            final(self).sound(),
            final(self)@ == old(self)@.with_encoder(
                old(self)@.encoder().spec_push_video_frame(old(self)@.current_frame() as usize).0,
            ),
            step@ == old(self)@.encoder().spec_push_video_frame(
                old(self)@.current_frame() as usize,
            ).1,
    {
        match &mut self.state {
            FelliniState::Recording { encoder_kind, current_frame, .. } => {
                encoder_kind.push_video_frame(*current_frame as usize)
            },
            _ => Step::Complete,
        }
    }

    fn finish_encoder(&mut self) -> (step: Step)
        requires
            old(self).sound(),
            old(self)@.state is Recording,
        ensures
            final(self).sound(),
            final(self)@ == old(self)@.with_encoder(old(self)@.encoder().spec_finish().0),
            step@ == old(self)@.encoder().spec_finish().1,
    {
        match &mut self.state {
            FelliniState::Recording { encoder_kind, .. } => encoder_kind.finish(),
            _ => Step::Complete,
        }
    }

    fn open_encoder(&mut self) -> (step: Step)
        requires
            old(self).sound(),
            old(self)@.state is Recording,
        ensures
            final(self).sound(),
            final(self)@ == old(self)@.with_encoder(old(self)@.encoder().spec_open().0),
            step@ == old(self)@.encoder().spec_open().1,
    {
        match &mut self.state {
            FelliniState::Recording { encoder_kind, .. } => encoder_kind.open(),
            _ => Step::Complete,
        }
    }

    fn encoder_step(&mut self, reply: Reply) -> (step: Step)
        requires
            old(self).sound(),
            old(self)@.state is Recording,
        ensures
            final(self).sound(),
            final(self)@ == old(self)@.with_encoder(old(self)@.encoder().spec_step(reply@).0),
            step@ == old(self)@.encoder().spec_step(reply@).1,
    {
        match &mut self.state {
            FelliniState::Recording { encoder_kind, .. } => encoder_kind.step(reply),
            _ => Step::Complete,
        }
    }

    fn proceed(&mut self, task: Task) -> (out: Outcome)
        requires
            old(self).sound(),
            old(self)@.state matches StateView::Recording { encoder, .. } && encoder.activity
                == Activity::Idle,
        ensures
            final(self).wf(),
            (final(self)@, out) == old(self)@.proceed(task),
    {
        match task {
            Task::Opening => {
                let step = self.start_encoder();
                self.conclude(Task::Starting, step)
            },
            Task::Video => {
                let step = self.push_audio();
                self.conclude(Task::Audio, step)
            },
            _ => self.finished(task),
        }
    }

    fn follow(&mut self, task: Task, step: Step) -> (out: Outcome)
        requires
            old(self).sound(),
            old(self)@.state is Recording,
            task != Task::Idle,
            !(task is Releasing),
            step@ is Complete ==> old(self)@.encoder().activity == Activity::Idle,
        ensures
            final(self).wf(),
            (final(self)@, out) == old(self)@.follow(task, (old(self)@.encoder(), step@)),
    {
        match step {
            Step::Perform(r) => {
                self.task = task;
                Outcome::Perform(r)
            },
            Step::Complete => self.proceed(task),
            Step::Abort(e) => self.fail(e),
        }
    }

    fn settle(&mut self, task: Task, step: Step) -> (out: Outcome)
        requires
            old(self).sound(),
            old(self)@.state is Recording,
            task != Task::Idle,
            !(task is Releasing),
            step@ is Complete ==> old(self)@.encoder().activity == Activity::Idle,
        ensures
            final(self).wf(),
            (final(self)@, out) == old(self)@.settle(task, (old(self)@.encoder(), step@)),
    {
        match task {
            Task::Opening => self.follow(task, step),
            Task::Video => self.follow(task, step),
            _ => self.conclude(task, step),
        }
    }

    /// Begins a recording of `width` by `height` pixels at `fps` frames per
    /// second to `base_path`. See [`WriterView::spec_write_begin`]: a
    /// refused call returns `FAILED` and changes nothing, so that a writer
    /// that was idle is still idle; a failure of the set-up leaves the
    /// writer failed.
    pub fn write_begin(&mut self, width: i32, height: i32, fps: u32, base_path: &str) -> (out: Outcome)
        requires
            old(self).wf(),
        ensures
            final(self).wf(),
            (final(self)@, out) == old(self)@.spec_write_begin(width, height, fps, base_path@),
    {
        if !self.is_idle() || self.is_recording() {
            return Outcome::Return(Status::FAILED);
        }
        let encoder_kind = match Self::prepare(self.profile, width, height, fps, base_path) {
            Ok(e) => e,
            Err(_) => {
                return Outcome::Return(Status::FAILED);
            },
        };
        self.state = FelliniState::Recording { paused: false, current_frame: 0, encoder_kind };
        if self.library_ready {
            let step = self.open_encoder();
            self.follow(Task::Opening, step)
        } else {
            self.task = Task::InitLibrary;
            Outcome::Perform(Request::InitLibrary)
        }
    }

    /// Takes one frame of the host. See [`WriterView::spec_write_frame`].
    pub fn write_frame(&mut self) -> (out: Outcome)
        requires
            old(self).wf(),
        ensures
            final(self).wf(),
            (final(self)@, out) == old(self)@.spec_write_frame(),
    {
        if !self.is_idle() {
            return Outcome::Return(Status::FAILED);
        }
        if !self.is_recording() {
            return Outcome::Return(Status::OK);
        }
        if self.is_paused() {
            self.frame_done()
        } else {
            let step = self.push_video();
            self.follow(Task::Video, step)
        }
    }

    /// Ends the recording. See [`WriterView::spec_write_end`].
    pub fn write_end(&mut self) -> (out: Outcome)
        requires
            old(self).wf(),
        ensures
            final(self).wf(),
            (final(self)@, out) == old(self)@.spec_write_end(),
    {
        if !self.is_idle() {
            return Outcome::Return(Status::FAILED);
        }
        if self.is_failed() {
            return Outcome::Return(Status::FAILED);
        }
        if !self.is_recording() {
            return Outcome::Return(Status::OK);
        }
        let step = self.finish_encoder();
        self.conclude(Task::Finishing, step)
    }

    fn resume_release(&mut self, status: Status) -> (out: Outcome)
        requires
            old(self).wf(),
            old(self)@.task == Task::Releasing(status),
        ensures
            final(self).wf(),
            (final(self)@, out) == old(self)@.release(old(self)@.releasing, status),
    {
        let mut rest: Vec<u64> = Vec::new();
        core::mem::swap(&mut rest, &mut self.releasing);
        self.release(rest, status)
    }

    fn resume_init(&mut self, reply: Reply) -> (out: Outcome)
        requires
            old(self).wf(),
            old(self)@.task == Task::InitLibrary,
        ensures
            final(self).wf(),
            (final(self)@, out) == old(self)@.spec_resume(reply@),
    {
        match reply {
            Reply::Done => {
                self.library_ready = true;
                let step = self.open_encoder();
                self.follow(Task::Opening, step)
            },
            _ => {
                proof {
                    crate::driver::lemma_empty_literal();
                }
                self.fail(Error::Setup)
            },
        }
    }

    /// Takes the reply to the request that the writer asked for last, and
    /// says what comes next. See [`WriterView::spec_resume`].
    pub fn resume(&mut self, reply: Reply) -> (out: Outcome)
        requires
            old(self).wf(),
        ensures
            final(self).wf(),
            (final(self)@, out) == old(self)@.spec_resume(reply@),
    {
        match self.task {
            Task::Idle => Outcome::Return(Status::FAILED),
            Task::InitLibrary => self.resume_init(reply),
            Task::Releasing(status) => self.resume_release(status),
            task => {
                let step = self.encoder_step(reply);
                self.settle(task, step)
            },
        }
    }
}

/// The writer after it has taken `replies` in order, and what it asked for
/// in return.
pub open spec fn run(writer: WriterView, replies: Seq<ReplyView>) -> (WriterView, Seq<Outcome>)
    decreases replies.len(),
{
    if replies.len() == 0 {
        (writer, Seq::empty())
    } else {
        let (next, outcome) = writer.spec_resume(replies[0]);
        let (last, outcomes) = run(next, replies.drop_first());
        (last, seq![outcome] + outcomes)
    }
}

/// The requests that release `handles`, one each and in order.
pub open spec fn release_requests(handles: Seq<u64>) -> Seq<Outcome> {
    Seq::new(handles.len(), |i: int| Outcome::Perform(Request::Release(handles[i])))
}

/// Pause: a frame that arrives while the recording is paused ends at once
/// with the status `OK`. No request is made, so nothing reaches a codec; the
/// encoder is as it was; and the frame index has advanced by exactly one.
pub proof fn lemma_paused_frame_advances(writer: WriterView)
    requires
        writer.wf(),
        writer.task == Task::Idle,
        writer.state matches StateView::Recording { paused, current_frame, .. } && paused
            && current_frame < frame_limit(),
    ensures
        ({
            let (next, outcome) = writer.spec_write_frame();
            &&& outcome == Outcome::Return(Status::OK)
            &&& next.state == (StateView::Recording {
                paused: true,
                current_frame: (writer.current_frame() + 1) as i64,
                encoder: writer.encoder(),
            })
            &&& next.task == Task::Idle
        }),
{
}

/// Pause, for every paused recording: a frame that arrives while the
/// recording is paused never reaches a codec, whatever the frame index is.
/// The writer asks for no conversion and offers nothing to a codec; its
/// encoder is not stepped. Where the index can advance the frame ends with
/// `OK`; where it has reached its limit the recording fails, and the only
/// requests made are those that release its handles.
pub proof fn lemma_paused_frame_reaches_no_codec(writer: WriterView)
    requires
        writer.task == Task::Idle,
        writer.state matches StateView::Recording { paused, .. } && paused,
    ensures
        ({
            let (next, outcome) = writer.spec_write_frame();
            &&& (outcome is Return || outcome matches Outcome::Perform(Request::Release(_)))
            &&& (next.state is Recording ==> next.encoder() == writer.encoder())
            &&& (writer.current_frame() < frame_limit() <==> outcome == Outcome::Return(
                Status::OK,
            ))
            &&& (writer.current_frame() >= frame_limit() ==> next.state == (StateView::Failed {
                kind: ErrorKind::LimitReached,
                detail: Seq::empty(),
            }))
        }),
{
}

/// A frame that is encoded advances the frame index by exactly one as well:
/// when the last part of a frame is complete, the index is one more than it
/// was, whether or not the frame reached a codec.
pub proof fn lemma_encoded_frame_advances(writer: WriterView)
    requires
        writer.wf(),
        writer.state matches StateView::Recording { current_frame, .. } && current_frame
            < frame_limit(),
    ensures
        ({
            let (next, outcome) = writer.finished(Task::Audio);
            &&& outcome == Outcome::Return(Status::OK)
            &&& next.state is Recording
            &&& next.current_frame() == writer.current_frame() + 1
            &&& next.encoder() == writer.encoder()
        }),
{
}

/// Unsupported container: a path whose extension names no container, or
/// one that the writer's profile does not support, is refused with the
/// status `FAILED`, and the writer is left exactly as it was: a writer that
/// was idle before a recording is still idle, and does not record.
pub proof fn lemma_unsupported_container_refused(
    writer: WriterView,
    width: i32,
    height: i32,
    fps: u32,
    path: Seq<char>,
)
    requires
        container_of(path) is None || !writer.profile.spec_supports(container_of(path)->0),
    ensures
        writer.spec_write_begin(width, height, fps, path) == (
            writer,
            Outcome::Return(Status::FAILED),
        ),
        writer.state is PreRecording ==> writer.spec_write_begin(
            width,
            height,
            fps,
            path,
        ).0.state is PreRecording,
{
}

/// A new recording: a writer that does not record and is in the middle of
/// nothing, be it idle or failed, begins a recording whenever the arguments
/// are [`acceptable`]. It records from frame 0, unpaused, and first asks for
/// the codec library to be initialised, or, where it is already, for the
/// container to be opened.
pub proof fn lemma_begin_accepted(
    writer: WriterView,
    width: i32,
    height: i32,
    fps: u32,
    path: Seq<char>,
)
    requires
        writer.task == Task::Idle,
        !(writer.state is Recording),
        acceptable(writer.profile, width, height, fps, path),
    ensures
        ({
            let (next, outcome) = writer.spec_write_begin(width, height, fps, path);
            &&& next.state matches StateView::Recording { paused, current_frame, .. } && !paused
                && current_frame == 0
            &&& outcome == if writer.library_ready {
                Outcome::Perform(Request::OpenOutput)
            } else {
                Outcome::Perform(Request::InitLibrary)
            }
        }),
{
}

/// Failure is terminal until a new recording begins: while the session is
/// failed, a frame is ignored with the status `OK` and the end of the
/// recording is answered with `FAILED`; neither asks for any work, and both
/// leave the writer exactly as it was.
pub proof fn lemma_failed_session_ignores_frames(writer: WriterView)
    requires
        writer.task == Task::Idle,
        writer.state is Failed,
    ensures
        writer.spec_write_frame() == (writer, Outcome::Return(Status::OK)),
        writer.spec_write_end() == (writer, Outcome::Return(Status::FAILED)),
{
}

/// Any failure of the encoder fails the session: whatever the writer is in
/// the middle of, when its encoder gives up with an error the session is
/// failed with that very error, the handles that the encoder holds are
/// released, and the operation ends with the status `FAILED`, which is
/// returned at once where there is nothing to release.
pub proof fn lemma_encoder_failure_fails_session(
    writer: WriterView,
    task: Task,
    encoder: EncoderView,
    kind: ErrorKind,
    detail: Seq<char>,
)
    requires
        writer.state is Recording,
    ensures
        ({
            let out = (encoder, StepView::Abort(kind, detail));
            let handles = release_order(encoder.converter.handles);
            let (next, outcome) = writer.settle(task, out);
            &&& next.state == (StateView::Failed { kind, detail })
            &&& (handles.len() == 0 ==> outcome == Outcome::Return(Status::FAILED) && next.task
                == Task::Idle)
            &&& (handles.len() > 0 ==> outcome == Outcome::Perform(Request::Release(handles[0]))
                && next.task == Task::Releasing(Status::FAILED) && next.releasing
                == handles.drop_first())
        }),
{
}

/// Library initialisation: a writer whose codec library is not initialised
/// begins a recording by asking for the initialisation, and nothing else is
/// asked for before it has succeeded. Any reply but success fails the
/// session as a set-up failure, with nothing to release; after a success the
/// library counts as initialised, and a later recording does not ask again.
pub proof fn lemma_library_initialised_first(
    writer: WriterView,
    width: i32,
    height: i32,
    fps: u32,
    path: Seq<char>,
    reply: ReplyView,
)
    requires
        writer.task == Task::Idle,
        !(writer.state is Recording),
        !writer.library_ready,
        acceptable(writer.profile, width, height, fps, path),
    ensures
        ({
            let (waiting, first) = writer.spec_write_begin(width, height, fps, path);
            let (next, outcome) = waiting.spec_resume(reply);
            &&& first == Outcome::Perform(Request::InitLibrary)
            &&& (reply is Done ==> next.library_ready && outcome == Outcome::Perform(
                Request::OpenOutput,
            ))
            &&& (!(reply is Done) ==> outcome == Outcome::Return(Status::FAILED) && next.state == (
            StateView::Failed { kind: ErrorKind::Setup, detail: Seq::empty() }) && next.task
                == Task::Idle && !next.library_ready)
        }),
{
    assert(release_order(Seq::<u64>::empty()) =~= Seq::<u64>::empty());
}

/// Resource accounting: when a recording ends or fails, every GPU handle
/// that its encoder holds is released by exactly one request, in release
/// order, whatever the replies to those requests are; the operation then
/// returns its status and the writer holds nothing. With
/// [`lemma_release_exactly_once`](crate::conversion::lemma_release_exactly_once)
/// the requests are as many as the handles that were acquired, and no
/// handle is released twice.
pub proof fn lemma_every_handle_released(
    writer: WriterView,
    handles: Seq<u64>,
    status: Status,
    replies: Seq<ReplyView>,
)
    requires
        replies.len() == handles.len(),
    ensures
        ({
            let (releasing, first) = writer.release(handles, status);
            let (last, outcomes) = run(releasing, replies);
            &&& seq![first] + outcomes == release_requests(handles) + seq![Outcome::Return(status)]
            &&& last.task == Task::Idle
            &&& last.releasing.len() == 0
            &&& last.state == writer.state
        }),
    decreases handles.len(),
{
    let (releasing, first) = writer.release(handles, status);
    let (last, outcomes) = run(releasing, replies);
    if handles.len() == 0 {
        assert(seq![first] + outcomes =~= release_requests(handles) + seq![
            Outcome::Return(status),
        ]);
    } else {
        let rest = handles.drop_first();
        lemma_every_handle_released(releasing, rest, status, replies.drop_first());
        assert(releasing.spec_resume(replies[0]) == releasing.release(rest, status));
        let (next, second) = releasing.release(rest, status);
        let tail = run(next, replies.drop_first()).1;
        assert(outcomes == seq![second] + tail);
        assert(seq![first] + (release_requests(rest) + seq![Outcome::Return(status)])
            =~= release_requests(handles) + seq![Outcome::Return(status)]);
    }
}

/// The trailer is last: once the writer has asked for the container to be
/// finalised and that has succeeded, nothing more is asked of a codec or of
/// the container. The handles of the encoder are released, one request
/// each, whatever the replies to those requests are; the operation then
/// returns `OK`, and the writer is idle before a recording, ready to begin a
/// new one.
pub proof fn lemma_trailer_is_last(writer: WriterView, replies: Seq<ReplyView>)
    requires
        writer.state is Recording,
        writer.task == Task::Finishing,
        writer.encoder().activity == Activity::Trailer,
        replies.len() == writer.held().len(),
    ensures
        ({
            let (closing, first) = writer.spec_resume(ReplyView::Done);
            let (last, outcomes) = run(closing, replies);
            &&& seq![first] + outcomes == release_requests(writer.held()) + seq![
                Outcome::Return(Status::OK),
            ]
            &&& last.state is PreRecording
            &&& last.task == Task::Idle
            &&& last.releasing.len() == 0
        }),
{
    let closed = writer.encoder().spec_step(ReplyView::Done).0;
    assert(writer.with_encoder(closed).held() == writer.held());
    lemma_every_handle_released(
        WriterView { state: StateView::PreRecording, ..writer.with_encoder(closed) },
        writer.held(),
        Status::OK,
        replies,
    );
}

} // verus!
