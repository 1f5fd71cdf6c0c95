//! Encoder profiles: the codecs a profile binds, its default settings, the
//! containers it can be written to, and how it tunes its codecs.

use crate::audio::ChannelLayout;
use crate::container::Container;
use crate::protocol::{CodecId, StartStage};
use crate::settings::{ConcreteEncoderSettings, Pixel, Rational};
use vstd::prelude::*;

verus! {

/// The profiles a session can record with.
#[derive(Clone, Copy, Debug, PartialEq, Eq, Structural)]
pub enum Profile {
    /// Widely compatible: H.264 video in an MP4 container.
    H264,
    /// High efficiency: AV1 video in a Matroska, MP4 or WebM container.
    Av1,
}

/// How a codec spreads its work over threads.
#[derive(Clone, Copy, Debug, PartialEq, Eq, Structural)]
pub enum ThreadingKind {
    Frame,
    Slice,
}

/// A hint for the number and kind of threads a codec uses.
#[derive(Clone, Copy, Debug, PartialEq, Eq, Structural)]
pub struct Threading {
    pub kind: ThreadingKind,
    pub count: usize,
}

/// The sample formats of audio frames.
#[derive(Clone, Copy, Debug, PartialEq, Eq, Structural)]
pub enum SampleFormat {
    /// Interleaved signed integers of 32 bits.
    I32Packed,
    /// Interleaved floating-point samples of 32 bits.
    F32Packed,
}

/// What a video encoder is configured with before it is opened.
#[derive(Clone, Copy, Debug, PartialEq, Eq, Structural)]
pub struct VideoConfig {
    pub codec: CodecId,
    pub width: u32,
    pub height: u32,
    pub time_base: Rational,
    pub format: Pixel,
    pub frame_rate: Rational,
    /// The ceiling of the bit rate, in bits per second.
    pub bit_rate: Option<usize>,
    pub threading: Option<Threading>,
    /// The codec's configuration goes into the container's header.
    pub global_header: bool,
}

/// What an audio encoder is configured with before it is opened.
#[derive(Clone, Copy, Debug, PartialEq, Eq, Structural)]
pub struct AudioConfig {
    pub codec: CodecId,
    pub channel_layout: ChannelLayout,
    pub format: SampleFormat,
    pub frame_rate: Rational,
    pub compression: Option<usize>,
    pub time_base: Rational,
    /// The sample rate in Hz.
    pub rate: i32,
    /// The ceiling of the bit rate, in bits per second.
    pub max_bit_rate: usize,
    /// The codec's configuration goes into the container's header.
    pub global_header: bool,
}

/// The settings that every profile starts from.
pub open spec fn common_defaults() -> ConcreteEncoderSettings {
    ConcreteEncoderSettings {
        frame_rate: Rational(24, 1),
        time_base: Rational(1, 90_000),
        pixel_format: Pixel::YUV420P,
        audio_sample_rate: 44_100,
        audio_enabled: false,
    }
}

/// The stages of a start, in order. The audio stages are left out where
/// audio is disabled. Each stream is added after its encoder is open, the
/// video stream first, and the header is written last.
pub open spec fn start_plan(audio: bool) -> Seq<StartStage> {
    if audio {
        seq![
            StartStage::FindAudioCodec,
            StartStage::CreateAudioEncoder,
            StartStage::FindVideoCodec,
            StartStage::CreateVideoEncoder,
            StartStage::OpenVideoEncoder,
            StartStage::OpenAudioEncoder,
            StartStage::AddVideoStream,
            StartStage::AddAudioStream,
            StartStage::WriteHeader,
        ]
    } else {
        seq![
            StartStage::FindVideoCodec,
            StartStage::CreateVideoEncoder,
            StartStage::OpenVideoEncoder,
            StartStage::AddVideoStream,
            StartStage::WriteHeader,
        ]
    }
}

/// The stage that follows `stage` in the plan; `None` after the last.
pub open spec fn stage_after(stage: StartStage, audio: bool) -> Option<StartStage> {
    let plan = start_plan(audio);
    let at = plan.index_of(stage);
    if plan.contains(stage) && at + 1 < plan.len() {
        Some(plan[at + 1])
    } else {
        None
    }
}

/// The text that introduces the failure of `stage`.
pub open spec fn stage_context(stage: StartStage) -> Seq<char> {
    match stage {
        StartStage::FindAudioCodec => "Audio Codec not found"@,
        StartStage::CreateAudioEncoder => "Could not create audio encoder context: "@,
        StartStage::FindVideoCodec => "Video Codec not found"@,
        StartStage::CreateVideoEncoder => "Could not create encoder context: "@,
        StartStage::OpenVideoEncoder => "Could not open video encoder: "@,
        StartStage::OpenAudioEncoder => "Could not open audio encoder: "@,
        StartStage::AddVideoStream => "Could not add video stream: "@,
        StartStage::AddAudioStream => "Could not add audio stream: "@,
        StartStage::WriteHeader => "Could not write header: "@,
    }
}

/// The text that introduces the failure of `stage`.
pub fn stage_failure(stage: StartStage) -> (context: &'static str)
    ensures
        context@ == stage_context(stage),
{
    match stage {
        StartStage::FindAudioCodec => "Audio Codec not found",
        StartStage::CreateAudioEncoder => "Could not create audio encoder context: ",
        StartStage::FindVideoCodec => "Video Codec not found",
        StartStage::CreateVideoEncoder => "Could not create encoder context: ",
        StartStage::OpenVideoEncoder => "Could not open video encoder: ",
        StartStage::OpenAudioEncoder => "Could not open audio encoder: ",
        StartStage::AddVideoStream => "Could not add video stream: ",
        StartStage::AddAudioStream => "Could not add audio stream: ",
        StartStage::WriteHeader => "Could not write header: ",
    }
}

/// The first stage of a start.
pub fn first_stage(audio: bool) -> (stage: StartStage)
    ensures
        stage == start_plan(audio)[0],
{
    if audio {
        StartStage::FindAudioCodec
    } else {
        StartStage::FindVideoCodec
    }
}

proof fn lemma_position(plan: Seq<StartStage>, stage: StartStage, i: int)
    requires
        0 <= i < plan.len(),
        plan[i] == stage,
        plan.no_duplicates(),
    ensures
        plan.contains(stage),
        plan.index_of(stage) == i,
{
    let j = plan.index_of(stage);
    assert(0 <= j < plan.len() && plan[j] == stage);
}

/// The stage that follows `stage`; `None` after the last.
pub fn next_stage(stage: StartStage, audio: bool) -> (next: Option<StartStage>)
    ensures
        next == stage_after(stage, audio),
{
    proof {
        let plan = start_plan(audio);
        assert(plan.no_duplicates());
        if audio {
            match stage {
                StartStage::FindAudioCodec => lemma_position(plan, stage, 0),
                StartStage::CreateAudioEncoder => lemma_position(plan, stage, 1),
                StartStage::FindVideoCodec => lemma_position(plan, stage, 2),
                StartStage::CreateVideoEncoder => lemma_position(plan, stage, 3),
                StartStage::OpenVideoEncoder => lemma_position(plan, stage, 4),
                StartStage::OpenAudioEncoder => lemma_position(plan, stage, 5),
                StartStage::AddVideoStream => lemma_position(plan, stage, 6),
                StartStage::AddAudioStream => lemma_position(plan, stage, 7),
                StartStage::WriteHeader => lemma_position(plan, stage, 8),
            }
        } else {
            match stage {
                StartStage::FindVideoCodec => lemma_position(plan, stage, 0),
                StartStage::CreateVideoEncoder => lemma_position(plan, stage, 1),
                StartStage::OpenVideoEncoder => lemma_position(plan, stage, 2),
                StartStage::AddVideoStream => lemma_position(plan, stage, 3),
                StartStage::WriteHeader => lemma_position(plan, stage, 4),
                _ => {
                    assert(!plan.contains(stage));
                },
            }
        }
    }
    match stage {
        StartStage::FindAudioCodec => if audio {
            Some(StartStage::CreateAudioEncoder)
        } else {
            None
        },
        StartStage::CreateAudioEncoder => if audio {
            Some(StartStage::FindVideoCodec)
        } else {
            None
        },
        StartStage::FindVideoCodec => Some(StartStage::CreateVideoEncoder),
        StartStage::CreateVideoEncoder => Some(StartStage::OpenVideoEncoder),
        StartStage::OpenVideoEncoder => if audio {
            Some(StartStage::OpenAudioEncoder)
        } else {
            Some(StartStage::AddVideoStream)
        },
        StartStage::OpenAudioEncoder => if audio {
            Some(StartStage::AddVideoStream)
        } else {
            None
        },
        StartStage::AddVideoStream => if audio {
            Some(StartStage::AddAudioStream)
        } else {
            Some(StartStage::WriteHeader)
        },
        StartStage::AddAudioStream => if audio {
            Some(StartStage::WriteHeader)
        } else {
            None
        },
        StartStage::WriteHeader => None,
    }
}

impl Profile {
    /// The video codec of the profile.
    pub open spec fn spec_video_codec(&self) -> CodecId {
        match *self {
            Profile::H264 => CodecId::H264,
            Profile::Av1 => CodecId::AV1,
        }
    }

    /// The video codec of the profile.
    #[verifier::when_used_as_spec(spec_video_codec)]
    pub fn video_codec(&self) -> (id: CodecId)
        ensures
            id == self.spec_video_codec(),
    {
        match self {
            Profile::H264 => CodecId::H264,
            Profile::Av1 => CodecId::AV1,
        }
    }

    /// The audio codec of the profile.
    pub fn audio_codec(&self) -> (id: CodecId)
        ensures
            id == CodecId::FLAC,
    {
        CodecId::FLAC
    }

    /// The settings the profile records with unless they are overridden.
    /// The H.264 profile records audio, the AV1 profile does not.
    pub open spec fn spec_default_settings(&self) -> ConcreteEncoderSettings {
        ConcreteEncoderSettings { audio_enabled: *self == Profile::H264, ..common_defaults() }
    }

    /// The settings the profile records with unless they are overridden.
    #[verifier::when_used_as_spec(spec_default_settings)]
    pub fn default_settings(&self) -> (s: ConcreteEncoderSettings)
        ensures
            s == self.spec_default_settings(),
            s.valid(),
    {
        let audio_enabled = match self {
            Profile::H264 => true,
            Profile::Av1 => false,
        };
        ConcreteEncoderSettings {
            frame_rate: Rational(24, 1),
            time_base: Rational(1, 90_000),
            pixel_format: Pixel::YUV420P,
            audio_sample_rate: 44_100,
            audio_enabled,
        }
    }

    /// The profile can be written to `container`: H.264 to MP4 only, AV1 to
    /// Matroska, MP4 and WebM.
    pub open spec fn spec_supports(&self, container: Container) -> bool {
        match *self {
            Profile::H264 => container == Container::Mp4,
            Profile::Av1 => container == Container::Mkv || container == Container::Mp4 || container
                == Container::Webm,
        }
    }

    /// Whether the profile can be written to `container`.
    #[verifier::when_used_as_spec(spec_supports)]
    pub fn supports(&self, container: Container) -> (b: bool)
        ensures
            b == self.spec_supports(container),
    {
        match self {
            Profile::H264 => match container {
                Container::Mp4 => true,
                _ => false,
            },
            Profile::Av1 => match container {
                Container::Mkv => true,
                Container::Mp4 => true,
                Container::Webm => true,
                Container::Mov => false,
            },
        }
    }

    /// The containers the profile can be written to.
    pub open spec fn spec_supported_containers(&self) -> Seq<Container> {
        match *self {
            Profile::H264 => seq![Container::Mp4],
            Profile::Av1 => seq![Container::Mkv, Container::Mp4, Container::Webm],
        }
    }

    /// The containers the profile can be written to. They are those that
    /// [`supports`](Profile::supports) accepts.
    pub fn supported_containers(&self) -> (list: Vec<Container>)
        ensures
            list@ == self.spec_supported_containers(),
            forall|c: Container| list@.contains(c) <==> self.spec_supports(c),
    {
        let mut list: Vec<Container> = Vec::new();
        match self {
            Profile::H264 => {
                list.push(Container::Mp4);
                assert(list@ =~= seq![Container::Mp4]);
                assert(list@[0] == Container::Mp4);
            },
            Profile::Av1 => {
                list.push(Container::Mkv);
                list.push(Container::Mp4);
                list.push(Container::Webm);
                assert(list@ =~= seq![Container::Mkv, Container::Mp4, Container::Webm]);
                assert(list@[0] == Container::Mkv);
                assert(list@[1] == Container::Mp4);
                assert(list@[2] == Container::Webm);
            },
        }
        list
    }

    /// The configuration of the profile's video encoder for frames of
    /// `width` by `height` pixels. Timing and layout are those of
    /// `settings`. AV1 is held to 200 kbit/s and encodes frames on 32
    /// threads; H.264 is left to its codec's own rate control.
    pub open spec fn spec_video_config(
        &self,
        width: u32,
        height: u32,
        settings: ConcreteEncoderSettings,
        global_header: bool,
    ) -> VideoConfig {
        VideoConfig {
            codec: self.spec_video_codec(),
            width,
            height,
            time_base: settings.time_base,
            format: settings.pixel_format,
            frame_rate: settings.frame_rate,
            bit_rate: if *self == Profile::Av1 {
                Some(200_000usize)
            } else {
                None
            },
            threading: if *self == Profile::Av1 {
                Some(Threading { kind: ThreadingKind::Frame, count: 32 })
            } else {
                None
            },
            global_header,
        }
    }

    /// The configuration of the profile's video encoder.
    pub fn video_config(
        &self,
        width: u32,
        height: u32,
        settings: ConcreteEncoderSettings,
        global_header: bool,
    ) -> (config: VideoConfig)
        ensures
            config == self.spec_video_config(width, height, settings, global_header),
    {
        let (bit_rate, threading) = match self {
            Profile::Av1 => (
                Some(200_000usize),
                Some(Threading { kind: ThreadingKind::Frame, count: 32 }),
            ),
            Profile::H264 => (None, None),
        };
        VideoConfig {
            codec: self.video_codec(),
            width,
            height,
            time_base: settings.time_base,
            format: settings.pixel_format,
            frame_rate: settings.frame_rate,
            bit_rate,
            threading,
            global_header,
        }
    }

    /// The configuration of the profile's audio encoder: stereo FLAC at the
    /// sample rate of `settings`, in packed 32-bit integers. AV1 compresses
    /// at level 4 and is held to 128 kbit/s, H.264 to 320 kbit/s.
    pub open spec fn spec_audio_config(
        &self,
        settings: ConcreteEncoderSettings,
        global_header: bool,
    ) -> AudioConfig {
        AudioConfig {
            codec: CodecId::FLAC,
            channel_layout: ChannelLayout::STEREO,
            format: SampleFormat::I32Packed,
            frame_rate: Rational(settings.audio_sample_rate as i32, 1),
            compression: if *self == Profile::Av1 {
                Some(4usize)
            } else {
                None
            },
            time_base: settings.time_base,
            rate: settings.audio_sample_rate as i32,
            max_bit_rate: if *self == Profile::Av1 {
                128_000
            } else {
                320_000
            },
            global_header,
        }
    }

    /// The configuration of the profile's audio encoder.
    pub fn audio_config(&self, settings: ConcreteEncoderSettings, global_header: bool) -> (config:
        AudioConfig)
        requires
            settings.audio_sample_rate <= i32::MAX,
        ensures
            config == self.spec_audio_config(settings, global_header),
            config.rate == settings.audio_sample_rate,
    {
        let rate: i32 = settings.audio_sample_rate as i32;
        let (compression, max_bit_rate) = match self {
            Profile::Av1 => (Some(4usize), 128_000usize),
            Profile::H264 => (None, 320_000usize),
        };
        AudioConfig {
            codec: CodecId::FLAC,
            channel_layout: ChannelLayout::STEREO,
            format: SampleFormat::I32Packed,
            frame_rate: Rational(rate, 1),
            compression,
            time_base: settings.time_base,
            rate,
            max_bit_rate,
            global_header,
        }
    }

    /// The options the profile's video codec is opened with, as pairs of
    /// name and value.
    pub open spec fn spec_video_options(&self) -> Seq<(Seq<char>, Seq<char>)> {
        match *self {
            Profile::H264 => seq![("preset"@, "medium"@)],
            Profile::Av1 => seq![
                ("crf"@, "23"@),
                ("cpu-used"@, "8"@),
                ("tiles"@, "4x4"@),
                ("row-mt"@, "1"@),
                ("enable-keyframe-filtering"@, "0"@),
            ],
        }
    }

    /// The options the profile's video codec is opened with.
    pub fn video_options(&self) -> (options: Vec<(&'static str, &'static str)>)
        ensures
            options@.len() == self.spec_video_options().len(),
            forall|i: int|
                0 <= i < options@.len() ==> (#[trigger] options@[i]).0@
                    == self.spec_video_options()[i].0 && options@[i].1@
                    == self.spec_video_options()[i].1,
    {
        let mut options: Vec<(&'static str, &'static str)> = Vec::new();
        match self {
            Profile::H264 => {
                options.push(("preset", "medium"));
            },
            Profile::Av1 => {
                options.push(("crf", "23"));
                options.push(("cpu-used", "8"));
                options.push(("tiles", "4x4"));
                options.push(("row-mt", "1"));
                options.push(("enable-keyframe-filtering", "0"));
            },
        }
        options
    }
}

/// The plan is followed stage by stage: after the stage at position `k`
/// comes the one at position `k + 1`, and after the last comes none.
pub proof fn lemma_stage_after(audio: bool, k: int)
    requires
        0 <= k < start_plan(audio).len(),
    ensures
        stage_after(start_plan(audio)[k], audio) == if k + 1 < start_plan(audio).len() {
            Some(start_plan(audio)[k + 1])
        } else {
            None
        },
{
    lemma_position(start_plan(audio), start_plan(audio)[k], k);
}

/// The order of a start: each encoder is opened before its stream is added,
/// every stream is added before the header is written, and the header is
/// the last stage. The video stream is added first, so that it has index 0
/// and the audio stream index 1.
pub proof fn lemma_start_order(audio: bool)
    ensures
        ({
            let plan = start_plan(audio);
            &&& plan.no_duplicates()
            &&& plan.last() == StartStage::WriteHeader
            &&& plan.index_of(StartStage::OpenVideoEncoder) < plan.index_of(
                StartStage::AddVideoStream,
            )
            &&& plan.contains(StartStage::OpenVideoEncoder)
            &&& plan.contains(StartStage::AddVideoStream)
            &&& plan.contains(StartStage::AddAudioStream) == audio
            &&& plan.contains(StartStage::OpenAudioEncoder) == audio
            &&& audio ==> plan.index_of(StartStage::OpenAudioEncoder) < plan.index_of(
                StartStage::AddAudioStream,
            )
            &&& audio ==> plan.index_of(StartStage::AddVideoStream) < plan.index_of(
                StartStage::AddAudioStream,
            )
        }),
{
    let plan = start_plan(audio);
    if audio {
        lemma_position(plan, StartStage::OpenVideoEncoder, 4);
        lemma_position(plan, StartStage::OpenAudioEncoder, 5);
        lemma_position(plan, StartStage::AddVideoStream, 6);
        lemma_position(plan, StartStage::AddAudioStream, 7);
    } else {
        lemma_position(plan, StartStage::OpenVideoEncoder, 2);
        lemma_position(plan, StartStage::AddVideoStream, 3);
    }
}

} // verus!
