use fellini::profile::{AudioConfig, SampleFormat, Threading, ThreadingKind, VideoConfig};
use fellini::protocol::{Filter, TextureFormat, TextureUsage, UniformKind};
use fellini::{
    Allocation, Av1Encoder, ChannelLayout, CodecId, Container, EncoderKind, EncoderSettings, Error,
    ErrorKind, FelliniState, FelliniWriter, H264Encoder, Outcome, Pixel, Profile, Rational, Reply,
    Request, SpeakerMode, StartStage, Status, Step,
};

fn plane(texture: fellini::Resource, width: u32, height: u32, binding: i32) -> Allocation {
    Allocation::Texture {
        texture,
        format: TextureFormat::R8_UNORM,
        view: Some(TextureFormat::R8_UNORM),
        usage: TextureUsage { sampling: false, storage: true, can_update: false, can_copy_from: true },
        uniform: UniformKind::Image,
        width,
        height,
        binding,
    }
}

fn scratch(width: u32, height: u32) -> Allocation {
    Allocation::Texture {
        texture: fellini::Resource::Scratch,
        format: TextureFormat::R8G8B8A8_UNORM,
        view: None,
        usage: TextureUsage { sampling: true, storage: false, can_update: true, can_copy_from: true },
        uniform: UniformKind::Texture,
        width,
        height,
        binding: 0,
    }
}

/// The outside world of a session: a GPU, codecs and a container that answer
/// the writer's requests and keep a record of them.
struct World {
    log: Vec<Request>,
    next_handle: u64,
    live: Vec<u64>,
    released: Vec<u64>,
    /// How often the video codec is busy before it accepts each frame.
    busy_per_frame: u32,
    busy_left: u32,
    /// How many packets each codec has ready after a frame.
    packets_per_frame: u32,
    ready: [u32; 2],
    /// The codecs that have taken the end of input.
    ended: [bool; 2],
    written: Vec<(usize, Rational)>,
    /// The request that fails, and the reason it gives.
    fail: Option<(Request, &'static str)>,
    /// The number of allocations after which the next one fails.
    fail_allocation: Option<usize>,
    allocations: usize,
    global_header: bool,
}

impl World {
    fn new() -> Self {
        World {
            log: Vec::new(),
            next_handle: 1,
            live: Vec::new(),
            released: Vec::new(),
            busy_per_frame: 0,
            busy_left: 0,
            packets_per_frame: 1,
            ready: [0, 0],
            ended: [false, false],
            written: Vec::new(),
            fail: None,
            fail_allocation: None,
            allocations: 0,
            global_header: false,
        }
    }

    fn answer(&mut self, request: Request) -> Reply {
        self.log.push(request);
        if let Some((failing, reason)) = self.fail {
            if failing == request {
                return Reply::Failed(reason.to_string());
            }
        }
        match request {
            Request::InitLibrary => Reply::Done,
            Request::OpenOutput => {
                self.ready = [0, 0];
                self.ended = [false, false];
                Reply::Opened { global_header: self.global_header }
            }
            Request::Allocate(step) => {
                if self.fail_allocation == Some(self.allocations) {
                    return Reply::Failed(String::new());
                }
                self.allocations += 1;
                match step {
                    Allocation::Device | Allocation::Kernel => Reply::Done,
                    _ => {
                        let handle = self.next_handle;
                        self.next_handle += 1;
                        self.live.push(handle);
                        Reply::Handle(handle)
                    }
                }
            }
            Request::Release(handle) => {
                assert!(self.live.contains(&handle), "released a handle that is not live");
                self.live.retain(|h| *h != handle);
                self.released.push(handle);
                Reply::Done
            }
            Request::Start(StartStage::OpenAudioEncoder) => {
                Reply::AudioOpened { frame_size: 4608, variable_frame_size: false }
            }
            Request::Start(_) => Reply::Done,
            Request::Convert { .. } => {
                self.busy_left = self.busy_per_frame;
                Reply::Done
            }
            Request::PrepareAudio { .. } => Reply::Done,
            Request::SendFrame { stream } => {
                if stream == 0 && self.busy_left > 0 {
                    self.busy_left -= 1;
                    Reply::Busy
                } else {
                    self.ready[stream] += self.packets_per_frame;
                    Reply::Done
                }
            }
            Request::SendEof { stream } => {
                self.ready[stream] += 1;
                self.ended[stream] = true;
                Reply::Done
            }
            Request::ReceivePacket { stream } => {
                if self.ready[stream] > 0 {
                    self.ready[stream] -= 1;
                    Reply::Packet
                } else if self.ended[stream] {
                    Reply::Exhausted
                } else {
                    Reply::Empty
                }
            }
            Request::WritePacket { stream, time_base } => {
                self.written.push((stream, time_base));
                Reply::Done
            }
            Request::WriteTrailer => Reply::Done,
        }
    }

    fn run(&mut self, writer: &mut FelliniWriter, mut outcome: Outcome) -> Status {
        loop {
            match outcome {
                Outcome::Return(status) => return status,
                Outcome::Perform(request) => {
                    let reply = self.answer(request);
                    outcome = writer.resume(reply);
                }
            }
        }
    }

    fn count(&self, wanted: impl Fn(&Request) -> bool) -> usize {
        self.log.iter().filter(|r| wanted(r)).count()
    }

    fn position(&self, wanted: Request) -> usize {
        self.log.iter().position(|r| *r == wanted).expect("request was made")
    }
}

fn begin(writer: &mut FelliniWriter, world: &mut World, path: &str) -> Status {
    let outcome = writer.write_begin(64, 64, 24, path);
    world.run(writer, outcome)
}

fn frame(writer: &mut FelliniWriter, world: &mut World) -> Status {
    let outcome = writer.write_frame();
    world.run(writer, outcome)
}

fn end(writer: &mut FelliniWriter, world: &mut World) -> Status {
    let outcome = writer.write_end();
    world.run(writer, outcome)
}

fn is_pre_recording(writer: &FelliniWriter) -> bool {
    matches!(writer.state(), FelliniState::PreRecording)
}

fn failure(writer: &FelliniWriter) -> Option<&Error> {
    match writer.state() {
        FelliniState::Failed { error } => Some(error),
        _ => None,
    }
}

#[test]
fn end_to_end_48_frames_to_mkv() {
    let mut writer = FelliniWriter::init(true);
    let mut world = World::new();
    assert!(is_pre_recording(&writer));

    assert_eq!(begin(&mut writer, &mut world, "out.mkv"), Status::OK);
    assert!(writer.is_recording());
    assert_eq!(writer.current_frame(), Some(0));
    assert!(!writer.is_paused());
    assert_eq!(writer.encoder().unwrap().encoder().container(), Container::Mkv);

    // exactly one video stream and no audio stream; the header after the stream
    assert_eq!(world.count(|r| *r == Request::Start(StartStage::AddVideoStream)), 1);
    assert_eq!(world.count(|r| *r == Request::Start(StartStage::AddAudioStream)), 0);
    assert_eq!(world.count(|r| *r == Request::Start(StartStage::WriteHeader)), 1);
    assert!(
        world.position(Request::Start(StartStage::AddVideoStream))
            < world.position(Request::Start(StartStage::WriteHeader))
    );

    for i in 0..48 {
        assert_eq!(writer.current_frame(), Some(i));
        assert_eq!(frame(&mut writer, &mut world), Status::OK);
    }
    assert_eq!(writer.current_frame(), Some(48));

    // the frames are stamped 0, 3750, 7500, ... in ticks of 1/90000 s
    let stamps: Vec<i64> = world
        .log
        .iter()
        .filter_map(|r| match r {
            Request::Convert { pts } => Some(*pts),
            _ => None,
        })
        .collect();
    let expected: Vec<i64> = (0..48).map(|i| i * 3750).collect();
    assert_eq!(stamps, expected);
    // 48 frames at 24 fps last two seconds: the frame after the last starts at 180000 ticks
    let settings = *writer.encoder().unwrap().settings();
    assert_eq!(settings.pts(48), 180_000);
    assert_eq!(settings.pts(48) - stamps[0], 2 * 90_000);

    assert_eq!(end(&mut writer, &mut world), Status::OK);
    assert!(is_pre_recording(&writer));
    assert!(writer.is_idle());

    // header and trailer are present, the trailer last of the container's requests
    assert_eq!(world.count(|r| *r == Request::WriteTrailer), 1);
    let trailer = world.position(Request::WriteTrailer);
    assert!(world.log[trailer + 1..].iter().all(|r| matches!(r, Request::Release(_))));
    assert!(world
        .log
        .iter()
        .position(|r| matches!(r, Request::WritePacket { .. }))
        .unwrap()
        > world.position(Request::Start(StartStage::WriteHeader)));
    // every packet went to the video stream, rescaled from the encoder's time base
    assert_eq!(world.written.len(), 48 + 1);
    assert!(world.written.iter().all(|w| *w == (0, Rational(1, 90_000))));
    // no audio was encoded
    assert_eq!(world.count(|r| matches!(r, Request::PrepareAudio { .. })), 0);
    assert_eq!(world.count(|r| matches!(r, Request::SendFrame { stream: 1 })), 0);

    // every handle that was allocated was released exactly once
    assert_eq!(world.released.len(), 9);
    assert!(world.live.is_empty());
    assert_eq!(world.count(|r| matches!(r, Request::Release(_))), 9);
    // acquired 1..=9: shader, pipeline, sampler, scratch, y, u, v, a, uniforms
    assert_eq!(world.released, vec![5, 6, 7, 8, 4, 9, 2, 3, 1]);
}

#[test]
fn begin_sets_up_in_order() {
    let mut writer = FelliniWriter::init(false);
    // the library could not be initialised at first: the writer starts failed
    assert_eq!(failure(&writer), Some(&Error::Setup));
    let mut world = World::new();
    assert_eq!(begin(&mut writer, &mut world, "clip.webm"), Status::OK);
    assert_eq!(
        world.log,
        vec![
            Request::InitLibrary,
            Request::OpenOutput,
            Request::Allocate(Allocation::Device),
            Request::Allocate(Allocation::Kernel),
            Request::Allocate(Allocation::Shader),
            Request::Allocate(Allocation::Pipeline { shader: 1 }),
            Request::Allocate(Allocation::Sampler { filter: Filter::Nearest, binding: 5 }),
            Request::Allocate(scratch(64, 64)),
            Request::Allocate(plane(fellini::Resource::Luma, 64, 64, 1)),
            Request::Allocate(plane(fellini::Resource::ChromaU, 32, 32, 2)),
            Request::Allocate(plane(fellini::Resource::ChromaV, 32, 32, 3)),
            Request::Allocate(plane(fellini::Resource::Alpha, 64, 64, 4)),
            Request::Allocate(Allocation::Uniforms { shader: 1, set: 0 }),
            Request::Start(StartStage::FindVideoCodec),
            Request::Start(StartStage::CreateVideoEncoder),
            Request::Start(StartStage::OpenVideoEncoder),
            Request::Start(StartStage::AddVideoStream),
            Request::Start(StartStage::WriteHeader),
        ]
    );
    assert!(writer.is_recording());
    assert!(writer.encoder().unwrap().encoder().is_started());

    // the library is initialised once per process
    end(&mut writer, &mut world);
    world.log.clear();
    assert_eq!(begin(&mut writer, &mut world, "clip.webm"), Status::OK);
    assert_eq!(world.log[0], Request::OpenOutput);
    assert_eq!(world.count(|r| *r == Request::InitLibrary), 0);
}

#[test]
fn begin_with_unsupported_extension_stays_pre_recording() {
    for path in ["out.mov", "out.avi", "out", "out.MKV", ".mkv", "movies.mkv/out"] {
        let mut writer = FelliniWriter::init(true);
        let mut world = World::new();
        assert_eq!(begin(&mut writer, &mut world, path), Status::FAILED, "{}", path);
        assert!(is_pre_recording(&writer));
        assert!(!writer.is_recording());
        assert!(writer.is_idle());
        // nothing was asked of the outside world
        assert!(world.log.is_empty());
    }
    // the H.264 profile writes MP4 only
    for path in ["out.mkv", "out.webm", "out.mov"] {
        let mut writer = FelliniWriter::init(true);
        writer.select_profile(Profile::H264);
        let mut world = World::new();
        assert_eq!(begin(&mut writer, &mut world, path), Status::FAILED);
        assert!(is_pre_recording(&writer));
        assert!(world.log.is_empty());
    }
}

#[test]
fn begin_reports_why_it_refuses() {
    let err = FelliniWriter::prepare(Profile::Av1, 64, 64, 24, "out.mov").unwrap_err();
    assert_eq!(err, Error::Validation("Unsupported container for out.mov".to_string()));
    assert_eq!(err.kind(), ErrorKind::Validation);
    let err = FelliniWriter::prepare(Profile::H264, 64, 64, 24, "a/b.mkv").unwrap_err();
    assert_eq!(err, Error::Validation("Unsupported container for a/b.mkv".to_string()));
    let err = FelliniWriter::prepare(Profile::Av1, 0, 64, 24, "out.mkv").unwrap_err();
    assert_eq!(err, Error::Validation("Movie size must be positive".to_string()));
    let err = FelliniWriter::prepare(Profile::Av1, 64, -1, 24, "out.mkv").unwrap_err();
    assert_eq!(err, Error::Validation("Movie size must be positive".to_string()));
    let err = FelliniWriter::prepare(Profile::Av1, 64, 64, 0, "out.mkv").unwrap_err();
    assert_eq!(err, Error::Validation("Frame rate is out of range".to_string()));
    let err = FelliniWriter::prepare(Profile::Av1, 64, 64, u32::MAX, "out.mkv").unwrap_err();
    assert_eq!(err, Error::Validation("Frame rate is out of range".to_string()));
    assert!(FelliniWriter::prepare(Profile::Av1, 64, 64, 24, "out.mkv").is_ok());
    assert!(FelliniWriter::prepare(Profile::Av1, 1, 1, i32::MAX as u32, "out.mp4").is_ok());
}

#[test]
fn begin_with_bad_size_or_rate_changes_nothing() {
    let mut writer = FelliniWriter::init(true);
    let mut world = World::new();
    let outcome = writer.write_begin(0, 64, 24, "out.mkv");
    assert_eq!(outcome, Outcome::Return(Status::FAILED));
    let outcome = writer.write_begin(64, 64, 0, "out.mkv");
    assert_eq!(outcome, Outcome::Return(Status::FAILED));
    assert!(is_pre_recording(&writer));
    assert_eq!(begin(&mut writer, &mut world, "out.mkv"), Status::OK);
    // a recording is under way: another cannot begin
    let outcome = writer.write_begin(64, 64, 24, "other.mkv");
    assert_eq!(outcome, Outcome::Return(Status::FAILED));
    assert!(writer.is_recording());
    assert_eq!(writer.current_frame(), Some(0));
}

#[test]
fn paused_frames_reach_no_codec_and_advance_the_index() {
    let mut writer = FelliniWriter::init(true);
    let mut world = World::new();
    begin(&mut writer, &mut world, "out.mkv");
    for _ in 0..3 {
        frame(&mut writer, &mut world);
    }
    assert_eq!(writer.current_frame(), Some(3));

    writer.set_paused(true);
    assert!(writer.is_paused());
    let before = world.log.len();
    for i in 0..5 {
        // a paused frame returns at once, without any request
        assert_eq!(writer.write_frame(), Outcome::Return(Status::OK));
        assert_eq!(writer.current_frame(), Some(3 + i + 1));
    }
    assert_eq!(world.log.len(), before);

    writer.set_paused(false);
    world.log.clear();
    assert_eq!(frame(&mut writer, &mut world), Status::OK);
    // the first frame after the pause is stamped with its own index
    assert_eq!(world.log[0], Request::Convert { pts: 8 * 3750 });
    assert_eq!(writer.current_frame(), Some(9));
    assert_eq!(world.count(|r| matches!(r, Request::SendFrame { stream: 0 })), 1);
}

#[test]
fn pausing_without_a_recording_does_nothing() {
    let mut writer = FelliniWriter::init(true);
    writer.set_paused(true);
    assert!(!writer.is_paused());
    assert!(is_pre_recording(&writer));
}

#[test]
fn frames_are_ignored_while_nothing_is_recorded() {
    let mut writer = FelliniWriter::init(true);
    assert_eq!(writer.write_frame(), Outcome::Return(Status::OK));
    assert!(is_pre_recording(&writer));
    assert_eq!(writer.current_frame(), None);
    assert_eq!(writer.write_end(), Outcome::Return(Status::OK));
    assert!(is_pre_recording(&writer));
}

#[test]
fn busy_codec_is_drained_and_offered_the_frame_again() {
    let mut writer = FelliniWriter::init(true);
    let mut world = World::new();
    world.busy_per_frame = 3;
    begin(&mut writer, &mut world, "out.mkv");
    world.log.clear();
    assert_eq!(frame(&mut writer, &mut world), Status::OK);
    let send = Request::SendFrame { stream: 0 };
    let receive = Request::ReceivePacket { stream: 0 };
    let write = Request::WritePacket { stream: 0, time_base: Rational(1, 90_000) };
    assert_eq!(
        world.log,
        vec![
            Request::Convert { pts: 0 },
            send,
            receive,
            send,
            receive,
            send,
            receive,
            send,
            receive,
            write,
            receive
        ]
    );
    assert_eq!(world.count(|r| *r == send), 4);
    assert_eq!(writer.current_frame(), Some(1));
}

#[test]
fn h264_records_audio_on_the_same_time_axis() {
    let mut writer = FelliniWriter::init(true);
    writer.select_profile(Profile::H264);
    assert_eq!(writer.profile(), Profile::H264);
    let mut world = World::new();
    world.global_header = true;
    assert_eq!(begin(&mut writer, &mut world, "out.mp4"), Status::OK);
    let stages: Vec<StartStage> = world
        .log
        .iter()
        .filter_map(|r| match r {
            Request::Start(s) => Some(*s),
            _ => None,
        })
        .collect();
    assert_eq!(
        stages,
        vec![
            StartStage::FindAudioCodec,
            StartStage::CreateAudioEncoder,
            StartStage::FindVideoCodec,
            StartStage::CreateVideoEncoder,
            StartStage::OpenVideoEncoder,
            StartStage::OpenAudioEncoder,
            StartStage::AddVideoStream,
            StartStage::AddAudioStream,
            StartStage::WriteHeader,
        ]
    );
    let kind = writer.encoder().unwrap();
    assert_eq!(kind.codec(), CodecId::H264);
    assert_eq!(kind.supported_containers(), vec![Container::Mp4]);
    assert!(kind.settings().audio_enabled);
    assert_eq!(kind.audio_frame_size(), 4608);
    assert_eq!(writer.get_audio_mix_rate(), 44_100);
    assert_eq!(
        kind.encoder().video_config(),
        VideoConfig {
            codec: CodecId::H264,
            width: 64,
            height: 64,
            time_base: Rational(1, 90_000),
            format: Pixel::YUV420P,
            frame_rate: Rational(24, 1),
            bit_rate: None,
            threading: None,
            global_header: true,
        }
    );
    assert_eq!(
        kind.encoder().audio_config(),
        AudioConfig {
            codec: CodecId::FLAC,
            channel_layout: ChannelLayout::STEREO,
            format: SampleFormat::I32Packed,
            frame_rate: Rational(44_100, 1),
            compression: None,
            time_base: Rational(1, 90_000),
            rate: 44_100,
            max_bit_rate: 320_000,
            global_header: true,
        }
    );
    assert_eq!(Profile::H264.video_options(), vec![("preset", "medium")]);

    world.log.clear();
    frame(&mut writer, &mut world);
    frame(&mut writer, &mut world);
    let video = Rational(1, 90_000);
    assert_eq!(
        world.log,
        vec![
            Request::Convert { pts: 0 },
            Request::SendFrame { stream: 0 },
            Request::ReceivePacket { stream: 0 },
            Request::WritePacket { stream: 0, time_base: video },
            Request::ReceivePacket { stream: 0 },
            Request::PrepareAudio { pts: 0, samples: 4608 },
            Request::SendFrame { stream: 1 },
            Request::ReceivePacket { stream: 1 },
            Request::WritePacket { stream: 1, time_base: video },
            Request::ReceivePacket { stream: 1 },
            Request::Convert { pts: 3750 },
            Request::SendFrame { stream: 0 },
            Request::ReceivePacket { stream: 0 },
            Request::WritePacket { stream: 0, time_base: video },
            Request::ReceivePacket { stream: 0 },
            Request::PrepareAudio { pts: 3750, samples: 4608 },
            Request::SendFrame { stream: 1 },
            Request::ReceivePacket { stream: 1 },
            Request::WritePacket { stream: 1, time_base: video },
            Request::ReceivePacket { stream: 1 },
        ]
    );

    world.log.clear();
    assert_eq!(end(&mut writer, &mut world), Status::OK);
    let tail: Vec<Request> =
        world.log.iter().copied().filter(|r| !matches!(r, Request::Release(_))).collect();
    assert_eq!(
        tail,
        vec![
            Request::SendEof { stream: 0 },
            Request::ReceivePacket { stream: 0 },
            Request::WritePacket { stream: 0, time_base: video },
            Request::ReceivePacket { stream: 0 },
            Request::SendEof { stream: 1 },
            Request::ReceivePacket { stream: 1 },
            Request::WritePacket { stream: 1, time_base: video },
            Request::ReceivePacket { stream: 1 },
            Request::WriteTrailer,
        ]
    );
    assert_eq!(world.released.len(), 9);
    assert!(is_pre_recording(&writer));
}

#[test]
fn av1_profile_configuration() {
    let mut writer = FelliniWriter::init(true);
    let mut world = World::new();
    begin(&mut writer, &mut world, "out.mkv");
    let kind = writer.encoder().unwrap();
    assert_eq!(kind.codec(), CodecId::AV1);
    assert_eq!(
        kind.supported_containers(),
        vec![Container::Mkv, Container::Mp4, Container::Webm]
    );
    assert!(!kind.settings().audio_enabled);
    assert_eq!(kind.settings().frame_rate, Rational(24, 1));
    // no audio codec is open: the default frame size
    assert_eq!(kind.audio_frame_size(), 1024);
    assert_eq!(
        kind.encoder().video_config(),
        VideoConfig {
            codec: CodecId::AV1,
            width: 64,
            height: 64,
            time_base: Rational(1, 90_000),
            format: Pixel::YUV420P,
            frame_rate: Rational(24, 1),
            bit_rate: Some(200_000),
            threading: Some(Threading { kind: ThreadingKind::Frame, count: 32 }),
            global_header: false,
        }
    );
    assert_eq!(
        Profile::Av1.audio_config(*kind.settings(), false),
        AudioConfig {
            codec: CodecId::FLAC,
            channel_layout: ChannelLayout::STEREO,
            format: SampleFormat::I32Packed,
            frame_rate: Rational(44_100, 1),
            compression: Some(4),
            time_base: Rational(1, 90_000),
            rate: 44_100,
            max_bit_rate: 128_000,
            global_header: false,
        }
    );
    assert_eq!(
        Profile::Av1.video_options(),
        vec![
            ("crf", "23"),
            ("cpu-used", "8"),
            ("tiles", "4x4"),
            ("row-mt", "1"),
            ("enable-keyframe-filtering", "0")
        ]
    );
    assert_eq!(Profile::Av1.video_codec(), CodecId::AV1);
    assert_eq!(Profile::H264.video_codec(), CodecId::H264);
    assert_eq!(Profile::Av1.audio_codec(), CodecId::FLAC);
}

#[test]
fn frame_rate_of_the_recording_is_the_hosts() {
    let mut writer = FelliniWriter::init(true);
    let mut world = World::new();
    let outcome = writer.write_begin(1280, 720, 30, "out.mp4");
    assert_eq!(world.run(&mut writer, outcome), Status::OK);
    assert_eq!(writer.encoder().unwrap().settings().frame_rate, Rational(30, 1));
    world.log.clear();
    frame(&mut writer, &mut world);
    frame(&mut writer, &mut world);
    assert_eq!(world.log[0], Request::Convert { pts: 0 });
    assert!(world.log.contains(&Request::Convert { pts: 3000 }));
}

#[test]
fn mix_rate_and_speaker_mode() {
    let mut writer = FelliniWriter::init(true);
    assert_eq!(writer.get_audio_mix_rate(), 44_100);
    assert_eq!(writer.get_audio_speaker_mode(), SpeakerMode::STEREO);
    let mut world = World::new();
    begin(&mut writer, &mut world, "out.mkv");
    assert_eq!(writer.get_audio_mix_rate(), 44_100);
}

#[test]
fn library_that_cannot_be_initialised_fails_the_session() {
    let mut writer = FelliniWriter::init(false);
    let mut world = World::new();
    world.fail = Some((Request::InitLibrary, "no codecs"));
    assert_eq!(begin(&mut writer, &mut world, "out.mkv"), Status::FAILED);
    assert_eq!(failure(&writer), Some(&Error::Setup));
    assert_eq!(world.log, vec![Request::InitLibrary]);
    // frames are ignored, without a request
    assert_eq!(writer.write_frame(), Outcome::Return(Status::OK));
    assert_eq!(writer.write_end(), Outcome::Return(Status::FAILED));
    assert_eq!(failure(&writer), Some(&Error::Setup));
    // a new recording resets the session
    world.fail = None;
    assert_eq!(begin(&mut writer, &mut world, "out.mkv"), Status::OK);
    assert!(writer.is_recording());
}

#[test]
fn output_that_cannot_be_opened_is_a_setup_failure() {
    let mut writer = FelliniWriter::init(true);
    let mut world = World::new();
    world.fail = Some((Request::OpenOutput, "Permission denied"));
    assert_eq!(begin(&mut writer, &mut world, "out.mkv"), Status::FAILED);
    assert_eq!(failure(&writer), Some(&Error::Setup));
    assert_eq!(world.count(|r| matches!(r, Request::Release(_))), 0);
}

#[test]
fn partial_allocation_is_released_before_the_failure_is_reported() {
    for completed in 0..11usize {
        let mut writer = FelliniWriter::init(true);
        let mut world = World::new();
        world.fail_allocation = Some(completed);
        assert_eq!(begin(&mut writer, &mut world, "out.mkv"), Status::FAILED);
        let acquired = completed.saturating_sub(2);
        assert_eq!(world.released.len(), acquired);
        assert!(world.live.is_empty(), "leak after {} steps", completed);
        let err = failure(&writer).expect("the session is failed");
        assert_eq!(err.kind(), ErrorKind::ConversionError);
        let expected = match completed {
            0 => "No render device",
            1 => "failed to compile source",
            _ => "failed to create a GPU resource",
        };
        assert_eq!(err.message(), expected);
        assert!(writer.is_idle());
        // nothing was started
        assert_eq!(world.count(|r| matches!(r, Request::Start(_))), 0);
    }
}

#[test]
fn start_failures_are_encoding_errors_and_release_the_handles() {
    for (stage, text) in [
        (StartStage::FindVideoCodec, "Video Codec not found"),
        (StartStage::CreateVideoEncoder, "Could not create encoder context: boom"),
        (StartStage::OpenVideoEncoder, "Could not open video encoder: boom"),
        (StartStage::AddVideoStream, "Could not add video stream: boom"),
        (StartStage::WriteHeader, "Could not write header: boom"),
    ] {
        let mut writer = FelliniWriter::init(true);
        let mut world = World::new();
        let reason = if stage == StartStage::FindVideoCodec { "" } else { "boom" };
        world.fail = Some((Request::Start(stage), reason));
        assert_eq!(begin(&mut writer, &mut world, "out.mkv"), Status::FAILED);
        assert_eq!(failure(&writer), Some(&Error::Encoding(text.to_string())));
        assert_eq!(world.released.len(), 9);
        assert!(world.live.is_empty());
    }
    for (stage, text) in [
        (StartStage::FindAudioCodec, "Audio Codec not found"),
        (StartStage::CreateAudioEncoder, "Could not create audio encoder context: boom"),
        (StartStage::OpenAudioEncoder, "Could not open audio encoder: boom"),
        (StartStage::AddAudioStream, "Could not add audio stream: boom"),
    ] {
        let mut writer = FelliniWriter::init(true);
        writer.select_profile(Profile::H264);
        let mut world = World::new();
        let reason = if stage == StartStage::FindAudioCodec { "" } else { "boom" };
        world.fail = Some((Request::Start(stage), reason));
        assert_eq!(begin(&mut writer, &mut world, "out.mp4"), Status::FAILED);
        assert_eq!(failure(&writer), Some(&Error::Encoding(text.to_string())));
        assert!(world.live.is_empty());
    }
}

#[test]
fn encode_failure_fails_the_session_and_later_frames_are_ignored() {
    let mut writer = FelliniWriter::init(true);
    let mut world = World::new();
    begin(&mut writer, &mut world, "out.mkv");
    frame(&mut writer, &mut world);
    world.fail = Some((Request::SendFrame { stream: 0 }, "Invalid data"));
    assert_eq!(frame(&mut writer, &mut world), Status::FAILED);
    assert_eq!(
        failure(&writer),
        Some(&Error::Encoding("Could not send frame to encoder: Invalid data".to_string()))
    );
    assert!(world.live.is_empty());
    assert_eq!(world.released.len(), 9);

    let asked = world.log.len();
    for _ in 0..3 {
        assert_eq!(writer.write_frame(), Outcome::Return(Status::OK));
    }
    assert_eq!(writer.write_end(), Outcome::Return(Status::FAILED));
    assert_eq!(world.log.len(), asked);
    assert!(writer.is_failed());
    assert_eq!(writer.current_frame(), None);
}

#[test]
fn conversion_failure_fails_the_session() {
    let mut writer = FelliniWriter::init(true);
    let mut world = World::new();
    begin(&mut writer, &mut world, "out.mkv");
    world.fail = Some((Request::Convert { pts: 0 }, "device lost"));
    assert_eq!(frame(&mut writer, &mut world), Status::FAILED);
    assert_eq!(failure(&writer), Some(&Error::ConversionError("device lost".to_string())));
    assert!(world.live.is_empty());
}

#[test]
fn write_failure_fails_the_session() {
    let mut writer = FelliniWriter::init(true);
    let mut world = World::new();
    begin(&mut writer, &mut world, "out.mkv");
    world.fail =
        Some((Request::WritePacket { stream: 0, time_base: Rational(1, 90_000) }, "disk full"));
    assert_eq!(frame(&mut writer, &mut world), Status::FAILED);
    assert_eq!(
        failure(&writer),
        Some(&Error::Encoding("Could not write packet: disk full".to_string()))
    );
}

#[test]
fn trailer_failure_fails_the_session_and_releases_the_handles() {
    let mut writer = FelliniWriter::init(true);
    let mut world = World::new();
    begin(&mut writer, &mut world, "out.mkv");
    frame(&mut writer, &mut world);
    world.fail = Some((Request::WriteTrailer, "disk full"));
    assert_eq!(end(&mut writer, &mut world), Status::FAILED);
    assert_eq!(
        failure(&writer),
        Some(&Error::Encoding("Could not write trailer: disk full".to_string()))
    );
    assert!(world.live.is_empty());
    assert_eq!(world.released.len(), 9);
}

#[test]
fn a_reply_without_a_request_is_refused() {
    let mut writer = FelliniWriter::init(true);
    assert_eq!(writer.resume(Reply::Done), Outcome::Return(Status::FAILED));
    assert!(is_pre_recording(&writer));
}

#[test]
fn an_operation_under_way_takes_no_other() {
    let mut writer = FelliniWriter::init(true);
    let outcome = writer.write_begin(64, 64, 24, "out.mkv");
    assert_eq!(outcome, Outcome::Perform(Request::OpenOutput));
    assert!(!writer.is_idle());
    assert_eq!(writer.write_frame(), Outcome::Return(Status::FAILED));
    assert_eq!(writer.write_end(), Outcome::Return(Status::FAILED));
    assert_eq!(writer.write_begin(64, 64, 24, "out.mkv"), Outcome::Return(Status::FAILED));
    // the operation goes on
    let mut world = World::new();
    let next = writer.resume(Reply::Opened { global_header: false });
    assert_eq!(world.run(&mut writer, next), Status::OK);
    assert!(writer.is_recording());
}

#[test]
fn release_failures_do_not_stop_the_release() {
    let mut writer = FelliniWriter::init(true);
    let mut world = World::new();
    begin(&mut writer, &mut world, "out.mkv");
    let mut outcome = writer.write_end();
    let mut released = Vec::new();
    loop {
        match outcome {
            Outcome::Return(status) => {
                assert_eq!(status, Status::OK);
                break;
            }
            Outcome::Perform(Request::Release(h)) => {
                released.push(h);
                outcome = writer.resume(Reply::Failed("already freed".to_string()));
            }
            Outcome::Perform(r) => {
                let reply = world.answer(r);
                outcome = writer.resume(reply);
            }
        }
    }
    assert_eq!(released.len(), 9);
    assert!(is_pre_recording(&writer));
}

#[test]
fn encoder_new_lays_settings_over_the_profile() {
    let overrides = EncoderSettings {
        frame_rate: Some(Rational(60, 1)),
        time_base: Some(Rational(1, 1000)),
        pixel_format: Some(Pixel::YUVA420P),
        audio_sample_rate: Some(48_000),
    };
    let av1 = Av1Encoder::new(320, 240, "a.webm", overrides).unwrap();
    let s = *av1.settings();
    assert_eq!(s.frame_rate, Rational(60, 1));
    assert_eq!(s.time_base, Rational(1, 1000));
    assert_eq!(s.pixel_format, Pixel::YUVA420P);
    assert_eq!(s.audio_sample_rate, 48_000);
    assert!(!s.audio_enabled);
    assert_eq!(av1.encoder().profile(), Profile::Av1);
    assert_eq!(av1.encoder().container(), Container::Webm);
    assert_eq!(av1.encoder().converter().layout(), Pixel::YUVA420P);
    assert_eq!(av1.encoder().converter().width(), 320);
    assert_eq!(av1.encoder().converter().height(), 240);
    assert!(av1.encoder().is_idle());
    assert!(!av1.encoder().is_started());
    assert!(!av1.encoder().is_closed());

    let h264 = H264Encoder::new(320, 240, "a.mp4", EncoderSettings::default()).unwrap();
    assert!(h264.settings().audio_enabled);
    assert_eq!(h264.encoder().profile(), Profile::H264);
}

#[test]
fn encoder_new_rejections() {
    let none = EncoderSettings::default();
    assert_eq!(
        Av1Encoder::new(64, 64, "a.mov", none).unwrap_err(),
        Error::Validation("Unsupported container for a.mov".to_string())
    );
    assert_eq!(
        H264Encoder::new(64, 64, "a.mkv", none).unwrap_err(),
        Error::Validation("Unsupported container for a.mkv".to_string())
    );
    let bad_rate = EncoderSettings { frame_rate: Some(Rational(0, 1)), ..none };
    assert_eq!(
        Av1Encoder::new(64, 64, "a.mkv", bad_rate).unwrap_err(),
        Error::Validation("Frame rate and time base must be positive".to_string())
    );
    let bad_base = EncoderSettings { time_base: Some(Rational(1, 0)), ..none };
    assert_eq!(
        Av1Encoder::new(64, 64, "a.mkv", bad_base).unwrap_err(),
        Error::Validation("Frame rate and time base must be positive".to_string())
    );
    let bad_audio = EncoderSettings { audio_sample_rate: Some(u32::MAX), ..none };
    assert_eq!(
        Av1Encoder::new(64, 64, "a.mkv", bad_audio).unwrap_err(),
        Error::Validation("Audio sample rate is out of range".to_string())
    );
    let bad_pixel = EncoderSettings { pixel_format: Some(Pixel::NV12), ..none };
    assert_eq!(
        Av1Encoder::new(64, 64, "a.mkv", bad_pixel).unwrap_err(),
        Error::ConversionError("Unsupported Conversion RGBA8 : NV12".to_string())
    );
    // the container is checked first
    let both = EncoderSettings { pixel_format: Some(Pixel::NV12), ..bad_rate };
    assert_eq!(
        Av1Encoder::new(64, 64, "a.avi", both).unwrap_err().kind(),
        ErrorKind::Validation
    );
    assert!(EncoderKind::new(Profile::Av1, 64, 64, "a.mkv", none).is_ok());
    assert!(EncoderKind::new(Profile::H264, 64, 64, "a.mkv", none).is_err());
}

#[test]
fn encoder_refuses_frames_before_it_has_started() {
    let mut av1 = Av1Encoder::new(64, 64, "a.mkv", EncoderSettings::default()).unwrap();
    assert_eq!(
        av1.push_video_frame(0),
        Step::Abort(Error::Encoding("Encoder not initialized".to_string()))
    );
    assert_eq!(
        av1.flush(0),
        Step::Abort(Error::Encoding("Encoder not initialized".to_string()))
    );
    assert_eq!(
        av1.flush(1),
        Step::Abort(Error::Encoding("Encoder not initialized".to_string()))
    );
    // audio is disabled in this profile: an audio frame is skipped
    assert_eq!(av1.push_audio_frame(0), Step::Complete);
    // starting before opening is out of order
    assert_eq!(
        av1.start(),
        Step::Abort(Error::Encoding("Encoder is not ready for this operation".to_string()))
    );
    assert!(av1.encoder().is_idle());

    let mut h264 = H264Encoder::new(64, 64, "a.mp4", EncoderSettings::default()).unwrap();
    assert_eq!(
        h264.push_audio_frame(0),
        Step::Abort(Error::Encoding("audio Encoder not initialized".to_string()))
    );
}

fn started(profile: Profile, path: &str) -> EncoderKind {
    let mut kind = EncoderKind::new(profile, 64, 64, path, EncoderSettings::default()).unwrap();
    let mut handle = 0;
    let mut step = kind.open();
    loop {
        let reply = match step {
            Step::Perform(Request::OpenOutput) => Reply::Opened { global_header: false },
            Step::Perform(Request::Allocate(Allocation::Device))
            | Step::Perform(Request::Allocate(Allocation::Kernel)) => Reply::Done,
            Step::Perform(Request::Allocate(_)) => {
                handle += 1;
                Reply::Handle(handle)
            }
            Step::Complete => break,
            other => panic!("unexpected step {:?}", other),
        };
        step = kind.step(reply);
    }
    let mut step = kind.start();
    loop {
        match step {
            Step::Perform(Request::Start(_)) => step = kind.step(Reply::Done),
            Step::Complete => break,
            other => panic!("unexpected step {:?}", other),
        }
    }
    kind
}

#[test]
fn encoder_flush_drains_the_stream_it_is_asked_for() {
    let mut kind = started(Profile::H264, "a.mp4");
    assert!(kind.encoder().is_started());
    // an audio codec that says nothing of its frames gets the default size
    assert_eq!(kind.audio_frame_size(), 1024);
    let (mut h264, time_base) = match kind {
        EncoderKind::H264(h) => (h, Rational(1, 90_000)),
        EncoderKind::Av1(_) => panic!("wrong profile"),
    };
    assert_eq!(h264.flush(1), Step::Perform(Request::ReceivePacket { stream: 1 }));
    assert_eq!(
        h264.step(Reply::Packet),
        Step::Perform(Request::WritePacket { stream: 1, time_base })
    );
    assert_eq!(h264.step(Reply::Done), Step::Perform(Request::ReceivePacket { stream: 1 }));
    assert_eq!(h264.step(Reply::Empty), Step::Complete);
    assert_eq!(h264.flush(0), Step::Perform(Request::ReceivePacket { stream: 0 }));
    assert_eq!(
        h264.flush(0),
        Step::Abort(Error::Encoding("Encoder is in the middle of an operation".to_string()))
    );
    assert_eq!(h264.step(Reply::Empty), Step::Complete);
    kind = EncoderKind::H264(h264);
    assert!(kind.encoder().is_idle());
}

/// Runs one operation of an encoder against codecs of which the one for
/// `busy_stream` is busy `busy` times before it accepts a frame, and
/// returns the requests that were made.
fn run_frame(kind: &mut EncoderKind, mut step: Step, busy_stream: usize, busy: u32) -> Vec<Request> {
    let mut asked = Vec::new();
    let mut busy_left = busy;
    let mut ready = 0;
    loop {
        let request = match step {
            Step::Perform(request) => request,
            Step::Complete => return asked,
            Step::Abort(e) => panic!("{:?}", e),
        };
        asked.push(request);
        let reply = match request {
            Request::Convert { .. } | Request::PrepareAudio { .. } => Reply::Done,
            Request::SendFrame { stream } if stream == busy_stream && busy_left > 0 => {
                busy_left -= 1;
                Reply::Busy
            }
            Request::SendFrame { .. } => {
                ready += 1;
                Reply::Done
            }
            Request::ReceivePacket { .. } if ready > 0 => {
                ready -= 1;
                Reply::Packet
            }
            Request::ReceivePacket { .. } => Reply::Empty,
            Request::WritePacket { .. } => Reply::Done,
            other => panic!("unexpected request {:?}", other),
        };
        step = kind.step(reply);
    }
}

#[test]
fn encoder_offers_a_video_frame_once_more_than_the_codec_is_busy() {
    for profile in [Profile::Av1, Profile::H264] {
        let path = if profile == Profile::Av1 { "a.mkv" } else { "a.mp4" };
        for n in [0u32, 1, 2, 7, 50] {
            let mut kind = started(profile, path);
            let first = kind.push_video_frame(3);
            let asked = run_frame(&mut kind, first, 0, n);
            assert_eq!(asked[0], Request::Convert { pts: 3 * 3750 });
            let converts = asked.iter().filter(|r| matches!(r, Request::Convert { .. })).count();
            let sends = asked.iter().filter(|r| **r == Request::SendFrame { stream: 0 }).count();
            let pulls =
                asked.iter().filter(|r| **r == Request::ReceivePacket { stream: 0 }).count();
            let writes = asked.iter().filter(|r| matches!(r, Request::WritePacket { .. })).count();
            assert_eq!(converts, 1);
            assert_eq!(sends as u32, n + 1);
            assert_eq!(pulls as u32, n + 2);
            assert_eq!(writes, 1);
            // a pull follows every answer of the codec
            for (i, r) in asked.iter().enumerate() {
                if *r == (Request::SendFrame { stream: 0 }) {
                    assert_eq!(asked[i + 1], Request::ReceivePacket { stream: 0 });
                }
            }
            assert_eq!(asked.last(), Some(&Request::ReceivePacket { stream: 0 }));
            assert!(kind.encoder().is_idle());
        }
    }
}

#[test]
fn encoder_offers_an_audio_frame_once_more_than_the_codec_is_busy() {
    for n in [0u32, 1, 4, 20] {
        let mut kind = started(Profile::H264, "a.mp4");
        let first = kind.push_audio_frame(3);
        let asked = run_frame(&mut kind, first, 1, n);
        // stamped as the video frame of the same index
        assert_eq!(asked[0], Request::PrepareAudio { pts: 3 * 3750, samples: 1024 });
        let prepared =
            asked.iter().filter(|r| matches!(r, Request::PrepareAudio { .. })).count();
        let sends = asked.iter().filter(|r| **r == Request::SendFrame { stream: 1 }).count();
        let pulls = asked.iter().filter(|r| **r == Request::ReceivePacket { stream: 1 }).count();
        assert_eq!(prepared, 1);
        assert_eq!(sends as u32, n + 1);
        assert_eq!(pulls as u32, n + 2);
        assert!(asked.iter().all(|r| !matches!(
            r,
            Request::SendFrame { stream: 0 } | Request::ReceivePacket { stream: 0 }
        )));
        assert!(kind.encoder().is_idle());
    }
}

#[test]
fn encoder_frame_index_beyond_the_limit() {
    let mut kind = started(Profile::Av1, "a.mkv");
    if (usize::MAX as u128) > (i64::MAX as u128) {
        assert_eq!(kind.push_video_frame(usize::MAX), Step::Abort(Error::LimitReached));
        assert_eq!(Error::LimitReached.kind(), ErrorKind::LimitReached);
        assert_eq!(Error::LimitReached.message(), "");
    }
    assert!(kind.encoder().is_idle());
    // the greatest index the timestamp arithmetic takes
    let step = kind.push_video_frame(i64::MAX as usize);
    assert_eq!(step, Step::Perform(Request::Convert { pts: i64::MAX }));
}

#[test]
fn encoder_finish_closes_and_takes_no_more_frames() {
    let mut kind = started(Profile::Av1, "a.mkv");
    let mut step = kind.finish();
    let mut asked = Vec::new();
    loop {
        match step {
            Step::Perform(r) => {
                asked.push(r);
                let reply = match r {
                    Request::ReceivePacket { .. } => Reply::Exhausted,
                    _ => Reply::Done,
                };
                step = kind.step(reply);
            }
            Step::Complete => break,
            Step::Abort(e) => panic!("{:?}", e),
        }
    }
    assert_eq!(
        asked,
        vec![
            Request::SendEof { stream: 0 },
            Request::ReceivePacket { stream: 0 },
            Request::WriteTrailer
        ]
    );
    assert!(kind.encoder().is_closed());
    let refused =
        Step::Abort(Error::Encoding("Encoder is not ready for this operation".to_string()));
    assert_eq!(kind.push_video_frame(0), refused);
    assert_eq!(kind.finish(), refused);
    // nothing is drained into a finalised container
    let mut av1 = match kind {
        EncoderKind::Av1(av1) => av1,
        EncoderKind::H264(_) => panic!("wrong profile"),
    };
    assert_eq!(av1.flush(0), refused);
    assert_eq!(av1.flush(1), refused);
    assert_eq!(av1.teardown().len(), 9);
    assert_eq!(av1.teardown().len(), 0);
}

#[test]
fn encoder_that_never_started_finishes_with_the_trailer_alone() {
    let mut kind =
        EncoderKind::new(Profile::Av1, 64, 64, "a.mkv", EncoderSettings::default()).unwrap();
    assert_eq!(kind.finish(), Step::Perform(Request::WriteTrailer));
    assert_eq!(kind.step(Reply::Done), Step::Complete);
    assert!(kind.encoder().is_closed());
}

#[test]
fn error_kinds_and_messages() {
    assert_eq!(Error::Setup.kind(), ErrorKind::Setup);
    assert_eq!(Error::IoError.kind(), ErrorKind::IoError);
    assert_eq!(Error::LimitReached.kind(), ErrorKind::LimitReached);
    assert_eq!(Error::Validation("v".to_string()).kind(), ErrorKind::Validation);
    assert_eq!(Error::Encoding("e".to_string()).kind(), ErrorKind::Encoding);
    assert_eq!(Error::ConversionError("c".to_string()).kind(), ErrorKind::ConversionError);
    assert_eq!(Error::Setup.message(), "");
    assert_eq!(Error::IoError.message(), "");
    assert_eq!(Error::Encoding("e".to_string()).message(), "e");
    assert_eq!(Error::encoding("a: ", "b"), Error::Encoding("a: b".to_string()));
    assert_eq!(Error::validation("a: ", "b"), Error::Validation("a: b".to_string()));
    assert_eq!(Error::conversion("a: ", "b"), Error::ConversionError("a: b".to_string()));
}

#[test]
fn task_and_activity_are_idle_between_operations() {
    let mut writer = FelliniWriter::init(true);
    let mut world = World::new();
    begin(&mut writer, &mut world, "out.mkv");
    assert!(writer.is_idle());
    assert!(writer.encoder().unwrap().encoder().is_idle());
    let outcome = writer.write_frame();
    assert_eq!(outcome, Outcome::Perform(Request::Convert { pts: 0 }));
    assert!(!writer.is_idle());
    assert_eq!(world.run(&mut writer, outcome), Status::OK);
    assert!(writer.is_idle());
}
