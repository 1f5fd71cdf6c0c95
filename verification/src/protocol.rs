//! The exchange between the pipeline and the code that performs its outside
//! work. A transition hands out a [`Request`]; the caller performs it and
//! answers with a [`Reply`], which drives the next transition.

use crate::error::{Error, ErrorKind};
use crate::settings::Rational;
use vstd::prelude::*;

verus! {

/// The codecs a profile may bind.
#[allow(non_camel_case_types)]
#[derive(Clone, Copy, Debug, PartialEq, Eq, Structural)]
pub enum CodecId {
    H264,
    AV1,
    FLAC,
}

/// The index of the video stream in the container.
pub const VIDEO_STREAM: usize = 0;

/// The index of the audio stream in the container.
pub const AUDIO_STREAM: usize = 1;

/// The GPU objects a conversion context owns, in the order it acquires them.
#[derive(Clone, Copy, Debug, PartialEq, Eq, Structural)]
pub enum Resource {
    Shader,
    Pipeline,
    Sampler,
    Scratch,
    Luma,
    ChromaU,
    ChromaV,
    Alpha,
    Uniforms,
}

/// The formats of a texture's texels.
#[allow(non_camel_case_types)]
#[derive(Clone, Copy, Debug, PartialEq, Eq, Structural)]
pub enum TextureFormat {
    /// One byte per texel.
    R8_UNORM,
    /// Four bytes per texel: red, green, blue, alpha.
    R8G8B8A8_UNORM,
}

/// What a texture is used for.
#[derive(Clone, Copy, Debug, PartialEq, Eq, Structural)]
pub struct TextureUsage {
    /// The kernel samples the texture.
    pub sampling: bool,
    /// The kernel stores into the texture.
    pub storage: bool,
    /// The texture is updated from the CPU.
    pub can_update: bool,
    /// The texture is read back to the CPU.
    pub can_copy_from: bool,
}

/// How a resource is bound to the kernel.
#[derive(Clone, Copy, Debug, PartialEq, Eq, Structural)]
pub enum UniformKind {
    Sampler,
    /// A texture that the kernel samples.
    Texture,
    /// A texture that the kernel stores into.
    Image,
}

/// How a sampler picks a texel.
#[derive(Clone, Copy, Debug, PartialEq, Eq, Structural)]
pub enum Filter {
    Nearest,
    Linear,
}

/// One step in the construction of a conversion context.
#[derive(Clone, Copy, Debug, PartialEq, Eq, Structural)]
pub enum Allocation {
    /// Create a compute-capable rendering device.
    Device,
    /// Compile the conversion kernel.
    Kernel,
    /// Create the shader from the compiled kernel.
    Shader,
    /// Create the compute pipeline for `shader`.
    Pipeline { shader: u64 },
    /// Create a sampler with the given filter, bound at `binding`.
    Sampler { filter: Filter, binding: i32 },
    /// Create the texture `texture` of `width` by `height` texels, bound at
    /// `binding` in the way `uniform` says. Where `view` names a format, the
    /// texture is viewed in that format.
    Texture {
        texture: Resource,
        format: TextureFormat,
        view: Option<TextureFormat>,
        usage: TextureUsage,
        uniform: UniformKind,
        width: u32,
        height: u32,
        binding: i32,
    },
    /// Bind the textures, in the order of their creation, and then the
    /// sampler to `shader` as uniform set `set`.
    Uniforms { shader: u64, set: u32 },
}

/// The stages in which a profile opens its codecs and the container.
#[derive(Clone, Copy, Debug, PartialEq, Eq, Structural)]
pub enum StartStage {
    FindAudioCodec,
    CreateAudioEncoder,
    FindVideoCodec,
    CreateVideoEncoder,
    OpenVideoEncoder,
    OpenAudioEncoder,
    AddVideoStream,
    AddAudioStream,
    WriteHeader,
}

/// Outside work that the caller must perform before the pipeline can go on.
#[derive(Clone, Copy, Debug, PartialEq, Eq, Structural)]
pub enum Request {
    /// Initialise the codec library for this process.
    InitLibrary,
    /// Open the container at the session's path.
    OpenOutput,
    /// Perform one step of the conversion context's construction.
    Allocate(Allocation),
    /// Release one GPU handle.
    Release(u64),
    /// Perform one stage of the profile's start.
    Start(StartStage),
    /// Convert the image into a frame stamped `pts`.
    Convert { pts: i64 },
    /// Fill an audio frame of `samples` samples from the host's block and
    /// stamp it `pts`.
    PrepareAudio { pts: i64, samples: u32 },
    /// Offer the prepared frame to the codec of `stream`.
    SendFrame { stream: usize },
    /// Signal the end of input to the codec of `stream`.
    SendEof { stream: usize },
    /// Pull one packet from the codec of `stream`.
    ReceivePacket { stream: usize },
    /// Tag the packet just received with `stream`, rescale its timestamps
    /// from `time_base` to the stream's own time base, and write it.
    WritePacket { stream: usize, time_base: Rational },
    /// Finalise the container.
    WriteTrailer,
}

/// The outcome of a [`Request`].
#[derive(Debug, PartialEq, Eq)]
pub enum Reply {
    /// The work succeeded.
    Done,
    /// The container was opened; `global_header` tells whether it wants the
    /// codec configuration in its header.
    Opened { global_header: bool },
    /// The allocation succeeded and yielded this handle.
    Handle(u64),
    /// The audio encoder was opened. It takes `frame_size` samples per frame,
    /// unless `variable_frame_size` says it takes any number.
    AudioOpened { frame_size: u32, variable_frame_size: bool },
    /// The codec takes no input until its output has been pulled.
    Busy,
    /// A packet was received.
    Packet,
    /// No packet is ready.
    Empty,
    /// The codec will produce no further packet.
    Exhausted,
    /// The work failed, for the reason given.
    Failed(String),
}

/// A [`Reply`] as a mathematical value: the text of a failure is a sequence
/// of characters.
pub enum ReplyView {
    Done,
    Opened { global_header: bool },
    Handle(u64),
    AudioOpened { frame_size: u32, variable_frame_size: bool },
    Busy,
    Packet,
    Empty,
    Exhausted,
    Failed(Seq<char>),
}

impl View for Reply {
    type V = ReplyView;

    open spec fn view(&self) -> ReplyView {
        match *self {
            Reply::Done => ReplyView::Done,
            Reply::Opened { global_header } => ReplyView::Opened { global_header },
            Reply::Handle(h) => ReplyView::Handle(h),
            Reply::AudioOpened { frame_size, variable_frame_size } => ReplyView::AudioOpened {
                frame_size,
                variable_frame_size,
            },
            Reply::Busy => ReplyView::Busy,
            Reply::Packet => ReplyView::Packet,
            Reply::Empty => ReplyView::Empty,
            Reply::Exhausted => ReplyView::Exhausted,
            Reply::Failed(m) => ReplyView::Failed(m@),
        }
    }
}

/// What a transition of the pipeline asks of its caller.
#[derive(Debug, PartialEq, Eq)]
pub enum Step {
    /// Perform the request and hand its reply to the next transition.
    Perform(Request),
    /// The operation is complete.
    Complete,
    /// The operation failed.
    Abort(Error),
}

/// A [`Step`] as a mathematical value: an error is its kind and its message.
pub enum StepView {
    Perform(Request),
    Complete,
    Abort(ErrorKind, Seq<char>),
}

impl View for Step {
    type V = StepView;

    open spec fn view(&self) -> StepView {
        match *self {
            Step::Perform(r) => StepView::Perform(r),
            Step::Complete => StepView::Complete,
            Step::Abort(e) => StepView::Abort(e.spec_kind(), e.detail()),
        }
    }
}

/// The step that aborts with an encoding failure whose message is `context`
/// followed by `detail`.
pub open spec fn encoding_abort(context: Seq<char>, detail: Seq<char>) -> StepView {
    StepView::Abort(ErrorKind::Encoding, context + detail)
}

} // verus!
