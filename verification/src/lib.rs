//! Decision logic of a real-time movie writer: exact timestamp arithmetic,
//! encoder settings, the bookkeeping of GPU conversion resources, the codec
//! push/pull protocol, and the recording session state machine.
//!
//! The library performs no I/O. Every operation that needs the GPU, a codec or
//! the container file is expressed as a request handed to the caller, whose
//! reply drives the next transition.

pub mod audio;
pub mod av1_encoder;
pub mod container;
pub mod conversion;
pub mod course;
pub mod driver;
pub mod encoder;
pub mod error;
pub mod h264_encoder;
pub mod kind;
pub mod profile;
pub mod protocol;
pub mod retry;
pub mod settings;
pub mod timing;
pub mod writer;

pub use audio::{audio_array_size, godot_speaker_mode_to_ffmpeg, ChannelLayout, SpeakerMode};
pub use av1_encoder::Av1Encoder;
pub use container::Container;
pub use conversion::{Channels, ConversionContext, Format, Frame, GpuCommand};
pub use driver::CodecDriver;
pub use encoder::Encoder;
pub use error::{Error, ErrorKind};
pub use h264_encoder::H264Encoder;
pub use kind::EncoderKind;
pub use profile::Profile;
pub use protocol::{Allocation, CodecId, Reply, Request, Resource, StartStage, Step};
pub use settings::{ConcreteEncoderSettings, EncoderSettings, Pixel, Rational};
pub use timing::frame_to_pts;
pub use writer::{CommonSettings, FelliniState, FelliniWriter, Outcome, Status, Task};
