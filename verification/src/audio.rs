//! The layout of the host's audio blocks.

use vstd::prelude::*;

verus! {

/// The speaker arrangements of the host's audio output.
#[allow(non_camel_case_types)]
#[derive(Clone, Copy, Debug, PartialEq, Eq, Structural)]
pub enum SpeakerMode {
    STEREO,
    SURROUND_31,
    SURROUND_51,
    SURROUND_71,
    /// An arrangement that the host may add and this library does not know.
    OTHER,
}

/// The channel layouts an audio codec may be opened with.
#[allow(non_camel_case_types)]
#[derive(Clone, Copy, Debug, PartialEq, Eq, Structural)]
pub enum ChannelLayout {
    MONO,
    STEREO,
    QUAD,
    HEXAGONAL,
    OCTAGONAL,
}

impl ChannelLayout {
    /// The number of channels in the layout.
    pub open spec fn spec_channels(&self) -> nat {
        match *self {
            ChannelLayout::MONO => 1,
            ChannelLayout::STEREO => 2,
            ChannelLayout::QUAD => 4,
            ChannelLayout::HEXAGONAL => 6,
            ChannelLayout::OCTAGONAL => 8,
        }
    }

    /// The number of channels in the layout.
    pub fn channels(&self) -> (n: usize)
        ensures
            n == self.spec_channels(),
    {
        match self {
            ChannelLayout::MONO => 1,
            ChannelLayout::STEREO => 2,
            ChannelLayout::QUAD => 4,
            ChannelLayout::HEXAGONAL => 6,
            ChannelLayout::OCTAGONAL => 8,
        }
    }
}

/// The number of interleaved channels in a block that the host delivers for
/// `mode`; an arrangement that is not known is taken to be stereo.
pub open spec fn block_channels(mode: SpeakerMode) -> nat {
    match mode {
        SpeakerMode::STEREO => 2,
        SpeakerMode::SURROUND_31 => 4,
        SpeakerMode::SURROUND_51 => 6,
        SpeakerMode::SURROUND_71 => 8,
        SpeakerMode::OTHER => 2,
    }
}

/// The width of one sample of the host's audio blocks, in bytes.
pub const SAMPLE_BYTES: usize = 4;

/// The size in bytes of one audio block of `sample_ct` samples per channel:
/// the host delivers interleaved samples of 32 bits each.
pub fn audio_array_size(channel_layout: SpeakerMode, sample_ct: u32) -> (size: usize)
    requires
        sample_ct * 4 * block_channels(channel_layout) <= usize::MAX,
    ensures
        size == sample_ct * 4 * block_channels(channel_layout),
{
    let channel_ct: usize = match channel_layout {
        SpeakerMode::STEREO => 2,
        SpeakerMode::SURROUND_31 => 4,
        SpeakerMode::SURROUND_51 => 6,
        SpeakerMode::SURROUND_71 => 8,
        SpeakerMode::OTHER => 2,
    };
    assert(sample_ct * 4 * channel_ct == (sample_ct * 4) * channel_ct) by (nonlinear_arith);
    assert(sample_ct * 4 <= sample_ct * 4 * channel_ct) by (nonlinear_arith)
        requires
            channel_ct >= 1,
    ;
    sample_ct as usize * SAMPLE_BYTES * channel_ct
}

/// The size in bytes of one audio block of `sample_ct` samples per channel,
/// or `None` where that size does not fit the machine's addresses.
pub fn checked_audio_array_size(channel_layout: SpeakerMode, sample_ct: u32) -> (size: Option<
    usize,
>)
    ensures
        match size {
            Some(n) => n == sample_ct * 4 * block_channels(channel_layout),
            None => sample_ct * 4 * block_channels(channel_layout) > usize::MAX,
        },
{
    let channel_ct: u64 = match channel_layout {
        SpeakerMode::STEREO => 2,
        SpeakerMode::SURROUND_31 => 4,
        SpeakerMode::SURROUND_51 => 6,
        SpeakerMode::SURROUND_71 => 8,
        SpeakerMode::OTHER => 2,
    };
    let wide: u64 = sample_ct as u64 * 4 * channel_ct;
    assert(sample_ct * 4 * channel_ct == (sample_ct * 4) * channel_ct) by (nonlinear_arith);
    if wide <= usize::MAX as u64 {
        Some(audio_array_size(channel_layout, sample_ct))
    } else {
        None
    }
}

/// The codec channel layout that stands for a host speaker arrangement.
pub open spec fn layout_of(mode: SpeakerMode) -> ChannelLayout {
    match mode {
        SpeakerMode::STEREO => ChannelLayout::STEREO,
        SpeakerMode::SURROUND_31 => ChannelLayout::QUAD,
        SpeakerMode::SURROUND_51 => ChannelLayout::HEXAGONAL,
        SpeakerMode::SURROUND_71 => ChannelLayout::OCTAGONAL,
        SpeakerMode::OTHER => ChannelLayout::MONO,
    }
}

/// Maps the host's speaker arrangement to the codec's channel layout with
/// the same number of channels; an arrangement that is not known maps to
/// mono.
pub fn godot_speaker_mode_to_ffmpeg(channel_layout: SpeakerMode) -> (layout: ChannelLayout)
    ensures
        layout == layout_of(channel_layout),
        channel_layout != SpeakerMode::OTHER ==> layout.spec_channels() == block_channels(
            channel_layout,
        ),
{
    match channel_layout {
        SpeakerMode::STEREO => ChannelLayout::STEREO,
        SpeakerMode::SURROUND_31 => ChannelLayout::QUAD,
        SpeakerMode::SURROUND_51 => ChannelLayout::HEXAGONAL,
        SpeakerMode::SURROUND_71 => ChannelLayout::OCTAGONAL,
        SpeakerMode::OTHER => ChannelLayout::MONO,
    }
}

/// The number of samples per channel in an audio frame when the codec does
/// not fix it.
pub const DEFAULT_AUDIO_FRAME_SIZE: u32 = 1024;

/// What an opened audio codec says of the frames it takes.
#[derive(Clone, Copy, Debug, PartialEq, Eq, Structural)]
pub struct AudioCodec {
    /// The number of samples per channel in each frame.
    pub frame_size: u32,
    /// The codec takes frames of any size.
    pub variable_frame_size: bool,
}

/// The number of samples per channel that callers must deliver per frame:
/// the codec's frame size, or the default where no codec is open or the
/// codec takes frames of any size.
pub open spec fn spec_audio_frame_size(codec: Option<AudioCodec>) -> u32 {
    match codec {
        Some(c) => if c.variable_frame_size {
            DEFAULT_AUDIO_FRAME_SIZE
        } else {
            c.frame_size
        },
        None => DEFAULT_AUDIO_FRAME_SIZE,
    }
}

/// The number of samples per channel that callers must deliver per frame.
pub fn audio_frame_size(codec: Option<AudioCodec>) -> (size: u32)
    ensures
        size == spec_audio_frame_size(codec),
{
    match codec {
        Some(c) => if c.variable_frame_size {
            DEFAULT_AUDIO_FRAME_SIZE
        } else {
            c.frame_size
        },
        None => DEFAULT_AUDIO_FRAME_SIZE,
    }
}

} // verus!
