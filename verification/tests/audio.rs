use fellini::audio::{audio_frame_size, checked_audio_array_size, AudioCodec};
use fellini::{audio_array_size, godot_speaker_mode_to_ffmpeg, ChannelLayout, SpeakerMode};

#[test]
fn audio_block_size_by_speaker_mode() {
    assert_eq!(audio_array_size(SpeakerMode::STEREO, 1024), 1024 * 4 * 2);
    assert_eq!(audio_array_size(SpeakerMode::SURROUND_31, 1024), 1024 * 4 * 4);
    assert_eq!(audio_array_size(SpeakerMode::SURROUND_51, 1024), 1024 * 4 * 6);
    assert_eq!(audio_array_size(SpeakerMode::SURROUND_71, 1024), 1024 * 4 * 8);
    assert_eq!(audio_array_size(SpeakerMode::OTHER, 1024), 1024 * 4 * 2);
}

#[test]
fn audio_block_size_of_no_samples_is_zero() {
    assert_eq!(audio_array_size(SpeakerMode::SURROUND_71, 0), 0);
}

#[test]
fn audio_block_size_of_one_sample() {
    assert_eq!(audio_array_size(SpeakerMode::STEREO, 1), 8);
    assert_eq!(audio_array_size(SpeakerMode::SURROUND_51, 1), 24);
}

#[test]
fn checked_audio_block_size_agrees_where_it_fits() {
    assert_eq!(checked_audio_array_size(SpeakerMode::STEREO, 1024), Some(8192));
    assert_eq!(checked_audio_array_size(SpeakerMode::SURROUND_71, 4608), Some(147_456));
    let widest = u32::MAX as u64 * 4 * 8;
    let expected = if widest <= usize::MAX as u64 { Some(widest as usize) } else { None };
    assert_eq!(checked_audio_array_size(SpeakerMode::SURROUND_71, u32::MAX), expected);
}

#[test]
fn speaker_modes_map_to_layouts_with_as_many_channels() {
    assert_eq!(godot_speaker_mode_to_ffmpeg(SpeakerMode::STEREO), ChannelLayout::STEREO);
    assert_eq!(godot_speaker_mode_to_ffmpeg(SpeakerMode::SURROUND_31), ChannelLayout::QUAD);
    assert_eq!(godot_speaker_mode_to_ffmpeg(SpeakerMode::SURROUND_51), ChannelLayout::HEXAGONAL);
    assert_eq!(godot_speaker_mode_to_ffmpeg(SpeakerMode::SURROUND_71), ChannelLayout::OCTAGONAL);
    assert_eq!(godot_speaker_mode_to_ffmpeg(SpeakerMode::OTHER), ChannelLayout::MONO);

    for mode in [
        SpeakerMode::STEREO,
        SpeakerMode::SURROUND_31,
        SpeakerMode::SURROUND_51,
        SpeakerMode::SURROUND_71,
    ] {
        let channels = godot_speaker_mode_to_ffmpeg(mode).channels();
        assert_eq!(audio_array_size(mode, 1), 4 * channels);
    }
}

#[test]
fn channel_counts() {
    assert_eq!(ChannelLayout::MONO.channels(), 1);
    assert_eq!(ChannelLayout::STEREO.channels(), 2);
    assert_eq!(ChannelLayout::QUAD.channels(), 4);
    assert_eq!(ChannelLayout::HEXAGONAL.channels(), 6);
    assert_eq!(ChannelLayout::OCTAGONAL.channels(), 8);
}

#[test]
fn audio_frame_size_defaults_to_1024() {
    assert_eq!(audio_frame_size(None), 1024);
    let variable = AudioCodec { frame_size: 0, variable_frame_size: true };
    assert_eq!(audio_frame_size(Some(variable)), 1024);
    let variable = AudioCodec { frame_size: 4608, variable_frame_size: true };
    assert_eq!(audio_frame_size(Some(variable)), 1024);
}

#[test]
fn audio_frame_size_is_the_codecs_where_it_is_fixed() {
    let fixed = AudioCodec { frame_size: 4608, variable_frame_size: false };
    assert_eq!(audio_frame_size(Some(fixed)), 4608);
    let fixed = AudioCodec { frame_size: 960, variable_frame_size: false };
    assert_eq!(audio_frame_size(Some(fixed)), 960);
}
