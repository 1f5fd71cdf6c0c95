//! Encoder settings: the per-profile defaults and the overrides a caller may
//! lay over them.

use crate::timing::{
    clamp_i64,
    frame_to_pts,
    lemma_pts_origin,
    lemma_pts_strictly_increasing,
    pts_of,
};
use vstd::prelude::*;

verus! {

/// A rational number: numerator, then denominator.
#[derive(Clone, Copy, Debug, PartialEq, Eq, Structural)]
pub struct Rational(pub i32, pub i32);

impl Rational {
    /// Both parts are positive.
    pub open spec fn positive(&self) -> bool {
        self.0 > 0 && self.1 > 0
    }

    /// Whether both parts are positive.
    pub fn is_positive(&self) -> (b: bool)
        ensures
            b == self.positive(),
    {
        self.0 > 0 && self.1 > 0
    }
}

/// The planar or packed layouts a frame may be encoded in.
#[allow(non_camel_case_types)]
#[derive(Clone, Copy, Debug, PartialEq, Eq, Structural)]
pub enum Pixel {
    YUV420P,
    YUVA420P,
    YUV422P,
    YUV444P,
    NV12,
    RGB24,
    RGBA,
}

impl Pixel {
    /// The layout stores full-resolution luma and half-resolution chroma in
    /// separate planes, the only family a conversion kernel exists for.
    pub open spec fn spec_is_planar_420(&self) -> bool {
        *self == Pixel::YUV420P || *self == Pixel::YUVA420P
    }

    /// Whether the layout is one of the 4:2:0 planar layouts.
    #[verifier::when_used_as_spec(spec_is_planar_420)]
    pub fn is_planar_420(&self) -> (b: bool)
        ensures
            b == self.spec_is_planar_420(),
    {
        match self {
            Pixel::YUV420P => true,
            Pixel::YUVA420P => true,
            _ => false,
        }
    }

    /// The layout carries an alpha plane.
    pub open spec fn spec_has_alpha(&self) -> bool {
        *self == Pixel::YUVA420P || *self == Pixel::RGBA
    }

    /// Whether the layout carries an alpha plane.
    #[verifier::when_used_as_spec(spec_has_alpha)]
    pub fn has_alpha(&self) -> (b: bool)
        ensures
            b == self.spec_has_alpha(),
    {
        match self {
            Pixel::YUVA420P => true,
            Pixel::RGBA => true,
            _ => false,
        }
    }

    /// The name of the layout, as used in messages.
    pub fn name(&self) -> (n: &'static str)
        ensures
            n@ == self.spec_name(),
    {
        match self {
            Pixel::YUV420P => "YUV420P",
            Pixel::YUVA420P => "YUVA420P",
            Pixel::YUV422P => "YUV422P",
            Pixel::YUV444P => "YUV444P",
            Pixel::NV12 => "NV12",
            Pixel::RGB24 => "RGB24",
            Pixel::RGBA => "RGBA",
        }
    }

    /// The name of the layout.
    pub open spec fn spec_name(&self) -> Seq<char> {
        match *self {
            Pixel::YUV420P => "YUV420P"@,
            Pixel::YUVA420P => "YUVA420P"@,
            Pixel::YUV422P => "YUV422P"@,
            Pixel::YUV444P => "YUV444P"@,
            Pixel::NV12 => "NV12"@,
            Pixel::RGB24 => "RGB24"@,
            Pixel::RGBA => "RGBA"@,
        }
    }
}

/// The settings an encoder runs with. They are fixed once it has started.
#[derive(Clone, Copy, Debug, PartialEq, Eq, Structural)]
pub struct ConcreteEncoderSettings {
    /// Frame rate in frames per second.
    pub frame_rate: Rational,
    /// The duration of one tick in seconds; timestamps count ticks.
    pub time_base: Rational,
    /// The layout that incoming frames are converted to.
    pub pixel_format: Pixel,
    pub audio_sample_rate: u32,
    pub audio_enabled: bool,
}

/// Overrides for [`ConcreteEncoderSettings`]; an absent field keeps the
/// profile's default.
#[derive(Clone, Copy, Debug, PartialEq, Eq, Structural)]
pub struct EncoderSettings {
    pub frame_rate: Option<Rational>,
    pub time_base: Option<Rational>,
    pub pixel_format: Option<Pixel>,
    pub audio_sample_rate: Option<u32>,
}

impl Default for EncoderSettings {
    fn default() -> (s: Self)
        ensures
            s == (EncoderSettings {
                frame_rate: None,
                time_base: None,
                pixel_format: None,
                audio_sample_rate: None,
            }),
    {
        EncoderSettings {
            frame_rate: None,
            time_base: None,
            pixel_format: None,
            audio_sample_rate: None,
        }
    }
}

proof fn lemma_i32_product_bounds(a: int, b: int)
    by (nonlinear_arith)
    requires
        -0x8000_0000 <= a <= 0x7fff_ffff,
        -0x8000_0000 <= b <= 0x7fff_ffff,
    ensures
        -0x4000_0000_0000_0000 <= a * b <= 0x4000_0000_0000_0000,
{
}

/// `over` where present, else `base`.
pub open spec fn overlay<T>(base: T, over: Option<T>) -> T {
    match over {
        Some(v) => v,
        None => base,
    }
}

impl ConcreteEncoderSettings {
    /// Frame rate and time base are positive rationals.
    pub open spec fn valid(&self) -> bool {
        self.frame_rate.positive() && self.time_base.positive()
    }

    /// Whether frame rate and time base are positive rationals.
    pub fn is_valid(&self) -> (b: bool)
        ensures
            b == self.valid(),
    {
        self.frame_rate.is_positive() && self.time_base.is_positive()
    }

    /// The settings with every override that `settings` holds laid over them.
    /// Whether audio is enabled is not open to override.
    pub open spec fn spec_update(self, settings: EncoderSettings) -> ConcreteEncoderSettings {
        ConcreteEncoderSettings {
            frame_rate: overlay(self.frame_rate, settings.frame_rate),
            time_base: overlay(self.time_base, settings.time_base),
            pixel_format: overlay(self.pixel_format, settings.pixel_format),
            audio_sample_rate: overlay(self.audio_sample_rate, settings.audio_sample_rate),
            audio_enabled: self.audio_enabled,
        }
    }

    /// The settings with every override that `settings` holds laid over them.
    /// Whether audio is enabled is not open to override.
    pub fn update(self, settings: EncoderSettings) -> (out: Self)
        ensures
            out == self.spec_update(settings),
    {
        let mut out = self;
        if let Some(frame_rate) = settings.frame_rate {
            out.frame_rate = frame_rate;
        }
        if let Some(time_base) = settings.time_base {
            out.time_base = time_base;
        }
        if let Some(pixel_format) = settings.pixel_format {
            out.pixel_format = pixel_format;
        }
        if let Some(audio_sample_rate) = settings.audio_sample_rate {
            out.audio_sample_rate = audio_sample_rate;
        }
        out
    }

    /// The number of frames that last `pts_multiplier()` ticks: the ratio of
    /// the two is the duration of one frame in ticks.
    pub open spec fn pts_divisor(&self) -> int {
        self.frame_rate.0 * self.time_base.0
    }

    /// The number of ticks that `pts_divisor()` frames last.
    pub open spec fn pts_multiplier(&self) -> int {
        self.frame_rate.1 * self.time_base.1
    }

    /// The timestamp of frame `index` under these settings, before it is
    /// limited to `i64`: `index / frame_rate / time_base`, rounded to the
    /// nearest tick.
    pub open spec fn spec_pts(&self, index: int) -> int {
        pts_of(index, self.pts_divisor(), self.pts_multiplier())
    }

    /// The presentation timestamp of frame `index`, in ticks of the time base.
    pub fn pts(&self, index: i64) -> (pts: i64)
        requires
            self.valid(),
        ensures
            pts == clamp_i64(self.spec_pts(index as int)),
    {
        proof {
            lemma_i32_product_bounds(self.frame_rate.0 as int, self.time_base.0 as int);
            lemma_i32_product_bounds(self.frame_rate.1 as int, self.time_base.1 as int);
        }
        let divisor: i64 = (self.frame_rate.0 as i64) * (self.time_base.0 as i64);
        let multiplier: i64 = (self.frame_rate.1 as i64) * (self.time_base.1 as i64);
        assert(divisor > 0) by (nonlinear_arith)
            requires
                divisor == self.frame_rate.0 * self.time_base.0,
                self.frame_rate.0 > 0,
                self.time_base.0 > 0,
        ;
        frame_to_pts(index, divisor, multiplier)
    }
}

/// Timestamps under fixed settings strictly increase with the frame index,
/// provided a frame lasts at least one tick; and frame zero is stamped zero.
pub proof fn lemma_settings_pts_increasing(settings: ConcreteEncoderSettings, i: int, j: int)
    requires
        settings.valid(),
        settings.pts_divisor() <= settings.pts_multiplier(),
        0 <= i < j,
    ensures
        settings.spec_pts(0) == 0,
        settings.spec_pts(i) < settings.spec_pts(j),
{
    let divisor = settings.pts_divisor();
    assert(divisor > 0) by (nonlinear_arith)
        requires
            divisor == settings.frame_rate.0 * settings.time_base.0,
            settings.frame_rate.0 > 0,
            settings.time_base.0 > 0,
    ;
    lemma_pts_origin(divisor, settings.pts_multiplier());
    lemma_pts_strictly_increasing(i, j, divisor, settings.pts_multiplier());
}

} // verus!
