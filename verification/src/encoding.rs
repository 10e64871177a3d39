//! H.264 encoder settings for exported video.

use crate::export::ExportError;
use crate::text::str_eq;
use crate::time::Rational;
use vstd::prelude::*;

verus! {

/// libx264's `-preset` values, fastest first.
#[derive(Clone, Copy, Debug, Default, PartialEq, Eq, Structural)]
pub enum EncoderPreset {
    Ultrafast,
    Superfast,
    Veryfast,
    Faster,
    Fast,
    #[default]
    Medium,
    Slow,
    Slower,
    Veryslow,
}

/// A name that is not one of the encoder presets.
#[derive(Clone, Debug, PartialEq, Eq)]
pub struct UnknownEncoderPreset(pub String);

impl EncoderPreset {
    pub const ALL: [EncoderPreset; 9] = [
        EncoderPreset::Ultrafast,
        EncoderPreset::Superfast,
        EncoderPreset::Veryfast,
        EncoderPreset::Faster,
        EncoderPreset::Fast,
        EncoderPreset::Medium,
        EncoderPreset::Slow,
        EncoderPreset::Slower,
        EncoderPreset::Veryslow,
    ];

    /// The name libx264 (and `ffmpeg -preset`) uses.
    pub open spec fn name(self) -> Seq<char> {
        match self {
            EncoderPreset::Ultrafast => "ultrafast"@,
            EncoderPreset::Superfast => "superfast"@,
            EncoderPreset::Veryfast => "veryfast"@,
            EncoderPreset::Faster => "faster"@,
            EncoderPreset::Fast => "fast"@,
            EncoderPreset::Medium => "medium"@,
            EncoderPreset::Slow => "slow"@,
            EncoderPreset::Slower => "slower"@,
            EncoderPreset::Veryslow => "veryslow"@,
        }
    }

    /// No two presets share a name.
    pub proof fn lemma_names_distinct(a: EncoderPreset, b: EncoderPreset)
        ensures
            a.name() == b.name() ==> a == b,
    {
        reveal_strlit("ultrafast");
        reveal_strlit("superfast");
        reveal_strlit("veryfast");
        reveal_strlit("faster");
        reveal_strlit("fast");
        reveal_strlit("medium");
        reveal_strlit("slow");
        reveal_strlit("slower");
        reveal_strlit("veryslow");
        if a.name() == b.name() {
            assert(a.name()[0] == b.name()[0]);
            if a.name().len() > 4 {
                assert(a.name()[4] == b.name()[4]);
            }
        }
    }

    /// The name libx264 (and `ffmpeg -preset`) uses.
    pub fn as_str(self) -> (s: &'static str)
        ensures
            s@ == self.name(),
    {
        match self {
            EncoderPreset::Ultrafast => "ultrafast",
            EncoderPreset::Superfast => "superfast",
            EncoderPreset::Veryfast => "veryfast",
            EncoderPreset::Faster => "faster",
            EncoderPreset::Fast => "fast",
            EncoderPreset::Medium => "medium",
            EncoderPreset::Slow => "slow",
            EncoderPreset::Slower => "slower",
            EncoderPreset::Veryslow => "veryslow",
        }
    }

    /// The preset whose name is exactly `name`.
    pub fn from_name(name: &str) -> (r: Result<Self, UnknownEncoderPreset>)
        ensures
            match r {
                Ok(preset) => preset.name() == name@,
                Err(unknown) => unknown.0@ == name@ && forall|preset: EncoderPreset|
                    #[trigger] preset.name() != name@,
            },
    {
        let mut i: usize = 0;
        while i < 9
            invariant
                i <= 9,
                forall|j: int| 0 <= j < i ==> (#[trigger] Self::ALL@[j]).name() != name@,
            decreases 9 - i,
        {
            let preset = Self::ALL[i];
            if str_eq(preset.as_str(), name) {
                return Ok(preset);
            }
            i = i + 1;
        }
        assert forall|preset: EncoderPreset| #[trigger] preset.name() != name@ by {
            match preset {
                EncoderPreset::Ultrafast => assert(Self::ALL@[0] == preset),
                EncoderPreset::Superfast => assert(Self::ALL@[1] == preset),
                EncoderPreset::Veryfast => assert(Self::ALL@[2] == preset),
                EncoderPreset::Faster => assert(Self::ALL@[3] == preset),
                EncoderPreset::Fast => assert(Self::ALL@[4] == preset),
                EncoderPreset::Medium => assert(Self::ALL@[5] == preset),
                EncoderPreset::Slow => assert(Self::ALL@[6] == preset),
                EncoderPreset::Slower => assert(Self::ALL@[7] == preset),
                EncoderPreset::Veryslow => assert(Self::ALL@[8] == preset),
            }
        }
        Err(UnknownEncoderPreset(name.to_owned()))
    }
}

impl std::str::FromStr for EncoderPreset {
    type Err = UnknownEncoderPreset;

    /// The preset named `name` (see [`EncoderPreset::from_name`]).
    fn from_str(name: &str) -> (r: Result<Self, Self::Err>)
        ensures
            match r {
                Ok(preset) => preset.name() == name@,
                Err(unknown) => unknown.0@ == name@ && forall|preset: EncoderPreset|
                    #[trigger] preset.name() != name@,
            },
    {
        Self::from_name(name)
    }
}

/// Where rendered RGBA frames are converted to yuv420p for the encoder.
#[derive(Clone, Copy, Debug, Default, PartialEq, Eq, Structural)]
pub enum ColorConversion {
    /// On the GPU when it is a hardware GPU that supports it, otherwise in
    /// the encoder.
    #[default]
    Auto,
    /// Always on the GPU; the export fails if the GPU cannot.
    Gpu,
    /// Always in the encoder, reading RGBA back.
    Encoder,
}

/// A name that is not one of the color conversions.
#[derive(Clone, Debug, PartialEq, Eq)]
pub struct UnknownColorConversion(pub String);

impl ColorConversion {
    pub const ALL: [ColorConversion; 3] = [
        ColorConversion::Auto,
        ColorConversion::Gpu,
        ColorConversion::Encoder,
    ];

    pub open spec fn name(self) -> Seq<char> {
        match self {
            ColorConversion::Auto => "auto"@,
            ColorConversion::Gpu => "gpu"@,
            ColorConversion::Encoder => "encoder"@,
        }
    }

    /// No two conversions share a name.
    pub proof fn lemma_names_distinct(a: ColorConversion, b: ColorConversion)
        ensures
            a.name() == b.name() ==> a == b,
    {
        reveal_strlit("auto");
        reveal_strlit("gpu");
        reveal_strlit("encoder");
        if a.name() == b.name() {
            assert(a.name().len() == b.name().len());
        }
    }

    pub fn as_str(self) -> (s: &'static str)
        ensures
            s@ == self.name(),
    {
        match self {
            ColorConversion::Auto => "auto",
            ColorConversion::Gpu => "gpu",
            ColorConversion::Encoder => "encoder",
        }
    }

    /// The conversion whose name is exactly `name`.
    pub fn from_name(name: &str) -> (r: Result<Self, UnknownColorConversion>)
        ensures
            match r {
                Ok(conversion) => conversion.name() == name@,
                Err(unknown) => unknown.0@ == name@ && forall|conversion: ColorConversion|
                    #[trigger] conversion.name() != name@,
            },
    {
        let mut i: usize = 0;
        while i < 3
            invariant
                i <= 3,
                forall|j: int| 0 <= j < i ==> (#[trigger] Self::ALL@[j]).name() != name@,
            decreases 3 - i,
        {
            let conversion = Self::ALL[i];
            if str_eq(conversion.as_str(), name) {
                return Ok(conversion);
            }
            i = i + 1;
        }
        assert forall|conversion: ColorConversion| #[trigger] conversion.name() != name@ by {
            match conversion {
                ColorConversion::Auto => assert(Self::ALL@[0] == conversion),
                ColorConversion::Gpu => assert(Self::ALL@[1] == conversion),
                ColorConversion::Encoder => assert(Self::ALL@[2] == conversion),
            }
        }
        Err(UnknownColorConversion(name.to_owned()))
    }
}

impl std::str::FromStr for ColorConversion {
    type Err = UnknownColorConversion;

    /// The conversion named `name` (see [`ColorConversion::from_name`]).
    fn from_str(name: &str) -> (r: Result<Self, Self::Err>)
        ensures
            match r {
                Ok(conversion) => conversion.name() == name@,
                Err(unknown) => unknown.0@ == name@ && forall|conversion: ColorConversion|
                    #[trigger] conversion.name() != name@,
            },
    {
        Self::from_name(name)
    }
}

/// Settings for the exported H.264 video stream.
#[derive(Clone, Copy, Debug, PartialEq, Eq, Structural)]
pub struct VideoEncoding {
    /// Speed/compression trade-off.
    pub preset: EncoderPreset,
    /// Constant rate factor, `0..=51`; lower is higher quality and larger.
    pub crf: u8,
    /// Where the rendered RGBA frames become the encoder's yuv420p.
    pub color_conversion: ColorConversion,
}

impl VideoEncoding {
    /// Highest CRF libx264 accepts for 8-bit output.
    pub const MAX_CRF: u8 = 51;
}

impl Default for VideoEncoding {
    fn default() -> (r: Self)
        ensures
            r == (VideoEncoding {
                preset: EncoderPreset::Medium,
                crf: 18,
                color_conversion: ColorConversion::Auto,
            }),
    {
        VideoEncoding {
            preset: EncoderPreset::Medium,
            crf: 18,
            color_conversion: ColorConversion::Auto,
        }
    }
}

/// Refuses a CRF above [`VideoEncoding::MAX_CRF`] before anything is encoded.
pub fn check_crf(encoding: VideoEncoding) -> (r: Result<(), ExportError>)
    ensures
        r == (if encoding.crf > 51 {
            Err(ExportError::InvalidCrf(encoding.crf))
        } else {
            Ok(())
        }),
{
    if encoding.crf > VideoEncoding::MAX_CRF {
        return Err(ExportError::InvalidCrf(encoding.crf));
    }
    Ok(())
}

/// The frame rate as the encoder's `(numerator, denominator)` pair of `i32`.
pub fn encoder_frame_rate(frame_rate: Rational) -> (r: Result<(i32, i32), ExportError>)
    ensures
        r == (if frame_rate.numerator > i32::MAX || frame_rate.denominator > i32::MAX {
            Err(ExportError::TimelineTooLong)
        } else {
            Ok((frame_rate.numerator as i32, frame_rate.denominator as i32))
        }),
{
    if frame_rate.numerator > i32::MAX as u32 || frame_rate.denominator > i32::MAX as u32 {
        return Err(ExportError::TimelineTooLong);
    }
    Ok((frame_rate.numerator as i32, frame_rate.denominator as i32))
}

} // verus!
