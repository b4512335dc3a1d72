//! How samples are laid down when audio is written as uncompressed WAV.

use vstd::prelude::*;

verus! {

/// Sample format for writing audio.
#[derive(Debug, Clone, Copy, Default, PartialEq, Eq, Structural)]
pub enum WriteSampleFormat {
    /// 16-bit integer samples.
    #[default]
    Int16,
    /// 32-bit float samples.
    Float32,
}

/// Configuration for writing audio to WAV files.
#[derive(Debug, Clone, Copy, Default)]
pub struct AudioWriteConfig {
    /// Sample format to use when writing.
    pub sample_format: WriteSampleFormat,
}

/// The format of a WAV file: what its header states of the samples.
#[derive(Debug, Clone, Copy, PartialEq, Eq, Structural)]
pub struct WavLayout {
    /// The number of channels in each frame.
    pub channels: u16,
    /// Frames per second.
    pub sample_rate: u32,
    /// The size of one sample in bits.
    pub bits_per_sample: u16,
    /// Whether the samples are floating-point numbers, not integers.
    pub float_samples: bool,
}

impl WriteSampleFormat {
    /// The size in bits of a sample in this format.
    pub open spec fn spec_bits_per_sample(self) -> u16 {
        match self {
            WriteSampleFormat::Int16 => 16,
            WriteSampleFormat::Float32 => 32,
        }
    }

    /// The size in bits of a sample in this format.
    #[verifier::when_used_as_spec(spec_bits_per_sample)]
    pub fn bits_per_sample(self) -> (bits: u16)
        ensures
            bits == self.spec_bits_per_sample(),
    {
        match self {
            WriteSampleFormat::Int16 => 16,
            WriteSampleFormat::Float32 => 32,
        }
    }

    /// Whether samples in this format are floating-point numbers.
    pub open spec fn spec_is_float(self) -> bool {
        self == WriteSampleFormat::Float32
    }

    /// Whether samples in this format are floating-point numbers.
    #[verifier::when_used_as_spec(spec_is_float)]
    pub fn is_float(self) -> (float: bool)
        ensures
            float == self.spec_is_float(),
    {
        match self {
            WriteSampleFormat::Int16 => false,
            WriteSampleFormat::Float32 => true,
        }
    }
}

/// The format of the file that holds `channels` channels at `sample_rate`
/// frames per second, written as `config` asks.
pub fn wav_layout(channels: u16, sample_rate: u32, config: &AudioWriteConfig) -> (layout: WavLayout)
    ensures
        layout == (WavLayout {
            channels,
            sample_rate,
            bits_per_sample: config.sample_format.bits_per_sample(),
            float_samples: config.sample_format.is_float(),
        }),
{
    WavLayout {
        channels,
        sample_rate,
        bits_per_sample: config.sample_format.bits_per_sample(),
        float_samples: config.sample_format.is_float(),
    }
}

} // verus!
