//! Dynamic description of the sample representation of audio data, and its
//! relation to the linear PCM flag word of a stream description.

use vstd::prelude::*;
use crate::audio_format::{LinearPcmFlags, IS_FLOAT, IS_NON_INTERLEAVED, IS_PACKED, IS_SIGNED_INTEGER};

verus! {

/// Dynamic representation of audio data sample format.
#[derive(Copy, Clone, Debug, PartialEq, Eq, Structural)]
pub enum SampleFormat {
    F32,
    I32,
    I16,
    I8,
}

impl SampleFormat {
    /// True when `flags` describes data of this sample format: float formats
    /// need the float bit and not the signed-integer bit, integer formats the
    /// other way round.
    pub open spec fn spec_matches_flags(self, flags: LinearPcmFlags) -> bool {
        match self {
            SampleFormat::F32 => flags.spec_contains(IS_FLOAT) && !flags.spec_contains(
                IS_SIGNED_INTEGER,
            ),
            SampleFormat::I32 | SampleFormat::I16 | SampleFormat::I8 => flags.spec_contains(
                IS_SIGNED_INTEGER,
            ) && !flags.spec_contains(IS_FLOAT),
        }
    }

    /// Whether `flags` describes data of this sample format.
    pub fn does_match_flags(&self, flags: LinearPcmFlags) -> (r: bool)
        ensures
            r == self.spec_matches_flags(flags),
    {
        let is_float = flags.contains(IS_FLOAT);
        let is_signed_integer = flags.contains(IS_SIGNED_INTEGER);
        match *self {
            SampleFormat::F32 => is_float && !is_signed_integer,
            SampleFormat::I32 | SampleFormat::I16 | SampleFormat::I8 => is_signed_integer
                && !is_float,
        }
    }

    /// The format that `from_flags_and_bytes_per_frame` reads out of a stream
    /// description: float data regardless of width, otherwise the signed
    /// integer width that fills one single-channel frame, if there is one.
    pub open spec fn spec_from_flags_and_bytes_per_frame(
        flags: LinearPcmFlags,
        bytes_per_frame: u32,
    ) -> Option<SampleFormat> {
        if flags.spec_contains(IS_FLOAT) {
            Some(SampleFormat::F32)
        } else if bytes_per_frame == 1 {
            Some(SampleFormat::I8)
        } else if bytes_per_frame == 2 {
            Some(SampleFormat::I16)
        } else if bytes_per_frame == 4 {
            Some(SampleFormat::I32)
        } else {
            None
        }
    }

    /// Historical way of reading the sample format from a stream description.
    /// Prefer `from_flags_and_bits_per_channel`: with more than one channel in
    /// a frame, the sample width cannot be told from the frame width alone.
    pub fn from_flags_and_bytes_per_frame(flags: LinearPcmFlags, bytes_per_frame: u32) -> (r:
        Option<Self>)
        ensures
            r == Self::spec_from_flags_and_bytes_per_frame(flags, bytes_per_frame),
    {
        Some(
            if flags.contains(IS_FLOAT) {
                SampleFormat::F32
            } else {
                match bytes_per_frame {
                    1 => SampleFormat::I8,
                    2 => SampleFormat::I16,
                    4 => SampleFormat::I32,
                    _ => return None,
                }
            },
        )
    }

    /// The format that `from_flags_and_bits_per_channel` reads out of a stream
    /// description: float data regardless of width; otherwise signed-integer
    /// data of the stated width; unsigned-integer data is not supported.
    pub open spec fn spec_from_flags_and_bits_per_channel(
        flags: LinearPcmFlags,
        bits_per_channel: u32,
    ) -> Option<SampleFormat> {
        if flags.spec_contains(IS_FLOAT) {
            Some(SampleFormat::F32)
        } else if flags.spec_contains(IS_SIGNED_INTEGER) {
            if bits_per_channel == 8 {
                Some(SampleFormat::I8)
            } else if bits_per_channel == 16 {
                Some(SampleFormat::I16)
            } else if bits_per_channel == 32 {
                Some(SampleFormat::I32)
            } else {
                None
            }
        } else {
            None
        }
    }

    /// Reads the sample format from the flag word and the per-channel sample
    /// width of a stream description.
    pub fn from_flags_and_bits_per_channel(flags: LinearPcmFlags, bits_per_channel: u32) -> (r:
        Option<Self>)
        ensures
            r == Self::spec_from_flags_and_bits_per_channel(flags, bits_per_channel),
    {
        Some(
            if flags.contains(IS_FLOAT) {
                SampleFormat::F32
            } else if flags.contains(IS_SIGNED_INTEGER) {
                // bits_per_channel is the same value whether or not the
                // samples are packed.
                match bits_per_channel {
                    8 => SampleFormat::I8,
                    16 => SampleFormat::I16,
                    32 => SampleFormat::I32,
                    _ => return None,
                }
            } else {
                return None;
            },
        )
    }

    /// The width in bytes of one raw sample of this format.
    pub open spec fn spec_size_in_bytes(self) -> usize {
        match self {
            SampleFormat::F32 => 4,
            SampleFormat::I32 => 4,
            SampleFormat::I16 => 2,
            SampleFormat::I8 => 1,
        }
    }

    /// The width in bytes of one raw sample of this format.
    pub fn size_in_bytes(&self) -> (r: usize)
        ensures
            r == self.spec_size_in_bytes(),
    {
        match *self {
            SampleFormat::F32 => 4,
            SampleFormat::I32 => 4,
            SampleFormat::I16 => 2,
            SampleFormat::I8 => 1,
        }
    }
}

/// The flag word of a packed linear PCM stream carrying this sample format in
/// the given layout.
pub open spec fn spec_compute_flags(sample_format: SampleFormat, interleaved: bool) -> u32 {
    (IS_PACKED | (match sample_format {
        SampleFormat::F32 => IS_FLOAT,
        SampleFormat::I32 | SampleFormat::I16 | SampleFormat::I8 => IS_SIGNED_INTEGER,
    })) | (if interleaved {
        0u32
    } else {
        IS_NON_INTERLEAVED
    })
}

/// Builds the flag word of a packed stream carrying `sample_format`, planar or
/// interleaved as `interleaved` says. The result always describes data of
/// `sample_format` in the sense of `does_match_flags`.
pub fn compute_flags(sample_format: SampleFormat, interleaved: bool) -> (r: LinearPcmFlags)
    ensures
        r.bits == spec_compute_flags(sample_format, interleaved),
        sample_format.spec_matches_flags(r),
        r.spec_contains(IS_NON_INTERLEAVED) == !interleaved,
        r.spec_contains(IS_PACKED),
{
    let mut out = LinearPcmFlags::from_bits(IS_PACKED);
    out = out.union(
        match sample_format {
            SampleFormat::F32 => IS_FLOAT,
            SampleFormat::I32 | SampleFormat::I16 | SampleFormat::I8 => IS_SIGNED_INTEGER,
        },
    );
    if !interleaved {
        out = out.union(IS_NON_INTERLEAVED);
    }
    proof {
        lemma_compute_flags_bits();
    }
    out
}

/// The concrete bit facts behind `compute_flags`: which masks each of the four
/// possible flag words contains.
proof fn lemma_compute_flags_bits()
    ensures
        forall|b: u32, m: u32| (b | m) & m == m,
        forall|b: u32| b | 0u32 == b,
        (0x8u32 | 0x1u32) & 0x4u32 != 0x4u32,
        (0x8u32 | 0x4u32) & 0x1u32 != 0x1u32,
        ((0x8u32 | 0x1u32) | 0x20u32) & 0x4u32 != 0x4u32,
        ((0x8u32 | 0x4u32) | 0x20u32) & 0x1u32 != 0x1u32,
        ((0x8u32 | 0x1u32) | 0x20u32) & 0x1u32 == 0x1u32,
        ((0x8u32 | 0x4u32) | 0x20u32) & 0x4u32 == 0x4u32,
        (0x8u32 | 0x1u32) & 0x20u32 != 0x20u32,
        (0x8u32 | 0x4u32) & 0x20u32 != 0x20u32,
        forall|b: u32| (b | 0x20u32) & 0x20u32 == 0x20u32,
        (0x8u32 | 0x1u32) & 0x8u32 == 0x8u32,
        (0x8u32 | 0x4u32) & 0x8u32 == 0x8u32,
        ((0x8u32 | 0x1u32) | 0x20u32) & 0x8u32 == 0x8u32,
        ((0x8u32 | 0x4u32) | 0x20u32) & 0x8u32 == 0x8u32,
{
    assert(forall|b: u32, m: u32| #[trigger] ((b | m) & m) == m) by (bit_vector);
    assert(forall|b: u32| #[trigger] (b | 0u32) == b) by (bit_vector);
    assert((0x8u32 | 0x1u32) & 0x4u32 != 0x4u32) by (bit_vector);
    assert((0x8u32 | 0x4u32) & 0x1u32 != 0x1u32) by (bit_vector);
    assert(((0x8u32 | 0x1u32) | 0x20u32) & 0x4u32 != 0x4u32) by (bit_vector);
    assert(((0x8u32 | 0x4u32) | 0x20u32) & 0x1u32 != 0x1u32) by (bit_vector);
    assert(((0x8u32 | 0x1u32) | 0x20u32) & 0x1u32 == 0x1u32) by (bit_vector);
    assert(((0x8u32 | 0x4u32) | 0x20u32) & 0x4u32 == 0x4u32) by (bit_vector);
    assert((0x8u32 | 0x1u32) & 0x20u32 != 0x20u32) by (bit_vector);
    assert((0x8u32 | 0x4u32) & 0x20u32 != 0x20u32) by (bit_vector);
    assert(forall|b: u32| #[trigger] ((b | 0x20u32) & 0x20u32) == 0x20u32) by (bit_vector);
    assert((0x8u32 | 0x1u32) & 0x8u32 == 0x8u32) by (bit_vector);
    assert((0x8u32 | 0x4u32) & 0x8u32 == 0x8u32) by (bit_vector);
    assert(((0x8u32 | 0x1u32) | 0x20u32) & 0x8u32 == 0x8u32) by (bit_vector);
    assert(((0x8u32 | 0x4u32) | 0x20u32) & 0x8u32 == 0x8u32) by (bit_vector);
}

/// Audio data sample types.
pub trait Sample {
    /// The dynamic representation of this sample type, as a specification
    /// value.
    spec fn spec_sample_format() -> SampleFormat;

    /// Dynamic representation of audio data sample format.
    fn sample_format() -> (r: SampleFormat)
        ensures
            r == Self::spec_sample_format(),
    ;
}

impl Sample for i32 {
    open spec fn spec_sample_format() -> SampleFormat {
        SampleFormat::I32
    }

    fn sample_format() -> (r: SampleFormat) {
        SampleFormat::I32
    }
}

impl Sample for i16 {
    open spec fn spec_sample_format() -> SampleFormat {
        SampleFormat::I16
    }

    fn sample_format() -> (r: SampleFormat) {
        SampleFormat::I16
    }
}

impl Sample for i8 {
    open spec fn spec_sample_format() -> SampleFormat {
        SampleFormat::I8
    }

    fn sample_format() -> (r: SampleFormat) {
        SampleFormat::I8
    }
}

} // verus!
